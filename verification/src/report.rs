use vstd::prelude::*;

use crate::error::{Error, displays_as};
use crate::testing::{CompileResult, ReportResult, TestResult, TestResultData, kind_of, kind_word,
    rev_dep_label};
use crate::text::{bytes_lt, html_escape, html_unescape, lemma_bytes_lt_irreflexive,
    lemma_bytes_lt_total, lemma_bytes_lt_transitive, lemma_html_escape_no_angle_brackets,
    lemma_html_escape_undone, link_name, sanitize, str_lt, u64_to_string, decimal};
use crate::version::version_text;
use vstd::utf8::encode_utf8;

verus! {

/// How many results there were of each kind.
pub struct Summary {
    pub broken: usize,
    pub regressed: usize,
    pub passed: usize,
    pub error: usize,
}

impl Default for Summary {
    fn default() -> (s: Summary)
        ensures
            s.broken == 0 && s.regressed == 0 && s.passed == 0 && s.error == 0,
    {
        Summary { broken: 0, regressed: 0, passed: 0, error: 0 }
    }
}

/// How many of the results are of the given kind.
pub open spec fn count_kind(rs: Seq<TestResult>, k: ReportResult) -> nat
    decreases rs.len(),
{
    if rs.len() == 0 {
        0
    } else {
        count_kind(rs.drop_last(), k) + if kind_of(rs.last().data) == k {
            1nat
        } else {
            0nat
        }
    }
}

/// Law: every result is of exactly one kind, so the four counts add up to the
/// number of results.
pub proof fn lemma_counts_add_up(rs: Seq<TestResult>)
    ensures
        count_kind(rs, ReportResult::Passed) + count_kind(rs, ReportResult::Regressed) + count_kind(
            rs,
            ReportResult::Broken,
        ) + count_kind(rs, ReportResult::Error) == rs.len(),
    decreases rs.len(),
{
    if rs.len() > 0 {
        lemma_counts_add_up(rs.drop_last());
    }
}

/// Counts the results of each kind.
pub fn summarize_results(results: &[TestResult]) -> (sum: Summary)
    ensures
        sum.passed == count_kind(results@, ReportResult::Passed),
        sum.regressed == count_kind(results@, ReportResult::Regressed),
        sum.broken == count_kind(results@, ReportResult::Broken),
        sum.error == count_kind(results@, ReportResult::Error),
{
    let mut sum = Summary::default();
    let mut i: usize = 0;
    while i < results.len()
        invariant
            i <= results@.len(),
            sum.passed == count_kind(results@.take(i as int), ReportResult::Passed),
            sum.regressed == count_kind(results@.take(i as int), ReportResult::Regressed),
            sum.broken == count_kind(results@.take(i as int), ReportResult::Broken),
            sum.error == count_kind(results@.take(i as int), ReportResult::Error),
        decreases results@.len() - i,
    {
        proof {
            lemma_counts_add_up(results@.take(i as int));
            assert(results@.take(i + 1).drop_last() =~= results@.take(i as int));
        }
        match results[i].data {
            TestResultData::Broken(..) => sum.broken = sum.broken + 1,
            TestResultData::Regressed(..) => sum.regressed = sum.regressed + 1,
            TestResultData::Passed(..) => sum.passed = sum.passed + 1,
            TestResultData::Error(..) => sum.error = sum.error + 1,
        }
        i = i + 1;
    }
    assert(results@.take(results@.len() as int) =~= results@);
    sum
}

impl Summary {
    /// The status the program exits with after a successful run: -2 when any
    /// reverse dependency regressed, none (a normal exit) otherwise.
    pub fn exit_code(&self) -> (c: Option<i32>)
        ensures
            self.regressed > 0 ==> c == Some(-2i32),
            self.regressed == 0 ==> c is None,
    {
        if self.regressed > 0 {
            Some(-2)
        } else {
            None
        }
    }
}

/// The status line that announces one result as it arrives, before its kind is
/// printed: `result 3 of 10, foo 1.2.3: `.
pub fn quick_result_prefix(current_num: usize, total: usize, result: &TestResult) -> (s: String)
    ensures
        s@ == "result "@ + decimal(current_num as nat) + " of "@ + decimal(total as nat) + ", "@
            + result.rev_dep.name@ + " "@ + version_text(result.rev_dep.vers) + ": "@,
{
    let mut s = String::from_str("result ");
    let n = u64_to_string(current_num as u64);
    s.append(n.as_str());
    s.append(" of ");
    let t = u64_to_string(total as u64);
    s.append(t.as_str());
    s.append(", ");
    s.append(result.rev_dep.name.as_str());
    s.append(" ");
    let v = result.rev_dep.vers.to_string();
    s.append(v.as_str());
    s.append(": ");
    s
}

/// The UTF-8 bytes of the name of the `i`-th result.
pub open spec fn name_bytes(rs: Seq<TestResult>, i: int) -> Seq<u8> {
    encode_utf8(rs[i].rev_dep.name@)
}

/// Whether the `i`-th result comes before the `j`-th one in the report: by name,
/// and among equal names by their place in the list.
pub open spec fn ranks_before(rs: Seq<TestResult>, i: int, j: int) -> bool {
    bytes_lt(name_bytes(rs, i), name_bytes(rs, j)) || (name_bytes(rs, i) == name_bytes(rs, j) && i
        < j)
}

/// Whether `order` lists every result once, sorted by name, results of equal name
/// in their original order (a stable sort by name).
pub open spec fn is_name_order(rs: Seq<TestResult>, order: Seq<usize>) -> bool {
    &&& order.len() == rs.len()
    &&& forall|k: int| 0 <= k < order.len() ==> #[trigger] order[k] < rs.len()
    &&& forall|x: int| 0 <= x < rs.len() ==> #[trigger] order.contains(x as usize)
    &&& forall|a: int, b: int|
        0 <= a < b < order.len() ==> ranks_before(rs, #[trigger] order[a] as int, #[trigger] order[b] as int)
}

proof fn lemma_ranks_before_strict(rs: Seq<TestResult>, i: int, j: int)
    ensures
        !ranks_before(rs, i, i),
        ranks_before(rs, i, j) ==> !ranks_before(rs, j, i),
{
    lemma_bytes_lt_irreflexive(name_bytes(rs, i));
    if bytes_lt(name_bytes(rs, i), name_bytes(rs, j)) && bytes_lt(name_bytes(rs, j), name_bytes(rs, i)) {
        lemma_bytes_lt_transitive(name_bytes(rs, i), name_bytes(rs, j), name_bytes(rs, i));
    }
    if name_bytes(rs, i) == name_bytes(rs, j) {
        lemma_bytes_lt_irreflexive(name_bytes(rs, j));
    }
}

/// Law: the report's order of the results is determined: two orders that both
/// list every result once, sorted by name and stably, are the same.
pub proof fn lemma_name_order_unique(rs: Seq<TestResult>, o1: Seq<usize>, o2: Seq<usize>)
    requires
        is_name_order(rs, o1),
        is_name_order(rs, o2),
    ensures
        o1 == o2,
{
    assert forall|k: int| 0 <= k < o1.len() implies o1[k] == o2[k] by {
        lemma_name_order_prefix(rs, o1, o2, k);
    }
    assert(o1 =~= o2);
}

proof fn lemma_name_order_prefix(rs: Seq<TestResult>, o1: Seq<usize>, o2: Seq<usize>, k: int)
    requires
        is_name_order(rs, o1),
        is_name_order(rs, o2),
        0 <= k < o1.len(),
    ensures
        forall|j: int| 0 <= j <= k ==> o1[j] == o2[j],
    decreases k,
{
    if k > 0 {
        lemma_name_order_prefix(rs, o1, o2, k - 1);
    }
    let x = o1[k];
    let y = o2[k];
    let xi: int = x as int;
    let yi: int = y as int;
    assert(o2.contains(xi as usize));
    assert(o1.contains(yi as usize));
    let m = choose|m: int| 0 <= m < o2.len() && o2[m] == x;
    let n = choose|n: int| 0 <= n < o1.len() && o1[n] == y;
    lemma_ranks_before_strict(rs, x as int, y as int);
    if m < k {
        assert(o1[m] == o2[m]);
        assert(ranks_before(rs, o1[m] as int, o1[k] as int));
        lemma_ranks_before_strict(rs, x as int, x as int);
    }
    if n < k {
        assert(o1[n] == o2[n]);
        assert(ranks_before(rs, o2[n] as int, o2[k] as int));
        lemma_ranks_before_strict(rs, y as int, y as int);
    }
    if m > k && n > k {
        assert(ranks_before(rs, o2[k] as int, o2[m] as int));
        assert(ranks_before(rs, o1[k] as int, o1[n] as int));
    }
}

/// The order in which the report lists the results: sorted by name, stably.
pub fn name_order(results: &Vec<TestResult>) -> (order: Vec<usize>)
    ensures
        is_name_order(results@, order@),
{
    let ghost rs = results@;
    let mut order: Vec<usize> = Vec::new();
    let mut i: usize = 0;
    while i < results.len()
        invariant
            rs == results@,
            i <= rs.len(),
            order@.len() == i,
            forall|k: int| 0 <= k < order@.len() ==> #[trigger] order@[k] < i,
            forall|x: int| 0 <= x < i ==> #[trigger] order@.contains(x as usize),
            forall|a: int, b: int|
                0 <= a < b < order@.len() ==> ranks_before(rs, #[trigger] order@[a] as int, #[trigger] order@[b] as int),
        decreases rs.len() - i,
    {
        let mut p: usize = 0;
        while p < order.len() && !str_lt(results[i].rev_dep.name.as_str(), results[order[p]].rev_dep.name.as_str())
            invariant
                rs == results@,
                i < rs.len(),
                p <= order@.len(),
                forall|k: int| 0 <= k < order@.len() ==> #[trigger] order@[k] < i,
                forall|q: int| 0 <= q < p ==> !bytes_lt(name_bytes(rs, i as int), #[trigger] name_bytes(rs, order@[q] as int)),
            decreases order@.len() - p,
        {
            p = p + 1;
        }
        let ghost old_order = order@;
        order.insert(p, i);
        proof {
            assert forall|x: int| 0 <= x < i + 1 implies #[trigger] order@.contains(x as usize) by {
                if x == i {
                    assert(order@[p as int] == i);
                } else {
                    assert(old_order.contains(x as usize));
                    let k = choose|k: int| 0 <= k < old_order.len() && old_order[k] == x as usize;
                    if k < p {
                        assert(order@[k] == x as usize);
                    } else {
                        assert(order@[k + 1] == x as usize);
                    }
                }
            }
            assert forall|a: int, b: int| 0 <= a < b < order@.len() implies ranks_before(
                rs,
                #[trigger] order@[a] as int,
                #[trigger] order@[b] as int,
            ) by {
                let ni = name_bytes(rs, i as int);
                if a < p && b == p {
                    let na = name_bytes(rs, order@[a] as int);
                    if na != ni {
                        lemma_bytes_lt_total(na, ni);
                    }
                } else if a == p {
                    let op = old_order[p as int];
                    let ob = old_order[b - 1];
                    assert(bytes_lt(ni, name_bytes(rs, op as int)));
                    if b - 1 > p {
                        assert(ranks_before(rs, old_order[p as int] as int, old_order[b - 1] as int));
                        if bytes_lt(name_bytes(rs, op as int), name_bytes(rs, ob as int)) {
                            lemma_bytes_lt_transitive(ni, name_bytes(rs, op as int), name_bytes(rs, ob as int));
                        }
                    }
                } else if a < p && b < p {
                    assert(order@[a] == old_order[a] && order@[b] == old_order[b]);
                } else if a < p {
                    assert(order@[a] == old_order[a] && order@[b] == old_order[b - 1]);
                } else {
                    assert(order@[a] == old_order[a - 1] && order@[b] == old_order[b - 1]);
                }
            }
        }
        i = i + 1;
    }
    order
}

/// The report's opening: document type, head with the style sheet, and the
/// start of the summary table.
pub open spec fn report_head() -> Seq<char> {
    "<!DOCTYPE html>\n"@ + "<head>\n"@ + style_sheet() + "\n"@ + "</head>\n"@ + "<body>\n"@
        + "<h1>Summary</h1>\n"@ + "<table>\n"@
        + "<tr><th>Crate</th><th>Version</th><th>Result</th></tr>\n"@
}

/// The style sheet of the report, which colours each kind of result.
pub open spec fn style_sheet() -> Seq<char> {
    "\n\n<style>\n.passed { color: green; }\n.regressed { color: red; }\n.broken { color: yellow; }\n.error { color: magenta; }\n.stdout, .stderr, .test-exception-output { white-space: pre; }\n</style>\n\n"@
}

/// The report's anchor of a result: the link name of `name-version`.
pub open spec fn anchor_of(r: TestResult) -> Seq<char> {
    link_name(rev_dep_label(r.rev_dep))
}

/// A result's row in the summary table: a link to its details, its version, and
/// its kind in that kind's colour.
pub open spec fn summary_row(r: TestResult) -> Seq<char> {
    let word = kind_word(kind_of(r.data));
    "<tr>\n"@ + "<td>\n"@ + "<a href='#"@ + anchor_of(r) + "'>\n"@ + r.rev_dep.name@ + "\n"@
        + "</a>\n"@ + "</td>\n"@ + "<td>"@ + version_text(r.rev_dep.vers) + "</td>\n"@
        + "<td class='"@ + word + "'>"@ + word + "</td>\n"@ + "</tr>\n"@
}

/// The section that shows one build's output, escaped.
pub open spec fn compile_section(label: Seq<char>, c: CompileResult) -> Seq<char> {
    "<h3>"@ + label + "</h3>\n"@ + "<div class='stdout'>\n"@ + html_escape(c.stdout@)
        + "\n</div>\n"@ + "<div class='stderr'>\n"@ + html_escape(c.stderr@) + "\n</div>\n"@
}

/// The section that shows why a test could not be carried out, escaped.
pub open spec fn error_section(text: Seq<char>) -> Seq<char> {
    "<h3>"@ + "errors"@ + "</h3>\n"@ + "<div class='test-exception-output'>\n"@
        + html_escape(text) + "\n</div>\n"@
}

/// What a result's details show: the output of each build that ran, or the error.
pub open spec fn result_body(data: TestResultData, error_text: Seq<char>) -> Seq<char> {
    match data {
        TestResultData::Passed(r1, r2) => compile_section("before"@, r1) + compile_section(
            "after"@,
            r2,
        ),
        TestResultData::Regressed(r1, r2) => compile_section("before"@, r1) + compile_section(
            "after"@,
            r2,
        ),
        TestResultData::Broken(r) => compile_section("before"@, r),
        TestResultData::Error(_) => error_section(error_text),
    }
}

/// The heading of a result's block in the details: its anchor, name, version and kind.
pub open spec fn detail_head(r: TestResult) -> Seq<char> {
    let word = kind_word(kind_of(r.data));
    "<div class='complete-result'>\n"@ + "<a name='"@ + anchor_of(r) + "'></a>\n"@ + "<h2>\n"@
        + "<span>"@ + r.rev_dep.name@ + " "@ + version_text(r.rev_dep.vers) + "</span>\n"@
        + "<span class='"@ + word + "'>"@ + word + "</span>\n"@ + "</h2>\n"@
}

/// A result's block in the details part of the report.
pub open spec fn detail_block(r: TestResult, error_text: Seq<char>) -> Seq<char> {
    detail_head(r) + result_body(r.data, error_text) + "</div>\n"@
}

/// The summary rows of the results, in the given order.
pub open spec fn summary_rows(rs: Seq<TestResult>, order: Seq<usize>) -> Seq<char>
    decreases order.len(),
{
    if order.len() == 0 {
        Seq::empty()
    } else {
        summary_rows(rs, order.drop_last()) + summary_row(rs[order.last() as int])
    }
}

/// The detail blocks of the results, in the given order.
pub open spec fn detail_blocks(rs: Seq<TestResult>, texts: Seq<String>, order: Seq<usize>) -> Seq<
    char,
>
    decreases order.len(),
{
    if order.len() == 0 {
        Seq::empty()
    } else {
        detail_blocks(rs, texts, order.drop_last()) + detail_block(
            rs[order.last() as int],
            texts[order.last() as int]@,
        )
    }
}

/// The whole HTML report: the summary table, then the details, each listing the
/// results in the given order.
pub open spec fn report_text(rs: Seq<TestResult>, texts: Seq<String>, order: Seq<usize>) -> Seq<char> {
    report_head() + summary_rows(rs, order) + "</table>\n"@ + "<h1>Details</h1>\n"@ + detail_blocks(
        rs,
        texts,
        order,
    ) + "</body>\n"@
}

/// Whether a text holds no `<` and no `>`, so that no markup can hide in it.
pub open spec fn markup_free(t: Seq<char>) -> bool {
    forall|i: int| 0 <= i < t.len() ==> #[trigger] t[i] != '<' && t[i] != '>'
}

/// Whether `t` shows `text` safely inside HTML: it holds no angle brackets, and
/// unescaping it gives the text back.
pub open spec fn shows_text(t: Seq<char>, text: Seq<char>) -> bool {
    markup_free(t) && html_unescape(t) == text
}

/// Whether `section` shows a build under a heading: the heading with its label,
/// then the build's standard output in the `stdout` div and its standard error in
/// the `stderr` div, each shown safely.
pub open spec fn shows_build(section: Seq<char>, label: Seq<char>, c: CompileResult) -> bool {
    exists|out: Seq<char>, err: Seq<char>|
        {
            &&& section == "<h3>"@ + label + "</h3>\n"@ + "<div class='stdout'>\n"@ + out
                + "\n</div>\n"@ + "<div class='stderr'>\n"@ + err + "\n</div>\n"@
            &&& shows_text(out, c.stdout@)
            &&& shows_text(err, c.stderr@)
        }
}

/// Whether `section` shows why a test could not be carried out: the `errors`
/// heading, then the error's text, shown safely.
pub open spec fn shows_error(section: Seq<char>, text: Seq<char>) -> bool {
    exists|shown: Seq<char>|
        {
            &&& section == "<h3>errors</h3>\n"@ + "<div class='test-exception-output'>\n"@ + shown
                + "\n</div>\n"@
            &&& shows_text(shown, text)
        }
}

proof fn lemma_escape_shows_text(text: Seq<char>)
    ensures
        shows_text(html_escape(text), text),
{
    lemma_html_escape_no_angle_brackets(text);
    lemma_html_escape_undone(text);
}

/// Law: the section of a build shows, under its label, the build's standard
/// output and its standard error, both escaped: neither can add markup to the
/// report, and each reads back as the build wrote it.
pub proof fn lemma_build_section_escaped(label: Seq<char>, c: CompileResult)
    ensures
        shows_build(compile_section(label, c), label, c),
{
    lemma_escape_shows_text(c.stdout@);
    lemma_escape_shows_text(c.stderr@);
    let out = html_escape(c.stdout@);
    let err = html_escape(c.stderr@);
    assert(compile_section(label, c) == "<h3>"@ + label + "</h3>\n"@ + "<div class='stdout'>\n"@
        + out + "\n</div>\n"@ + "<div class='stderr'>\n"@ + err + "\n</div>\n"@);
}

/// Law: what a result's details show, kind by kind. For a passed or regressed
/// crate, the first build (against the published crate) under `before`, then the
/// second (against the work in progress) under `after`; for a broken crate, its
/// one build under `before`; for an error, the error's text. All build output and
/// error text is escaped.
pub proof fn lemma_result_body_per_kind(data: TestResultData, error_text: Seq<char>)
    ensures
        data matches TestResultData::Passed(first, second) ==> exists|b: Seq<char>, a: Seq<char>|
            result_body(data, error_text) == b + a && shows_build(b, "before"@, first)
                && shows_build(a, "after"@, second),
        data matches TestResultData::Regressed(first, second) ==> exists|b: Seq<char>, a: Seq<char>|
            result_body(data, error_text) == b + a && shows_build(b, "before"@, first)
                && shows_build(a, "after"@, second),
        data matches TestResultData::Broken(only) ==> shows_build(
            result_body(data, error_text),
            "before"@,
            only,
        ),
        data is Error ==> shows_error(result_body(data, error_text), error_text),
{
    match data {
        TestResultData::Passed(first, second) => {
            lemma_build_section_escaped("before"@, first);
            lemma_build_section_escaped("after"@, second);
            assert(result_body(data, error_text) == compile_section("before"@, first)
                + compile_section("after"@, second));
        },
        TestResultData::Regressed(first, second) => {
            lemma_build_section_escaped("before"@, first);
            lemma_build_section_escaped("after"@, second);
            assert(result_body(data, error_text) == compile_section("before"@, first)
                + compile_section("after"@, second));
        },
        TestResultData::Broken(only) => {
            lemma_build_section_escaped("before"@, only);
        },
        TestResultData::Error(_) => {
            lemma_escape_shows_text(error_text);
            let shown = html_escape(error_text);
            reveal_strlit("<h3>");
            reveal_strlit("errors");
            reveal_strlit("</h3>\n");
            reveal_strlit("<h3>errors</h3>\n");
            assert("<h3>"@ + "errors"@ + "</h3>\n"@ =~= "<h3>errors</h3>\n"@);
            assert(result_body(data, error_text) == "<h3>errors</h3>\n"@
                + "<div class='test-exception-output'>\n"@ + shown + "\n</div>\n"@);
        },
    }
}

/// Appends the section that shows one build's output.
pub fn export_compile_result(out: &mut String, label: &str, r: &CompileResult)
    ensures
        final(out)@ == old(out)@ + compile_section(label@, *r),
{
    let stdout = sanitize(r.stdout.as_str());
    let stderr = sanitize(r.stderr.as_str());
    out.append("<h3>");
    out.append(label);
    out.append("</h3>\n");
    out.append("<div class='stdout'>\n");
    out.append(stdout.as_str());
    out.append("\n</div>\n");
    out.append("<div class='stderr'>\n");
    out.append(stderr.as_str());
    out.append("\n</div>\n");
}

/// Appends the section that shows an error, given the error's text.
fn export_error_text(out: &mut String, error_text: &str)
    ensures
        final(out)@ == old(out)@ + error_section(error_text@),
{
    let err = sanitize(error_text);
    out.append("<h3>");
    out.append("errors");
    out.append("</h3>\n");
    out.append("<div class='test-exception-output'>\n");
    out.append(err.as_str());
    out.append("\n</div>\n");
}

/// Appends the section that shows an error: its text, escaped.
pub fn export_error(out: &mut String, e: &Error)
    ensures
        exists|s: String| displays_as(*e, s) && final(out)@ == old(out)@ + error_section(s@),
{
    let text = e.to_string();
    export_error_text(out, text.as_str());
}

fn export_summary_row(out: &mut String, r: &TestResult)
    ensures
        final(out)@ == old(out)@ + summary_row(*r),
{
    let anchor = r.html_anchor();
    let vers = r.rev_dep.vers.to_string();
    out.append("<tr>\n");
    out.append("<td>\n");
    out.append("<a href='#");
    out.append(anchor.as_str());
    out.append("'>\n");
    out.append(r.rev_dep.name.as_str());
    out.append("\n");
    out.append("</a>\n");
    out.append("</td>\n");
    out.append("<td>");
    out.append(vers.as_str());
    out.append("</td>\n");
    out.append("<td class='");
    out.append(r.html_class());
    out.append("'>");
    out.append(r.quick_str());
    out.append("</td>\n");
    out.append("</tr>\n");
}

fn export_detail_head(out: &mut String, r: &TestResult)
    ensures
        final(out)@ == old(out)@ + detail_head(*r),
{
    let anchor = r.html_anchor();
    let vers = r.rev_dep.vers.to_string();
    out.append("<div class='complete-result'>\n");
    out.append("<a name='");
    out.append(anchor.as_str());
    out.append("'></a>\n");
    out.append("<h2>\n");
    out.append("<span>");
    out.append(r.rev_dep.name.as_str());
    out.append(" ");
    out.append(vers.as_str());
    out.append("</span>\n");
    out.append("<span class='");
    out.append(r.html_class());
    out.append("'>");
    out.append(r.quick_str());
    out.append("</span>\n");
    out.append("</h2>\n");
}

fn export_result_body(out: &mut String, data: &TestResultData, error_text: &str)
    ensures
        final(out)@ == old(out)@ + result_body(*data, error_text@),
{
    match data {
        TestResultData::Passed(r1, r2) => {
            export_compile_result(out, "before", r1);
            export_compile_result(out, "after", r2);
        },
        TestResultData::Regressed(r1, r2) => {
            export_compile_result(out, "before", r1);
            export_compile_result(out, "after", r2);
        },
        TestResultData::Broken(r1) => {
            export_compile_result(out, "before", r1);
        },
        TestResultData::Error(_) => {
            export_error_text(out, error_text);
        },
    }
}

fn export_detail(out: &mut String, r: &TestResult, error_text: &str)
    ensures
        final(out)@ == old(out)@ + detail_block(*r, error_text@),
{
    export_detail_head(out, r);
    export_result_body(out, &r.data, error_text);
    out.append("</div>\n");
}

/// Writes the HTML report of the results in the given order; an error result
/// shows the text at its own position in `error_texts`.
fn render_report(results: &Vec<TestResult>, error_texts: &Vec<String>, order: &Vec<usize>) -> (html: String)
    requires
        error_texts@.len() == results@.len(),
        forall|k: int| 0 <= k < order@.len() ==> #[trigger] order@[k] < results@.len(),
    ensures
        html@ == report_text(results@, error_texts@, order@),
{
    let mut out = String::from_str("<!DOCTYPE html>\n");
    out.append("<head>\n");
    out.append(
        "\n\n<style>\n.passed { color: green; }\n.regressed { color: red; }\n.broken { color: yellow; }\n.error { color: magenta; }\n.stdout, .stderr, .test-exception-output { white-space: pre; }\n</style>\n\n",
    );
    out.append("\n");
    out.append("</head>\n");
    out.append("<body>\n");
    out.append("<h1>Summary</h1>\n");
    out.append("<table>\n");
    out.append("<tr><th>Crate</th><th>Version</th><th>Result</th></tr>\n");
    let ghost head = out@;
    let mut k: usize = 0;
    while k < order.len()
        invariant
            k <= order@.len(),
            forall|j: int| 0 <= j < order@.len() ==> #[trigger] order@[j] < results@.len(),
            out@ == head + summary_rows(results@, order@.take(k as int)),
        decreases order@.len() - k,
    {
        assert(order@.take(k + 1).drop_last() =~= order@.take(k as int));
        export_summary_row(&mut out, &results[order[k]]);
        k = k + 1;
    }
    assert(order@.take(order@.len() as int) =~= order@);
    out.append("</table>\n");
    out.append("<h1>Details</h1>\n");
    let ghost middle = out@;
    let mut k: usize = 0;
    while k < order.len()
        invariant
            k <= order@.len(),
            error_texts@.len() == results@.len(),
            forall|j: int| 0 <= j < order@.len() ==> #[trigger] order@[j] < results@.len(),
            out@ == middle + detail_blocks(results@, error_texts@, order@.take(k as int)),
        decreases order@.len() - k,
    {
        assert(order@.take(k + 1).drop_last() =~= order@.take(k as int));
        export_detail(&mut out, &results[order[k]], error_texts[order[k]].as_str());
        k = k + 1;
    }
    out.append("</body>\n");
    out
}

/// Whether `s` is the text that a result's details show for an error: the
/// error's text for an error result, nothing for any other.
pub open spec fn shown_text(r: TestResult, s: String) -> bool {
    match r.data {
        TestResultData::Error(e) => displays_as(e, s),
        _ => s@.len() == 0,
    }
}

/// The text that each result's details show for an error.
fn error_texts(results: &Vec<TestResult>) -> (texts: Vec<String>)
    ensures
        texts@.len() == results@.len(),
        forall|i: int| 0 <= i < texts@.len() ==> shown_text(results@[i], #[trigger] texts@[i]),
{
    let mut texts: Vec<String> = Vec::new();
    let mut i: usize = 0;
    while i < results.len()
        invariant
            i <= results@.len(),
            texts@.len() == i,
            forall|j: int| 0 <= j < i ==> shown_text(results@[j], #[trigger] texts@[j]),
        decreases results@.len() - i,
    {
        let t = match &results[i].data {
            TestResultData::Error(e) => e.to_string(),
            _ => String::new(),
        };
        texts.push(t);
        i = i + 1;
    }
    texts
}

/// The report of a run: the count of each kind of result, and the HTML page that
/// lists the results sorted by name, each error result with its error's text.
pub fn export_report(results: Vec<TestResult>) -> (r: (Summary, String))
    ensures
        r.0.passed == count_kind(results@, ReportResult::Passed),
        r.0.regressed == count_kind(results@, ReportResult::Regressed),
        r.0.broken == count_kind(results@, ReportResult::Broken),
        r.0.error == count_kind(results@, ReportResult::Error),
        exists|order: Seq<usize>, texts: Seq<String>|
            {
                &&& is_name_order(results@, order)
                &&& texts.len() == results@.len()
                &&& forall|i: int| 0 <= i < texts.len() ==> shown_text(results@[i], #[trigger] texts[i])
                &&& r.1@ == report_text(results@, texts, order)
            },
{
    let s = summarize_results(results.as_slice());
    let order = name_order(&results);
    let texts = error_texts(&results);
    let html = render_report(&results, &texts, &order);
    (s, html)
}

} // verus!
