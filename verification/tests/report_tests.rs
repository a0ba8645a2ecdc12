use cargo_crusader::error::Error;
use cargo_crusader::report::{export_error, export_report, name_order, quick_result_prefix, summarize_results, Summary};
use cargo_crusader::testing::{CompileResult, RevDep, TestResult};
use cargo_crusader::version::Version;

fn rd(name: &str, minor: u64) -> RevDep {
    RevDep { name: name.to_string(), vers: Version { major: 0, minor, patch: 0, pre: vec![], build: vec![] } }
}

fn build(success: bool, out: &str) -> CompileResult {
    CompileResult { stdout: out.to_string(), stderr: String::new(), success }
}

fn sample() -> Vec<TestResult> {
    vec![
        TestResult::passed(rd("b", 1), build(true, ""), build(true, "")),
        TestResult::regressed(rd("a", 2), build(true, ""), build(false, "")),
        TestResult::broken(rd("c", 3), build(false, "")),
        TestResult::error(rd("a", 4), Error::NoCrateVersions),
        TestResult::regressed(rd("d", 5), build(true, ""), build(false, "")),
    ]
}

#[test]
fn summary_counts_each_kind() {
    let s = summarize_results(&sample());
    assert_eq!((s.passed, s.regressed, s.broken, s.error), (1, 2, 1, 1));
    assert_eq!(s.passed + s.regressed + s.broken + s.error, 5);
}

#[test]
fn summary_of_nothing() {
    let s = summarize_results(&[]);
    assert_eq!((s.passed, s.regressed, s.broken, s.error), (0, 0, 0, 0));
    assert_eq!(s.exit_code(), None);
}

#[test]
fn exit_code_on_regression() {
    assert_eq!(summarize_results(&sample()).exit_code(), Some(-2));
    let s = Summary { broken: 3, regressed: 0, passed: 1, error: 2 };
    assert_eq!(s.exit_code(), None);
}

#[test]
fn quick_result_line() {
    let t = TestResult::broken(rd("foo", 7), build(false, ""));
    assert_eq!(quick_result_prefix(3, 10, &t), "result 3 of 10, foo 0.7.0: ");
}

#[test]
fn name_order_is_stable_sort() {
    let order = name_order(&sample());
    assert_eq!(order, vec![1, 3, 0, 2, 4]);
}

#[test]
fn name_order_bytewise() {
    let rs = vec![
        TestResult::broken(rd("b", 0), build(false, "")),
        TestResult::broken(rd("B", 0), build(false, "")),
        TestResult::broken(rd("a", 0), build(false, "")),
    ];
    assert_eq!(name_order(&rs), vec![1, 2, 0]);
}

#[test]
fn report_html_exact() {
    let results = vec![
        TestResult::error(rd("zed", 1), Error::NoCrateVersions),
        TestResult::broken(rd("Alpha", 2), build(false, "a<b")),
    ];
    let (s, html) = export_report(results);
    assert_eq!((s.passed, s.regressed, s.broken, s.error), (0, 0, 1, 1));
    let style = "\n\n<style>\n.passed { color: green; }\n.regressed { color: red; }\n.broken { color: yellow; }\n.error { color: magenta; }\n.stdout, .stderr, .test-exception-output { white-space: pre; }\n</style>\n\n";
    let mut expected = String::new();
    expected.push_str("<!DOCTYPE html>\n<head>\n");
    expected.push_str(style);
    expected.push_str("\n</head>\n<body>\n<h1>Summary</h1>\n<table>\n<tr><th>Crate</th><th>Version</th><th>Result</th></tr>\n");
    expected.push_str("<tr>\n<td>\n<a href='#alpha-0_2_0'>\nAlpha\n</a>\n</td>\n<td>0.2.0</td>\n<td class='broken'>broken</td>\n</tr>\n");
    expected.push_str("<tr>\n<td>\n<a href='#zed-0_1_0'>\nzed\n</a>\n</td>\n<td>0.1.0</td>\n<td class='error'>error</td>\n</tr>\n");
    expected.push_str("</table>\n<h1>Details</h1>\n");
    expected.push_str("<div class='complete-result'>\n<a name='alpha-0_2_0'></a>\n<h2>\n<span>Alpha 0.2.0</span>\n<span class='broken'>broken</span>\n</h2>\n");
    expected.push_str("<h3>before</h3>\n<div class='stdout'>\na&lt;b\n</div>\n<div class='stderr'>\n\n</div>\n</div>\n");
    expected.push_str("<div class='complete-result'>\n<a name='zed-0_1_0'></a>\n<h2>\n<span>zed 0.1.0</span>\n<span class='error'>error</span>\n</h2>\n");
    expected.push_str("<h3>errors</h3>\n<div class='test-exception-output'>\ncrate has no published versions\n</div>\n</div>\n");
    expected.push_str("</body>\n");
    assert_eq!(html, expected);
}

#[test]
fn report_html_passed_shows_both_builds() {
    let results = vec![TestResult::passed(rd("p", 0), build(true, "one"), build(true, "two"))];
    let (_, html) = export_report(results);
    assert!(html.contains("<h3>before</h3>\n<div class='stdout'>\none\n</div>\n"));
    assert!(html.contains("<h3>after</h3>\n<div class='stdout'>\ntwo\n</div>\n"));
}

#[test]
fn export_error_no_versions() {
    let mut out = String::from("x");
    export_error(&mut out, &Error::NoCrateVersions);
    assert_eq!(out, "x<h3>errors</h3>\n<div class='test-exception-output'>\ncrate has no published versions\n</div>\n");
}

#[test]
fn export_error_escapes_process_output() {
    let mut out = String::new();
    export_error(&mut out, &Error::ProcessError("a <b> & c".to_string()));
    assert_eq!(out, "<h3>errors</h3>\n<div class='test-exception-output'>\na &lt;b&gt; &amp; c\n</div>\n");
}
