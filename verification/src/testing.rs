use vstd::prelude::*;

use crate::error::Error;
use crate::registry::{crate_url, crate_url_text};
use crate::text::{link_name, sanitize_link, string_from_utf8, string_from_utf8_lossy, utf8_lossy};
use crate::version::{Version, version_text};
use vstd::utf8::{decode_utf8, valid_utf8};

verus! {

/// A crate that depends on the crate under test, at its newest version.
#[derive(Debug)]
pub struct RevDep {
    pub name: String,
    pub vers: Version,
}

/// What one `cargo build` printed, and whether it succeeded.
#[derive(Debug)]
pub struct CompileResult {
    pub stdout: String,
    pub stderr: String,
    pub success: bool,
}

impl CompileResult {
    /// Whether the build failed.
    pub fn failed(&self) -> (r: bool)
        ensures
            r == !self.success,
    {
        !self.success
    }
}

/// How testing one reverse dependency ended.
#[derive(Debug)]
pub enum TestResultData {
    /// It built before the upgrade and after it.
    Passed(CompileResult, CompileResult),
    /// It built before the upgrade but not after it.
    Regressed(CompileResult, CompileResult),
    /// It did not build even before the upgrade.
    Broken(CompileResult),
    /// The test could not be carried out.
    Error(Error),
}

/// The result of testing one reverse dependency.
#[derive(Debug)]
pub struct TestResult {
    pub rev_dep: RevDep,
    pub data: TestResultData,
}

/// The four kinds of result, as reported.
#[derive(PartialEq, Eq, Structural, Clone, Copy, Debug)]
pub enum ReportResult {
    Passed,
    Regressed,
    Broken,
    Error,
}

/// The kind of a test result.
pub open spec fn kind_of(data: TestResultData) -> ReportResult {
    match data {
        TestResultData::Passed(..) => ReportResult::Passed,
        TestResultData::Regressed(..) => ReportResult::Regressed,
        TestResultData::Broken(..) => ReportResult::Broken,
        TestResultData::Error(..) => ReportResult::Error,
    }
}

/// The word that names a kind of result in the report.
pub open spec fn kind_word(k: ReportResult) -> Seq<char> {
    match k {
        ReportResult::Passed => "passed"@,
        ReportResult::Regressed => "regressed"@,
        ReportResult::Broken => "broken"@,
        ReportResult::Error => "error"@,
    }
}

impl TestResult {
    pub fn passed(rev_dep: RevDep, r1: CompileResult, r2: CompileResult) -> (t: TestResult)
        ensures
            t == (TestResult { rev_dep, data: TestResultData::Passed(r1, r2) }),
    {
        TestResult { rev_dep: rev_dep, data: TestResultData::Passed(r1, r2) }
    }

    pub fn regressed(rev_dep: RevDep, r1: CompileResult, r2: CompileResult) -> (t: TestResult)
        ensures
            t == (TestResult { rev_dep, data: TestResultData::Regressed(r1, r2) }),
    {
        TestResult { rev_dep: rev_dep, data: TestResultData::Regressed(r1, r2) }
    }

    pub fn broken(rev_dep: RevDep, r: CompileResult) -> (t: TestResult)
        ensures
            t == (TestResult { rev_dep, data: TestResultData::Broken(r) }),
    {
        TestResult { rev_dep: rev_dep, data: TestResultData::Broken(r) }
    }

    pub fn error(rev_dep: RevDep, e: Error) -> (t: TestResult)
        ensures
            t == (TestResult { rev_dep, data: TestResultData::Error(e) }),
    {
        TestResult { rev_dep: rev_dep, data: TestResultData::Error(e) }
    }

    /// The kind of this result.
    pub fn report_result(&self) -> (k: ReportResult)
        ensures
            k == kind_of(self.data),
    {
        match self.data {
            TestResultData::Passed(..) => ReportResult::Passed,
            TestResultData::Regressed(..) => ReportResult::Regressed,
            TestResultData::Broken(_) => ReportResult::Broken,
            TestResultData::Error(_) => ReportResult::Error,
        }
    }

    /// The word for this result's kind: "passed", "regressed", "broken" or "error".
    pub fn quick_str(&self) -> (s: &'static str)
        ensures
            s@ == kind_word(kind_of(self.data)),
    {
        match self.data {
            TestResultData::Passed(..) => "passed",
            TestResultData::Regressed(..) => "regressed",
            TestResultData::Broken(_) => "broken",
            TestResultData::Error(_) => "error",
        }
    }

    /// The CSS class of this result in the report, which is its kind's word.
    pub fn html_class(&self) -> (s: &'static str)
        ensures
            s@ == kind_word(kind_of(self.data)),
    {
        self.quick_str()
    }
}

/// Which build of a reverse dependency uses which version of the crate under test.
pub enum CrateOverride {
    /// The crate as published.
    Default,
    /// The work in progress, by the path of its manifest.
    Source(String),
}

/// What a run needs to know about the crate under test.
pub struct Config {
    pub manifest_path: String,
    pub crate_name: String,
    pub base_override: CrateOverride,
    pub next_override: CrateOverride,
}

/// Where testing one reverse dependency stands, and what must be done next.
pub enum TestStep {
    /// Find the newest published version of the crate of this name.
    Resolve(String),
    /// Build `rev_dep`: against the published crate while `base` is `None`,
    /// else against the work in progress, `base` being the first build.
    Compile { rev_dep: RevDep, base: Option<CompileResult> },
    /// Testing is over.
    Done(TestResult),
}

/// What came of the work that a step asked for.
pub enum TestEvent {
    Resolved(Result<RevDep, Error>),
    Compiled(Result<CompileResult, Error>),
}

impl Config {
    /// The version of the crate under test that the next build of a step uses:
    /// the published one first, the work in progress once a first build exists.
    pub fn override_for<'a>(&'a self, base: &Option<CompileResult>) -> (r: &'a CrateOverride)
        ensures
            base is None ==> r == &self.base_override,
            base is Some ==> r == &self.next_override,
    {
        match base {
            None => &self.base_override,
            Some(_) => &self.next_override,
        }
    }
}

/// Whether an event answers what a step asked for.
pub open spec fn event_fits(step: TestStep, event: TestEvent) -> bool {
    match step {
        TestStep::Resolve(_) => event is Resolved,
        TestStep::Compile { .. } => event is Compiled,
        TestStep::Done(_) => false,
    }
}

/// How one step of testing a reverse dependency leads to the next.
pub open spec fn test_step_taken(step: TestStep, event: TestEvent, next: TestStep) -> bool {
    match (step, event) {
        (TestStep::Resolve(name), TestEvent::Resolved(Ok(rev_dep))) =>
            next == TestStep::Compile { rev_dep, base: None },
        (TestStep::Resolve(name), TestEvent::Resolved(Err(e))) =>
            next matches TestStep::Done(t) && t.rev_dep.name == name && t.rev_dep.vers.is_zero()
                && t.data == TestResultData::Error(e),
        (TestStep::Compile { rev_dep, base }, TestEvent::Compiled(Err(e))) =>
            next == TestStep::Done(TestResult { rev_dep, data: TestResultData::Error(e) }),
        (TestStep::Compile { rev_dep, base: None }, TestEvent::Compiled(Ok(r))) =>
            if !r.success {
                next == TestStep::Done(TestResult { rev_dep, data: TestResultData::Broken(r) })
            } else {
                next == TestStep::Compile { rev_dep, base: Some(r) }
            },
        (TestStep::Compile { rev_dep, base: Some(b) }, TestEvent::Compiled(Ok(r))) =>
            if !r.success {
                next == TestStep::Done(TestResult { rev_dep, data: TestResultData::Regressed(b, r) })
            } else {
                next == TestStep::Done(TestResult { rev_dep, data: TestResultData::Passed(b, r) })
            },
        _ => false,
    }
}

/// Starts testing the reverse dependency of this name: its version comes first.
pub fn run_test_local(rev_dep: String) -> (step: TestStep)
    ensures
        step == TestStep::Resolve(rev_dep),
{
    TestStep::Resolve(rev_dep)
}

/// Takes one step of testing a reverse dependency, given what came of the work the
/// step asked for: resolve the version, then build against the published crate; if
/// that build fails the dependency is broken, else build against the work in
/// progress, which decides between passed and regressed. Any error ends the test
/// with that error.
pub fn run_test_local_step(step: TestStep, event: TestEvent) -> (next: TestStep)
    requires
        event_fits(step, event),
    ensures
        test_step_taken(step, event, next),
{
    match step {
        TestStep::Resolve(name) => match event {
            TestEvent::Resolved(Ok(rev_dep)) => TestStep::Compile { rev_dep, base: None },
            TestEvent::Resolved(Err(e)) => {
                let rev_dep = RevDep { name, vers: Version::zero() };
                TestStep::Done(TestResult::error(rev_dep, e))
            },
            TestEvent::Compiled(_) => TestStep::Resolve(name),
        },
        TestStep::Compile { rev_dep, base } => match event {
            TestEvent::Compiled(Err(e)) => TestStep::Done(TestResult::error(rev_dep, e)),
            TestEvent::Compiled(Ok(r)) => match base {
                None => {
                    if r.failed() {
                        TestStep::Done(TestResult::broken(rev_dep, r))
                    } else {
                        TestStep::Compile { rev_dep, base: Some(r) }
                    }
                },
                Some(b) => {
                    if r.failed() {
                        TestStep::Done(TestResult::regressed(rev_dep, b, r))
                    } else {
                        TestStep::Done(TestResult::passed(rev_dep, b, r))
                    }
                },
            },
            TestEvent::Resolved(_) => TestStep::Compile { rev_dep, base },
        },
        TestStep::Done(t) => TestStep::Done(t),
    }
}

/// Whether testing ended with a result of the given kind.
pub open spec fn ended_as(step: TestStep, kind: ReportResult) -> bool {
    match step {
        TestStep::Done(t) => kind_of(t.data) == kind,
        _ => false,
    }
}

/// Whether a build ran and succeeded.
pub open spec fn built(r: Result<CompileResult, Error>) -> bool {
    match r {
        Ok(c) => c.success,
        Err(_) => false,
    }
}

/// Whether a build ran and failed.
pub open spec fn build_failed(r: Result<CompileResult, Error>) -> bool {
    match r {
        Ok(c) => !c.success,
        Err(_) => false,
    }
}

/// Law: how testing a reverse dependency ends. Run from its start, the steps end
/// after the version lookup and one or two builds; the result is an error when
/// the lookup or a build could not be carried out; otherwise it is broken when
/// the first build (against the published crate) failed, regressed when the first
/// build succeeded and the second (against the work in progress) failed, and
/// passed when both succeeded. The result keeps the builds in the order they
/// ran: the first, made against the published crate, is the `before` build, and
/// the second, against the work in progress, the `after` build.
pub proof fn lemma_test_outcome(
    name: String,
    resolved: Result<RevDep, Error>,
    first: Result<CompileResult, Error>,
    second: Result<CompileResult, Error>,
    s1: TestStep,
    s2: TestStep,
    s3: TestStep,
)
    requires
        test_step_taken(TestStep::Resolve(name), TestEvent::Resolved(resolved), s1),
        s1 is Compile ==> test_step_taken(s1, TestEvent::Compiled(first), s2),
        s2 is Compile ==> test_step_taken(s2, TestEvent::Compiled(second), s3),
    ensures
        resolved is Err ==> ended_as(s1, ReportResult::Error),
        resolved is Ok ==> s1 is Compile,
        (resolved is Ok && first is Err) ==> ended_as(s2, ReportResult::Error),
        (resolved is Ok && build_failed(first)) ==> ended_as(s2, ReportResult::Broken),
        (resolved is Ok && built(first)) ==> s2 is Compile,
        (resolved is Ok && built(first) && second is Err) ==> ended_as(s3, ReportResult::Error),
        (resolved is Ok && built(first) && build_failed(second)) ==> ended_as(
            s3,
            ReportResult::Regressed,
        ),
        (resolved is Ok && built(first) && built(second)) ==> ended_as(s3, ReportResult::Passed),
        resolved is Ok ==> s1 == (TestStep::Compile { rev_dep: resolved->Ok_0, base: None }),
        (resolved is Ok && built(first)) ==> s2 == (TestStep::Compile {
            rev_dep: resolved->Ok_0,
            base: Some(first->Ok_0),
        }),
        (resolved is Ok && build_failed(first)) ==> s2 == TestStep::Done(
            (TestResult { rev_dep: resolved->Ok_0, data: TestResultData::Broken(first->Ok_0) }),
        ),
        (resolved is Ok && built(first) && build_failed(second)) ==> s3 == TestStep::Done(
            (TestResult {
                rev_dep: resolved->Ok_0,
                data: TestResultData::Regressed(first->Ok_0, second->Ok_0),
            }),
        ),
        (resolved is Ok && built(first) && built(second)) ==> s3 == TestStep::Done(
            (TestResult {
                rev_dep: resolved->Ok_0,
                data: TestResultData::Passed(first->Ok_0, second->Ok_0),
            }),
        ),
        resolved is Err ==> (s1 matches TestStep::Done(t) && t.rev_dep.name == name
            && t.data == TestResultData::Error(resolved->Err_0)),
        (resolved is Ok && first is Err) ==> s2 == TestStep::Done(
            (TestResult { rev_dep: resolved->Ok_0, data: TestResultData::Error(first->Err_0) }),
        ),
        (resolved is Ok && built(first) && second is Err) ==> s3 == TestStep::Done(
            (TestResult { rev_dep: resolved->Ok_0, data: TestResultData::Error(second->Err_0) }),
        ),
{
}

/// A reverse dependency's name and version joined by a dash, e.g. `foo-1.2.3`.
pub open spec fn rev_dep_label(rev_dep: RevDep) -> Seq<char> {
    rev_dep.name@ + "-"@ + version_text(rev_dep.vers)
}

impl RevDep {
    /// The name and version joined by a dash, e.g. `foo-1.2.3`.
    pub fn label(&self) -> (s: String)
        ensures
            s@ == rev_dep_label(*self),
    {
        let mut s = self.name.clone();
        s.append("-");
        let v = self.vers.to_string();
        s.append(v.as_str());
        s
    }

    /// The file name under which the crate's package is kept: `name-version.crate`.
    pub fn crate_file_name(&self) -> (s: String)
        ensures
            s@ == rev_dep_label(*self) + ".crate"@,
    {
        let mut s = self.label();
        s.append(".crate");
        s
    }

    /// Where the registry serves the crate's package: the `version/download` call.
    pub fn download_url(&self) -> (url: String)
        ensures
            url@ == crate_url_text(self.name@, Some(version_text(self.vers) + "/download"@)),
    {
        let mut call = self.vers.to_string();
        call.append("/download");
        crate_url(self.name.as_str(), Some(call.as_str()))
    }
}

impl TestResult {
    /// The anchor of this result in the report: the link name of `name-version`.
    pub fn html_anchor(&self) -> (s: String)
        ensures
            s@ == link_name(rev_dep_label(self.rev_dep)),
    {
        let label = self.rev_dep.label();
        sanitize_link(label.as_str())
    }
}

/// The status line printed when testing a reverse dependency begins.
pub fn testing_status(rev_dep: &str) -> (s: String)
    ensures
        s@ == "testing crate "@ + rev_dep@,
{
    let mut s = String::from_str("testing crate ");
    s.append(rev_dep);
    s
}

/// The result of a test whose worker went away without sending one: an error,
/// filed under the crate's name and version 0.0.0.
pub fn recv_outcome(rev_dep: String, received: Result<TestResult, std::sync::mpsc::RecvError>) -> (t: TestResult)
    ensures
        received matches Ok(r) ==> t == r,
        received matches Err(e) ==> t.rev_dep.name == rev_dep && t.rev_dep.vers.is_zero()
            && t.data == TestResultData::Error(Error::RecvError(e)),
{
    match received {
        Ok(r) => r,
        Err(e) => {
            let r = RevDep { name: rev_dep, vers: Version::zero() };
            TestResult::error(r, Error::RecvError(e))
        },
    }
}

/// What a finished `cargo build` amounts to: its output as text, and whether it
/// succeeded. Output that is not UTF-8 is an error, standard output first.
pub fn compile_result(success: bool, stdout: Vec<u8>, stderr: Vec<u8>) -> (r: Result<CompileResult, Error>)
    ensures
        r is Ok <==> valid_utf8(stdout@) && valid_utf8(stderr@),
        r matches Ok(c) ==> c.success == success && c.stdout@ == decode_utf8(stdout@)
            && c.stderr@ == decode_utf8(stderr@),
        r matches Err(e) ==> e is FromUtf8Error,
{
    let out = match string_from_utf8(stdout) {
        Ok(s) => s,
        Err(e) => return Err(Error::FromUtf8Error(e)),
    };
    let err = match string_from_utf8(stderr) {
        Ok(s) => s,
        Err(e) => return Err(Error::FromUtf8Error(e)),
    };
    Ok(CompileResult { stdout: out, stderr: err, success })
}

/// What unpacking a package amounts to: nothing when the unpacker succeeded,
/// else a process error holding its error output, decoded leniently.
pub fn unpack_outcome(success: bool, stderr: Vec<u8>) -> (r: Result<(), Error>)
    ensures
        success ==> r is Ok,
        !success ==> (r matches Err(Error::ProcessError(s)) && s@ == utf8_lossy(stderr@)),
{
    if success {
        Ok(())
    } else {
        Err(Error::ProcessError(string_from_utf8_lossy(&stderr)))
    }
}

/// The cargo configuration that makes a build use the crate in this directory in
/// place of the published one: `paths = ["dir"]`.
pub fn cargo_override_config(dir: &str) -> (s: String)
    ensures
        s@ == "paths = [\""@ + dir@ + "\"]"@,
{
    let mut s = String::from_str("paths = [\"");
    s.append(dir);
    s.append("\"]");
    s
}

} // verus!
