use cargo_crusader::registry::{get_rev_deps, Dep, RegistryAction, RegistryEvent, RevDepsQuery, RevDepsResponse};
use cargo_crusader::report::{quick_result_prefix, summarize_results};
use cargo_crusader::testing::{testing_status, CompileResult, RevDep, TestResult};
use cargo_crusader::version::Version;

fn rd(name: &str, major: u64, minor: u64, patch: u64) -> RevDep {
    RevDep { name: name.to_string(), vers: Version { major, minor, patch, pre: vec![], build: vec![] } }
}

fn build(success: bool) -> CompileResult {
    CompileResult { stdout: String::new(), stderr: String::new(), success }
}

#[test]
fn readme_status_lines() {
    match get_rev_deps("hyper", RevDepsQuery { listed: vec![], page: 0 }, RegistryEvent::Start).1 {
        RegistryAction::Fetch { status: Some(s), .. } => assert_eq!(s, "downloading reverse deps for hyper"),
        _ => panic!(),
    }
    let deps: Vec<Dep> = (0..10).map(|i| Dep { crate_id: format!("dep{}", i) }).collect();
    let q = RevDepsQuery { listed: vec![], page: 1 };
    match get_rev_deps("hyper", q, RegistryEvent::Decoded(Ok(RevDepsResponse { dependencies: deps, total: Some(10) }))).1 {
        RegistryAction::Finish { status: Some(s), result: Ok(names) } => {
            assert_eq!(s, "10 reverse deps");
            assert_eq!(names.len(), 10);
        }
        _ => panic!(),
    }
    assert_eq!(testing_status("aloft"), "testing crate aloft");
}

#[test]
fn readme_result_lines() {
    let t = TestResult::broken(rd("aloft", 0, 3, 1), build(false));
    assert_eq!(format!("{}{}", quick_result_prefix(1, 10, &t), t.quick_str()), "result 1 of 10, aloft 0.3.1: broken");
    let t = TestResult::passed(rd("chan", 0, 1, 14), build(true), build(true));
    assert_eq!(format!("{}{}", quick_result_prefix(5, 10, &t), t.quick_str()), "result 5 of 10, chan 0.1.14: passed");
    let t = TestResult::regressed(rd("chatbot", 0, 2, 2), build(true), build(false));
    assert_eq!(format!("{}{}", quick_result_prefix(6, 10, &t), t.quick_str()), "result 6 of 10, chatbot 0.2.2: regressed");
}

#[test]
fn readme_summary_counts() {
    let mut results = Vec::new();
    results.push(TestResult::passed(rd("chan", 0, 1, 14), build(true), build(true)));
    for n in ["chatbot", "coinbaser", "ease"] {
        results.push(TestResult::regressed(rd(n, 0, 1, 0), build(true), build(false)));
    }
    for n in ["aloft", "austenite", "bare", "catapult", "click_and_load", "doapi"] {
        results.push(TestResult::broken(rd(n, 0, 0, 1), build(false)));
    }
    let s = summarize_results(&results);
    assert_eq!((s.passed, s.regressed, s.broken, s.error), (1, 3, 6, 0));
    assert_eq!(s.exit_code(), Some(-2));
}
