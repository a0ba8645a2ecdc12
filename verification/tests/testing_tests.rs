use cargo_crusader::error::Error;
use cargo_crusader::manifest::{crate_name_from_toml, get_config, get_crate_name, manifest_path};
use cargo_crusader::testing::{
    cargo_override_config, compile_result, recv_outcome, run_test_local, run_test_local_step,
    testing_status, unpack_outcome, CompileResult, Config, CrateOverride, ReportResult, RevDep,
    TestEvent, TestResult, TestResultData, TestStep,
};
use cargo_crusader::version::{Identifier, Version};

fn version(major: u64, minor: u64, patch: u64) -> Version {
    Version { major, minor, patch, pre: vec![], build: vec![] }
}

fn rev_dep(name: &str) -> RevDep {
    RevDep { name: name.to_string(), vers: version(1, 2, 3) }
}

fn build(success: bool) -> CompileResult {
    CompileResult { stdout: "out".to_string(), stderr: "err".to_string(), success }
}

fn config() -> Config {
    Config {
        manifest_path: "/work/Cargo.toml".to_string(),
        crate_name: "mine".to_string(),
        base_override: CrateOverride::Default,
        next_override: CrateOverride::Source("/work/Cargo.toml".to_string()),
    }
}

fn run(resolved: Result<RevDep, Error>, first: Option<Result<CompileResult, Error>>, second: Option<Result<CompileResult, Error>>) -> TestResult {
    let cfg = config();
    let mut first = first;
    let mut second = second;
    let mut resolved = Some(resolved);
    let mut step = run_test_local("dep".to_string());
    let mut builds = 0;
    loop {
        step = match step {
            TestStep::Done(t) => return t,
            TestStep::Resolve(name) => {
                assert_eq!(name, "dep");
                run_test_local_step(TestStep::Resolve(name), TestEvent::Resolved(resolved.take().unwrap()))
            }
            TestStep::Compile { rev_dep, base } => {
                let krate = cfg.override_for(&base);
                if builds == 0 {
                    assert!(matches!(krate, CrateOverride::Default));
                } else {
                    assert!(matches!(krate, CrateOverride::Source(p) if p == "/work/Cargo.toml"));
                }
                builds += 1;
                let r = if base.is_none() { first.take().unwrap() } else { second.take().unwrap() };
                run_test_local_step(TestStep::Compile { rev_dep, base }, TestEvent::Compiled(r))
            }
        };
    }
}

#[test]
fn test_passes_when_both_builds_succeed() {
    let t = run(Ok(rev_dep("dep")), Some(Ok(build(true))), Some(Ok(build(true))));
    assert!(matches!(t.data, TestResultData::Passed(..)));
    assert_eq!(t.quick_str(), "passed");
    assert_eq!(t.html_class(), "passed");
    assert!(t.report_result() == ReportResult::Passed);
}

#[test]
fn test_regresses_when_second_build_fails() {
    let t = run(Ok(rev_dep("dep")), Some(Ok(build(true))), Some(Ok(build(false))));
    match &t.data {
        TestResultData::Regressed(a, b) => {
            assert!(a.success);
            assert!(!b.success);
        }
        _ => panic!(),
    }
    assert_eq!(t.quick_str(), "regressed");
}

#[test]
fn test_broken_when_first_build_fails() {
    let t = run(Ok(rev_dep("dep")), Some(Ok(build(false))), None);
    assert!(matches!(t.data, TestResultData::Broken(_)));
    assert_eq!(t.quick_str(), "broken");
    assert!(t.report_result() == ReportResult::Broken);
}

#[test]
fn test_error_when_version_lookup_fails() {
    let t = run(Err(Error::NoCrateVersions), None, None);
    assert!(matches!(t.data, TestResultData::Error(Error::NoCrateVersions)));
    assert_eq!(t.rev_dep.name, "dep");
    assert_eq!(t.rev_dep.vers.to_string(), "0.0.0");
    assert_eq!(t.quick_str(), "error");
}

#[test]
fn test_error_when_a_build_cannot_run() {
    let t = run(Ok(rev_dep("dep")), Some(Err(Error::ProcessError("tar".to_string()))), None);
    assert!(matches!(t.data, TestResultData::Error(Error::ProcessError(_))));
    let t = run(Ok(rev_dep("dep")), Some(Ok(build(true))), Some(Err(Error::NoCrateVersions)));
    assert!(matches!(t.data, TestResultData::Error(Error::NoCrateVersions)));
    assert_eq!(t.rev_dep.vers.to_string(), "1.2.3");
}

#[test]
fn compile_result_failed_flag() {
    assert!(build(false).failed());
    assert!(!build(true).failed());
}

#[test]
fn html_anchor_of_result() {
    let t = TestResult::passed(
        RevDep { name: "Serde_JSON".to_string(), vers: Version { major: 1, minor: 0, patch: 0, pre: vec![Identifier::AlphaNumeric("RC".to_string())], build: vec![] } },
        build(true),
        build(true),
    );
    assert_eq!(t.html_anchor(), "serde_json-1_0_0-rc");
}

#[test]
fn rev_dep_names_and_urls() {
    let rd = rev_dep("foo");
    assert_eq!(rd.label(), "foo-1.2.3");
    assert_eq!(rd.crate_file_name(), "foo-1.2.3.crate");
    assert_eq!(rd.download_url(), "https://crates.io/api/v1/crates/foo/1.2.3/download");
}

#[test]
fn testing_status_line() {
    assert_eq!(testing_status("foo"), "testing crate foo");
}

#[test]
fn recv_outcome_keeps_result() {
    let t = recv_outcome("x".to_string(), Ok(TestResult::broken(rev_dep("x"), build(false))));
    assert!(matches!(t.data, TestResultData::Broken(_)));
}

#[test]
fn recv_outcome_without_result_is_error() {
    let t = recv_outcome("gone".to_string(), Err(std::sync::mpsc::RecvError));
    assert!(matches!(t.data, TestResultData::Error(Error::RecvError(_))));
    assert_eq!(t.rev_dep.name, "gone");
    assert_eq!(t.rev_dep.vers.to_string(), "0.0.0");
}

#[test]
fn compile_result_decodes_output() {
    let c = compile_result(true, b"built\n".to_vec(), "wärning".as_bytes().to_vec()).unwrap();
    assert!(c.success);
    assert_eq!(c.stdout, "built\n");
    assert_eq!(c.stderr, "wärning");
    let c = compile_result(false, Vec::new(), Vec::new()).unwrap();
    assert!(!c.success);
}

#[test]
fn compile_result_rejects_binary_output() {
    assert!(matches!(compile_result(true, vec![0xff], Vec::new()), Err(Error::FromUtf8Error(_))));
    assert!(matches!(compile_result(true, Vec::new(), vec![0xfe, 0x41]), Err(Error::FromUtf8Error(_))));
}

#[test]
fn unpack_outcome_cases() {
    assert!(unpack_outcome(true, b"ignored".to_vec()).is_ok());
    match unpack_outcome(false, b"tar: bad\n".to_vec()) {
        Err(Error::ProcessError(s)) => assert_eq!(s, "tar: bad\n"),
        _ => panic!(),
    }
    match unpack_outcome(false, vec![0x61, 0xff]) {
        Err(Error::ProcessError(s)) => assert_eq!(s, "a\u{FFFD}"),
        _ => panic!(),
    }
}

#[test]
fn cargo_override_config_text() {
    assert_eq!(cargo_override_config("/tmp/work"), "paths = [\"/tmp/work\"]");
}

#[test]
fn crate_name_from_manifest() {
    let text = "[package]\nname = \"foo\"\nversion = \"0.1.0\"\n\n[dependencies]\nbar = \"1\"\n";
    assert_eq!(get_crate_name("Cargo.toml", Ok(text.to_string())).unwrap(), "foo");
}

#[test]
fn crate_name_missing_is_manifest_error() {
    match get_crate_name("dir/Cargo.toml", Ok("[package]\nversion = \"0.1.0\"\n".to_string())) {
        Err(Error::ManifestName(p)) => assert_eq!(p, "dir/Cargo.toml"),
        _ => panic!(),
    }
    match get_crate_name("Cargo.toml", Ok("package = 1\n".to_string())) {
        Err(Error::ManifestName(p)) => assert_eq!(p, "Cargo.toml"),
        _ => panic!(),
    }
    match get_crate_name("Cargo.toml", Ok("[package]\nname = 3\n".to_string())) {
        Err(Error::ManifestName(_)) => {}
        _ => panic!(),
    }
    match get_crate_name("Cargo.toml", Ok(String::new())) {
        Err(Error::ManifestName(_)) => {}
        _ => panic!(),
    }
}

#[test]
fn crate_name_bad_toml_is_toml_error() {
    match get_crate_name("Cargo.toml", Ok("[package\nname = \"x\"".to_string())) {
        Err(Error::TomlError(errs)) => assert!(!errs.is_empty()),
        _ => panic!(),
    }
}

#[test]
fn crate_name_load_error_passes() {
    let e = Error::IoError(std::io::Error::new(std::io::ErrorKind::NotFound, "missing"));
    assert!(matches!(get_crate_name("Cargo.toml", Err(e)), Err(Error::IoError(_))));
    assert!(matches!(crate_name_from_toml("Cargo.toml", Err(vec![])), Err(Error::TomlError(_))));
}

#[test]
fn manifest_path_default() {
    assert_eq!(manifest_path(None), "./Cargo.toml");
    assert_eq!(manifest_path(Some("/x/Cargo.toml".to_string())), "/x/Cargo.toml");
}

#[test]
fn config_from_manifest() {
    let c = get_config("/w/Cargo.toml".to_string(), Ok("[package]\nname = \"lib\"\n".to_string())).unwrap();
    assert_eq!(c.crate_name, "lib");
    assert_eq!(c.manifest_path, "/w/Cargo.toml");
    assert!(matches!(c.base_override, CrateOverride::Default));
    assert!(matches!(&c.next_override, CrateOverride::Source(p) if p == "/w/Cargo.toml"));
    assert!(matches!(get_config("/w/Cargo.toml".to_string(), Ok("x".to_string())), Err(Error::TomlError(_))));
}
