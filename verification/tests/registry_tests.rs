use cargo_crusader::error::{Error, HttpResponse};
use cargo_crusader::registry::{
    crate_url, get_rev_deps, http_get_bytes, http_get_bytes_step, http_get_to_string, newest_rev_dep,
    parse_rev_deps, resolve_rev_dep_version, Dep, HttpAction, RegistryAction, RegistryCrate,
    RegistryEvent, RegistryVersion, RevDepsQuery, RevDepsResponse,
};

fn response(code: u32, headers: Vec<(&str, Vec<&str>)>, body: &[u8]) -> HttpResponse {
    HttpResponse {
        code,
        headers: headers
            .into_iter()
            .map(|(k, vs)| (k.to_string(), vs.into_iter().map(|s| s.to_string()).collect()))
            .collect(),
        body: body.to_vec(),
    }
}

fn krate(nums: &[&str]) -> RegistryCrate {
    RegistryCrate { versions: nums.iter().map(|n| RegistryVersion { num: n.to_string() }).collect() }
}

fn io_error() -> Error {
    Error::IoError(std::io::Error::new(std::io::ErrorKind::Other, "boom"))
}

#[test]
fn crate_url_without_call() {
    assert_eq!(crate_url("serde", None), "https://crates.io/api/v1/crates/serde");
}

#[test]
fn crate_url_with_call() {
    assert_eq!(
        crate_url("serde", Some("reverse_dependencies")),
        "https://crates.io/api/v1/crates/serde/reverse_dependencies"
    );
    assert_eq!(crate_url("a", Some("1.0.0/download")), format!("{}/{}", crate_url("a", None), "1.0.0/download"));
}

#[test]
fn http_get_to_string_decodes() {
    assert_eq!(http_get_to_string(Ok("héllo".as_bytes().to_vec())).unwrap(), "héllo");
    assert_eq!(http_get_to_string(Ok(Vec::new())).unwrap(), "");
}

#[test]
fn http_get_to_string_rejects_invalid_utf8() {
    match http_get_to_string(Ok(vec![0x66, 0xff, 0x66])) {
        Err(Error::FromUtf8Error(e)) => assert_eq!(e.into_bytes(), vec![0x66, 0xff, 0x66]),
        _ => panic!("expected a UTF-8 error"),
    }
}

#[test]
fn http_get_to_string_passes_fetch_error() {
    assert!(matches!(http_get_to_string(Err(Error::NoCrateVersions)), Err(Error::NoCrateVersions)));
}

#[test]
fn http_start_gets_url() {
    match http_get_bytes("http://x/".to_string()) {
        HttpAction::Get(u) => assert_eq!(u, "http://x/"),
        _ => panic!(),
    }
}

#[test]
fn http_ok_gives_body() {
    match http_get_bytes_step(false, Ok(response(200, vec![], b"body"))) {
        HttpAction::Finish(Ok(b)) => assert_eq!(b, b"body".to_vec()),
        _ => panic!(),
    }
}

#[test]
fn http_redirect_is_followed_once() {
    let r = response(302, vec![("content-type", vec!["x"]), ("location", vec!["http://elsewhere/", "http://second/"])], b"");
    match http_get_bytes_step(false, Ok(r)) {
        HttpAction::Get(u) => assert_eq!(u, "http://elsewhere/"),
        _ => panic!(),
    }
    let again = response(302, vec![("location", vec!["http://third/"])], b"");
    match http_get_bytes_step(true, Ok(again)) {
        HttpAction::Finish(Err(Error::HttpError(resp))) => assert_eq!(resp.code, 302),
        _ => panic!(),
    }
}

#[test]
fn http_redirect_target_after_redirect_ok() {
    match http_get_bytes_step(true, Ok(response(200, vec![], b"x"))) {
        HttpAction::Finish(Ok(b)) => assert_eq!(b, b"x".to_vec()),
        _ => panic!(),
    }
}

#[test]
fn http_redirect_without_location_is_error() {
    match http_get_bytes_step(false, Ok(response(302, vec![("location", vec![])], b"moved"))) {
        HttpAction::Finish(Err(Error::HttpError(resp))) => assert_eq!(resp.body, b"moved".to_vec()),
        _ => panic!(),
    }
    match http_get_bytes_step(false, Ok(response(302, vec![], b""))) {
        HttpAction::Finish(Err(Error::HttpError(_))) => {}
        _ => panic!(),
    }
}

#[test]
fn http_other_status_is_error() {
    match http_get_bytes_step(false, Ok(response(404, vec![], b"nope"))) {
        HttpAction::Finish(Err(Error::HttpError(resp))) => assert_eq!(resp.code, 404),
        _ => panic!(),
    }
}

#[test]
fn parse_rev_deps_lists_names_in_order() {
    let resp = RevDepsResponse {
        dependencies: vec![Dep { crate_id: "b".to_string() }, Dep { crate_id: "a".to_string() }],
        total: Some(2),
    };
    assert_eq!(parse_rev_deps(Ok(resp)).unwrap(), vec!["b".to_string(), "a".to_string()]);
    assert!(parse_rev_deps(Ok(RevDepsResponse { dependencies: vec![], total: Some(0) })).unwrap().is_empty());
}

#[test]
fn parse_rev_deps_passes_error() {
    assert!(matches!(parse_rev_deps(Err(Error::NoCrateVersions)), Err(Error::NoCrateVersions)));
}

#[test]
fn newest_rev_dep_skips_unparsable() {
    let rd = newest_rev_dep("foo".to_string(), krate(&["0.1.0", "bogus", "0.2.0", "0.1.5"])).unwrap();
    assert_eq!(rd.name, "foo");
    assert_eq!(rd.vers.to_string(), "0.2.0");
}

#[test]
fn newest_rev_dep_prefers_release() {
    let rd = newest_rev_dep("foo".to_string(), krate(&["1.0.0-beta.2", "1.0.0", "1.0.0-rc.1"])).unwrap();
    assert_eq!(rd.vers.to_string(), "1.0.0");
}

#[test]
fn newest_rev_dep_parses_prerelease_and_build() {
    let rd = newest_rev_dep("foo".to_string(), krate(&["2.0.0-alpha.1+abc"])).unwrap();
    assert_eq!(rd.vers.major, 2);
    assert_eq!(rd.vers.pre.len(), 2);
    assert_eq!(rd.vers.to_string(), "2.0.0-alpha.1+abc");
}

#[test]
fn newest_rev_dep_without_versions() {
    assert!(matches!(newest_rev_dep("foo".to_string(), krate(&["x", ""])), Err(Error::NoCrateVersions)));
    assert!(matches!(newest_rev_dep("foo".to_string(), krate(&[])), Err(Error::NoCrateVersions)));
}

fn fresh() -> RevDepsQuery {
    RevDepsQuery { listed: Vec::new(), page: 0 }
}

fn page(names: &[&str], total: u64) -> RevDepsResponse {
    RevDepsResponse { dependencies: names.iter().map(|n| Dep { crate_id: n.to_string() }).collect(), total: Some(total) }
}

#[test]
fn get_rev_deps_runs_through() {
    let (q, a) = get_rev_deps("mycrate", fresh(), RegistryEvent::Start);
    match a {
        RegistryAction::Fetch { status: Some(s), url } => {
            assert_eq!(s, "downloading reverse deps for mycrate");
            assert_eq!(url, "https://crates.io/api/v1/crates/mycrate/reverse_dependencies?page=1&per_page=100");
        }
        _ => panic!(),
    }
    assert_eq!(q.page, 1);
    assert!(q.listed.is_empty());
    let (q, a) = get_rev_deps("mycrate", q, RegistryEvent::Fetched(Ok(b"{}".to_vec())));
    match a {
        RegistryAction::Decode(t) => assert_eq!(t, "{}"),
        _ => panic!(),
    }
    let (_, a) = get_rev_deps("mycrate", q, RegistryEvent::Decoded(Ok(page(&["x", "y"], 2))));
    match a {
        RegistryAction::Finish { status: Some(s), result: Ok(names) } => {
            assert_eq!(s, "2 reverse deps");
            assert_eq!(names, vec!["x".to_string(), "y".to_string()]);
        }
        _ => panic!(),
    }
}

#[test]
fn get_rev_deps_follows_every_page() {
    let (q, _) = get_rev_deps("big", fresh(), RegistryEvent::Start);
    let (q, a) = get_rev_deps("big", q, RegistryEvent::Decoded(Ok(page(&["a", "b"], 5))));
    match a {
        RegistryAction::Fetch { status: None, url } => {
            assert_eq!(url, "https://crates.io/api/v1/crates/big/reverse_dependencies?page=2&per_page=100")
        }
        _ => panic!(),
    }
    assert_eq!(q.listed, vec!["a".to_string(), "b".to_string()]);
    let (q, a) = get_rev_deps("big", q, RegistryEvent::Decoded(Ok(page(&["c", "d"], 5))));
    match a {
        RegistryAction::Fetch { status: None, url } => assert!(url.ends_with("?page=3&per_page=100")),
        _ => panic!(),
    }
    let (_, a) = get_rev_deps("big", q, RegistryEvent::Decoded(Ok(page(&["e"], 5))));
    match a {
        RegistryAction::Finish { status: Some(s), result: Ok(names) } => {
            assert_eq!(s, "5 reverse deps");
            assert_eq!(names, vec!["a", "b", "c", "d", "e"]);
        }
        _ => panic!(),
    }
}

#[test]
fn get_rev_deps_without_count_reads_one_page() {
    let (q, _) = get_rev_deps("lone", fresh(), RegistryEvent::Start);
    let answer = RevDepsResponse { dependencies: vec![Dep { crate_id: "p".to_string() }], total: None };
    match get_rev_deps("lone", q, RegistryEvent::Decoded(Ok(answer))).1 {
        RegistryAction::Finish { status: Some(s), result: Ok(names) } => {
            assert_eq!(s, "1 reverse deps");
            assert_eq!(names, vec!["p"]);
        }
        _ => panic!(),
    }
}

#[test]
fn get_rev_deps_stops_at_empty_page() {
    let (q, _) = get_rev_deps("odd", fresh(), RegistryEvent::Start);
    let (q, _) = get_rev_deps("odd", q, RegistryEvent::Decoded(Ok(page(&["a"], 3))));
    let (_, a) = get_rev_deps("odd", q, RegistryEvent::Decoded(Ok(page(&[], 3))));
    match a {
        RegistryAction::Finish { status: Some(s), result: Ok(names) } => {
            assert_eq!(s, "1 reverse deps");
            assert_eq!(names, vec!["a"]);
        }
        _ => panic!(),
    }
}

#[test]
fn get_rev_deps_errors_end_quietly() {
    match get_rev_deps("c", fresh(), RegistryEvent::Fetched(Err(io_error()))).1 {
        RegistryAction::Finish { status: None, result: Err(Error::IoError(_)) } => {}
        _ => panic!(),
    }
    match get_rev_deps("c", fresh(), RegistryEvent::Fetched(Ok(vec![0xc3]))).1 {
        RegistryAction::Finish { status: None, result: Err(Error::FromUtf8Error(_)) } => {}
        _ => panic!(),
    }
    match get_rev_deps("c", fresh(), RegistryEvent::Decoded(Err(Error::NoCrateVersions))).1 {
        RegistryAction::Finish { status: None, result: Err(Error::NoCrateVersions) } => {}
        _ => panic!(),
    }
}

#[test]
fn resolve_rev_dep_version_runs_through() {
    match resolve_rev_dep_version("dep".to_string(), RegistryEvent::Start) {
        RegistryAction::Fetch { status: None, url } => assert_eq!(url, "https://crates.io/api/v1/crates/dep"),
        _ => panic!(),
    }
    match resolve_rev_dep_version("dep".to_string(), RegistryEvent::Decoded(Ok(krate(&["0.3.0", "0.10.0"])))) {
        RegistryAction::Finish { status: None, result: Ok(rd) } => {
            assert_eq!(rd.name, "dep");
            assert_eq!(rd.vers.to_string(), "0.10.0");
        }
        _ => panic!(),
    }
    match resolve_rev_dep_version("dep".to_string(), RegistryEvent::Decoded(Ok(krate(&[])))) {
        RegistryAction::Finish { status: None, result: Err(Error::NoCrateVersions) } => {}
        _ => panic!(),
    }
}
