use cargo_crusader::error::{Error, HttpResponse, SemverParseError, TomlParseError};
use cargo_crusader::version::{Identifier, Version};

#[test]
fn own_error_descriptions() {
    assert_eq!(Error::ManifestName("Cargo.toml".to_string()).description(), "error extracting crate name from manifest");
    assert_eq!(Error::TomlError(vec![TomlParseError { lo: 0, hi: 1, desc: "x".to_string() }]).description(), "error parsing TOML");
    assert_eq!(Error::NoCrateVersions.description(), "crate has no published versions");
    assert_eq!(Error::ProcessError("boom".to_string()).description(), "unexpected subprocess failure");
    let resp = HttpResponse { code: 500, headers: vec![], body: vec![] };
    assert_eq!(Error::HttpError(resp).description(), "HTTP error");
    assert_eq!(Error::SemverError(SemverParseError::NonAsciiIdentifier).description(), "identifiers can only contain ascii characters");
    assert_eq!(Error::SemverError(SemverParseError::GenericFailure).description(), "failed to parse semver from string");
}

#[test]
fn own_error_texts() {
    assert_eq!(Error::ManifestName("Cargo.toml".to_string()).to_string(), "error extracting crate name from manifest");
    assert_eq!(Error::TomlError(vec![]).to_string(), "error parsing TOML");
    assert_eq!(Error::NoCrateVersions.to_string(), "crate has no published versions");
    assert_eq!(Error::ProcessError("tar: failed".to_string()).to_string(), "tar: failed");
}

#[test]
fn semver_error_text() {
    let v = Version { major: 1, minor: 2, patch: 3, pre: vec![Identifier::AlphaNumeric("a".to_string())], build: vec![] };
    let e = Error::SemverError(SemverParseError::IncorrectParse(v, "1.2.3-a \"x\"".to_string()));
    assert_eq!(e.to_string(), "failed to parse semver from string: 1.2.3-a could not be parsed from \"1.2.3-a \\\"x\\\"\"");
    assert_eq!(Error::SemverError(SemverParseError::GenericFailure).to_string(), "failed to parse semver from string");
}

#[test]
fn carried_error_texts() {
    let io = std::io::Error::new(std::io::ErrorKind::Other, "disk on fire");
    assert_eq!(Error::IoError(io).to_string(), "disk on fire");
    assert_eq!(Error::RecvError(std::sync::mpsc::RecvError).to_string(), std::sync::mpsc::RecvError.to_string());
    let bad = String::from_utf8(vec![0xff]).unwrap_err();
    let expected = bad.to_string();
    assert_eq!(Error::FromUtf8Error(bad).to_string(), expected);
}

#[test]
fn http_error_text() {
    let resp = HttpResponse { code: 404, headers: vec![], body: b"gone".to_vec() };
    assert_eq!(Error::HttpError(resp).to_string(), "Response {404, gone]");
    let resp = HttpResponse {
        code: 302,
        headers: vec![("location".to_string(), vec!["a".to_string(), "b".to_string()])],
        body: b"moved".to_vec(),
    };
    assert_eq!(Error::HttpError(resp).to_string(), "Response {302, location: a, b, moved]");
    let resp = HttpResponse { code: 500, headers: vec![], body: vec![0xff, 0xfe] };
    assert_eq!(Error::HttpError(resp).to_string(), "Response {500, bytes[2]]");
}

#[test]
fn http_error_text_lists_every_header() {
    let resp = HttpResponse {
        code: 200,
        headers: vec![("a".to_string(), vec!["1".to_string()]), ("b".to_string(), vec![])],
        body: vec![],
    };
    let text = Error::HttpError(resp).to_string();
    assert!(text == "Response {200, a: 1, b: , ]" || text == "Response {200, b: , a: 1, ]");
}
