use vstd::prelude::*;

use crate::version::{Version, version_text};
use vstd::string::to_string_from_display_ensures;
use crate::text::decimal;
use crate::registry::header_names_distinct;
use vstd::utf8::{decode_utf8, valid_utf8};

verus! {

/// Declares `std::io::Error`, carried inside [`Error::IoError`].
#[verifier::external_type_specification]
#[verifier::external_body]
pub struct ExIoError(std::io::Error);

/// Declares `curl::ErrCode`, carried inside [`Error::CurlError`].
#[verifier::external_type_specification]
#[verifier::external_body]
pub struct ExCurlErrCode(curl::ErrCode);

/// Declares `std::str::Utf8Error`, carried inside [`Error::Utf8Error`].
#[verifier::external_type_specification]
#[verifier::external_body]
pub struct ExUtf8Error(std::str::Utf8Error);

/// Declares `rustc_serialize::json::DecoderError`, carried inside [`Error::JsonDecode`].
#[verifier::external_type_specification]
#[verifier::external_body]
pub struct ExJsonDecoderError(rustc_serialize::json::DecoderError);

/// Declares `std::sync::mpsc::RecvError`, carried inside [`Error::RecvError`].
#[verifier::external_type_specification]
#[verifier::external_body]
pub struct ExRecvError(std::sync::mpsc::RecvError);

/// Declares `std::string::FromUtf8Error`, carried inside [`Error::FromUtf8Error`].
#[verifier::external_type_specification]
#[verifier::external_body]
pub struct ExFromUtf8Error(std::string::FromUtf8Error);

/// Why a semantic version string was rejected.
#[derive(Debug)]
pub enum SemverParseError {
    /// Identifiers must be ASCII.
    NonAsciiIdentifier,
    /// The text parsed, but printing the result back does not give the text.
    IncorrectParse(Version, String),
    /// Any other failure.
    GenericFailure,
}

/// One error reported by the TOML parser: a byte range of the input and a message.
#[derive(Debug)]
pub struct TomlParseError {
    pub lo: usize,
    pub hi: usize,
    pub desc: String,
}

/// An HTTP response as the library sees it: status code, headers (each name once,
/// with all of its values) and body.
#[derive(Debug)]
pub struct HttpResponse {
    pub code: u32,
    pub headers: Vec<(String, Vec<String>)>,
    pub body: Vec<u8>,
}

/// Everything that can go wrong while testing reverse dependencies.
#[derive(Debug)]
pub enum Error {
    /// The manifest at this path has no `package.name` string.
    ManifestName(String),
    SemverError(SemverParseError),
    TomlError(Vec<TomlParseError>),
    IoError(std::io::Error),
    CurlError(curl::ErrCode),
    /// The server answered with a status that is not a success.
    HttpError(HttpResponse),
    Utf8Error(std::str::Utf8Error),
    JsonDecode(rustc_serialize::json::DecoderError),
    RecvError(std::sync::mpsc::RecvError),
    /// The registry lists no version of the crate that parses.
    NoCrateVersions,
    FromUtf8Error(std::string::FromUtf8Error),
    /// A helper process failed; its standard error output.
    ProcessError(String),
}

/// The description of a semantic-version error, as `semver` gives it.
pub open spec fn semver_description(e: SemverParseError) -> Seq<char> {
    match e {
        SemverParseError::NonAsciiIdentifier => "identifiers can only contain ascii characters"@,
        _ => "failed to parse semver from string"@,
    }
}

/// What `format!("{:?}", s)` makes of a string.
pub uninterp spec fn str_debug(s: Seq<char>) -> Seq<char>;

/// `<str as Debug>::fmt`: the string quoted and escaped. Which escapes it uses is
/// left to the name `str_debug`.
#[verifier::external_body]
fn debug_text(s: &str) -> (r: String)
    ensures
        r@ == str_debug(s@),
{
    format!("{:?}", s)
}

/// `std::error::Error::description` of an I/O error; nothing is claimed of it.
#[verifier::external_body]
#[allow(deprecated)]
fn io_description(e: &std::io::Error) -> String {
    std::error::Error::description(e).to_string()
}

/// `std::error::Error::description` of a `str` UTF-8 error; nothing is claimed of it.
#[verifier::external_body]
#[allow(deprecated)]
fn utf8_description(e: &std::str::Utf8Error) -> String {
    std::error::Error::description(e).to_string()
}

/// `std::error::Error::description` of a JSON decoding error; nothing is claimed of it.
#[verifier::external_body]
#[allow(deprecated)]
fn json_description(e: &rustc_serialize::json::DecoderError) -> String {
    std::error::Error::description(e).to_string()
}

/// `std::error::Error::description` of a channel receive error; nothing is claimed of it.
#[verifier::external_body]
#[allow(deprecated)]
fn recv_description(e: &std::sync::mpsc::RecvError) -> String {
    std::error::Error::description(e).to_string()
}

/// `std::error::Error::description` of a `String` UTF-8 error; nothing is claimed of it.
#[verifier::external_body]
#[allow(deprecated)]
fn from_utf8_description(e: &std::string::FromUtf8Error) -> String {
    std::error::Error::description(e).to_string()
}

/// Values joined by `, `.
pub open spec fn joined_values(vs: Seq<Seq<char>>) -> Seq<char>
    decreases vs.len(),
{
    if vs.len() == 0 {
        Seq::empty()
    } else if vs.len() == 1 {
        vs[0]
    } else {
        joined_values(vs.drop_last()) + ", "@ + vs.last()
    }
}

/// A header as text: its name and the text of each of its values.
pub open spec fn header_view(h: (String, Vec<String>)) -> (Seq<char>, Seq<Seq<char>>) {
    (h.0@, h.1@.map_values(|v: String| v@))
}

/// How curl prints one header of a response: `name: value, value, `.
pub open spec fn header_piece(h: (Seq<char>, Seq<Seq<char>>)) -> Seq<char> {
    h.0 + ": "@ + joined_values(h.1) + ", "@
}

/// The printed headers, one after the other.
pub open spec fn header_pieces(hs: Seq<(Seq<char>, Seq<Seq<char>>)>) -> Seq<char>
    decreases hs.len(),
{
    if hs.len() == 0 {
        Seq::empty()
    } else {
        header_pieces(hs.drop_last()) + header_piece(hs.last())
    }
}

/// How curl prints a response body: its text where it is UTF-8, else its length.
pub open spec fn body_text(body: Seq<u8>) -> Seq<char> {
    if valid_utf8(body) {
        decode_utf8(body)
    } else {
        "bytes["@ + decimal(body.len()) + "]"@
    }
}

/// The headers of a response as text.
pub open spec fn header_views(r: HttpResponse) -> Seq<(Seq<char>, Seq<Seq<char>>)> {
    r.headers@.map_values(|h: (String, Vec<String>)| header_view(h))
}

/// Whether `t` is how curl prints the response: `Response {`, the status code
/// and `, `, then headers of the response in some order (curl keeps them in a
/// hash map), each of them once where their names differ, then the body and `]`.
pub open spec fn response_text(r: HttpResponse, t: Seq<char>) -> bool {
    exists|hs: Seq<(Seq<char>, Seq<Seq<char>>)>|
        {
            &&& forall|i: int| 0 <= i < hs.len() ==> header_views(r).contains(#[trigger] hs[i])
            &&& header_names_distinct(r.headers@) ==> hs.to_multiset() == header_views(r).to_multiset()
            &&& t == "Response {"@ + decimal(r.code as nat) + ", "@ + header_pieces(hs) + body_text(r.body@) + "]"@
        }
}

/// `curl::http::Response`'s `Display`, of the response rebuilt from the
/// library's copy. The contract states curl's format; the order of the headers
/// is the hash map's, which is left open, and where two headers share a name
/// the map keeps one of them, so only that each printed header is one of the
/// response's is stated then.
#[verifier::external_body]
fn http_response_text(r: &HttpResponse) -> (t: String)
    ensures
        response_text(*r, t@),
{
    let headers: std::collections::HashMap<String, Vec<String>> = r.headers.iter().cloned().collect();
    curl::http::Response::new(r.code, headers, r.body.clone()).to_string()
}

/// The text of a semantic-version error, as `semver` displays it.
pub open spec fn semver_text(e: SemverParseError) -> Seq<char> {
    match e {
        SemverParseError::IncorrectParse(v, s) => semver_description(e) + ": "@ + version_text(v)
            + " could not be parsed from "@ + str_debug(s@),
        _ => semver_description(e),
    }
}

/// Whether `s` is the text that shows the error: the library's own message for
/// its own errors, the display of the error it carries otherwise. Of an HTTP
/// error's text only the order of its headers is left open.
pub open spec fn displays_as(e: Error, s: String) -> bool {
    match e {
        Error::ManifestName(_) => s@ == "error extracting crate name from manifest"@,
        Error::SemverError(p) => s@ == semver_text(p),
        Error::TomlError(_) => s@ == "error parsing TOML"@,
        Error::IoError(x) => to_string_from_display_ensures(&x, s),
        Error::CurlError(c) => to_string_from_display_ensures(&c, s),
        Error::HttpError(r) => response_text(r, s@),
        Error::Utf8Error(x) => to_string_from_display_ensures(&x, s),
        Error::JsonDecode(x) => to_string_from_display_ensures(&x, s),
        Error::RecvError(x) => to_string_from_display_ensures(&x, s),
        Error::NoCrateVersions => s@ == "crate has no published versions"@,
        Error::FromUtf8Error(x) => to_string_from_display_ensures(&x, s),
        Error::ProcessError(t) => s@ == t@,
    }
}

/// The short description of an error kind, for the library's own errors.
pub open spec fn own_description(e: Error) -> Option<Seq<char>> {
    match e {
        Error::ManifestName(_) => Some("error extracting crate name from manifest"@),
        Error::SemverError(p) => Some(semver_description(p)),
        Error::TomlError(_) => Some("error parsing TOML"@),
        Error::CurlError(_) => Some("curl error"@),
        Error::HttpError(_) => Some("HTTP error"@),
        Error::NoCrateVersions => Some("crate has no published versions"@),
        Error::ProcessError(_) => Some("unexpected subprocess failure"@),
        _ => None,
    }
}

impl Error {
    /// A short description of the error: the library's own words for its own
    /// errors, the carried error's description otherwise.
    pub fn description(&self) -> (s: String)
        ensures
            own_description(*self) matches Some(d) ==> s@ == d,
    {
        match self {
            Error::ManifestName(_) => String::from_str("error extracting crate name from manifest"),
            Error::SemverError(SemverParseError::NonAsciiIdentifier) => String::from_str(
                "identifiers can only contain ascii characters",
            ),
            Error::SemverError(_) => String::from_str("failed to parse semver from string"),
            Error::TomlError(_) => String::from_str("error parsing TOML"),
            Error::IoError(e) => io_description(e),
            Error::CurlError(_) => String::from_str("curl error"),
            Error::HttpError(_) => String::from_str("HTTP error"),
            Error::Utf8Error(e) => utf8_description(e),
            Error::JsonDecode(e) => json_description(e),
            Error::RecvError(e) => recv_description(e),
            Error::NoCrateVersions => String::from_str("crate has no published versions"),
            Error::FromUtf8Error(e) => from_utf8_description(e),
            Error::ProcessError(_) => String::from_str("unexpected subprocess failure"),
        }
    }

    /// The text that shows the error, as its `Display` would.
    pub fn to_string(&self) -> (s: String)
        ensures
            displays_as(*self, s),
    {
        match self {
            Error::ManifestName(_) => String::from_str("error extracting crate name from manifest"),
            Error::SemverError(p) => match p {
                SemverParseError::IncorrectParse(v, t) => {
                    let mut s = String::from_str("failed to parse semver from string");
                    s.append(": ");
                    let vt = v.to_string();
                    s.append(vt.as_str());
                    s.append(" could not be parsed from ");
                    let d = debug_text(t.as_str());
                    s.append(d.as_str());
                    s
                },
                SemverParseError::NonAsciiIdentifier => String::from_str(
                    "identifiers can only contain ascii characters",
                ),
                SemverParseError::GenericFailure => String::from_str(
                    "failed to parse semver from string",
                ),
            },
            Error::TomlError(_) => String::from_str("error parsing TOML"),
            Error::IoError(e) => e.to_string(),
            Error::CurlError(c) => c.to_string(),
            Error::HttpError(r) => http_response_text(r),
            Error::Utf8Error(e) => e.to_string(),
            Error::JsonDecode(e) => e.to_string(),
            Error::RecvError(e) => e.to_string(),
            Error::NoCrateVersions => String::from_str("crate has no published versions"),
            Error::FromUtf8Error(e) => e.to_string(),
            Error::ProcessError(t) => t.clone(),
        }
    }
}

} // verus!
