use vstd::prelude::*;

use crate::error::{Error, HttpResponse};
use crate::testing::RevDep;
use crate::text::{decimal, string_from_utf8, u64_to_string};
use crate::version::{Version, is_last_greatest, latest_version, parse_version, semver_parse};
use vstd::utf8::{decode_utf8, valid_utf8};

verus! {

/// The registry's API address for a crate, with an optional call appended.
pub open spec fn crate_url_text(krate: Seq<char>, call: Option<Seq<char>>) -> Seq<char> {
    let url = "https://crates.io/api/v1/crates/"@ + krate;
    match call {
        Some(c) => url + "/"@ + c,
        None => url,
    }
}

/// The address of a crate in the registry's API, or of a call on it.
pub fn crate_url(krate: &str, call: Option<&str>) -> (url: String)
    ensures
        url@ == crate_url_text(krate@, match call {
            Some(c) => Some(c@),
            None => None,
        }),
{
    let mut url = String::from_str("https://crates.io/api/v1/crates/");
    url.append(krate);
    match call {
        Some(c) => {
            url.append("/");
            url.append(c);
            url
        },
        None => url,
    }
}

/// Law: the address of a call on a crate is the crate's address, a slash and the call.
pub proof fn lemma_crate_url_call(krate: Seq<char>, call: Seq<char>)
    ensures
        crate_url_text(krate, Some(call)) == crate_url_text(krate, None) + "/"@ + call,
{
}

/// The text of a fetched body: the fetch's own error, or the body decoded as
/// UTF-8, or the decoding error.
pub fn http_get_to_string(fetched: Result<Vec<u8>, Error>) -> (r: Result<String, Error>)
    ensures
        fetched is Err ==> r == Err::<String, Error>(fetched->Err_0),
        fetched matches Ok(bytes) ==> (r is Ok <==> valid_utf8(bytes@)),
        fetched matches Ok(bytes) ==> (r matches Ok(s) ==> s@ == decode_utf8(bytes@)),
        fetched matches Ok(bytes) && !valid_utf8(bytes@) ==> r matches Err(Error::FromUtf8Error(_)),
{
    match fetched {
        Err(e) => Err(e),
        Ok(bytes) => match string_from_utf8(bytes) {
            Ok(s) => Ok(s),
            Err(e) => Err(Error::FromUtf8Error(e)),
        },
    }
}

/// The values of the first header of this name.
pub open spec fn header_values(headers: Seq<(String, Vec<String>)>, name: Seq<char>) -> Option<Vec<String>>
    decreases headers.len(),
{
    if headers.len() == 0 {
        None
    } else if headers[0].0@ == name {
        Some(headers[0].1)
    } else {
        header_values(headers.drop_first(), name)
    }
}

/// Whether no header name occurs twice in an answer (curl keeps them in a map).
pub open spec fn header_names_distinct(headers: Seq<(String, Vec<String>)>) -> bool {
    forall|i: int, j: int| 0 <= i < j < headers.len() ==> headers[i].0@ != headers[j].0@
}

/// Where a 302 answer sends the client: the first value of its `location` header.
pub open spec fn redirect_target(resp: HttpResponse) -> Option<String> {
    match header_values(resp.headers@, "location"@) {
        Some(vs) => if vs@.len() > 0 {
            Some(vs@[0])
        } else {
            None
        },
        None => None,
    }
}

/// What to do next while fetching a document.
pub enum HttpAction {
    /// Send a GET request to this address.
    Get(String),
    /// The fetch is over: the body, or why there is none.
    Finish(Result<Vec<u8>, Error>),
}

/// Starts fetching the document at `url`.
pub fn http_get_bytes(url: String) -> (a: HttpAction)
    ensures
        a == HttpAction::Get(url),
{
    HttpAction::Get(url)
}

fn find_location(headers: &Vec<(String, Vec<String>)>) -> (r: Option<String>)
    ensures
        match header_values(headers@, "location"@) {
            Some(vs) => if vs@.len() > 0 {
                r matches Some(s) && s@ == vs@[0]@
            } else {
                r is None
            },
            None => r is None,
        },
{
    let name = String::from_str("location");
    let mut i: usize = 0;
    assert(headers@.skip(0) =~= headers@);
    while i < headers.len()
        invariant
            i <= headers@.len(),
            name@ == "location"@,
            header_values(headers@, "location"@) == header_values(headers@.skip(i as int), "location"@),
        decreases headers@.len() - i,
    {
        assert(headers@.skip(i as int)[0] == headers@[i as int]);
        assert(headers@.skip(i as int).drop_first() =~= headers@.skip(i + 1));
        if headers[i].0 == name {
            if headers[i].1.len() > 0 {
                return Some(headers[i].1[0].clone());
            } else {
                return None;
            }
        }
        i = i + 1;
    }
    None
}

/// How one answer while fetching a document decides what comes next.
pub open spec fn http_step_taken(
    redirected: bool,
    outcome: Result<HttpResponse, curl::ErrCode>,
    a: HttpAction,
) -> bool {
    match outcome {
        Err(c) => a == HttpAction::Finish(Err(Error::CurlError(c))),
        Ok(resp) => if resp.code == 302 && !redirected && redirect_target(resp) is Some {
            a matches HttpAction::Get(u) && u@ == redirect_target(resp)->0@
        } else if resp.code == 200 {
            a == HttpAction::Finish(Ok(resp.body))
        } else {
            a == HttpAction::Finish(Err(Error::HttpError(resp)))
        },
    }
}

/// Takes one step of fetching a document, given the answer to the last request:
/// a transport error ends the fetch with that error; a 200 answer ends it with
/// its body; a 302 answer to the first request is followed once, to the first
/// value of its `location` header, and is an error where it has none; any other
/// answer, and any answer but 200 to the followed request, ends the fetch with an
/// HTTP error that holds the answer.
pub fn http_get_bytes_step(redirected: bool, outcome: Result<HttpResponse, curl::ErrCode>) -> (a: HttpAction)
    requires
        outcome matches Ok(resp) ==> header_names_distinct(resp.headers@),
    ensures
        http_step_taken(redirected, outcome, a),
{
    match outcome {
        Err(c) => HttpAction::Finish(Err(Error::CurlError(c))),
        Ok(resp) => {
            if resp.code == 302 && !redirected {
                match find_location(&resp.headers) {
                    Some(url) => HttpAction::Get(url),
                    None => HttpAction::Finish(Err(Error::HttpError(resp))),
                }
            } else if resp.code != 200 {
                HttpAction::Finish(Err(Error::HttpError(resp)))
            } else {
                HttpAction::Finish(Ok(resp.body))
            }
        },
    }
}

/// Law: only a 200 answer gives a document, and it is that answer's body; an
/// answer is followed only when it is a 302 to the first request; every other
/// answer the server gives ends the fetch with an HTTP error that holds it, and
/// a transport failure ends it with curl's error.
pub proof fn lemma_http_body_only_on_200(
    redirected: bool,
    outcome: Result<HttpResponse, curl::ErrCode>,
    a: HttpAction,
)
    requires
        http_step_taken(redirected, outcome, a),
    ensures
        a matches HttpAction::Finish(Ok(body)) ==> (outcome is Ok && outcome->Ok_0.code == 200
            && body == outcome->Ok_0.body),
        (outcome is Ok && outcome->Ok_0.code == 200) ==> a == HttpAction::Finish(
            Ok(outcome->Ok_0.body),
        ),
        a is Get ==> (outcome is Ok && outcome->Ok_0.code == 302 && !redirected),
        (outcome is Ok && outcome->Ok_0.code != 200 && outcome->Ok_0.code != 302) ==> a
            == HttpAction::Finish(Err(Error::HttpError(outcome->Ok_0))),
        (outcome is Ok && outcome->Ok_0.code == 302 && redirected) ==> a == HttpAction::Finish(
            Err(Error::HttpError(outcome->Ok_0)),
        ),
        (outcome is Ok && outcome->Ok_0.code == 302 && !redirected) ==> (a is Get || a
            == HttpAction::Finish(Err(Error::HttpError(outcome->Ok_0)))),
        outcome is Err ==> a == HttpAction::Finish(Err(Error::CurlError(outcome->Err_0))),
{
}

/// Law: a fetch follows at most one redirect; once redirected, every answer ends it.
pub proof fn lemma_http_redirect_once(outcome: Result<HttpResponse, curl::ErrCode>, a: HttpAction)
    requires
        http_step_taken(true, outcome, a),
    ensures
        a is Finish,
{
}

/// One dependency record in the registry's answer.
pub struct Dep {
    pub crate_id: String,
}

/// One page of the registry's answer to a reverse-dependencies query: the
/// dependencies on this page, and how many there are on all pages together
/// where the answer says so.
pub struct RevDepsResponse {
    pub dependencies: Vec<Dep>,
    pub total: Option<u64>,
}

/// One version record of a crate in the registry.
pub struct RegistryVersion {
    pub num: String,
}

/// The registry's record of a crate: its published versions.
pub struct RegistryCrate {
    pub versions: Vec<RegistryVersion>,
}

/// The names of the crates that a reverse-dependencies answer lists, in its order.
pub fn parse_rev_deps(decoded: Result<RevDepsResponse, Error>) -> (r: Result<Vec<String>, Error>)
    ensures
        decoded is Err <==> r is Err,
        decoded is Err ==> r == Err::<Vec<String>, Error>(decoded->Err_0),
        decoded matches Ok(d) ==> (r matches Ok(names) && names@.len() == d.dependencies@.len()
            && forall|i: int|
            0 <= i < names@.len() ==> #[trigger] names@[i]@ == d.dependencies@[i].crate_id@),
{
    match decoded {
        Err(e) => Err(e),
        Ok(d) => {
            let mut names: Vec<String> = Vec::new();
            let mut i: usize = 0;
            while i < d.dependencies.len()
                invariant
                    i <= d.dependencies@.len(),
                    names@.len() == i,
                    forall|j: int| 0 <= j < i ==> #[trigger] names@[j]@ == d.dependencies@[j].crate_id@,
                decreases d.dependencies@.len() - i,
            {
                names.push(d.dependencies[i].crate_id.clone());
                i = i + 1;
            }
            Ok(names)
        },
    }
}

/// The versions of a registry record that `semver` parses, in the record's order.
pub open spec fn parsed_versions(records: Seq<RegistryVersion>) -> Seq<Version>
    decreases records.len(),
{
    if records.len() == 0 {
        Seq::empty()
    } else {
        let before = parsed_versions(records.drop_last());
        match semver_parse(records.last().num@) {
            Some(v) => before.push(v),
            None => before,
        }
    }
}

/// The outcome of picking the newest of the parsed versions of the named crate.
pub open spec fn resolved_from(name: String, vs: Seq<Version>, r: Result<RevDep, Error>) -> bool {
    match r {
        Ok(rd) => vs.len() != 0 && rd.name == name && exists|i: int|
            is_last_greatest(vs, i) && vs[i] == rd.vers,
        Err(e) => vs.len() == 0 && e is NoCrateVersions,
    }
}

/// The newest version of the named crate, given its registry record: of the
/// versions in the record that parse, the one that sorting them in `semver`'s
/// order puts last. No version that parses is an error.
pub fn newest_rev_dep(name: String, k: RegistryCrate) -> (r: Result<RevDep, Error>)
    ensures
        resolved_from(name, parsed_versions(k.versions@), r),
{
        {
            let mut vs: Vec<Version> = Vec::new();
            let mut i: usize = 0;
            while i < k.versions.len()
                invariant
                    i <= k.versions@.len(),
                    vs@ == parsed_versions(k.versions@.take(i as int)),
                decreases k.versions@.len() - i,
            {
                assert(k.versions@.take(i + 1).drop_last() =~= k.versions@.take(i as int));
                match parse_version(k.versions[i].num.as_str()) {
                    Some(v) => vs.push(v),
                    None => {},
                }
                i = i + 1;
            }
            assert(k.versions@.take(k.versions@.len() as int) =~= k.versions@);
            match latest_version(vs) {
                Some(v) => Ok(RevDep { name, vers: v }),
                None => Err(Error::NoCrateVersions),
            }
        }
}

/// What came of the work that a registry query asked for.
pub enum RegistryEvent<D> {
    /// The query has not begun.
    Start,
    /// The answer's body was fetched, or why it was not.
    Fetched(Result<Vec<u8>, Error>),
    /// The answer's text was decoded, or why it was not.
    Decoded(Result<D, Error>),
}

/// What to do next in a registry query.
pub enum RegistryAction<T> {
    /// Print the status line, if any, then fetch the document at `url`.
    Fetch { status: Option<String>, url: String },
    /// Decode this JSON text.
    Decode(String),
    /// The query is over: print the status line, if any; this is its result.
    Finish { status: Option<String>, result: Result<T, Error> },
}

/// How a fetched body leads on: its text is to be decoded, or the query ends with
/// the fetch's error or the decoding error.
pub open spec fn after_fetch<T>(fetched: Result<Vec<u8>, Error>, a: RegistryAction<T>) -> bool {
    match fetched {
        Err(e) => a == (RegistryAction::<T>::Finish { status: None, result: Err(e) }),
        Ok(bytes) => if valid_utf8(bytes@) {
            a matches RegistryAction::Decode(t) && t@ == decode_utf8(bytes@)
        } else {
            a matches RegistryAction::Finish { status: None, result: Err(Error::FromUtf8Error(_)) }
        },
    }
}

fn text_or_finish<T>(fetched: Result<Vec<u8>, Error>) -> (a: RegistryAction<T>)
    ensures
        after_fetch(fetched, a),
{
    match http_get_to_string(fetched) {
        Ok(text) => RegistryAction::Decode(text),
        Err(e) => RegistryAction::Finish { status: None, result: Err(e) },
    }
}

/// The status line that opens a reverse-dependencies query.
pub open spec fn downloading_status(crate_name: Seq<char>) -> Seq<char> {
    "downloading reverse deps for "@ + crate_name
}

/// The status line that reports how many reverse dependencies were found.
pub open spec fn count_status(n: nat) -> Seq<char> {
    decimal(n) + " reverse deps"@
}

/// How many dependencies the query asks the registry for on each page.
pub open spec fn per_page() -> nat {
    100
}

/// The call that asks for one page of a crate's reverse dependencies.
pub open spec fn rev_deps_call(page: nat) -> Seq<char> {
    "reverse_dependencies?page="@ + decimal(page) + "&per_page=100"@
}

/// The text of each name in a list.
pub open spec fn texts(v: Seq<String>) -> Seq<Seq<char>> {
    v.map_values(|s: String| s@)
}

/// The names of the crates listed on one page of the registry's answer.
pub open spec fn page_names(d: RevDepsResponse) -> Seq<Seq<char>> {
    d.dependencies@.map_values(|x: Dep| x.crate_id@)
}

/// How far a reverse-dependencies query has got: the names listed so far, and
/// the page asked for last.
pub struct RevDepsQuery {
    pub listed: Vec<String>,
    pub page: u64,
}

/// Whether the query is over once this page is listed: the answer gives no
/// count of dependents, so it is all there is, or every dependent the registry
/// counts is listed, or the page was empty, or no further page can be numbered.
pub open spec fn rev_deps_complete(q: RevDepsQuery, d: RevDepsResponse) -> bool {
    ||| d.dependencies@.len() == 0
    ||| d.total is None
    ||| (d.total matches Some(t) && texts(q.listed@).len() + page_names(d).len() >= t)
    ||| q.page == u64::MAX
}

/// How one step of a reverse-dependencies query goes.
pub open spec fn rev_deps_step_taken(
    crate_name: Seq<char>,
    q: RevDepsQuery,
    event: RegistryEvent<RevDepsResponse>,
    next: (RevDepsQuery, RegistryAction<Vec<String>>),
) -> bool {
    match event {
        RegistryEvent::Start => {
            &&& next.0.listed@.len() == 0
            &&& next.0.page == 1
            &&& next.1 matches RegistryAction::Fetch { status: Some(st), url }
            &&& st@ == downloading_status(crate_name)
            &&& url@ == crate_url_text(crate_name, Some(rev_deps_call(1)))
        },
        RegistryEvent::Fetched(f) => next.0 == q && after_fetch(f, next.1),
        RegistryEvent::Decoded(Err(e)) => next.1 == (RegistryAction::<Vec<String>>::Finish {
            status: None,
            result: Err(e),
        }),
        RegistryEvent::Decoded(Ok(d)) => if rev_deps_complete(q, d) {
            &&& next.1 matches RegistryAction::Finish { status: Some(st), result: Ok(names) }
            &&& texts(names@) == texts(q.listed@) + page_names(d)
            &&& st@ == count_status(names@.len())
        } else {
            &&& texts(next.0.listed@) == texts(q.listed@) + page_names(d)
            &&& next.0.page == q.page + 1
            &&& next.1 matches RegistryAction::Fetch { status: None, url }
            &&& url@ == crate_url_text(crate_name, Some(rev_deps_call((q.page + 1) as nat)))
        },
    }
}

/// Law: a reverse-dependencies query lists every dependent. Each decoded page
/// adds its names, in order, to those listed before; the query goes on to the
/// next page only while the answer gives a count, fewer dependents are listed
/// than it counts, and the page was not empty, so each further page lists more names and the
/// query asks for at most as many pages as there are dependents, plus one. When
/// it ends, it gives all the names listed.
pub proof fn lemma_rev_deps_pages(
    crate_name: Seq<char>,
    q: RevDepsQuery,
    d: RevDepsResponse,
    next: (RevDepsQuery, RegistryAction<Vec<String>>),
)
    requires
        rev_deps_step_taken(crate_name, q, RegistryEvent::Decoded(Ok(d)), next),
    ensures
        next.1 is Fetch ==> texts(next.0.listed@).len() > texts(q.listed@).len() && (d.total matches Some(
            t,
        ) && texts(next.0.listed@).len() < t) && texts(next.0.listed@).subrange(
            0,
            texts(q.listed@).len() as int,
        ) == texts(q.listed@),
        next.1 matches RegistryAction::Finish { result: Ok(names), .. } ==> texts(names@) == texts(
            q.listed@,
        ) + page_names(d),
        next.1 is Finish ==> rev_deps_complete(q, d),
{
    if next.1 is Fetch {
        assert(texts(next.0.listed@).subrange(0, texts(q.listed@).len() as int) =~= texts(q.listed@));
    }
}

/// Finds every crate that depends on `crate_name`, one step at a time: announce
/// the query, then fetch the registry's reverse-dependencies pages one after the
/// other, decode each and add its names, until all the dependents the registry
/// counts are listed; then announce their number.
pub fn get_rev_deps(crate_name: &str, query: RevDepsQuery, event: RegistryEvent<RevDepsResponse>) -> (next: (
    RevDepsQuery,
    RegistryAction<Vec<String>>,
))
    ensures
        rev_deps_step_taken(crate_name@, query, event, next),
{
    match event {
        RegistryEvent::Start => {
            let mut st = String::from_str("downloading reverse deps for ");
            st.append(crate_name);
            let url = crate_url(crate_name, Some(rev_deps_page_call(1).as_str()));
            (RevDepsQuery { listed: Vec::new(), page: 1 }, RegistryAction::Fetch { status: Some(st), url })
        },
        RegistryEvent::Fetched(f) => (query, text_or_finish(f)),
        RegistryEvent::Decoded(Err(e)) => (query, RegistryAction::Finish { status: None, result: Err(e) }),
        RegistryEvent::Decoded(Ok(d)) => {
            let ghost before = texts(query.listed@);
            let ghost page = page_names(d);
            let empty = d.dependencies.len() == 0;
            let total = d.total;
            let mut listed = query.listed;
            let parsed = parse_rev_deps(Ok(d));
            let mut names = match parsed {
                Ok(names) => names,
                Err(_) => Vec::new(),
            };
            assert(texts(names@) =~= page);
            listed.append(&mut names);
            assert(texts(listed@) =~= before + page);
            let counted = match total {
                None => true,
                Some(t) => listed.len() as u64 >= t,
            };
            if empty || counted || query.page == u64::MAX {
                let mut st = u64_to_string(listed.len() as u64);
                st.append(" reverse deps");
                let q = RevDepsQuery { listed: Vec::new(), page: query.page };
                (q, RegistryAction::Finish { status: Some(st), result: Ok(listed) })
            } else {
                let page = query.page + 1;
                let url = crate_url(crate_name, Some(rev_deps_page_call(page).as_str()));
                (RevDepsQuery { listed, page }, RegistryAction::Fetch { status: None, url })
            }
        },
    }
}

/// The call that asks for one page of reverse dependencies.
fn rev_deps_page_call(page: u64) -> (c: String)
    ensures
        c@ == rev_deps_call(page as nat),
{
    let mut c = String::from_str("reverse_dependencies?page=");
    let n = u64_to_string(page);
    c.append(n.as_str());
    c.append("&per_page=100");
    c
}

/// How one step of looking up the newest version of a crate goes.
pub open spec fn resolve_step_taken(
    name: String,
    event: RegistryEvent<RegistryCrate>,
    a: RegistryAction<RevDep>,
) -> bool {
    match event {
        RegistryEvent::Start => match a {
            RegistryAction::Fetch { status: None, url } => url@ == crate_url_text(name@, None),
            _ => false,
        },
        RegistryEvent::Fetched(f) => after_fetch(f, a),
        RegistryEvent::Decoded(Err(e)) => a == (RegistryAction::<RevDep>::Finish {
            status: None,
            result: Err(e),
        }),
        RegistryEvent::Decoded(Ok(k)) => match a {
            RegistryAction::Finish { status: None, result: r } => resolved_from(
                name,
                parsed_versions(k.versions@),
                r,
            ),
            _ => false,
        },
    }
}

/// Finds the newest published version of the named crate, one step at a time:
/// fetch the crate's registry record, decode its text, and pick the newest
/// version that parses.
pub fn resolve_rev_dep_version(name: String, event: RegistryEvent<RegistryCrate>) -> (a: RegistryAction<RevDep>)
    ensures
        resolve_step_taken(name, event, a),
{
    match event {
        RegistryEvent::Start => {
            let url = crate_url(name.as_str(), None);
            RegistryAction::Fetch { status: None, url }
        },
        RegistryEvent::Fetched(f) => text_or_finish(f),
        RegistryEvent::Decoded(Err(e)) => RegistryAction::Finish { status: None, result: Err(e) },
        RegistryEvent::Decoded(Ok(k)) => RegistryAction::Finish {
            status: None,
            result: newest_rev_dep(name, k),
        },
    }
}

} // verus!
