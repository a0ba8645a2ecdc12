use vstd::prelude::*;

use crate::error::{Error, TomlParseError};
use crate::testing::{Config, CrateOverride};

verus! {

/// A TOML value, as the `toml` crate parses it. A float's value plays no part in
/// anything the library reads, so only its kind is kept.
pub enum TomlValue {
    String(String),
    Integer(i64),
    Float,
    Boolean(bool),
    Datetime(String),
    Array(Vec<TomlValue>),
    Table(TomlTable),
}

/// A TOML table: its keys, each once, in increasing order, with their values.
pub struct TomlTable {
    pub entries: Vec<(String, TomlValue)>,
}

/// Whether no key occurs twice among the entries.
pub open spec fn keys_distinct(entries: Seq<(String, TomlValue)>) -> bool {
    forall|i: int, j: int| 0 <= i < j < entries.len() ==> entries[i].0@ != entries[j].0@
}

/// The rule of a parsed TOML value: in each table, at any depth, no key occurs
/// twice (the parser keeps its tables in maps).
pub open spec fn value_wf(v: TomlValue) -> bool
    decreases v,
{
    match v {
        TomlValue::Array(a) => forall|i: int| 0 <= i < a@.len() ==> value_wf(#[trigger] a@[i]),
        TomlValue::Table(t) => keys_distinct(t.entries@) && forall|i: int|
            0 <= i < t.entries@.len() ==> value_wf(#[trigger] t.entries@[i].1),
        _ => true,
    }
}

/// The rule of a parsed TOML table: no key occurs twice in it or in any table
/// within it.
pub open spec fn table_wf(t: TomlTable) -> bool {
    keys_distinct(t.entries@) && forall|i: int|
        0 <= i < t.entries@.len() ==> value_wf(#[trigger] t.entries@[i].1)
}

/// What `toml::Parser::parse` makes of a text: the document's table, or the
/// errors that the parser collected.
pub uninterp spec fn toml_parse(text: Seq<char>) -> Result<TomlTable, Vec<TomlParseError>>;

/// Declares `toml::Value`, which the parser's result holds before it is copied.
#[verifier::external_type_specification]
#[verifier::external_body]
pub struct ExTomlValue(toml::Value);

/// Copies a value that `toml` parsed into the library's own type, variant by
/// variant, tables and arrays element by element.
#[verifier::external_body]
fn toml_value_from(v: toml::Value) -> TomlValue {
    match v {
        toml::Value::String(s) => TomlValue::String(s),
        toml::Value::Integer(n) => TomlValue::Integer(n),
        toml::Value::Float(_) => TomlValue::Float,
        toml::Value::Boolean(b) => TomlValue::Boolean(b),
        toml::Value::Datetime(d) => TomlValue::Datetime(d),
        toml::Value::Array(a) => TomlValue::Array(a.into_iter().map(toml_value_from).collect()),
        toml::Value::Table(t) => TomlValue::Table(
            TomlTable { entries: t.into_iter().map(|(k, v)| (k, toml_value_from(v))).collect() },
        ),
    }
}

/// Calls `toml::Parser::parse` on the text and copies the parsed table, or the
/// parser's errors, into the library's own types. Nothing is claimed of which
/// texts parse or what they parse to: the result is tied to the text by the
/// name `toml_parse`. The parser's tables are `BTreeMap`s, so no key occurs
/// twice in any table of the result.
#[verifier::external_body]
pub(crate) fn parse_toml(text: &str) -> (r: Result<TomlTable, Vec<TomlParseError>>)
    ensures
        r == toml_parse(text@),
        r matches Ok(t) ==> table_wf(t),
{
    let mut parser = toml::Parser::new(text);
    match parser.parse() {
        Some(t) => Ok(TomlTable { entries: t.into_iter().map(|(k, v)| (k, toml_value_from(v))).collect() }),
        None => Err(parser.errors.into_iter().map(|e| TomlParseError { lo: e.lo, hi: e.hi, desc: e.desc }).collect()),
    }
}

/// The value of the first entry with this key.
pub open spec fn table_get(entries: Seq<(String, TomlValue)>, key: Seq<char>) -> Option<TomlValue>
    decreases entries.len(),
{
    if entries.len() == 0 {
        None
    } else if entries[0].0@ == key {
        Some(entries[0].1)
    } else {
        table_get(entries.drop_first(), key)
    }
}

/// The value under a key of a table.
fn lookup<'a>(t: &'a TomlTable, key: &str) -> (r: Option<&'a TomlValue>)
    ensures
        r == match table_get(t.entries@, key@) {
            Some(v) => Some(&v),
            None => None::<&TomlValue>,
        },
{
    let k = String::from_str(key);
    let mut i: usize = 0;
    assert(t.entries@.skip(0) =~= t.entries@);
    while i < t.entries.len()
        invariant
            i <= t.entries@.len(),
            k@ == key@,
            table_get(t.entries@, key@) == table_get(t.entries@.skip(i as int), key@),
        decreases t.entries@.len() - i,
    {
        assert(t.entries@.skip(i as int)[0] == t.entries@[i as int]);
        assert(t.entries@.skip(i as int).drop_first() =~= t.entries@.skip(i + 1));
        if t.entries[i].0 == k {
            return Some(&t.entries[i].1);
        }
        i = i + 1;
    }
    None
}

/// The crate name a manifest gives: the string under `name` in the `package` table.
pub open spec fn package_name(t: TomlTable) -> Option<Seq<char>> {
    match table_get(t.entries@, "package"@) {
        Some(TomlValue::Table(p)) => match table_get(p.entries@, "name"@) {
            Some(TomlValue::String(s)) => Some(s@),
            _ => None,
        },
        _ => None,
    }
}

/// Where no key occurs twice, the value under a key is the one of the entry
/// that has it.
proof fn lemma_table_get_entry(entries: Seq<(String, TomlValue)>, i: int, key: Seq<char>)
    requires
        keys_distinct(entries),
        0 <= i < entries.len(),
        entries[i].0@ == key,
    ensures
        table_get(entries, key) == Some(entries[i].1),
    decreases entries.len(),
{
    if i > 0 {
        let rest = entries.drop_first();
        assert(rest[i - 1] == entries[i]);
        assert(keys_distinct(rest)) by {
            assert forall|a: int, b: int| 0 <= a < b < rest.len() implies rest[a].0@ != rest[b].0@ by {
                assert(rest[a] == entries[a + 1]);
                assert(rest[b] == entries[b + 1]);
            }
        }
        assert(entries[0].0@ != key);
        lemma_table_get_entry(rest, i - 1, key);
    }
}

/// A value found under a key is the value of an entry that has that key.
proof fn lemma_table_get_found(entries: Seq<(String, TomlValue)>, key: Seq<char>)
    ensures
        table_get(entries, key) matches Some(v) ==> exists|i: int|
            0 <= i < entries.len() && #[trigger] entries[i].0@ == key && entries[i].1 == v,
    decreases entries.len(),
{
    if entries.len() > 0 && entries[0].0@ != key {
        let rest = entries.drop_first();
        lemma_table_get_found(rest, key);
        if let Some(v) = table_get(entries, key) {
            let i = choose|i: int| 0 <= i < rest.len() && #[trigger] rest[i].0@ == key && rest[i].1 == v;
            assert(entries[i + 1] == rest[i]);
        }
    }
}

/// Law: the crate's name is the string under the key `name` of the table under
/// the key `package`, whatever else the manifest holds: where the manifest has
/// such an entry, its string is the name.
pub proof fn lemma_crate_name_is_package_name(t: TomlTable, i: int, j: int)
    requires
        table_wf(t),
        0 <= i < t.entries@.len(),
        t.entries@[i].0@ == "package"@,
        t.entries@[i].1 is Table,
        0 <= j < t.entries@[i].1->Table_0.entries@.len(),
        t.entries@[i].1->Table_0.entries@[j].0@ == "name"@,
        t.entries@[i].1->Table_0.entries@[j].1 is String,
    ensures
        package_name(t) == Some(t.entries@[i].1->Table_0.entries@[j].1->String_0@),
{
    let p = t.entries@[i].1->Table_0;
    assert(value_wf(t.entries@[i].1));
    lemma_table_get_entry(t.entries@, i, "package"@);
    lemma_table_get_entry(p.entries@, j, "name"@);
}

/// Law: a name found in a manifest is a string under the key `name` of a table
/// under the key `package`; no other entry can give it.
pub proof fn lemma_crate_name_from_package(t: TomlTable)
    ensures
        package_name(t) matches Some(n) ==> exists|i: int, j: int|
            {
                &&& 0 <= i < t.entries@.len()
                &&& t.entries@[i].0@ == "package"@
                &&& t.entries@[i].1 is Table
                &&& 0 <= j < t.entries@[i].1->Table_0.entries@.len()
                &&& #[trigger] t.entries@[i].1->Table_0.entries@[j].0@ == "name"@
                &&& t.entries@[i].1->Table_0.entries@[j].1 is String
                &&& t.entries@[i].1->Table_0.entries@[j].1->String_0@ == n
            },
{
    lemma_table_get_found(t.entries@, "package"@);
    if let Some(TomlValue::Table(p)) = table_get(t.entries@, "package"@) {
        lemma_table_get_found(p.entries@, "name"@);
        if let Some(TomlValue::String(s)) = table_get(p.entries@, "name"@) {
            let i = choose|i: int|
                0 <= i < t.entries@.len() && #[trigger] t.entries@[i].0@ == "package"@
                    && t.entries@[i].1 == TomlValue::Table(p);
            let j = choose|j: int|
                0 <= j < p.entries@.len() && #[trigger] p.entries@[j].0@ == "name"@
                    && p.entries@[j].1 == TomlValue::String(s);
            assert(t.entries@[i].1->Table_0.entries@[j].0@ == "name"@);
        }
    }
}

/// The crate's name from its parsed manifest: a manifest that did not parse gives
/// the parser's errors; one without a `package.name` string is an error that
/// names the manifest.
pub fn crate_name_from_toml(manifest_path: &str, parsed: Result<TomlTable, Vec<TomlParseError>>) -> (r: Result<String, Error>)
    requires
        parsed matches Ok(t) ==> table_wf(t),
    ensures
        parsed matches Err(errs) ==> r == Err::<String, Error>(Error::TomlError(errs)),
        parsed matches Ok(t) ==> match package_name(t) {
            Some(name) => r matches Ok(s) && s@ == name,
            None => r matches Err(Error::ManifestName(p)) && p@ == manifest_path@,
        },
{
    match parsed {
        Err(errs) => Err(Error::TomlError(errs)),
        Ok(t) => {
            match lookup(&t, "package") {
                Some(TomlValue::Table(p)) => match lookup(p, "name") {
                    Some(TomlValue::String(s)) => Ok(s.clone()),
                    _ => Err(Error::ManifestName(String::from_str(manifest_path))),
                },
                _ => Err(Error::ManifestName(String::from_str(manifest_path))),
            }
        },
    }
}

/// The crate's name from the text of its manifest, or why it cannot be had:
/// the manifest could not be read, did not parse, or has no `package.name` string.
pub fn get_crate_name(manifest_path: &str, loaded: Result<String, Error>) -> (r: Result<String, Error>)
    ensures
        crate_name_outcome(manifest_path@, loaded, match r {
            Ok(s) => Ok(s@),
            Err(e) => Err(e),
        }),
{
    match loaded {
        Err(e) => Err(e),
        Ok(text) => crate_name_from_toml(manifest_path, parse_toml(text.as_str())),
    }
}

/// The manifest of the crate under test: the one the environment names, else
/// `./Cargo.toml`.
pub fn manifest_path(from_env: Option<String>) -> (p: String)
    ensures
        from_env matches Some(s) ==> p == s,
        from_env is None ==> p@ == "./Cargo.toml"@,
{
    match from_env {
        Some(s) => s,
        None => String::from_str("./Cargo.toml"),
    }
}

/// What the crate's name from a manifest comes to: the name, or the error.
pub open spec fn crate_name_outcome(
    manifest_path: Seq<char>,
    loaded: Result<String, Error>,
    r: Result<Seq<char>, Error>,
) -> bool {
    match loaded {
        Err(e) => r == Err::<Seq<char>, Error>(e),
        Ok(text) => match toml_parse(text@) {
            Err(errs) => r == Err::<Seq<char>, Error>(Error::TomlError(errs)),
            Ok(t) => match package_name(t) {
                Some(name) => r == Ok::<Seq<char>, Error>(name),
                None => r matches Err(Error::ManifestName(p)) && p@ == manifest_path,
            },
        },
    }
}

/// The run's configuration, given the manifest's path and text: the crate's name
/// from the manifest, the published crate for the first build of each reverse
/// dependency, and the work in progress, by its manifest, for the second.
pub fn get_config(manifest_path: String, loaded: Result<String, Error>) -> (r: Result<Config, Error>)
    ensures
        crate_name_outcome(manifest_path@, loaded, match r {
            Ok(c) => Ok(c.crate_name@),
            Err(e) => Err(e),
        }),
        r matches Ok(c) ==> c.manifest_path@ == manifest_path@ && c.base_override is Default
            && c.next_override == CrateOverride::Source(manifest_path),
{
    let name = match get_crate_name(manifest_path.as_str(), loaded) {
        Ok(n) => n,
        Err(e) => return Err(e),
    };
    let path = manifest_path.clone();
    Ok(Config {
        manifest_path: path,
        crate_name: name,
        base_override: CrateOverride::Default,
        next_override: CrateOverride::Source(manifest_path),
    })
}

} // verus!
