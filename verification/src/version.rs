use vstd::prelude::*;

use crate::text::{bytes_lt, decimal, lemma_bytes_lt_irreflexive, lemma_bytes_lt_total,
    lemma_bytes_lt_transitive, push_char, u64_to_string};
use vstd::utf8::encode_utf8;

verus! {

/// An identifier in the pre-release or build part of a version.
#[derive(Debug)]
pub enum Identifier {
    Numeric(u64),
    AlphaNumeric(String),
}

/// A semantic version, as the `semver` crate parses it.
#[derive(Debug)]
pub struct Version {
    pub major: u64,
    pub minor: u64,
    pub patch: u64,
    pub pre: Vec<Identifier>,
    pub build: Vec<Identifier>,
}

/// What `semver::Version::parse` makes of a text, `None` where it refuses it.
pub uninterp spec fn semver_parse(text: Seq<char>) -> Option<Version>;

/// Calls `semver::Version::parse` and copies the parsed version into the
/// library's own type, field by field; a refusal becomes `None`. Nothing is
/// claimed of what the parser accepts: the result is only tied to the text by
/// the name `semver_parse`.
#[verifier::external_body]
pub(crate) fn parse_version(text: &str) -> (r: Option<Version>)
    ensures
        r == semver_parse(text@),
{
    let v = semver::Version::parse(text).ok()?;
    let conv = |i: semver::Identifier| match i {
        semver::Identifier::Numeric(n) => Identifier::Numeric(n),
        semver::Identifier::AlphaNumeric(s) => Identifier::AlphaNumeric(s),
    };
    let pre = v.pre.into_iter().map(conv).collect();
    let build = v.build.into_iter().map(conv).collect();
    Some(Version { major: v.major, minor: v.minor, patch: v.patch, pre, build })
}

/// The text of an identifier.
pub open spec fn identifier_text(i: Identifier) -> Seq<char> {
    match i {
        Identifier::Numeric(n) => decimal(n as nat),
        Identifier::AlphaNumeric(s) => s@,
    }
}

/// Identifiers joined by dots.
pub open spec fn joined(ids: Seq<Identifier>) -> Seq<char>
    decreases ids.len(),
{
    if ids.len() == 0 {
        Seq::empty()
    } else if ids.len() == 1 {
        identifier_text(ids[0])
    } else {
        joined(ids.drop_last()) + seq!['.'] + identifier_text(ids.last())
    }
}

/// A part of a version after its marker, or nothing where the part is empty.
pub open spec fn tagged(marker: char, ids: Seq<Identifier>) -> Seq<char> {
    if ids.len() == 0 {
        Seq::empty()
    } else {
        seq![marker] + joined(ids)
    }
}

/// How `semver` prints a version: `major.minor.patch`, then `-` and the pre-release
/// identifiers, then `+` and the build identifiers, each part only where it is
/// not empty.
pub open spec fn version_text(v: Version) -> Seq<char> {
    decimal(v.major as nat) + seq!['.'] + decimal(v.minor as nat) + seq!['.'] + decimal(
        v.patch as nat,
    ) + tagged('-', v.pre@) + tagged('+', v.build@)
}

/// Two identifiers that `semver` holds equal.
pub open spec fn ident_equiv(a: Identifier, b: Identifier) -> bool {
    match (a, b) {
        (Identifier::Numeric(x), Identifier::Numeric(y)) => x == y,
        (Identifier::AlphaNumeric(s), Identifier::AlphaNumeric(t)) => s@ == t@,
        _ => false,
    }
}

/// The order of identifiers: numbers by value before any alphanumeric one,
/// alphanumeric ones by their bytes.
pub open spec fn ident_lt(a: Identifier, b: Identifier) -> bool {
    match (a, b) {
        (Identifier::Numeric(x), Identifier::Numeric(y)) => x < y,
        (Identifier::Numeric(_), Identifier::AlphaNumeric(_)) => true,
        (Identifier::AlphaNumeric(_), Identifier::Numeric(_)) => false,
        (Identifier::AlphaNumeric(s), Identifier::AlphaNumeric(t)) => bytes_lt(
            encode_utf8(s@),
            encode_utf8(t@),
        ),
    }
}

/// Two lists of identifiers that compare equal element by element.
pub open spec fn idents_equiv(a: Seq<Identifier>, b: Seq<Identifier>) -> bool
    decreases a.len(),
{
    if a.len() == 0 {
        b.len() == 0
    } else if b.len() == 0 {
        false
    } else {
        ident_equiv(a[0], b[0]) && idents_equiv(a.drop_first(), b.drop_first())
    }
}

/// Lists of identifiers in lexicographic order.
pub open spec fn idents_lt(a: Seq<Identifier>, b: Seq<Identifier>) -> bool
    decreases a.len(),
{
    if a.len() == 0 {
        b.len() > 0
    } else if b.len() == 0 {
        false
    } else if ident_equiv(a[0], b[0]) {
        idents_lt(a.drop_first(), b.drop_first())
    } else {
        ident_lt(a[0], b[0])
    }
}

/// The order of pre-release parts: a version without one comes after every
/// version with one; otherwise the identifier lists are compared.
pub open spec fn pre_lt(a: Seq<Identifier>, b: Seq<Identifier>) -> bool {
    if a.len() == 0 {
        false
    } else if b.len() == 0 {
        true
    } else {
        idents_lt(a, b)
    }
}

/// `semver`'s order on versions: by major, minor and patch number, then by the
/// pre-release part; the build part plays no role.
pub open spec fn version_lt(a: Version, b: Version) -> bool {
    if a.major != b.major {
        a.major < b.major
    } else if a.minor != b.minor {
        a.minor < b.minor
    } else if a.patch != b.patch {
        a.patch < b.patch
    } else {
        pre_lt(a.pre@, b.pre@)
    }
}

/// Versions that `semver` holds equal: the same numbers and the same pre-release part.
pub open spec fn version_equiv(a: Version, b: Version) -> bool {
    &&& a.major == b.major
    &&& a.minor == b.minor
    &&& a.patch == b.patch
    &&& idents_equiv(a.pre@, b.pre@)
}

proof fn lemma_encode_injective(s: Seq<char>, t: Seq<char>)
    requires
        encode_utf8(s) == encode_utf8(t),
    ensures
        s == t,
{
    vstd::utf8::encode_utf8_decode_utf8(s);
    vstd::utf8::encode_utf8_decode_utf8(t);
}

proof fn lemma_ident_order(a: Identifier, b: Identifier, c: Identifier)
    ensures
        !ident_lt(a, a),
        ident_equiv(a, a),
        ident_lt(a, b) || ident_lt(b, a) || ident_equiv(a, b),
        ident_equiv(a, b) ==> ident_equiv(b, a) && !ident_lt(a, b),
        ident_equiv(a, b) ==> (ident_lt(a, c) == ident_lt(b, c)) && (ident_lt(c, a) == ident_lt(
            c,
            b,
        )) && (ident_equiv(a, c) == ident_equiv(b, c)),
        ident_lt(a, b) && ident_lt(b, c) ==> ident_lt(a, c),
{
    match a {
        Identifier::AlphaNumeric(s) => {
            lemma_bytes_lt_irreflexive(encode_utf8(s@));
            match b {
                Identifier::AlphaNumeric(t) => {
                    if s@ != t@ {
                        if encode_utf8(s@) == encode_utf8(t@) {
                            lemma_encode_injective(s@, t@);
                        }
                        lemma_bytes_lt_total(encode_utf8(s@), encode_utf8(t@));
                    }
                    match c {
                        Identifier::AlphaNumeric(u) => {
                            if ident_lt(a, b) && ident_lt(b, c) {
                                lemma_bytes_lt_transitive(
                                    encode_utf8(s@),
                                    encode_utf8(t@),
                                    encode_utf8(u@),
                                );
                            }
                        },
                        _ => {},
                    }
                },
                _ => {},
            }
        },
        _ => {},
    }
}

proof fn lemma_idents_order(a: Seq<Identifier>, b: Seq<Identifier>, c: Seq<Identifier>)
    ensures
        !idents_lt(a, a),
        idents_equiv(a, a),
        idents_lt(a, b) || idents_lt(b, a) || idents_equiv(a, b),
        idents_equiv(a, b) ==> idents_equiv(b, a) && !idents_lt(a, b),
        idents_equiv(a, b) ==> (idents_lt(a, c) == idents_lt(b, c)) && (idents_lt(c, a)
            == idents_lt(c, b)) && (idents_equiv(a, c) == idents_equiv(b, c)),
        idents_lt(a, b) && idents_lt(b, c) ==> idents_lt(a, c),
    decreases a.len(),
{
    if a.len() > 0 {
        if b.len() > 0 && c.len() > 0 {
            lemma_ident_order(a[0], b[0], c[0]);
            lemma_ident_order(b[0], c[0], a[0]);
            lemma_ident_order(c[0], a[0], b[0]);
            lemma_ident_order(b[0], a[0], c[0]);
            lemma_ident_order(a[0], c[0], b[0]);
            lemma_ident_order(c[0], b[0], a[0]);
            lemma_idents_order(a.drop_first(), b.drop_first(), c.drop_first());
        } else if b.len() > 0 {
            lemma_ident_order(a[0], b[0], b[0]);
            lemma_ident_order(b[0], a[0], a[0]);
            lemma_idents_order(a.drop_first(), b.drop_first(), b.drop_first());
        } else if c.len() > 0 {
            lemma_ident_order(a[0], c[0], c[0]);
            lemma_ident_order(c[0], a[0], a[0]);
            lemma_idents_order(a.drop_first(), a.drop_first(), c.drop_first());
        } else {
            lemma_ident_order(a[0], a[0], a[0]);
            lemma_idents_order(a.drop_first(), a.drop_first(), a.drop_first());
        }
    }
}

/// Law: `semver`'s order is a strict weak order. No version comes before itself
/// or before a version it is equal to; the order is transitive; of two versions
/// one comes before the other or they are equal; equal versions stand in the same
/// place with respect to any third one.
pub proof fn lemma_version_order(a: Version, b: Version, c: Version)
    ensures
        !version_lt(a, a),
        version_lt(a, b) || version_lt(b, a) || version_equiv(a, b),
        version_equiv(a, b) ==> !version_lt(a, b) && version_equiv(b, a),
        version_equiv(a, b) ==> (version_lt(a, c) == version_lt(b, c)) && (version_lt(c, a)
            == version_lt(c, b)),
        version_lt(a, b) && version_lt(b, c) ==> version_lt(a, c),
        version_lt(a, c) ==> version_lt(a, b) || version_lt(b, c),
{
    lemma_idents_order(a.pre@, b.pre@, c.pre@);
    lemma_idents_order(b.pre@, c.pre@, a.pre@);
    lemma_idents_order(c.pre@, a.pre@, b.pre@);
    lemma_idents_order(b.pre@, a.pre@, c.pre@);
    lemma_idents_order(a.pre@, c.pre@, b.pre@);
    lemma_idents_order(c.pre@, b.pre@, a.pre@);
}

impl Version {
    /// Version 0.0.0, with no pre-release or build identifiers.
    pub open spec fn is_zero(&self) -> bool {
        &&& self.major == 0
        &&& self.minor == 0
        &&& self.patch == 0
        &&& self.pre@.len() == 0
        &&& self.build@.len() == 0
    }

    /// Version 0.0.0, which stands for a crate whose version could not be found.
    pub fn zero() -> (v: Version)
        ensures
            v.is_zero(),
    {
        Version { major: 0, minor: 0, patch: 0, pre: Vec::new(), build: Vec::new() }
    }
}

impl Identifier {
    /// The identifier as `semver` prints it.
    pub fn to_string(&self) -> (s: String)
        ensures
            s@ == identifier_text(*self),
    {
        match self {
            Identifier::Numeric(n) => u64_to_string(*n),
            Identifier::AlphaNumeric(t) => t.clone(),
        }
    }
}

/// Appends the identifiers joined by dots after a marker, where there are any.
fn push_tagged(out: &mut String, marker: char, ids: &Vec<Identifier>)
    ensures
        final(out)@ == old(out)@ + tagged(marker, ids@),
{
    if ids.len() == 0 {
        assert(old(out)@ + tagged(marker, ids@) =~= old(out)@);
        return;
    }
    push_char(out, marker);
    let ghost start = out@;
    let mut i: usize = 0;
    while i < ids.len()
        invariant
            i <= ids@.len(),
            ids@.len() > 0,
            out@ == start + joined(ids@.take(i as int)),
        decreases ids@.len() - i,
    {
        if i > 0 {
            push_char(out, '.');
        }
        let t = ids[i].to_string();
        out.append(t.as_str());
        proof {
            let next = ids@.take(i + 1);
            assert(next.drop_last() =~= ids@.take(i as int));
            assert(next.last() == ids@[i as int]);
            if i == 0 {
                assert(ids@.take(0) =~= Seq::<Identifier>::empty());
            }
        }
        i = i + 1;
    }
    assert(ids@.take(ids@.len() as int) =~= ids@);
}

impl Version {
    /// The version as `semver` prints it, e.g. `1.2.3-beta.1+build.5`.
    pub fn to_string(&self) -> (s: String)
        ensures
            s@ == version_text(*self),
    {
        let mut s = u64_to_string(self.major);
        push_char(&mut s, '.');
        let minor = u64_to_string(self.minor);
        s.append(minor.as_str());
        push_char(&mut s, '.');
        let patch = u64_to_string(self.patch);
        s.append(patch.as_str());
        push_tagged(&mut s, '-', &self.pre);
        push_tagged(&mut s, '+', &self.build);
        s
    }
}

/// Compares two versions with `semver`'s `<`, after copying each into a
/// `semver::Version` field by field. The contract states the order that
/// `semver`'s `Ord` implements: major, minor and patch numbers, then the
/// pre-release identifiers (no pre-release part ranks highest), the build part
/// ignored.
#[verifier::external_body]
pub(crate) fn semver_lt(a: &Version, b: &Version) -> (r: bool)
    ensures
        r == version_lt(*a, *b),
{
    let id = |i: &Identifier| match i {
        Identifier::Numeric(n) => semver::Identifier::Numeric(*n),
        Identifier::AlphaNumeric(s) => semver::Identifier::AlphaNumeric(s.clone()),
    };
    let sv = |v: &Version| semver::Version {
        major: v.major, minor: v.minor, patch: v.patch,
        pre: v.pre.iter().map(id).collect(), build: v.build.iter().map(id).collect(),
    };
    sv(a) < sv(b)
}

/// Whether position `k` holds the version that sorting the list in `semver`'s
/// order (a stable sort) puts last: no version of the list comes after it, and
/// every version further down the list comes before it.
pub open spec fn is_last_greatest(vs: Seq<Version>, k: int) -> bool {
    &&& 0 <= k < vs.len()
    &&& forall|j: int| 0 <= j < vs.len() ==> !version_lt(#[trigger] vs[k], vs[j])
    &&& forall|j: int| k < j < vs.len() ==> version_lt(#[trigger] vs[j], vs[k])
}

/// Law: only one position holds the version that a stable sort puts last.
pub proof fn lemma_last_greatest_unique(vs: Seq<Version>, k1: int, k2: int)
    requires
        is_last_greatest(vs, k1),
        is_last_greatest(vs, k2),
    ensures
        k1 == k2,
{
    if k1 < k2 {
        assert(version_lt(vs[k2], vs[k1]));
        assert(!version_lt(vs[k2], vs[k1]));
    } else if k2 < k1 {
        assert(version_lt(vs[k1], vs[k2]));
        assert(!version_lt(vs[k1], vs[k2]));
    }
}

/// The newest of the versions: the one that sorting them and taking the last gives.
/// `None` for an empty list.
pub fn latest_version(vs: Vec<Version>) -> (r: Option<Version>)
    ensures
        vs@.len() == 0 <==> r is None,
        r matches Some(v) ==> exists|k: int| is_last_greatest(vs@, k) && vs@[k] == v,
{
    if vs.len() == 0 {
        return None;
    }
    let mut k: usize = 0;
    let mut i: usize = 1;
    proof {
        lemma_version_order(vs@[0], vs@[0], vs@[0]);
    }
    while i < vs.len()
        invariant
            1 <= i <= vs@.len(),
            k < i,
            forall|j: int| 0 <= j < i ==> !version_lt(#[trigger] vs@[k as int], vs@[j]),
            forall|j: int| k < j < i ==> version_lt(#[trigger] vs@[j], vs@[k as int]),
        decreases vs@.len() - i,
    {
        proof {
            lemma_version_order(vs@[k as int], vs@[k as int], vs@[k as int]);
        }
        if !semver_lt(&vs[i], &vs[k]) {
            proof {
                assert forall|j: int| 0 <= j <= i implies !version_lt(#[trigger] vs@[i as int], vs@[j]) by {
                    lemma_version_order(vs@[i as int], vs@[k as int], vs@[j]);
                }
            }
            k = i;
        } else {
            proof {
                lemma_version_order(vs@[i as int], vs@[k as int], vs@[i as int]);
                lemma_version_order(vs@[k as int], vs@[i as int], vs@[k as int]);
            }
        }
        i = i + 1;
    }
    let mut vs = vs;
    let ghost all = vs@;
    let v = vs.swap_remove(k);
    assert(is_last_greatest(all, k as int));
    Some(v)
}

} // verus!
