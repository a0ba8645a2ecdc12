use vstd::prelude::*;
use vstd::utf8::{decode_utf8, valid_utf8};

verus! {

/// Appends one character to a string.
#[verifier::external_body]
pub(crate) fn push_char(s: &mut String, c: char)
    ensures
        final(s)@ == old(s)@.push(c),
{
    s.push(c)
}

/// What `sanitize` writes in place of one character.
pub open spec fn html_escape_char(c: char) -> Seq<char> {
    if c == '<' {
        seq!['&', 'l', 't', ';']
    } else if c == '>' {
        seq!['&', 'g', 't', ';']
    } else if c == '&' {
        seq!['&', 'a', 'm', 'p', ';']
    } else {
        seq![c]
    }
}

/// The HTML-escaped form of a character sequence.
pub open spec fn html_escape(s: Seq<char>) -> Seq<char>
    decreases s.len(),
{
    if s.len() == 0 {
        Seq::empty()
    } else {
        html_escape(s.drop_last()) + html_escape_char(s.last())
    }
}

/// Law: escaped text holds no `<` and no `>`.
pub proof fn lemma_html_escape_no_angle_brackets(s: Seq<char>)
    ensures
        forall|i: int|
            0 <= i < html_escape(s).len() ==> #[trigger] html_escape(s)[i] != '<' && html_escape(s)[i]
                != '>',
    decreases s.len(),
{
    if s.len() > 0 {
        lemma_html_escape_no_angle_brackets(s.drop_last());
        let front = html_escape(s.drop_last());
        let back = html_escape_char(s.last());
        assert forall|i: int| 0 <= i < html_escape(s).len() implies #[trigger] html_escape(s)[i]
            != '<' && html_escape(s)[i] != '>' by {
            if i >= front.len() {
                assert(html_escape(s)[i] == back[i - front.len()]);
            } else {
                assert(html_escape(s)[i] == front[i]);
            }
        }
    }
}

/// Undoes HTML escaping, reading left to right: `&lt;`, `&gt;` and `&amp;` stand
/// for `<`, `>` and `&`, every other character for itself.
pub open spec fn html_unescape(t: Seq<char>) -> Seq<char>
    decreases t.len(),
{
    if t.len() == 0 {
        Seq::empty()
    } else if t.len() >= 4 && t.take(4) == seq!['&', 'l', 't', ';'] {
        seq!['<'] + html_unescape(t.skip(4))
    } else if t.len() >= 4 && t.take(4) == seq!['&', 'g', 't', ';'] {
        seq!['>'] + html_unescape(t.skip(4))
    } else if t.len() >= 5 && t.take(5) == seq!['&', 'a', 'm', 'p', ';'] {
        seq!['&'] + html_unescape(t.skip(5))
    } else {
        seq![t[0]] + html_unescape(t.skip(1))
    }
}

proof fn lemma_html_escape_front(s: Seq<char>)
    requires
        s.len() > 0,
    ensures
        html_escape(s) == html_escape_char(s[0]) + html_escape(s.drop_first()),
    decreases s.len(),
{
    if s.len() == 1 {
        assert(s.drop_last() =~= Seq::<char>::empty());
        assert(s.drop_first() =~= Seq::<char>::empty());
        assert(html_escape(s.drop_last()) =~= Seq::<char>::empty());
        assert(s.last() == s[0]);
        assert(html_escape(s) =~= html_escape_char(s[0]));
    } else {
        lemma_html_escape_front(s.drop_last());
        assert(s.drop_first().drop_last() =~= s.drop_last().drop_first());
        assert(s.drop_first().last() == s.last());
        assert(s.drop_last()[0] == s[0]);
        assert(html_escape(s) =~= html_escape_char(s[0]) + html_escape(s.drop_first()));
    }
}

/// Law: escaping loses nothing; unescaping the escaped text gives the text back.
pub proof fn lemma_html_escape_undone(s: Seq<char>)
    ensures
        html_unescape(html_escape(s)) == s,
    decreases s.len(),
{
    if s.len() == 0 {
        assert(html_escape(s) =~= Seq::<char>::empty());
    } else {
        let c = s[0];
        let rest = s.drop_first();
        lemma_html_escape_front(s);
        lemma_html_escape_undone(rest);
        let e = html_escape_char(c);
        let t = e + html_escape(rest);
        if c == '<' {
            assert(t.take(4) =~= seq!['&', 'l', 't', ';']);
            assert(t.skip(4) =~= html_escape(rest));
        } else if c == '>' {
            assert(t.take(4) =~= seq!['&', 'g', 't', ';']);
            assert(t.take(4) != seq!['&', 'l', 't', ';']);
            assert(t.skip(4) =~= html_escape(rest));
        } else if c == '&' {
            assert(t.take(4) =~= seq!['&', 'a', 'm', 'p']);
            assert(t.take(4) != seq!['&', 'l', 't', ';']);
            assert(t.take(4) != seq!['&', 'g', 't', ';']);
            assert(t.take(5) =~= seq!['&', 'a', 'm', 'p', ';']);
            assert(t.skip(5) =~= html_escape(rest));
        } else {
            assert(t[0] == c);
            if t.len() >= 4 {
                assert(t.take(4)[0] == c);
                assert(t.take(4) != seq!['&', 'l', 't', ';']);
                assert(t.take(4) != seq!['&', 'g', 't', ';']);
            }
            if t.len() >= 5 {
                assert(t.take(5)[0] == c);
                assert(t.take(5) != seq!['&', 'a', 'm', 'p', ';']);
            }
            assert(t.skip(1) =~= html_escape(rest));
        }
        assert(s =~= seq![c] + rest);
    }
}

/// Escapes `<`, `>` and `&` for inclusion in an HTML document.
pub fn sanitize(s: &str) -> (r: String)
    ensures
        r@ == html_escape(s@),
{
    let mut r = String::new();
    for c in it: s.chars()
        invariant
            it.seq() == s@,
            r@ == html_escape(s@.take(it.index())),
    {
        assert(s@.take(it.index() + 1).drop_last() == s@.take(it.index()));
        if c == '<' {
            push_char(&mut r, '&'); push_char(&mut r, 'l'); push_char(&mut r, 't'); push_char(&mut r, ';');
        } else if c == '>' {
            push_char(&mut r, '&'); push_char(&mut r, 'g'); push_char(&mut r, 't'); push_char(&mut r, ';');
        } else if c == '&' {
            push_char(&mut r, '&'); push_char(&mut r, 'a'); push_char(&mut r, 'm'); push_char(&mut r, 'p'); push_char(&mut r, ';');
        } else {
            push_char(&mut r, c);
        }
    }
    assert(s@.take(s@.len() as int) == s@);
    r
}

/// Lexicographic order on byte sequences: the order of `String`s by their UTF-8 bytes.
pub open spec fn bytes_lt(a: Seq<u8>, b: Seq<u8>) -> bool
    decreases a.len(),
{
    if a.len() == 0 {
        b.len() > 0
    } else if b.len() == 0 {
        false
    } else if a[0] != b[0] {
        a[0] < b[0]
    } else {
        bytes_lt(a.drop_first(), b.drop_first())
    }
}

/// No byte sequence comes before itself.
pub proof fn lemma_bytes_lt_irreflexive(a: Seq<u8>)
    ensures
        !bytes_lt(a, a),
    decreases a.len(),
{
    if a.len() > 0 {
        lemma_bytes_lt_irreflexive(a.drop_first());
    }
}

/// The order on byte sequences is transitive.
pub proof fn lemma_bytes_lt_transitive(a: Seq<u8>, b: Seq<u8>, c: Seq<u8>)
    requires
        bytes_lt(a, b),
        bytes_lt(b, c),
    ensures
        bytes_lt(a, c),
    decreases a.len(),
{
    if a.len() > 0 && b.len() > 0 && c.len() > 0 && a[0] == b[0] && b[0] == c[0] {
        lemma_bytes_lt_transitive(a.drop_first(), b.drop_first(), c.drop_first());
    }
}

/// Of two different byte sequences, one comes before the other.
pub proof fn lemma_bytes_lt_total(a: Seq<u8>, b: Seq<u8>)
    requires
        a != b,
    ensures
        bytes_lt(a, b) || bytes_lt(b, a),
    decreases a.len(),
{
    if a.len() > 0 && b.len() > 0 && a[0] == b[0] {
        if a.drop_first() == b.drop_first() {
            assert(a =~= seq![a[0]] + a.drop_first());
            assert(b =~= seq![b[0]] + b.drop_first());
        }
        lemma_bytes_lt_total(a.drop_first(), b.drop_first());
    } else if a.len() == 0 && b.len() == 0 {
        assert(a =~= b);
    }
}

/// Whether `a` comes before `b` when strings are ordered by their bytes, as
/// `String`'s `Ord` orders them.
pub fn str_lt(a: &str, b: &str) -> (r: bool)
    ensures
        r == bytes_lt(vstd::utf8::encode_utf8(a@), vstd::utf8::encode_utf8(b@)),
{
    let x = a.as_bytes();
    let y = b.as_bytes();
    let mut i: usize = 0;
    assert(x@.skip(0) =~= x@);
    assert(y@.skip(0) =~= y@);
    while i < x.len() && i < y.len()
        invariant
            0 <= i <= x@.len(),
            i <= y@.len(),
            x@ == vstd::utf8::encode_utf8(a@),
            y@ == vstd::utf8::encode_utf8(b@),
            bytes_lt(x@, y@) == bytes_lt(x@.skip(i as int), y@.skip(i as int)),
        decreases x@.len() - i,
    {
        assert(x@.skip(i as int)[0] == x@[i as int]);
        assert(y@.skip(i as int)[0] == y@[i as int]);
        if x[i] != y[i] {
            assert(x@.skip(i as int).len() > 0 && y@.skip(i as int).len() > 0);
            assert(bytes_lt(x@.skip(i as int), y@.skip(i as int)) == (x@[i as int] < y@[i as int]));
            return x[i] < y[i];
        }
        assert(x@.skip(i as int).drop_first() =~= x@.skip(i + 1));
        assert(y@.skip(i as int).drop_first() =~= y@.skip(i + 1));
        i = i + 1;
    }
    x.len() < y.len()
}

/// The character of a decimal digit.
pub open spec fn digit_char(d: nat) -> char {
    (d + 48) as char
}

/// The decimal form of a natural number, without leading zeros.
pub open spec fn decimal(n: nat) -> Seq<char>
    decreases n,
{
    if n < 10 {
        seq![digit_char(n)]
    } else {
        decimal(n / 10).push(digit_char(n % 10))
    }
}

fn push_decimal(out: &mut String, n: u64)
    ensures
        final(out)@ == old(out)@ + decimal(n as nat),
    decreases n,
{
    if n >= 10 {
        push_decimal(out, n / 10);
    }
    let d: u8 = (n % 10) as u8;
    let c: char = (d + 48u8) as char;
    assert(c == digit_char((n % 10) as nat));
    push_char(out, c);
}

/// The number in decimal, as `u64::to_string` writes it.
pub fn u64_to_string(n: u64) -> (s: String)
    ensures
        s@ == decimal(n as nat),
{
    let mut s = String::new();
    push_decimal(&mut s, n);
    s
}

/// What `char::to_lowercase` yields for a character.
pub uninterp spec fn char_lowercase(c: char) -> Seq<char>;

/// `char::to_lowercase`, collected. Its documentation promises one or more
/// characters: the mapping that Unicode's `UnicodeData.txt` gives, or the
/// character itself where there is none. For ASCII that table maps `A` to `Z`
/// onto `a` to `z` and gives no mapping for any other character, which is what
/// the contract states; the rest of the mapping is left to the name
/// `char_lowercase`.
#[verifier::external_body]
fn to_lowercase(c: char) -> (r: Vec<char>)
    ensures
        r@ == char_lowercase(c),
        r@.len() >= 1,
        'A' <= c <= 'Z' ==> r@ == seq![((c as u32) + 32) as char],
        (c as u32) < 128 && !('A' <= c <= 'Z') ==> r@ == seq![c],
{
    c.to_lowercase().collect()
}

/// The character a link name keeps for a lowercased character: lowercase ASCII
/// letters, digits and `-` stay, anything else becomes `_`.
pub open spec fn link_char(c: char) -> char {
    if c != '-' && (c < 'a' || c > 'z') && (c < '0' || c > '9') {
        '_'
    } else {
        c
    }
}

/// What `sanitize_link` writes for one character: the first character of its
/// lowercase form, kept or replaced as `link_char` says.
pub open spec fn link_name_char(c: char) -> char {
    link_char(char_lowercase(c)[0])
}

/// The link name made from a text.
pub open spec fn link_name(s: Seq<char>) -> Seq<char> {
    s.map_values(|c: char| link_name_char(c))
}

/// The character a link name keeps for the first character of a character's
/// lowercase form.
pub fn sanitize_link_char(lowered: char) -> (r: char)
    ensures
        r == link_char(lowered),
{
    if lowered != '-' && (lowered < 'a' || lowered > 'z') && (lowered < '0' || lowered > '9') {
        '_'
    } else {
        lowered
    }
}

/// Whether a character can stand in a link name: a lowercase ASCII letter, a
/// digit, `-` or `_`.
pub open spec fn is_link_char(c: char) -> bool {
    ('a' <= c <= 'z') || ('0' <= c <= '9') || c == '-' || c == '_'
}

/// Whether every character of a text can stand in a link name.
pub open spec fn is_link_text(t: Seq<char>) -> bool {
    forall|i: int| 0 <= i < t.len() ==> is_link_char(#[trigger] t[i])
}

/// The ASCII lowercase form of a character: `A` to `Z` become `a` to `z`,
/// anything else stays.
pub open spec fn ascii_lower(c: char) -> char {
    if 'A' <= c <= 'Z' {
        ((c as u32) + 32) as char
    } else {
        c
    }
}

/// Turns text into a name fit for an HTML anchor: each character is lowercased,
/// and what is not an ASCII letter, a digit or `-` becomes `_`. A link name is
/// kept as it is, so a second pass changes nothing.
pub fn sanitize_link(s: &str) -> (r: String)
    ensures
        r@ == link_name(s@),
        is_link_text(r@),
        is_link_text(s@) ==> r@ == s@,
        forall|i: int|
            0 <= i < s@.len() && (s@[i] as u32) < 128 ==> r@[i] == link_char(
                ascii_lower(#[trigger] s@[i]),
            ),
{
    let mut r = String::new();
    for c in it: s.chars()
        invariant
            it.seq() == s@,
            r@ == s@.take(it.index()).map_values(|c: char| link_name_char(c)),
            is_link_text(r@),
            is_link_text(s@) ==> r@ == s@.take(it.index()),
            forall|i: int|
                0 <= i < it.index() && (s@[i] as u32) < 128 ==> r@[i] == link_char(
                    ascii_lower(#[trigger] s@[i]),
                ),
    {
        let lower = to_lowercase(c);
        let ghost before = r@;
        push_char(&mut r, sanitize_link_char(lower[0]));
        assert(r@ == before.push(link_char(lower@[0])));
        assert(s@[it.index()] == c);
        assert forall|i: int|
            0 <= i < it.index() + 1 && (s@[i] as u32) < 128 implies r@[i] == link_char(
                ascii_lower(#[trigger] s@[i]),
            ) by {
            if i < it.index() {
                assert(r@[i] == before[i]);
            }
        }
        assert(is_link_text(r@)) by {
            assert forall|i: int| 0 <= i < r@.len() implies is_link_char(#[trigger] r@[i]) by {
                if i < before.len() {
                    assert(r@[i] == before[i]);
                }
            }
        }
        proof {
            if is_link_text(s@) {
                assert(s@[it.index()] == c);
                assert(is_link_char(c));
                assert(lower@ == seq![c]);
                assert(s@.take(it.index() + 1) =~= s@.take(it.index()).push(c));
            }
        }
        assert(s@.take(it.index() + 1).map_values(|c: char| link_name_char(c)) =~= s@.take(
            it.index(),
        ).map_values(|c: char| link_name_char(c)).push(link_name_char(c)));
    }
    assert(s@.take(s@.len() as int) =~= s@);
    r
}

/// Law: a link name has as many characters as the text it was made from, and each
/// of them is a lowercase ASCII letter, a digit, `-` or `_`.
pub proof fn lemma_link_name_chars(s: Seq<char>)
    ensures
        link_name(s).len() == s.len(),
        forall|i: int|
            0 <= i < s.len() ==> ('a' <= #[trigger] link_name(s)[i] <= 'z') || ('0' <= link_name(s)[i]
                <= '9') || link_name(s)[i] == '-' || link_name(s)[i] == '_',
{
}

/// `String::from_utf8`: the bytes as text where they are valid UTF-8.
#[verifier::external_body]
pub(crate) fn string_from_utf8(bytes: Vec<u8>) -> (r: Result<String, std::string::FromUtf8Error>)
    ensures
        r is Ok <==> valid_utf8(bytes@),
        r matches Ok(s) ==> s@ == decode_utf8(bytes@),
{
    String::from_utf8(bytes)
}

/// What `String::from_utf8_lossy` makes of bytes.
pub uninterp spec fn utf8_lossy(bytes: Seq<u8>) -> Seq<char>;

/// `String::from_utf8_lossy`, as an owned string. Its documentation promises the
/// plain decoding for valid UTF-8; what replaces invalid sequences is left to
/// the name `utf8_lossy`.
#[verifier::external_body]
pub(crate) fn string_from_utf8_lossy(bytes: &Vec<u8>) -> (r: String)
    ensures
        r@ == utf8_lossy(bytes@),
        valid_utf8(bytes@) ==> r@ == decode_utf8(bytes@),
{
    String::from_utf8_lossy(bytes).into_owned()
}

} // verus!
