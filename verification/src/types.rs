//! Core RDF-facing value types: page URIs, predicate IRIs, object values,
//! and IRI percent-escaping.
use vstd::prelude::*;
use vstd::utf8::*;
use crate::text::{chars_of, flat_map_chars, is_ascii_alnum, lemma_flat_map_append, lemma_flat_map_take, push_char};

verus! {

/// `xsd:string`.
pub const XSD_STRING: &'static str = "http://www.w3.org/2001/XMLSchema#string";
/// `xsd:date`.
pub const XSD_DATE: &'static str = "http://www.w3.org/2001/XMLSchema#date";
/// `xsd:dateTime`.
pub const XSD_DATE_TIME: &'static str = "http://www.w3.org/2001/XMLSchema#dateTime";
/// `xsd:integer`.
pub const XSD_INTEGER: &'static str = "http://www.w3.org/2001/XMLSchema#integer";
/// `xsd:boolean`.
pub const XSD_BOOLEAN: &'static str = "http://www.w3.org/2001/XMLSchema#boolean";
/// `xsd:decimal`.
pub const XSD_DECIMAL: &'static str = "http://www.w3.org/2001/XMLSchema#decimal";
/// `xsd:double`.
pub const XSD_DOUBLE: &'static str = "http://www.w3.org/2001/XMLSchema#double";

/// Named graph holding the site ontology.
pub const GRAPH_ONTOLOGY: &'static str = "urn:geoff:ontology";
/// Named graph holding site-level triples.
pub const GRAPH_SITE: &'static str = "urn:geoff:site";

/// A page URI in the form `urn:geoff:content:{path}`.
#[derive(Debug, Clone, PartialEq, Eq, Hash)]
pub struct PageUri(pub String);

/// A predicate IRI (e.g. `schema:name`).
#[derive(Debug, Clone, PartialEq, Eq, Hash)]
pub struct PredicateIri(pub String);

/// An RDF object value — either a named node (IRI), a plain literal, or a typed literal.
#[derive(Debug, Clone, PartialEq, Eq)]
pub enum ObjectValue {
    Iri(String),
    Literal(String),
    /// A typed literal with value and XSD datatype IRI.
    TypedLiteral { value: String, datatype: String },
}

/// The prefix of every page URI.
pub open spec fn page_uri_prefix() -> Seq<char> {
    seq!['u', 'r', 'n', ':', 'g', 'e', 'o', 'f', 'f', ':', 'c', 'o', 'n', 't', 'e', 'n', 't', ':']
}

impl PageUri {
    /// Create a page URI from a content-relative path.
    pub fn from_path(path: &str) -> (r: Self)
        ensures
            r.0@ == page_uri_prefix() + iri_escape_spec(path@),
    {
        let mut s = String::new();
        s.append("urn:geoff:content:");
        proof {
            reveal_strlit("urn:geoff:content:");
            assert(s@ =~= page_uri_prefix());
        }
        let esc = iri_escape(path);
        s.append(esc.as_str());
        PageUri(s)
    }

    pub fn as_str(&self) -> (r: &str)
        ensures
            r@ == self.0@,
    {
        self.0.as_str()
    }
}

impl PredicateIri {
    pub fn as_str(&self) -> (r: &str)
        ensures
            r@ == self.0@,
    {
        self.0.as_str()
    }
}

/// Characters that `iri_escape` leaves as they are.
pub open spec fn iri_safe(c: char) -> bool {
    ||| is_ascii_alnum(c)
    ||| c == '-' || c == '.' || c == '_' || c == '~' || c == ':' || c == '@'
    ||| c == '!' || c == '$' || c == '&' || c == '\'' || c == '(' || c == ')'
    ||| c == '*' || c == '+' || c == ',' || c == ';' || c == '=' || c == '/'
}

/// The upper-case hexadecimal digit for `n < 16`.
pub open spec fn hex_digit_upper(n: int) -> char {
    if n < 10 {
        (48 + n) as char
    } else {
        (55 + n) as char
    }
}

/// `%XX` for every byte, with upper-case hex digits.
pub open spec fn percent_encode_bytes(b: Seq<u8>) -> Seq<char>
    decreases b.len(),
{
    if b.len() == 0 {
        Seq::empty()
    } else {
        percent_encode_bytes(b.drop_last()) + seq![
            '%',
            hex_digit_upper(b.last() as int / 16),
            hex_digit_upper(b.last() as int % 16),
        ]
    }
}

/// The escape of one character: itself when safe, else its UTF-8 bytes percent-encoded.
pub open spec fn escape_char(c: char) -> Seq<char> {
    if iri_safe(c) {
        seq![c]
    } else {
        percent_encode_bytes(encode_scalar(c as u32))
    }
}

/// The percent-escaped form of `s`.
pub open spec fn iri_escape_spec(s: Seq<char>) -> Seq<char> {
    flat_map_chars(s, |c: char| escape_char(c))
}

fn is_iri_safe(c: char) -> (b: bool)
    ensures
        b == iri_safe(c),
{
    ('a' <= c && c <= 'z') || ('A' <= c && c <= 'Z') || ('0' <= c && c <= '9') || c == '-'
        || c == '.' || c == '_' || c == '~' || c == ':' || c == '@' || c == '!' || c == '$'
        || c == '&' || c == '\'' || c == '(' || c == ')' || c == '*' || c == '+' || c == ','
        || c == ';' || c == '=' || c == '/'
}

/// The upper-case hex digit for `n < 16`.
pub fn hex_upper(n: u8) -> (c: char)
    requires
        n < 16,
    ensures
        c == hex_digit_upper(n as int),
{
    if n < 10 {
        (48u8 + n) as char
    } else {
        (55u8 + n) as char
    }
}

/// The UTF-8 encoding of one character.
pub fn utf8_of_char(c: char) -> (r: Vec<u8>)
    ensures
        r@ == encode_scalar(c as u32),
{
    let u = c as u32;
    proof {
        char_is_scalar(c);
    }
    if u <= 0x7F {
        vec![(u & 0x7F) as u8]
    } else if u <= 0x7FF {
        vec![0xC0 | ((u >> 6) & 0x1F) as u8, 0x80 | (u & 0x3F) as u8]
    } else if u <= 0xFFFF {
        vec![
            0xE0 | ((u >> 12) & 0x0F) as u8,
            0x80 | ((u >> 6) & 0x3F) as u8,
            0x80 | (u & 0x3F) as u8,
        ]
    } else {
        vec![
            0xF0 | ((u >> 18) & 0x7) as u8,
            0x80 | ((u >> 12) & 0x3F) as u8,
            0x80 | ((u >> 6) & 0x3F) as u8,
            0x80 | (u & 0x3F) as u8,
        ]
    }
}

/// Appends `%XX` for every byte of `b`.
fn push_percent_bytes(out: &mut String, b: &Vec<u8>)
    ensures
        final(out)@ == old(out)@ + percent_encode_bytes(b@),
{
    let mut i: usize = 0;
    while i < b.len()
        invariant
            i <= b.len(),
            out@ == old(out)@ + percent_encode_bytes(b@.take(i as int)),
        decreases b.len() - i,
    {
        let x = b[i];
        push_char(out, '%');
        push_char(out, hex_upper(x / 16));
        push_char(out, hex_upper(x % 16));
        proof {
            assert(b@.take(i + 1).drop_last() =~= b@.take(i as int));
        }
        i = i + 1;
    }
    assert(b@.take(b.len() as int) =~= b@);
}

/// Percent-encode characters that are invalid in IRIs.
pub fn iri_escape(s: &str) -> (r: String)
    ensures
        r@ == iri_escape_spec(s@),
{
    let v = chars_of(s);
    let mut out = String::new();
    let mut i: usize = 0;
    while i < v.len()
        invariant
            i <= v.len(),
            out@ == iri_escape_spec(v@.take(i as int)),
        decreases v.len() - i,
    {
        let c = v[i];
        proof {
            lemma_flat_map_take(v@, i as int, |c: char| escape_char(c));
        }
        if is_iri_safe(c) {
            push_char(&mut out, c);
        } else {
            let bytes = utf8_of_char(c);
            push_percent_bytes(&mut out, &bytes);
        }
        i = i + 1;
    }
    assert(v@.take(v.len() as int) =~= v@);
    out
}

/// A string every character of which `iri_escape` keeps is its own escape.
pub proof fn lemma_iri_escape_identity_on_safe(s: Seq<char>)
    requires
        forall|i: int| 0 <= i < s.len() ==> iri_safe(#[trigger] s[i]),
    ensures
        iri_escape_spec(s) == s,
    decreases s.len(),
{
    if s.len() > 0 {
        let t = s.drop_last();
        assert forall|i: int| 0 <= i < t.len() implies iri_safe(#[trigger] t[i]) by {
            assert(t[i] == s[i]);
        }
        lemma_iri_escape_identity_on_safe(t);
        assert(t + seq![s.last()] =~= s);
    }
}


proof fn lemma_percent_chars(b: Seq<u8>)
    ensures
        forall|i: int| 0 <= i < percent_encode_bytes(b).len() ==> {
            let c = #[trigger] percent_encode_bytes(b)[i];
            c == '%' || iri_safe(c)
        },
    decreases b.len(),
{
    if b.len() > 0 {
        lemma_percent_chars(b.drop_last());
        let hi = b.last() as int / 16;
        let lo = b.last() as int % 16;
        assert(0 <= hi < 16 && 0 <= lo < 16);
        assert(iri_safe(hex_digit_upper(hi)));
        assert(iri_safe(hex_digit_upper(lo)));
        let p = percent_encode_bytes(b.drop_last());
        let q = seq!['%', hex_digit_upper(hi), hex_digit_upper(lo)];
        assert forall|i: int| 0 <= i < (p + q).len() implies {
            let c = #[trigger] (p + q)[i];
            c == '%' || iri_safe(c)
        } by {
            if i >= p.len() {
                assert((p + q)[i] == q[i - p.len()]);
            } else {
                assert((p + q)[i] == p[i]);
            }
        }
    }
}

/// The escape of any string holds only characters that IRIs allow as they
/// are, and `%` (starting an escaped byte).
pub proof fn law_iri_escape_output(s: Seq<char>)
    ensures
        forall|i: int| 0 <= i < iri_escape_spec(s).len() ==> {
            let c = #[trigger] iri_escape_spec(s)[i];
            c == '%' || iri_safe(c)
        },
    decreases s.len(),
{
    if s.len() > 0 {
        law_iri_escape_output(s.drop_last());
        let p = iri_escape_spec(s.drop_last());
        let q = escape_char(s.last());
        if !iri_safe(s.last()) {
            lemma_percent_chars(encode_scalar(s.last() as u32));
        }
        assert(iri_escape_spec(s) == p + q);
        assert forall|i: int| 0 <= i < (p + q).len() implies {
            let c = #[trigger] (p + q)[i];
            c == '%' || iri_safe(c)
        } by {
            if i >= p.len() {
                assert((p + q)[i] == q[i - p.len()]);
            } else {
                assert((p + q)[i] == p[i]);
            }
        }
    }
}


/// The value of a hexadecimal digit (either case); 0 for anything else.
pub open spec fn hex_value(c: char) -> int {
    if '0' <= c && c <= '9' {
        c as int - 48
    } else if 'A' <= c && c <= 'F' {
        c as int - 55
    } else if 'a' <= c && c <= 'f' {
        c as int - 87
    } else {
        0
    }
}

/// The bytes percent-decoding gives: `%XY` is the byte `XY`, any other character its
/// UTF-8 encoding.
pub open spec fn percent_decode_bytes(r: Seq<char>) -> Seq<u8>
    decreases r.len(),
{
    if r.len() == 0 {
        Seq::empty()
    } else if r[0] == '%' && r.len() >= 3 {
        seq![(hex_value(r[1]) * 16 + hex_value(r[2])) as u8] + percent_decode_bytes(r.skip(3))
    } else {
        encode_scalar(r[0] as u32) + percent_decode_bytes(r.skip(1))
    }
}

/// Percent-decoding: the decoded bytes read as UTF-8.
pub open spec fn percent_decode(r: Seq<char>) -> Seq<char> {
    decode_utf8(percent_decode_bytes(r))
}

proof fn lemma_hex_round_trip(n: int)
    requires
        0 <= n < 16,
    ensures
        hex_value(hex_digit_upper(n)) == n,
        hex_digit_upper(n) != '%',
        is_upper_hex(hex_digit_upper(n)),
{
    if n < 10 {
        assert(('0' as int) == 48);
    } else {
        assert(('A' as int) == 65);
    }
}

proof fn lemma_percent_front(b: Seq<u8>)
    requires
        b.len() > 0,
    ensures
        percent_encode_bytes(b) == seq!['%', hex_digit_upper(b[0] as int / 16), hex_digit_upper(b[0] as int % 16)]
            + percent_encode_bytes(b.drop_first()),
    decreases b.len(),
{
    if b.len() > 1 {
        lemma_percent_front(b.drop_last());
        assert(b.drop_last().drop_first() =~= b.drop_first().drop_last());
        assert(b.drop_last()[0] == b[0]);
        assert(b.drop_first().last() == b.last());
    } else {
        assert(b.drop_first() =~= Seq::<u8>::empty());
        assert(b.drop_last() =~= Seq::<u8>::empty());
    }
}

proof fn lemma_decode_percent(b: Seq<u8>, rest: Seq<char>)
    ensures
        percent_decode_bytes(percent_encode_bytes(b) + rest) == b + percent_decode_bytes(rest),
    decreases b.len(),
{
    if b.len() == 0 {
        assert(percent_encode_bytes(b) + rest =~= rest);
        assert(b + percent_decode_bytes(rest) =~= percent_decode_bytes(rest));
    } else {
        lemma_percent_front(b);
        let hi = b[0] as int / 16;
        let lo = b[0] as int % 16;
        lemma_hex_round_trip(hi);
        lemma_hex_round_trip(lo);
        let tail = percent_encode_bytes(b.drop_first()) + rest;
        let r = percent_encode_bytes(b) + rest;
        assert(r =~= seq!['%', hex_digit_upper(hi), hex_digit_upper(lo)] + tail);
        assert(r[0] == '%' && r[1] == hex_digit_upper(hi) && r[2] == hex_digit_upper(lo));
        assert(r.skip(3) =~= tail);
        assert((hi * 16 + lo) as u8 == b[0]);
        lemma_decode_percent(b.drop_first(), rest);
        assert(seq![b[0]] + (b.drop_first() + percent_decode_bytes(rest)) =~= b + percent_decode_bytes(rest));
    }
}

proof fn lemma_decode_escape_char(c: char, rest: Seq<char>)
    ensures
        percent_decode_bytes(escape_char(c) + rest) == encode_scalar(c as u32) + percent_decode_bytes(rest),
{
    if iri_safe(c) {
        let r = seq![c] + rest;
        assert(r[0] == c);
        assert(r.skip(1) =~= rest);
    } else {
        lemma_decode_percent(encode_scalar(c as u32), rest);
    }
}

proof fn lemma_escape_front(s: Seq<char>)
    requires
        s.len() > 0,
    ensures
        iri_escape_spec(s) == escape_char(s[0]) + iri_escape_spec(s.drop_first()),
{
    let f = |c: char| escape_char(c);
    lemma_flat_map_append(seq![s[0]], s.drop_first(), f);
    assert(seq![s[0]] + s.drop_first() =~= s);
    let one = seq![s[0]];
    assert(one.drop_last() =~= Seq::<char>::empty());
    assert(one.last() == s[0]);
    assert(flat_map_chars(one.drop_last(), f) == Seq::<char>::empty());
    assert(flat_map_chars(one, f) == flat_map_chars(one.drop_last(), f) + f(one.last()));
    assert(f(s[0]) == escape_char(s[0]));
    assert(Seq::<char>::empty() + escape_char(s[0]) =~= escape_char(s[0]));
}

proof fn lemma_decode_escape_bytes(s: Seq<char>)
    ensures
        percent_decode_bytes(iri_escape_spec(s)) == encode_utf8(s),
    decreases s.len(),
{
    if s.len() > 0 {
        lemma_escape_front(s);
        lemma_decode_escape_char(s[0], iri_escape_spec(s.drop_first()));
        lemma_decode_escape_bytes(s.drop_first());
    }
}

/// Percent-decoding the escape of a string gives the string back; so two strings with
/// the same escape are the same string.
pub proof fn law_iri_escape_decodes(s: Seq<char>, t: Seq<char>)
    ensures
        percent_decode(iri_escape_spec(s)) == s,
        iri_escape_spec(s) == iri_escape_spec(t) ==> s == t,
{
    lemma_decode_escape_bytes(s);
    lemma_decode_escape_bytes(t);
    encode_utf8_decode_utf8(s);
    encode_utf8_decode_utf8(t);
}

/// Page URIs name their pages one to one: two paths give the same URI only when they
/// are the same path.
pub proof fn law_page_uri_injective(p: Seq<char>, q: Seq<char>)
    ensures
        page_uri_prefix() + iri_escape_spec(p) == page_uri_prefix() + iri_escape_spec(q) ==> p == q,
{
    if page_uri_prefix() + iri_escape_spec(p) == page_uri_prefix() + iri_escape_spec(q) {
        let n = page_uri_prefix().len() as int;
        assert((page_uri_prefix() + iri_escape_spec(p)).skip(n) =~= iri_escape_spec(p));
        assert((page_uri_prefix() + iri_escape_spec(q)).skip(n) =~= iri_escape_spec(q));
        law_iri_escape_decodes(p, q);
    }
}

proof fn lemma_escape_len(s: Seq<char>)
    ensures
        iri_escape_spec(s).len() >= s.len(),
        (exists|i: int| 0 <= i < s.len() && !iri_safe(#[trigger] s[i])) ==> iri_escape_spec(s).len() > s.len(),
    decreases s.len(),
{
    if s.len() > 0 {
        let t = s.drop_last();
        lemma_escape_len(t);
        let c = s.last();
        if !iri_safe(c) {
            lemma_percent_front(encode_scalar(c as u32));
            vstd::utf8::char_is_scalar(c);
            assert(encode_scalar(c as u32).len() > 0);
        }
        if exists|i: int| 0 <= i < s.len() && !iri_safe(#[trigger] s[i]) {
            let i = choose|i: int| 0 <= i < s.len() && !iri_safe(#[trigger] s[i]);
            if i < t.len() {
                assert(t[i] == s[i]);
            }
        }
    }
}

/// A string is its own escape exactly when every character of it is one that the escape
/// keeps.
pub proof fn law_iri_escape_identity(s: Seq<char>)
    ensures
        iri_escape_spec(s) == s <==> forall|i: int| 0 <= i < s.len() ==> iri_safe(#[trigger] s[i]),
{
    lemma_escape_len(s);
    if forall|i: int| 0 <= i < s.len() ==> iri_safe(#[trigger] s[i]) {
        lemma_iri_escape_identity_on_safe(s);
    }
}


/// An upper-case hexadecimal digit.
pub open spec fn is_upper_hex(c: char) -> bool {
    ('0' <= c && c <= '9') || ('A' <= c && c <= 'F')
}

/// Every `%` of `r` opens a `%XY` with two upper-case hex digits.
pub open spec fn percents_well_formed(r: Seq<char>) -> bool {
    forall|j: int| 0 <= j < r.len() && #[trigger] r[j] == '%' ==> j + 2 < r.len() && is_upper_hex(r[j + 1])
        && is_upper_hex(r[j + 2])
}

proof fn lemma_pwf_concat(a: Seq<char>, b: Seq<char>)
    requires
        percents_well_formed(a),
        percents_well_formed(b),
    ensures
        percents_well_formed(a + b),
{
    let r = a + b;
    assert forall|j: int| 0 <= j < r.len() && #[trigger] r[j] == '%' implies j + 2 < r.len() && is_upper_hex(r[j + 1])
        && is_upper_hex(r[j + 2]) by {
        if j < a.len() {
            assert(a[j] == '%');
            assert(r[j + 1] == a[j + 1] && r[j + 2] == a[j + 2]);
        } else {
            assert(b[j - a.len()] == '%');
            assert(r[j + 1] == b[j + 1 - a.len()] && r[j + 2] == b[j + 2 - a.len()]);
        }
    }
}

proof fn lemma_pwf_percent(b: Seq<u8>)
    ensures
        percents_well_formed(percent_encode_bytes(b)),
    decreases b.len(),
{
    if b.len() > 0 {
        lemma_pwf_percent(b.drop_last());
        let hi = b.last() as int / 16;
        let lo = b.last() as int % 16;
        lemma_hex_round_trip(hi);
        lemma_hex_round_trip(lo);
        let t = seq!['%', hex_digit_upper(hi), hex_digit_upper(lo)];
        assert(is_upper_hex(hex_digit_upper(hi)) && is_upper_hex(hex_digit_upper(lo)));
        assert(percents_well_formed(t)) by {
            assert forall|j: int| 0 <= j < t.len() && #[trigger] t[j] == '%' implies j + 2 < t.len() && is_upper_hex(t[j + 1])
                && is_upper_hex(t[j + 2]) by {
                assert(j == 0);
            }
        }
        lemma_pwf_concat(percent_encode_bytes(b.drop_last()), t);
    }
}

/// Every `%` in an escape opens an escaped byte: two upper-case hex digits follow it.
pub proof fn law_iri_escape_percent_form(s: Seq<char>)
    ensures
        percents_well_formed(iri_escape_spec(s)),
    decreases s.len(),
{
    if s.len() > 0 {
        law_iri_escape_percent_form(s.drop_last());
        let c = s.last();
        if iri_safe(c) {
            assert(percents_well_formed(seq![c]));
        } else {
            lemma_pwf_percent(encode_scalar(c as u32));
        }
        lemma_pwf_concat(iri_escape_spec(s.drop_last()), escape_char(c));
    }
}

} // verus!
