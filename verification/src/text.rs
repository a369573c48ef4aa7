//! Character-level string helpers shared by the rest of the library.
//!
//! Strings are specified through their view, a `Seq<char>`.  The executable
//! helpers here convert between `&str`/`String` and `Vec<char>` and search
//! character sequences; everything else in the crate is written on top of them.
use vstd::prelude::*;

verus! {

// ---------------------------------------------------------------------------
// Specifications
// ---------------------------------------------------------------------------

/// `p` occurs in `s` starting at index `i`.
pub open spec fn occurs_at(s: Seq<char>, p: Seq<char>, i: int) -> bool {
    0 <= i && i + p.len() <= s.len() && s.subrange(i, i + p.len()) == p
}

/// `s` starts with `p`.
pub open spec fn starts_with(s: Seq<char>, p: Seq<char>) -> bool {
    occurs_at(s, p, 0)
}

/// `s` ends with `p`.
pub open spec fn ends_with(s: Seq<char>, p: Seq<char>) -> bool {
    p.len() <= s.len() && s.subrange(s.len() - p.len(), s.len() as int) == p
}

/// `s` contains `p` as a contiguous piece.
pub open spec fn contains_seq(s: Seq<char>, p: Seq<char>) -> bool {
    exists|i: int| occurs_at(s, p, i)
}

/// `i` is the first index at or after `from` where `p` occurs in `s`.
pub open spec fn is_first_occurrence_from(s: Seq<char>, p: Seq<char>, from: int, i: int) -> bool {
    &&& from <= i
    &&& occurs_at(s, p, i)
    &&& forall|j: int| from <= j < i ==> !occurs_at(s, p, j)
}

/// The position of the first occurrence of `p` in `s` at or after `from`, if any.
pub open spec fn find_from(s: Seq<char>, p: Seq<char>, from: int) -> Option<int> {
    if exists|i: int| is_first_occurrence_from(s, p, from, i) {
        Some(choose|i: int| is_first_occurrence_from(s, p, from, i))
    } else {
        None
    }
}

/// The position of the first occurrence of `p` in `s`, if any (`str::find`).
pub open spec fn find(s: Seq<char>, p: Seq<char>) -> Option<int> {
    find_from(s, p, 0)
}

/// Replace every character of `s` by the sequence `f` gives for it.
pub open spec fn flat_map_chars(s: Seq<char>, f: spec_fn(char) -> Seq<char>) -> Seq<char>
    decreases s.len(),
{
    if s.len() == 0 {
        Seq::empty()
    } else {
        flat_map_chars(s.drop_last(), f) + f(s.last())
    }
}

/// ASCII lower-casing of one character (`char::to_ascii_lowercase`).
pub open spec fn ascii_lower(c: char) -> char {
    if 'A' <= c && c <= 'Z' {
        ((c as u32) + 32) as char
    } else {
        c
    }
}

/// `c` is an ASCII letter or digit (`char::is_ascii_alphanumeric`).
pub open spec fn is_ascii_alnum(c: char) -> bool {
    ('a' <= c && c <= 'z') || ('A' <= c && c <= 'Z') || ('0' <= c && c <= '9')
}

/// `c` is whitespace as `char::is_whitespace` defines it (the Unicode
/// `White_Space` property).
pub open spec fn is_white_space(c: char) -> bool {
    ||| c == ' ' || c == '\t' || c == '\n' || c == '\r'
    ||| c == '\u{0B}' || c == '\u{0C}' || c == '\u{85}' || c == '\u{A0}'
    ||| c == '\u{1680}' || ('\u{2000}' <= c && c <= '\u{200A}')
    ||| c == '\u{2028}' || c == '\u{2029}' || c == '\u{202F}' || c == '\u{205F}'
    ||| c == '\u{3000}'
}

/// `s` without its leading whitespace (`str::trim_start`).
pub open spec fn trim_start(s: Seq<char>) -> Seq<char>
    decreases s.len(),
{
    if s.len() > 0 && is_white_space(s[0]) {
        trim_start(s.drop_first())
    } else {
        s
    }
}

/// `s` with every trailing `c` removed (`str::trim_end_matches` with a char).
pub open spec fn trim_end_char(s: Seq<char>, c: char) -> Seq<char>
    decreases s.len(),
{
    if s.len() > 0 && s.last() == c {
        trim_end_char(s.drop_last(), c)
    } else {
        s
    }
}

/// `s` with every leading `c` removed (`str::trim_start_matches` with a char).
pub open spec fn trim_start_char(s: Seq<char>, c: char) -> Seq<char>
    decreases s.len(),
{
    if s.len() > 0 && s[0] == c {
        trim_start_char(s.drop_first(), c)
    } else {
        s
    }
}

/// `s` without the prefix `p` when it has it (`str::strip_prefix`).
pub open spec fn strip_prefix(s: Seq<char>, p: Seq<char>) -> Option<Seq<char>> {
    if starts_with(s, p) {
        Some(s.subrange(p.len() as int, s.len() as int))
    } else {
        None
    }
}

/// `s` without the suffix `p` when it has it (`str::strip_suffix`).
pub open spec fn strip_suffix(s: Seq<char>, p: Seq<char>) -> Option<Seq<char>> {
    if ends_with(s, p) {
        Some(s.subrange(0, s.len() - p.len()))
    } else {
        None
    }
}

/// Index of the first `c` in `s`, if any.
pub open spec fn index_of_char(s: Seq<char>, c: char) -> Option<int> {
    find(s, seq![c])
}

/// Index of the last `c` in `s`, if any (`str::rfind` with a char).
pub open spec fn last_index_of_char(s: Seq<char>, c: char) -> Option<int>
    decreases s.len(),
{
    if s.len() == 0 {
        None
    } else if s.last() == c {
        Some(s.len() - 1)
    } else {
        last_index_of_char(s.drop_last(), c)
    }
}

// ---------------------------------------------------------------------------
// Names for what std computes without a specification in vstd
// ---------------------------------------------------------------------------

/// What `str::to_lowercase` returns for a string (Unicode lower-casing).
pub uninterp spec fn unicode_lowercase(s: Seq<char>) -> Seq<char>;

/// What `char::to_uppercase` yields for a character (Unicode upper-casing).
pub uninterp spec fn unicode_uppercase_char(c: char) -> Seq<char>;

/// What `char::is_uppercase` returns (the Unicode `Uppercase` property).
pub uninterp spec fn unicode_is_uppercase(c: char) -> bool;

/// `str::to_lowercase`: this contract claims only that the result is a
/// function of the input's characters, named `unicode_lowercase`.
#[verifier::external_body]
pub(crate) fn to_lowercase(s: &str) -> (r: String)
    ensures
        r@ == unicode_lowercase(s@),
{
    s.to_lowercase()
}

/// `char::to_uppercase`, collected into a string: claimed to equal
/// `unicode_uppercase_char` of the character.
#[verifier::external_body]
pub(crate) fn char_to_uppercase(c: char) -> (r: String)
    ensures
        r@ == unicode_uppercase_char(c),
{
    c.to_uppercase().to_string()
}

/// `char::is_uppercase`: claimed to equal `unicode_is_uppercase` of the character.
#[verifier::external_body]
pub(crate) fn char_is_uppercase(c: char) -> (b: bool)
    ensures
        b == unicode_is_uppercase(c),
{
    c.is_uppercase()
}

/// What `char::is_alphanumeric` returns (the Unicode `Alphabetic` or `Numeric` property).
pub uninterp spec fn unicode_is_alphanumeric(c: char) -> bool;

/// `char::is_alphanumeric`: claimed to equal `unicode_is_alphanumeric` of the character.
#[verifier::external_body]
pub(crate) fn char_is_alphanumeric(c: char) -> (b: bool)
    ensures
        b == unicode_is_alphanumeric(c),
{
    c.is_alphanumeric()
}

/// `String::push`: the string afterwards is the string before with `c` appended,
/// as std documents.
#[verifier::external_body]
pub(crate) fn push_char(s: &mut String, c: char)
    ensures
        final(s)@ == old(s)@.push(c),
{
    s.push(c);
}

// ---------------------------------------------------------------------------
// Lemmas
// ---------------------------------------------------------------------------

pub proof fn lemma_flat_map_take(s: Seq<char>, i: int, f: spec_fn(char) -> Seq<char>)
    requires
        0 <= i < s.len(),
    ensures
        flat_map_chars(s.take(i + 1), f) == flat_map_chars(s.take(i), f) + f(s[i]),
{
    assert(s.take(i + 1).drop_last() =~= s.take(i));
}

pub proof fn lemma_flat_map_append(a: Seq<char>, b: Seq<char>, f: spec_fn(char) -> Seq<char>)
    ensures
        flat_map_chars(a + b, f) == flat_map_chars(a, f) + flat_map_chars(b, f),
    decreases b.len(),
{
    if b.len() == 0 {
        assert(a + b =~= a);
        assert(flat_map_chars(a, f) + Seq::<char>::empty() =~= flat_map_chars(a, f));
    } else {
        assert((a + b).drop_last() =~= a + b.drop_last());
        lemma_flat_map_append(a, b.drop_last(), f);
        assert(flat_map_chars(a, f) + flat_map_chars(b.drop_last(), f) + f(b.last())
            =~= flat_map_chars(a, f) + (flat_map_chars(b.drop_last(), f) + f(b.last())));
    }
}

pub proof fn lemma_find_from_some(s: Seq<char>, p: Seq<char>, from: int, i: int)
    requires
        is_first_occurrence_from(s, p, from, i),
    ensures
        find_from(s, p, from) == Some(i),
{
    let k = choose|k: int| is_first_occurrence_from(s, p, from, k);
    assert(is_first_occurrence_from(s, p, from, k));
    if k < i {
        assert(!occurs_at(s, p, k));
    }
    if i < k {
        assert(!occurs_at(s, p, i));
    }
}

pub proof fn lemma_find_from_result(s: Seq<char>, p: Seq<char>, from: int)
    ensures
        find_from(s, p, from) matches Some(i) ==> is_first_occurrence_from(s, p, from, i),
        find_from(s, p, from) is None ==> forall|j: int| from <= j ==> !occurs_at(s, p, j),
{
    if find_from(s, p, from) is None {
        assert forall|j: int| from <= j implies !occurs_at(s, p, j) by {
            if occurs_at(s, p, j) {
                lemma_first_occurrence_exists(s, p, from, j);
            }
        }
    }
}

/// If `p` occurs at `j >= from`, a first occurrence at or after `from` exists.
pub proof fn lemma_first_occurrence_exists(s: Seq<char>, p: Seq<char>, from: int, j: int)
    requires
        from <= j,
        occurs_at(s, p, j),
    ensures
        exists|i: int| is_first_occurrence_from(s, p, from, i),
    decreases j - from,
{
    if exists|k: int| from <= k < j && occurs_at(s, p, k) {
        let k = choose|k: int| from <= k < j && occurs_at(s, p, k);
        lemma_first_occurrence_exists(s, p, from, k);
    } else {
        assert(is_first_occurrence_from(s, p, from, j));
    }
}

pub proof fn lemma_find_from_none(s: Seq<char>, p: Seq<char>, from: int)
    requires
        forall|j: int| from <= j ==> !occurs_at(s, p, j),
    ensures
        find_from(s, p, from) == None::<int>,
{
}

// ---------------------------------------------------------------------------
// Executable helpers
// ---------------------------------------------------------------------------

/// The characters of a string slice, in order.
pub fn chars_of(s: &str) -> (v: Vec<char>)
    ensures
        v@ == s@,
{
    let mut v: Vec<char> = Vec::new();
    for c in it: s.chars()
        invariant
            v@ == it.seq().take(it.index() as int),
    {
        v.push(c);
    }
    v
}

/// A string made of the characters `v[from..to]`.
pub fn string_of_range(v: &Vec<char>, from: usize, to: usize) -> (s: String)
    requires
        from <= to <= v.len(),
    ensures
        s@ == v@.subrange(from as int, to as int),
{
    let mut s = String::new();
    let mut i = from;
    while i < to
        invariant
            from <= i <= to <= v.len(),
            s@ == v@.subrange(from as int, i as int),
        decreases to - i,
    {
        push_char(&mut s, v[i]);
        i = i + 1;
        assert(s@ =~= v@.subrange(from as int, i as int));
    }
    s
}

/// A string made of all the characters of `v`.
pub fn string_of(v: &Vec<char>) -> (s: String)
    ensures
        s@ == v@,
{
    let s = string_of_range(v, 0, v.len());
    assert(v@.subrange(0, v@.len() as int) =~= v@);
    s
}

/// Appends the characters `v[from..to]` to `s`.
pub fn push_range(s: &mut String, v: &Vec<char>, from: usize, to: usize)
    requires
        from <= to <= v.len(),
    ensures
        final(s)@ == old(s)@ + v@.subrange(from as int, to as int),
{
    let mut i = from;
    while i < to
        invariant
            from <= i <= to <= v.len(),
            s@ == old(s)@ + v@.subrange(from as int, i as int),
        decreases to - i,
    {
        push_char(s, v[i]);
        i = i + 1;
        assert(s@ =~= old(s)@ + v@.subrange(from as int, i as int));
    }
}

/// `p` occurs in `s` at position `i` (executable check).
pub fn occurs_at_exec(s: &Vec<char>, p: &Vec<char>, i: usize) -> (b: bool)
    ensures
        b == occurs_at(s@, p@, i as int),
{
    if i > s.len() || p.len() > s.len() - i {
        return false;
    }
    let mut k: usize = 0;
    while k < p.len()
        invariant
            i + p.len() <= s.len(),
            k <= p.len(),
            forall|j: int| 0 <= j < k ==> s@[i + j] == p@[j],
        decreases p.len() - k,
    {
        if s[i + k] != p[k] {
            assert(s@.subrange(i as int, i + p.len())[k as int] != p@[k as int]);
            return false;
        }
        k = k + 1;
    }
    assert(s@.subrange(i as int, i + p.len()) =~= p@);
    true
}

/// First position at or after `from` where `p` occurs in `s`.
pub fn find_from_exec(s: &Vec<char>, p: &Vec<char>, from: usize) -> (r: Option<usize>)
    ensures
        r matches Some(i) ==> find_from(s@, p@, from as int) == Some(i as int),
        r is None ==> find_from(s@, p@, from as int) == None::<int>,
{
    let mut i = from;
    while i < s.len()
        invariant
            from <= i,
            forall|j: int| from <= j < i ==> !occurs_at(s@, p@, j),
        decreases s.len() - i,
    {
        if occurs_at_exec(s, p, i) {
            proof {
                lemma_find_from_some(s@, p@, from as int, i as int);
            }
            return Some(i);
        }
        i = i + 1;
    }
    if i == s.len() && occurs_at_exec(s, p, i) {
        proof {
            lemma_find_from_some(s@, p@, from as int, i as int);
        }
        return Some(i);
    }
    proof {
        assert forall|j: int| from <= j implies !occurs_at(s@, p@, j) by {
            if j > i {
                assert(j + p@.len() > s@.len() || j > s@.len());
            }
        }
        lemma_find_from_none(s@, p@, from as int);
    }
    None
}

/// First position of `p` in `s`.
pub fn find_exec(s: &Vec<char>, p: &Vec<char>) -> (r: Option<usize>)
    ensures
        r matches Some(i) ==> find(s@, p@) == Some(i as int),
        r is None ==> find(s@, p@) == None::<int>,
{
    find_from_exec(s, p, 0)
}

/// `s` starts with `p`.
pub fn starts_with_exec(s: &Vec<char>, p: &Vec<char>) -> (b: bool)
    ensures
        b == starts_with(s@, p@),
{
    occurs_at_exec(s, p, 0)
}

/// `s` ends with `p`.
pub fn ends_with_exec(s: &Vec<char>, p: &Vec<char>) -> (b: bool)
    ensures
        b == ends_with(s@, p@),
{
    if p.len() > s.len() {
        return false;
    }
    let b = occurs_at_exec(s, p, s.len() - p.len());
    b
}

/// Character-wise equality of two strings.
pub fn str_eq(a: &str, b: &str) -> (r: bool)
    ensures
        r == (a@ == b@),
{
    let va = chars_of(a);
    let vb = chars_of(b);
    if va.len() != vb.len() {
        return false;
    }
    let r = occurs_at_exec(&va, &vb, 0);
    assert(va@.subrange(0, vb@.len() as int) =~= va@);
    r
}

/// `s` starts with the characters of `p`.
pub fn str_starts_with(s: &str, p: &str) -> (r: bool)
    ensures
        r == starts_with(s@, p@),
{
    let vs = chars_of(s);
    let vp = chars_of(p);
    starts_with_exec(&vs, &vp)
}

/// `s` ends with the characters of `p`.
pub fn str_ends_with(s: &str, p: &str) -> (r: bool)
    ensures
        r == ends_with(s@, p@),
{
    let vs = chars_of(s);
    let vp = chars_of(p);
    ends_with_exec(&vs, &vp)
}

/// `s` contains the character `c`.
pub fn contains_char(v: &Vec<char>, c: char) -> (r: bool)
    ensures
        r == v@.contains(c),
{
    let mut i: usize = 0;
    while i < v.len()
        invariant
            i <= v.len(),
            forall|j: int| 0 <= j < i ==> v@[j] != c,
        decreases v.len() - i,
    {
        if v[i] == c {
            return true;
        }
        i = i + 1;
    }
    false
}

/// A copy of a string slice.
pub fn owned(s: &str) -> (r: String)
    ensures
        r@ == s@,
{
    s.to_owned()
}


// ---------------------------------------------------------------------------
// Trimming and splitting
// ---------------------------------------------------------------------------

proof fn lemma_trim_start_char_skip(s: Seq<char>, c: char, i: int)
    requires
        0 <= i <= s.len(),
        forall|j: int| 0 <= j < i ==> s[j] == c,
    ensures
        trim_start_char(s, c) == trim_start_char(s.skip(i), c),
    decreases i,
{
    if i > 0 {
        assert(s.drop_first().skip(i - 1) =~= s.skip(i));
        assert forall|j: int| 0 <= j < i - 1 implies s.drop_first()[j] == c by {
            assert(s.drop_first()[j] == s[j + 1]);
        }
        lemma_trim_start_char_skip(s.drop_first(), c, i - 1);
    } else {
        assert(s.skip(0) =~= s);
    }
}

proof fn lemma_trim_end_char_take(s: Seq<char>, c: char, i: int)
    requires
        0 <= i <= s.len(),
        forall|j: int| i <= j < s.len() ==> s[j] == c,
    ensures
        trim_end_char(s, c) == trim_end_char(s.take(i), c),
    decreases s.len() - i,
{
    if i < s.len() {
        assert(s.drop_last().take(i) =~= s.take(i));
        lemma_trim_end_char_take(s.drop_last(), c, i);
    } else {
        assert(s.take(i) =~= s);
    }
}

/// `s` with every leading and trailing `c` removed (`str::trim_matches` with a char).
pub open spec fn trim_char(s: Seq<char>, c: char) -> Seq<char> {
    trim_end_char(trim_start_char(s, c), c)
}

/// `str::trim_matches` with a single character.
pub fn trim_char_exec(s: &str, c: char) -> (r: String)
    ensures
        r@ == trim_char(s@, c),
{
    trim_chars_exec(s, c, c)
}

/// `s.trim_start_matches(lead).trim_end_matches(trail)`.
pub fn trim_chars_exec(s: &str, lead: char, trail: char) -> (r: String)
    ensures
        r@ == trim_end_char(trim_start_char(s@, lead), trail),
{
    let v = chars_of(s);
    let mut a: usize = 0;
    while a < v.len() && v[a] == lead
        invariant
            a <= v@.len(),
            forall|j: int| 0 <= j < a ==> v@[j] == lead,
        decreases v@.len() - a,
    {
        a = a + 1;
    }
    proof {
        lemma_trim_start_char_skip(v@, lead, a as int);
    }
    let mut b: usize = v.len();
    while b > a && v[b - 1] == trail
        invariant
            a <= b <= v@.len(),
            forall|j: int| b <= j < v@.len() ==> v@[j] == trail,
        decreases b,
    {
        b = b - 1;
    }
    let ghost rest = v@.skip(a as int);
    proof {
        if a < v@.len() {
            assert(v@[a as int] != lead);
            assert(rest.len() > 0 && rest[0] != lead);
        }
        assert(trim_start_char(rest, lead) == rest);
        assert forall|j: int| b - a <= j < rest.len() implies rest[j] == trail by {
            assert(rest[j] == v@[j + a]);
        }
        lemma_trim_end_char_take(rest, trail, b - a);
        assert(rest.take(b - a) =~= v@.subrange(a as int, b as int));
        if b > a {
            assert(v@[b - 1] != trail);
        }
        assert(trim_end_char(rest.take(b - a), trail) == rest.take(b - a));
    }
    string_of_range(&v, a, b)
}

/// `str::trim_start_matches` with a single character.
pub fn trim_start_char_exec(s: &str, c: char) -> (r: String)
    ensures
        r@ == trim_start_char(s@, c),
{
    let v = chars_of(s);
    let mut a: usize = 0;
    while a < v.len() && v[a] == c
        invariant
            a <= v@.len(),
            forall|j: int| 0 <= j < a ==> v@[j] == c,
        decreases v@.len() - a,
    {
        a = a + 1;
    }
    proof {
        lemma_trim_start_char_skip(v@, c, a as int);
        if a < v@.len() {
            assert(v@.skip(a as int)[0] == v@[a as int]);
        }
        assert(v@.skip(a as int) =~= v@.subrange(a as int, v@.len() as int));
    }
    string_of_range(&v, a, v.len())
}

/// `str::trim_end_matches` with a single character.
pub fn trim_end_char_exec(s: &str, c: char) -> (r: String)
    ensures
        r@ == trim_end_char(s@, c),
{
    let v = chars_of(s);
    let mut b: usize = v.len();
    while b > 0 && v[b - 1] == c
        invariant
            b <= v@.len(),
            forall|j: int| b <= j < v@.len() ==> v@[j] == c,
        decreases b,
    {
        b = b - 1;
    }
    proof {
        lemma_trim_end_char_take(v@, c, b as int);
        if b > 0 {
            assert(v@.take(b as int).last() == v@[b - 1]);
        }
        assert(v@.take(b as int) =~= v@.subrange(0, b as int));
    }
    string_of_range(&v, 0, b)
}

/// State of splitting `s` at `sep`: the finished pieces and the piece in progress.
pub open spec fn split_state(s: Seq<char>, sep: char) -> (Seq<Seq<char>>, Seq<char>)
    decreases s.len(),
{
    if s.len() == 0 {
        (Seq::empty(), Seq::empty())
    } else {
        let (done, cur) = split_state(s.drop_last(), sep);
        if s.last() == sep {
            (done.push(cur), Seq::empty())
        } else {
            (done, cur.push(s.last()))
        }
    }
}

/// The pieces of `s` between occurrences of `sep` (`str::split` with a char).
pub open spec fn split_char(s: Seq<char>, sep: char) -> Seq<Seq<char>> {
    split_state(s, sep).0.push(split_state(s, sep).1)
}

/// `str::split` with a single character, collected.
pub fn split_char_exec(s: &str, sep: char) -> (r: Vec<String>)
    ensures
        r@.len() == split_char(s@, sep).len(),
        forall|i: int| 0 <= i < r@.len() ==> (#[trigger] r@[i])@ == split_char(s@, sep)[i],
{
    let v = chars_of(s);
    let mut done: Vec<String> = Vec::new();
    let mut cur = String::new();
    let mut i: usize = 0;
    while i < v.len()
        invariant
            i <= v@.len(),
            done@.len() == split_state(v@.take(i as int), sep).0.len(),
            forall|k: int| 0 <= k < done@.len() ==> (#[trigger] done@[k])@
                == split_state(v@.take(i as int), sep).0[k],
            cur@ == split_state(v@.take(i as int), sep).1,
        decreases v@.len() - i,
    {
        proof {
            assert(v@.take(i + 1).drop_last() =~= v@.take(i as int));
        }
        if v[i] == sep {
            done.push(cur);
            cur = String::new();
        } else {
            push_char(&mut cur, v[i]);
        }
        i = i + 1;
    }
    assert(v@.take(v@.len() as int) =~= v@);
    done.push(cur);
    done
}

/// A copy of `v[from..to]`.
pub fn subvec(v: &Vec<char>, from: usize, to: usize) -> (r: Vec<char>)
    requires
        from <= to <= v@.len(),
    ensures
        r@ == v@.subrange(from as int, to as int),
{
    let mut r: Vec<char> = Vec::new();
    let mut i = from;
    while i < to
        invariant
            from <= i <= to <= v@.len(),
            r@ == v@.subrange(from as int, i as int),
        decreases to - i,
    {
        r.push(v[i]);
        i = i + 1;
        assert(r@ =~= v@.subrange(from as int, i as int));
    }
    r
}


/// `a` sorts before `b` in lexicographic order of code points (the order of
/// Rust's `str` comparison, since UTF-8 keeps code point order).
pub open spec fn seq_lt(a: Seq<char>, b: Seq<char>) -> bool
    decreases a.len(),
{
    if a.len() == 0 {
        b.len() > 0
    } else if b.len() == 0 {
        false
    } else if a[0] != b[0] {
        (a[0] as u32) < (b[0] as u32)
    } else {
        seq_lt(a.drop_first(), b.drop_first())
    }
}

proof fn lemma_seq_lt_common_prefix(a: Seq<char>, b: Seq<char>, i: int)
    requires
        0 <= i <= a.len(),
        i <= b.len(),
        forall|j: int| 0 <= j < i ==> a[j] == b[j],
    ensures
        seq_lt(a, b) == seq_lt(a.skip(i), b.skip(i)),
    decreases i,
{
    if i > 0 {
        assert(a.drop_first().skip(i - 1) =~= a.skip(i));
        assert(b.drop_first().skip(i - 1) =~= b.skip(i));
        lemma_seq_lt_common_prefix(a.drop_first(), b.drop_first(), i - 1);
    } else {
        assert(a.skip(0) =~= a);
        assert(b.skip(0) =~= b);
    }
}

/// `a < b` for strings.
pub fn str_lt(a: &str, b: &str) -> (r: bool)
    ensures
        r == seq_lt(a@, b@),
{
    let va = chars_of(a);
    let vb = chars_of(b);
    let mut i: usize = 0;
    while i < va.len() && i < vb.len()
        invariant
            va@ == a@,
            vb@ == b@,
            i <= va@.len(),
            i <= vb@.len(),
            forall|j: int| 0 <= j < i ==> va@[j] == vb@[j],
        decreases va@.len() - i,
    {
        if va[i] != vb[i] {
            proof {
                lemma_seq_lt_common_prefix(va@, vb@, i as int);
                assert(va@.skip(i as int)[0] == va@[i as int]);
                assert(vb@.skip(i as int)[0] == vb@[i as int]);
            }
            let ca: u32 = va[i] as u32;
            let cb: u32 = vb[i] as u32;
            return ca < cb;
        }
        i = i + 1;
    }
    proof {
        lemma_seq_lt_common_prefix(va@, vb@, i as int);
    }
    i == va.len() && i < vb.len()
}


/// `s` contains `p`.
pub fn str_contains(s: &str, p: &str) -> (b: bool)
    ensures
        b == contains_seq(s@, p@),
{
    let sv = chars_of(s);
    let pv = chars_of(p);
    proof {
        lemma_find_from_result(sv@, pv@, 0);
    }
    match find_exec(&sv, &pv) {
        Some(_) => true,
        None => false,
    }
}


/// `i` is the last position where `p` occurs in `s`.
pub open spec fn is_last_occurrence(s: Seq<char>, p: Seq<char>, i: int) -> bool {
    &&& occurs_at(s, p, i)
    &&& forall|j: int| i < j ==> !#[trigger] occurs_at(s, p, j)
}

/// The position of the last occurrence of `p` in `s`, if any (`str::rfind`).
pub open spec fn rfind(s: Seq<char>, p: Seq<char>) -> Option<int> {
    if exists|i: int| is_last_occurrence(s, p, i) {
        Some(choose|i: int| is_last_occurrence(s, p, i))
    } else {
        None
    }
}

/// Last position of `p` in `s`.
pub fn rfind_exec(s: &Vec<char>, p: &Vec<char>) -> (r: Option<usize>)
    ensures
        r matches Some(i) ==> rfind(s@, p@) == Some(i as int) && occurs_at(s@, p@, i as int),
        r is None ==> rfind(s@, p@) == None::<int> && !contains_seq(s@, p@),
{
    if p.len() > s.len() {
        assert(!contains_seq(s@, p@));
        assert(!exists|i: int| is_last_occurrence(s@, p@, i));
        return None;
    }
    let top: usize = s.len() - p.len();
    if occurs_at_exec(s, p, top) {
        proof {
            assert(is_last_occurrence(s@, p@, top as int));
            assert forall|a: int| #[trigger] is_last_occurrence(s@, p@, a) implies a == top by {
                if a < top {
                    assert(occurs_at(s@, p@, top as int));
                }
            }
        }
        return Some(top);
    }
    let mut k: usize = top;
    while k > 0
        invariant
            k <= s@.len() - p@.len(),
            p@.len() <= s@.len(),
            forall|j: int| k <= j ==> !#[trigger] occurs_at(s@, p@, j),
        decreases k,
    {
        if occurs_at_exec(s, p, k - 1) {
            let i = k - 1;
            proof {
                assert(is_last_occurrence(s@, p@, i as int));
                assert forall|a: int| #[trigger] is_last_occurrence(s@, p@, a) implies a == i by {
                    if a < i {
                        assert(occurs_at(s@, p@, i as int));
                    }
                }
            }
            return Some(i);
        }
        k = k - 1;
    }
    assert(!contains_seq(s@, p@));
    assert(!exists|i: int| is_last_occurrence(s@, p@, i));
    None
}

/// `s` without its trailing whitespace (`str::trim_end`).
pub open spec fn trim_end(s: Seq<char>) -> Seq<char>
    decreases s.len(),
{
    if s.len() > 0 && is_white_space(s.last()) {
        trim_end(s.drop_last())
    } else {
        s
    }
}

/// `s` without leading and trailing whitespace (`str::trim`).
pub open spec fn trim(s: Seq<char>) -> Seq<char> {
    trim_end(trim_start(s))
}

proof fn lemma_trim_end_take(s: Seq<char>, b: int)
    requires
        0 <= b <= s.len(),
        forall|j: int| b <= j < s.len() ==> is_white_space(#[trigger] s[j]),
        b == 0 || !is_white_space(s[b - 1]),
    ensures
        trim_end(s) == s.take(b),
    decreases s.len() - b,
{
    if b < s.len() {
        assert(s.drop_last().take(b) =~= s.take(b));
        lemma_trim_end_take(s.drop_last(), b);
    } else {
        assert(s.take(b) =~= s);
    }
}

/// `str::trim`.
pub fn trim_exec(s: &str) -> (r: String)
    ensures
        r@ == trim(s@),
{
    let v = chars_of(s);
    let mut a: usize = 0;
    while a < v.len() && crate::frontmatter::is_white_space_char(v[a])
        invariant
            a <= v@.len(),
            forall|j: int| 0 <= j < a ==> is_white_space(#[trigger] v@[j]),
        decreases v@.len() - a,
    {
        a = a + 1;
    }
    proof {
        crate::frontmatter::lemma_trim_start_suffix(v@, a as int);
    }
    let mut b: usize = v.len();
    while b > a && crate::frontmatter::is_white_space_char(v[b - 1])
        invariant
            a <= b <= v@.len(),
            forall|j: int| b <= j < v@.len() ==> is_white_space(#[trigger] v@[j]),
        decreases b,
    {
        b = b - 1;
    }
    proof {
        let rest = v@.skip(a as int);
        assert forall|j: int| b - a <= j < rest.len() implies is_white_space(#[trigger] rest[j]) by {
            assert(rest[j] == v@[j + a]);
        }
        if b > a {
            assert(rest[b - a - 1] == v@[b - 1]);
        }
        lemma_trim_end_take(rest, b - a);
        assert(rest.take(b - a) =~= v@.subrange(a as int, b as int));
    }
    string_of_range(&v, a, b)
}

/// `l` without one trailing carriage return.
pub open spec fn strip_cr(l: Seq<char>) -> Seq<char> {
    if l.len() > 0 && l.last() == '\r' {
        l.drop_last()
    } else {
        l
    }
}

/// The lines of `s` (`str::lines`): the pieces between line feeds, each piece that a
/// line feed ends without one trailing carriage return, and no empty last line.
pub open spec fn lines(s: Seq<char>) -> Seq<Seq<char>> {
    let parts = split_char(s, '\n');
    let n = parts.len();
    let ended = parts.take(n - 1).map_values(|l: Seq<char>| strip_cr(l));
    if parts[n - 1].len() == 0 {
        ended
    } else {
        ended.push(parts[n - 1])
    }
}

fn strip_cr_exec(l: &str) -> (r: String)
    ensures
        r@ == strip_cr(l@),
{
    let v = chars_of(l);
    if v.len() > 0 && v[v.len() - 1] == '\r' {
        let r = string_of_range(&v, 0, v.len() - 1);
        assert(v@.subrange(0, v@.len() - 1) =~= v@.drop_last());
        r
    } else {
        let r = string_of_range(&v, 0, v.len());
        assert(v@.subrange(0, v@.len() as int) =~= v@);
        r
    }
}

/// `str::lines`, collected.
pub fn lines_exec(s: &str) -> (r: Vec<String>)
    ensures
        r@.map_values(|l: String| l@) == lines(s@),
{
    let parts = split_char_exec(s, '\n');
    let ghost ps = split_char(s@, '\n');
    let n = parts.len();
    assert(n >= 1);
    let mut r: Vec<String> = Vec::new();
    let mut i: usize = 0;
    while i + 1 < n
        invariant
            n == parts@.len(),
            n == ps.len(),
            n >= 1,
            i + 1 <= n,
            forall|k: int| 0 <= k < parts@.len() ==> (#[trigger] parts@[k])@ == ps[k],
            r@.map_values(|l: String| l@) == ps.take(i as int).map_values(|l: Seq<char>| strip_cr(l)),
        decreases n - i,
    {
        let line = strip_cr_exec(parts[i].as_str());
        let ghost before = r@;
        r.push(line);
        proof {
            let lhs = r@.map_values(|l: String| l@);
            let rhs = ps.take(i + 1).map_values(|l: Seq<char>| strip_cr(l));
            assert(before.map_values(|l: String| l@).len() == i);
            assert(before.len() == i);
            assert(lhs.len() == i + 1);
            assert forall|k: int| 0 <= k < lhs.len() implies lhs[k] == rhs[k] by {
                if k < i {
                    assert(r@[k] == before[k]);
                    assert(lhs[k] == before.map_values(|l: String| l@)[k]);
                } else {
                    assert(k == i);
                    assert(r@[k] == line);
                    assert(parts@[k]@ == ps[k]);
                }
            }
            assert(lhs =~= rhs);
        }
        i = i + 1;
    }
    if !parts[n - 1].as_str().is_empty() {
        r.push(parts[n - 1].clone());
        assert(r@.map_values(|l: String| l@) =~= ps.take(n - 1).map_values(|l: Seq<char>| strip_cr(l)).push(ps[n - 1]));
    }
    r
}

/// No string sorts before itself.
pub proof fn lemma_seq_lt_irreflexive(a: Seq<char>)
    ensures
        !seq_lt(a, a),
    decreases a.len(),
{
    if a.len() > 0 {
        lemma_seq_lt_irreflexive(a.drop_first());
    }
}


/// String order is transitive.
pub proof fn lemma_seq_lt_transitive(a: Seq<char>, b: Seq<char>, c: Seq<char>)
    requires
        seq_lt(a, b),
        seq_lt(b, c),
    ensures
        seq_lt(a, c),
    decreases a.len(),
{
    if a.len() > 0 && b.len() > 0 && c.len() > 0 && a[0] == b[0] && b[0] == c[0] {
        lemma_seq_lt_transitive(a.drop_first(), b.drop_first(), c.drop_first());
    }
}

/// Of two different strings, one sorts before the other, and not both ways.
pub proof fn lemma_seq_lt_total(a: Seq<char>, b: Seq<char>)
    ensures
        a != b ==> (seq_lt(a, b) || seq_lt(b, a)),
        !(seq_lt(a, b) && seq_lt(b, a)),
    decreases a.len(),
{
    if a.len() > 0 && b.len() > 0 {
        lemma_seq_lt_total(a.drop_first(), b.drop_first());
        if a[0] != b[0] {
            let c: char = a[0];
            let d: char = b[0];
            vstd::utf8::char_u32_cast(c, c as u32);
            vstd::utf8::char_u32_cast(d, d as u32);
            assert((c as u32) != (d as u32));
        }
        if a[0] == b[0] && a != b {
            assert(a.drop_first() != b.drop_first()) by {
                if a.drop_first() == b.drop_first() {
                    assert(a =~= seq![a[0]] + a.drop_first());
                    assert(b =~= seq![b[0]] + b.drop_first());
                }
            }
        }
    } else if a.len() == 0 && b.len() == 0 {
        assert(a =~= b);
    }
}

} // verus!
