//! Splitting a content file into its TOML frontmatter and Markdown body.
use vstd::prelude::*;
use vstd::string::StrSliceExecFns;
use crate::text::{chars_of, contains_seq, find, find_exec, is_white_space, lemma_find_from_none, lemma_find_from_result, lemma_find_from_some, occurs_at, starts_with, trim_start};

verus! {

/// Why a file could not be split into frontmatter and body.
#[derive(Debug, Clone, Copy, PartialEq, Eq, Structural)]
pub enum SplitError {
    /// The content does not start with a `+++` line.
    MissingOpening,
    /// No closing `+++` line follows the opening one.
    MissingClosing,
}

impl SplitError {
    /// The error message.
    pub fn message(&self) -> (s: &'static str)
        ensures
            *self == SplitError::MissingOpening ==> s@ == "Content does not start with +++ frontmatter delimiter"@,
            *self == SplitError::MissingClosing ==> s@ == "Missing closing +++ frontmatter delimiter"@,
    {
        match self {
            SplitError::MissingOpening => "Content does not start with +++ frontmatter delimiter",
            SplitError::MissingClosing => "Missing closing +++ frontmatter delimiter",
        }
    }
}

pub open spec fn plus3() -> Seq<char> { seq!['+', '+', '+'] }
pub open spec fn crlf() -> Seq<char> { seq!['\r', '\n'] }
pub open spec fn lf() -> Seq<char> { seq!['\n'] }
pub open spec fn crlf_plus3() -> Seq<char> { seq!['\r', '\n', '+', '+', '+'] }
pub open spec fn lf_plus3() -> Seq<char> { seq!['\n', '+', '+', '+'] }

/// `s` without one leading line break (`\r\n` or `\n`).
pub open spec fn strip_newline(s: Seq<char>) -> Seq<char> {
    if starts_with(s, crlf()) {
        s.skip(2)
    } else if starts_with(s, lf()) {
        s.skip(1)
    } else {
        s
    }
}

/// The closing delimiter: the first line break followed by `+++`, as (position,
/// length); the break is `\r\n` when the first `\n+++` follows a `\r`, else `\n`.
pub open spec fn closing_delimiter(a: Seq<char>) -> Option<(int, int)> {
    match find(a, lf_plus3()) {
        Some(i) => if i > 0 && a[i - 1] == '\r' {
            Some((i - 1, 5))
        } else {
            Some((i, 4))
        },
        None => None,
    }
}

/// The text after the opening delimiter and its line break.
pub open spec fn after_opening(content: Seq<char>) -> Seq<char> {
    strip_newline(trim_start(content).skip(3))
}

/// Frontmatter and body of `content`, or why there are none.
pub open spec fn split_spec(content: Seq<char>) -> Result<(Seq<char>, Seq<char>), SplitError> {
    let t = trim_start(content);
    if !starts_with(t, plus3()) {
        Err(SplitError::MissingOpening)
    } else {
        let a = after_opening(content);
        match closing_delimiter(a) {
            None => Err(SplitError::MissingClosing),
            Some((end, dl)) => Ok((a.take(end), strip_newline(a.skip(end + dl)))),
        }
    }
}

pub(crate) proof fn lemma_trim_start_suffix(s: Seq<char>, k: int)
    requires
        0 <= k <= s.len(),
        forall|j: int| 0 <= j < k ==> is_white_space(#[trigger] s[j]),
        k == s.len() || !is_white_space(s[k]),
    ensures
        trim_start(s) == s.skip(k),
    decreases k,
{
    if k > 0 {
        assert(s.drop_first().skip(k - 1) =~= s.skip(k));
        assert forall|j: int| 0 <= j < k - 1 implies is_white_space(#[trigger] s.drop_first()[j]) by {
            assert(s.drop_first()[j] == s[j + 1]);
        }
        lemma_trim_start_suffix(s.drop_first(), k - 1);
    } else {
        assert(s.skip(0) =~= s);
    }
}

/// `char::is_whitespace`.
pub fn is_white_space_char(c: char) -> (b: bool)
    ensures
        b == is_white_space(c),
{
    c == ' ' || c == '\t' || c == '\n' || c == '\r' || c == '\u{0B}' || c == '\u{0C}' || c == '\u{85}'
        || c == '\u{A0}' || c == '\u{1680}' || ('\u{2000}' <= c && c <= '\u{200A}') || c == '\u{2028}'
        || c == '\u{2029}' || c == '\u{202F}' || c == '\u{205F}' || c == '\u{3000}'
}

/// Length of the line break `v[from..]` starts with (2, 1 or 0).
fn newline_len(v: &Vec<char>, from: usize) -> (n: usize)
    requires
        from <= v@.len(),
    ensures
        from + n <= v@.len(),
        strip_newline(v@.skip(from as int)) == v@.skip(from + n),
{
    if from < v.len() && from + 1 < v.len() && v[from] == '\r' && v[from + 1] == '\n' {
        assert(v@.skip(from as int).subrange(0, 2) =~= crlf());
        assert(v@.skip(from as int).skip(2) =~= v@.skip(from + 2));
        2
    } else if from < v.len() && v[from] == '\n' {
        assert(!starts_with(v@.skip(from as int), crlf())) by {
            if starts_with(v@.skip(from as int), crlf()) {
                assert(v@.skip(from as int).subrange(0, 2)[0] == '\r');
            }
        }
        assert(v@.skip(from as int).subrange(0, 1) =~= lf());
        assert(v@.skip(from as int).skip(1) =~= v@.skip(from + 1));
        1
    } else {
        assert(!starts_with(v@.skip(from as int), crlf())) by {
            if starts_with(v@.skip(from as int), crlf()) {
                assert(v@.skip(from as int).subrange(0, 2)[0] == '\r');
                assert(v@.skip(from as int).subrange(0, 2)[1] == '\n');
            }
        }
        assert(!starts_with(v@.skip(from as int), lf())) by {
            if starts_with(v@.skip(from as int), lf()) {
                assert(v@.skip(from as int).subrange(0, 1)[0] == '\n');
            }
        }
        assert(v@.skip(from as int).skip(0) =~= v@.skip(from as int));
        0
    }
}

/// Split a file's content into TOML frontmatter and Markdown body.
/// Frontmatter is delimited by `+++` lines.
#[verifier::rlimit(30)]
pub fn split_frontmatter(content: &str) -> (r: Result<(&str, &str), SplitError>)
    ensures
        match r {
            Ok((fm, body)) => split_spec(content@) == Ok::<(Seq<char>, Seq<char>), SplitError>((fm@, body@))
                && !contains_seq(fm@, lf_plus3()),
            Err(e) => split_spec(content@) == Err::<(Seq<char>, Seq<char>), SplitError>(e),
        },
{
    let v = chars_of(content);
    let mut k: usize = 0;
    while k < v.len() && is_white_space_char(v[k])
        invariant
            k <= v@.len(),
            forall|j: int| 0 <= j < k ==> is_white_space(#[trigger] v@[j]),
        decreases v@.len() - k,
    {
        k = k + 1;
    }
    proof {
        lemma_trim_start_suffix(v@, k as int);
    }
    let p3: Vec<char> = vec!['+', '+', '+'];
    assert(p3@ =~= plus3());
    if !crate::text::occurs_at_exec(&v, &p3, k) {
        proof {
            if starts_with(v@.skip(k as int), plus3()) {
                assert(v@.skip(k as int).subrange(0, 3) =~= v@.subrange(k as int, k + 3));
            }
        }
        return Err(SplitError::MissingOpening);
    }
    assert(v@.skip(k as int).subrange(0, 3) =~= v@.subrange(k as int, k + 3));
    let a0 = k + 3;
    assert(v@.skip(k as int).skip(3) =~= v@.skip(a0 as int));
    let nl = newline_len(&v, a0);
    let a = a0 + nl;
    let ghost aseq = v@.skip(a as int);
    assert(after_opening(content@) == aseq);
    let rest: Vec<char> = crate::text::subvec(&v, a, v.len());
    assert(rest@ =~= aseq);
    let d4: Vec<char> = vec!['\n', '+', '+', '+'];
    assert(d4@ =~= lf_plus3());
    proof {
        lemma_find_from_result(aseq, lf_plus3(), 0);
    }
    let (end, dl): (usize, usize) = match find_exec(&rest, &d4) {
        Some(i) => {
            assert(find(aseq, lf_plus3()) == Some(i as int));
            if i > 0 && rest[i - 1] == '\r' {
                assert(closing_delimiter(aseq) == Some(((i - 1) as int, 5int)));
                (i - 1, 5)
            } else {
                assert(closing_delimiter(aseq) == Some((i as int, 4int)));
                (i, 4)
            }
        },
        None => {
            assert(closing_delimiter(aseq) is None);
            return Err(SplitError::MissingClosing);
        },
    };
    assert(end + dl <= rest@.len());
    proof {
        lemma_no_closing_before(aseq, end as int);
    }
    let fm = content.substring_char(a, a + end);
    assert(fm@ =~= aseq.take(end as int));
    let b0 = a + end + dl;
    let nl2 = newline_len(&v, b0);
    assert(aseq.skip(end + dl) =~= v@.skip(b0 as int));
    let body = content.substring_char(b0 + nl2, v.len());
    assert(body@ =~= v@.skip(b0 + nl2));
    Ok((fm, body))
}


/// Nothing before the first `\n+++` holds a `\n+++`.
proof fn lemma_no_closing_before(a: Seq<char>, e: int)
    requires
        find(a, lf_plus3()) matches Some(i) && 0 <= e <= i,
    ensures
        !contains_seq(a.take(e), lf_plus3()),
{
    let i = find(a, lf_plus3())->0;
    lemma_find_from_result(a, lf_plus3(), 0);
    if contains_seq(a.take(e), lf_plus3()) {
        let j = choose|j: int| occurs_at(a.take(e), lf_plus3(), j);
        assert(a.take(e).subrange(j, j + 4) =~= a.subrange(j, j + 4));
        assert(occurs_at(a, lf_plus3(), j));
        assert(j < i);
    }
}

proof fn lemma_strip_lf(body: Seq<char>)
    ensures
        strip_newline(lf() + body) == body,
{
    let t = lf() + body;
    assert(t[0] == '\n');
    if starts_with(t, crlf()) {
        assert(t.subrange(0, 2)[0] == '\r');
    }
    assert(t.subrange(0, 1) =~= lf());
    assert(t.skip(1) =~= body);
}

proof fn lemma_opening(fm: Seq<char>, body: Seq<char>)
    ensures
        trim_start(plus3() + lf() + fm + lf_plus3() + lf() + body) == plus3() + lf() + fm + lf_plus3() + lf() + body,
        starts_with(plus3() + lf() + fm + lf_plus3() + lf() + body, plus3()),
        after_opening(plus3() + lf() + fm + lf_plus3() + lf() + body) == fm + lf_plus3() + lf() + body,
{
    let c = plus3() + lf() + fm + lf_plus3() + lf() + body;
    let a = fm + lf_plus3() + lf() + body;
    assert(!is_white_space(c[0]));
    assert(c.subrange(0, 3) =~= plus3());
    assert(c.skip(3) =~= lf() + a);
    lemma_strip_lf(a);
}

proof fn lemma_closing(fm: Seq<char>, body: Seq<char>)
    requires
        !contains_seq(fm, lf_plus3()),
        fm.len() == 0 || fm.last() != '\r',
    ensures
        closing_delimiter(fm + lf_plus3() + lf() + body) == Some((fm.len() as int, 4int)),
{
    let a = fm + lf_plus3() + lf() + body;
    let n = fm.len() as int;
    assert(a.subrange(n, n + 4) =~= lf_plus3());
    assert forall|j: int| 0 <= j < n implies !occurs_at(a, lf_plus3(), j) by {
        if occurs_at(a, lf_plus3(), j) {
            if j + 4 <= n {
                assert(fm.subrange(j, j + 4) =~= a.subrange(j, j + 4));
                assert(occurs_at(fm, lf_plus3(), j));
            } else {
                assert(a[n] == '\n');
                assert(a.subrange(j, j + 4)[n - j] == a[n]);
                assert(lf_plus3()[n - j] == '+');
            }
        }
    }
    lemma_find_from_some(a, lf_plus3(), 0, n);
    if n > 0 {
        assert(a[n - 1] == fm.last());
    }
}

/// A file written as `+++`, a line break, the frontmatter, a line break, `+++`,
/// a line break and the body splits back into that frontmatter and body,
/// when no line of the frontmatter starts with `+++` and the frontmatter does not end
/// with a carriage return (which would make its last line break `\r\n`).
pub proof fn law_split_roundtrip(fm: Seq<char>, body: Seq<char>)
    requires
        !contains_seq(fm, lf_plus3()),
        fm.len() == 0 || fm.last() != '\r',
    ensures
        split_spec(plus3() + lf() + fm + lf_plus3() + lf() + body) == Ok::<(Seq<char>, Seq<char>), SplitError>(
            (fm, body),
        ),
{
    let a = fm + lf_plus3() + lf() + body;
    lemma_opening(fm, body);
    lemma_closing(fm, body);
    assert(a.take(fm.len() as int) =~= fm);
    assert(a.skip(fm.len() as int + 4) =~= lf() + body);
    lemma_strip_lf(body);
}

} // verus!
