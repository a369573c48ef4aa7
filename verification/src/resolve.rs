//! Resolution of `{path}` references between design tokens.
//!
//! A token whose value is a standalone reference takes the (resolved) value of
//! the token it names; references inside a longer string are replaced by the
//! referenced string or number.  Resolution stops after twenty levels, so
//! circular references end.
use vstd::prelude::*;
use vstd::utf8::encode_scalar;
use crate::json::{number_inline, number_inline_text};
use crate::text::{chars_of, push_char, string_of_range, str_eq};
use crate::theme::{contains_reference, contains_reference_spec, is_reference, is_reference_spec};
use crate::tokens::{flat_views, FlatToken, FlatV, TokenValue, TokenValueV};
use crate::types::utf8_of_char;

verus! {

/// An unresolved token reference found after resolution.
#[derive(Debug, Clone)]
pub struct UnresolvedRef {
    /// The token path that contains the broken reference.
    pub token_path: String,
    /// The reference string that couldn't be resolved (e.g. `{color.nonexistent}`).
    pub reference: String,
}

/// The path → value lookup table of a list of tokens.
pub open spec fn env_of(ts: Seq<FlatV>) -> Seq<(Seq<char>, TokenValueV)> {
    ts.map_values(|f: FlatV| (f.path, f.value))
}

/// The value of the first entry named `key`.
pub open spec fn env_get(env: Seq<(Seq<char>, TokenValueV)>, key: Seq<char>) -> Option<TokenValueV>
    decreases env.len(),
{
    if env.len() == 0 {
        None
    } else if env[0].0 == key {
        Some(env[0].1)
    } else {
        env_get(env.drop_first(), key)
    }
}

/// The position of the first `}` at or after `from`.
pub open spec fn next_close(s: Seq<char>, from: int) -> Option<int>
    decreases s.len() - from,
{
    if from < 0 || from >= s.len() {
        None
    } else if s[from] == '}' {
        Some(from)
    } else {
        next_close(s, from + 1)
    }
}

/// Where the inline reference `{name}` that starts at `pos` ends: the first `}`
/// after `pos`, when the name between is non-empty and holds no `{`.
pub open spec fn ref_end(s: Seq<char>, pos: int) -> Option<int> {
    if 0 <= pos < s.len() && s[pos] == '{' {
        match next_close(s, pos + 1) {
            Some(e) => if e > pos + 1 && !s.subrange(pos + 1, e).contains('{') {
                Some(e)
            } else {
                None
            },
            None => None,
        }
    } else {
        None
    }
}

pub proof fn lemma_ref_end_bounds(s: Seq<char>, pos: int)
    ensures
        ref_end(s, pos) matches Some(e) ==> pos + 1 < e < s.len() && s[e] == '}',
{
    lemma_next_close_bounds(s, pos + 1);
}

/// A character written out byte by byte, each UTF-8 byte as the character
/// with that code (the identity on ASCII).
pub open spec fn byte_chars(c: char) -> Seq<char> {
    encode_scalar(c as u32).map_values(|b: u8| b as char)
}

/// The value of a token after resolving references, `depth` levels deep.
pub open spec fn resolve_spec(v: TokenValueV, env: Seq<(Seq<char>, TokenValueV)>, depth: int) -> TokenValueV
    decreases 21 - depth, 1int, 0int,
{
    if depth > 20 {
        v
    } else {
        match v {
            TokenValueV::String(s) => if is_reference_spec(s) {
                match env_get(env, s.subrange(1, s.len() - 1)) {
                    Some(t) => resolve_spec(t, env, depth + 1),
                    None => v,
                }
            } else if contains_reference_spec(s) {
                TokenValueV::String(resolve_inline_spec(s, env, depth, 0))
            } else {
                v
            },
            _ => v,
        }
    }
}

/// The text of `s` from `pos` on, with each inline reference to a token that
/// resolves to a string or number replaced by it, other characters written
/// out byte by byte.
pub open spec fn resolve_inline_spec(
    s: Seq<char>,
    env: Seq<(Seq<char>, TokenValueV)>,
    depth: int,
    pos: int,
) -> Seq<char>
    decreases 21 - depth, 0int, s.len() - pos,
{
    if pos < 0 || pos >= s.len() {
        Seq::empty()
    } else {
        match ref_end(s, pos) {
            Some(e) => {
                let name = s.subrange(pos + 1, e);
                match env_get(env, name) {
                    Some(t) => {
                        proof {
                            lemma_ref_end_bounds(s, pos);
                        }
                        let r = if depth + 1 > 20 { t } else { resolve_spec(t, env, depth + 1) };
                        let text = match r {
                            TokenValueV::String(v) => v,
                            TokenValueV::Number(n) => number_inline(n),
                            _ => seq!['{'] + name + seq!['}'],
                        };
                        text + resolve_inline_spec(s, env, depth, e + 1)
                    },
                    None => byte_chars(s[pos]) + resolve_inline_spec(s, env, depth, pos + 1),
                }
            },
            None => byte_chars(s[pos]) + resolve_inline_spec(s, env, depth, pos + 1),
        }
    }
}

/// The lookup table of `local` then `base`: a path in both takes its local value.
pub open spec fn env_two(local: Seq<FlatToken>, base: Seq<FlatToken>) -> Seq<(Seq<char>, TokenValueV)> {
    env_of(flat_views(local)) + env_of(flat_views(base))
}

proof fn lemma_env_get_scan(env: Seq<(Seq<char>, TokenValueV)>, key: Seq<char>, i: int)
    requires
        0 <= i <= env.len(),
        forall|j: int| 0 <= j < i ==> (#[trigger] env[j]).0 != key,
    ensures
        env_get(env, key) == env_get(env.skip(i), key),
    decreases i,
{
    if i > 0 {
        assert(env[0].0 != key);
        assert(env.drop_first().skip(i - 1) =~= env.skip(i));
        assert forall|j: int| 0 <= j < i - 1 implies (#[trigger] env.drop_first()[j]).0 != key by {
            assert(env.drop_first()[j] == env[j + 1]);
        }
        lemma_env_get_scan(env.drop_first(), key, i - 1);
    } else {
        assert(env.skip(0) =~= env);
    }
}

/// The value named `key` in `local`, else in `base`.
fn lookup<'a>(local: &'a Vec<FlatToken>, base: &'a Vec<FlatToken>, key: &str) -> (r: Option<&'a TokenValue>)
    ensures
        match r {
            Some(v) => env_get(env_two(local@, base@), key@) == Some(v@),
            None => env_get(env_two(local@, base@), key@) is None,
        },
{
    let ghost env = env_two(local@, base@);
    let ghost nl = local@.len();
    assert(env.len() == local@.len() + base@.len());
    assert forall|k: int| 0 <= k < nl implies #[trigger] env[k] == (local@[k].path@, local@[k].value@) by {}
    assert forall|k: int| nl <= k < env.len() implies #[trigger] env[k] == (
        base@[k - nl].path@,
        base@[k - nl].value@,
    ) by {}
    let mut i: usize = 0;
    while i < local.len()
        invariant
            i <= local@.len(),
            nl == local@.len(),
            env == env_two(local@, base@),
            env.len() == local@.len() + base@.len(),
            forall|k: int| 0 <= k < nl ==> #[trigger] env[k] == (local@[k].path@, local@[k].value@),
            forall|j: int| 0 <= j < i ==> (#[trigger] env[j]).0 != key@,
        decreases local@.len() - i,
    {
        if str_eq(local[i].path.as_str(), key) {
            proof {
                lemma_env_get_scan(env, key@, i as int);
                assert(env.skip(i as int)[0] == env[i as int]);
            }
            return Some(&local[i].value);
        }
        i = i + 1;
    }
    let mut j: usize = 0;
    while j < base.len()
        invariant
            j <= base@.len(),
            nl == local@.len(),
            env == env_two(local@, base@),
            env.len() == local@.len() + base@.len(),
            forall|k: int| nl <= k < env.len() ==> #[trigger] env[k] == (base@[k - nl].path@, base@[k - nl].value@),
            forall|k: int| 0 <= k < nl + j ==> (#[trigger] env[k]).0 != key@,
        decreases base@.len() - j,
    {
        if str_eq(base[j].path.as_str(), key) {
            proof {
                lemma_env_get_scan(env, key@, nl + j);
                assert(env.skip(nl + j)[0] == env[nl + j]);
            }
            return Some(&base[j].value);
        }
        proof {
            assert(env[nl + j] == (base@[j as int].path@, base@[j as int].value@));
        }
        j = j + 1;
    }
    proof {
        lemma_env_get_scan(env, key@, env.len() as int);
    }
    None
}

/// The first `}` at or after `from`.
fn next_close_exec(v: &Vec<char>, from: usize) -> (r: Option<usize>)
    ensures
        match r {
            Some(e) => next_close(v@, from as int) == Some(e as int),
            None => next_close(v@, from as int) is None,
        },
    decreases v@.len() - from,
{
    if from >= v.len() {
        None
    } else if v[from] == '}' {
        Some(from)
    } else {
        next_close_exec(v, from + 1)
    }
}

/// Where an inline reference starting at `pos` ends.
fn ref_end_exec(v: &Vec<char>, pos: usize) -> (r: Option<usize>)
    requires
        pos < v.len(),
    ensures
        match r {
            Some(e) => ref_end(v@, pos as int) == Some(e as int) && pos + 1 < e < v@.len(),
            None => ref_end(v@, pos as int) is None,
        },
{
    if v[pos] != '{' {
        return None;
    }
    match next_close_exec(v, pos + 1) {
        Some(e) => {
            proof {
                lemma_next_close_bounds(v@, pos + 1);
            }
            if e > pos + 1 {
                let inner = crate::text::subvec(v, pos + 1, e);
                if !crate::text::contains_char(&inner, '{') {
                    return Some(e);
                }
            }
            None
        },
        None => None,
    }
}

pub proof fn lemma_next_close_bounds(s: Seq<char>, from: int)
    ensures
        next_close(s, from) matches Some(e) ==> from <= e < s.len() && s[e] == '}',
    decreases s.len() - from,
{
    if 0 <= from < s.len() && s[from] != '}' {
        lemma_next_close_bounds(s, from + 1);
    }
}

/// Append a character byte by byte.
fn push_byte_chars(out: &mut String, c: char)
    ensures
        final(out)@ == old(out)@ + byte_chars(c),
{
    let b = utf8_of_char(c);
    let ghost start = out@;
    let mut i: usize = 0;
    while i < b.len()
        invariant
            i <= b@.len(),
            b@ == encode_scalar(c as u32),
            out@ == start + b@.take(i as int).map_values(|x: u8| x as char),
        decreases b@.len() - i,
    {
        push_char(out, b[i] as char);
        proof {
            assert(b@.take(i + 1).map_values(|x: u8| x as char) =~= b@.take(i as int).map_values(
                |x: u8| x as char,
            ).push(b@[i as int] as char));
        }
        i = i + 1;
    }
    assert(b@.take(b@.len() as int) =~= b@);
}

/// Resolve the references in one value, `depth` levels deep.
fn resolve_value(value: &TokenValue, local: &Vec<FlatToken>, base: &Vec<FlatToken>, depth: usize) -> (r: TokenValue)
    requires
        depth <= 21,
    ensures
        r@ == resolve_spec(value@, env_two(local@, base@), depth as int),
    decreases 21 - depth, 1int, 0int,
{
    if depth > 20 {
        return value.deep_clone();
    }
    match value {
        TokenValue::String(s) => {
            if is_reference(s.as_str()) {
                let v = chars_of(s.as_str());
                let name = string_of_range(&v, 1, v.len() - 1);
                match lookup(local, base, name.as_str()) {
                    Some(target) => resolve_value(target, local, base, depth + 1),
                    None => value.deep_clone(),
                }
            } else if contains_reference(s.as_str()) {
                TokenValue::String(resolve_inline(s.as_str(), local, base, depth))
            } else {
                value.deep_clone()
            }
        },
        _ => value.deep_clone(),
    }
}

/// Replace the inline references in a string.
fn resolve_inline(s: &str, local: &Vec<FlatToken>, base: &Vec<FlatToken>, depth: usize) -> (r: String)
    requires
        depth <= 20,
    ensures
        r@ == resolve_inline_spec(s@, env_two(local@, base@), depth as int, 0),
    decreases 21 - depth, 0int, s@.len(),
{
    let ghost env = env_two(local@, base@);
    let v = chars_of(s);
    let mut out = String::new();
    let mut pos: usize = 0;
    while pos < v.len()
        invariant
            pos <= v@.len(),
            v@ == s@,
            depth <= 20,
            env == env_two(local@, base@),
            out@ + resolve_inline_spec(v@, env, depth as int, pos as int) == resolve_inline_spec(
                v@,
                env,
                depth as int,
                0,
            ),
        decreases v@.len() - pos,
    {
        let ghost before = out@;
        match ref_end_exec(&v, pos) {
            Some(e) => {
                let name = string_of_range(&v, pos + 1, e);
                match lookup(local, base, name.as_str()) {
                    Some(target) => {
                        let r = resolve_value(target, local, base, depth + 1);
                        match r {
                            TokenValue::String(t) => {
                                out.append(t.as_str());
                            },
                            TokenValue::Number(n) => {
                                let t = number_inline_text(&n);
                                out.append(t.as_str());
                            },
                            _ => {
                                push_char(&mut out, '{');
                                out.append(name.as_str());
                                push_char(&mut out, '}');
                            },
                        }
                        proof {
                            assert(out@ == before + match r@ {
                                TokenValueV::String(x) => x,
                                TokenValueV::Number(n) => number_inline(n),
                                _ => seq!['{'] + name@ + seq!['}'],
                            });
                        }
                        pos = e + 1;
                    },
                    None => {
                        push_byte_chars(&mut out, v[pos]);
                        pos = pos + 1;
                    },
                }
            },
            None => {
                push_byte_chars(&mut out, v[pos]);
                pos = pos + 1;
            },
        }
    }
    out
}

/// A token with its value replaced.
fn with_value(t: &FlatToken, value: TokenValue) -> (r: FlatToken)
    ensures
        r@ == (FlatV { value: value@, ..t@ }),
{
    FlatToken {
        path: t.path.clone(),
        value,
        token_type: crate::tokens::clone_opt_str(&t.token_type),
        description: crate::tokens::clone_opt_str(&t.description),
    }
}

/// The tokens with every value resolved against `local` then `base`.
fn resolve_all(tokens: &Vec<FlatToken>, base: &Vec<FlatToken>) -> (r: Vec<FlatToken>)
    ensures
        r@.len() == tokens@.len(),
        forall|i: int| 0 <= i < tokens@.len() ==> #[trigger] r@[i]@ == (FlatV {
            value: resolve_spec(tokens@[i]@.value, env_two(tokens@, base@), 0),
            ..tokens@[i]@
        }),
{
    let mut r: Vec<FlatToken> = Vec::new();
    let mut i: usize = 0;
    while i < tokens.len()
        invariant
            i <= tokens@.len(),
            r@.len() == i,
            forall|k: int| 0 <= k < i ==> #[trigger] r@[k]@ == (FlatV {
                value: resolve_spec(tokens@[k]@.value, env_two(tokens@, base@), 0),
                ..tokens@[k]@
            }),
        decreases tokens@.len() - i,
    {
        let v = resolve_value(&tokens[i].value, tokens, base, 0);
        r.push(with_value(&tokens[i], v));
        i = i + 1;
    }
    r
}

/// Resolve `{reference}` strings in token values to their targets' values.
pub fn resolve_references(tokens: &mut Vec<FlatToken>)
    ensures
        final(tokens)@.len() == old(tokens)@.len(),
        forall|i: int| 0 <= i < old(tokens)@.len() ==> #[trigger] final(tokens)@[i]@ == (FlatV {
            value: resolve_spec(old(tokens)@[i]@.value, env_of(flat_views(old(tokens)@)), 0),
            ..old(tokens)@[i]@
        }),
{
    let empty: Vec<FlatToken> = Vec::new();
    let r = resolve_all(tokens, &empty);
    proof {
        assert(env_two(tokens@, empty@) =~= env_of(flat_views(tokens@)));
    }
    *tokens = r;
}

/// Resolve references against the tokens themselves and then a base set: a
/// path found in both takes its own value, so theme tokens can refer to
/// design-system tokens.
pub fn resolve_references_with_base(tokens: &mut Vec<FlatToken>, base: &Vec<FlatToken>)
    ensures
        final(tokens)@.len() == old(tokens)@.len(),
        forall|i: int| 0 <= i < old(tokens)@.len() ==> #[trigger] final(tokens)@[i]@ == (FlatV {
            value: resolve_spec(
                old(tokens)@[i]@.value,
                env_of(flat_views(old(tokens)@)) + env_of(flat_views(base@)),
                0,
            ),
            ..old(tokens)@[i]@
        }),
{
    let r = resolve_all(tokens, base);
    *tokens = r;
}

/// The inline references in `s` from `pos` on, each with its braces.
pub open spec fn inline_refs(s: Seq<char>, pos: int) -> Seq<Seq<char>>
    decreases s.len() - pos,
{
    if pos < 0 || pos >= s.len() {
        Seq::empty()
    } else {
        match ref_end(s, pos) {
            Some(e) => {
                proof {
                    lemma_ref_end_bounds(s, pos);
                }
                seq![s.subrange(pos, e + 1)] + inline_refs(s, e + 1)
            },
            None => inline_refs(s, pos + 1),
        }
    }
}

/// The references left in one token's value: the value itself when it is a
/// standalone reference, else every inline reference in it.
pub open spec fn unresolved_in(t: FlatV) -> Seq<(Seq<char>, Seq<char>)> {
    match t.value {
        TokenValueV::String(s) => if is_reference_spec(s) {
            seq![(t.path, s)]
        } else {
            inline_refs(s, 0).map_values(|r: Seq<char>| (t.path, r))
        },
        _ => Seq::empty(),
    }
}

/// The references left in a list of tokens, in order.
pub open spec fn unresolved_all(ts: Seq<FlatV>) -> Seq<(Seq<char>, Seq<char>)>
    decreases ts.len(),
{
    if ts.len() == 0 {
        Seq::empty()
    } else {
        unresolved_all(ts.drop_last()) + unresolved_in(ts.last())
    }
}

/// The views of a list of unresolved references.
pub open spec fn unresolved_views(v: Seq<UnresolvedRef>) -> Seq<(Seq<char>, Seq<char>)> {
    v.map_values(|u: UnresolvedRef| (u.token_path@, u.reference@))
}

/// Scan tokens for `{reference}` strings that resolution left in place.
pub fn find_unresolved(tokens: &Vec<FlatToken>) -> (errors: Vec<UnresolvedRef>)
    ensures
        unresolved_views(errors@) == unresolved_all(flat_views(tokens@)),
{
    let ghost ts = flat_views(tokens@);
    let mut errors: Vec<UnresolvedRef> = Vec::new();
    let mut i: usize = 0;
    while i < tokens.len()
        invariant
            i <= tokens@.len(),
            ts == flat_views(tokens@),
            unresolved_views(errors@) == unresolved_all(ts.take(i as int)),
        decreases tokens@.len() - i,
    {
        proof {
            assert(ts.take(i + 1).drop_last() =~= ts.take(i as int));
        }
        let ghost before = unresolved_views(errors@);
        let path = &tokens[i].path;
        match &tokens[i].value {
            TokenValue::String(s) => {
                if is_reference(s.as_str()) {
                    errors.push(UnresolvedRef { token_path: path.clone(), reference: s.clone() });
                    assert(unresolved_views(errors@) =~= before + seq![(path@, s@)]);
                } else {
                    let v = chars_of(s.as_str());
                    let mut pos: usize = 0;
                    while pos < v.len()
                        invariant
                            pos <= v@.len(),
                            v@ == s@,
                            unresolved_views(errors@) + inline_refs(v@, pos as int).map_values(
                                |r: Seq<char>| (path@, r),
                            ) == before + inline_refs(v@, 0).map_values(|r: Seq<char>| (path@, r)),
                        decreases v@.len() - pos,
                    {
                        let ghost e0 = unresolved_views(errors@);
                        match ref_end_exec(&v, pos) {
                            Some(e) => {
                                let r = string_of_range(&v, pos, e + 1);
                                errors.push(UnresolvedRef { token_path: path.clone(), reference: r });
                                proof {
                                    assert(unresolved_views(errors@) =~= e0.push((path@, r@)));
                                    assert(seq![v@.subrange(pos as int, e + 1)].map_values(
                                        |x: Seq<char>| (path@, x),
                                    ) =~= seq![(path@, r@)]);
                                    assert((seq![v@.subrange(pos as int, e + 1)] + inline_refs(v@, e + 1)).map_values(
                                        |x: Seq<char>| (path@, x),
                                    ) =~= seq![(path@, r@)] + inline_refs(v@, e + 1).map_values(
                                        |x: Seq<char>| (path@, x),
                                    ));
                                }
                                pos = e + 1;
                            },
                            None => {
                                pos = pos + 1;
                            },
                        }
                    }
                    proof {
                        assert(inline_refs(v@, pos as int) =~= Seq::<Seq<char>>::empty());
                    }
                }
            },
            _ => {},
        }
        i = i + 1;
    }
    assert(ts.take(tokens@.len() as int) =~= ts);
    errors
}


/// A value with no reference in it (not a string, or a string that neither is
/// a `{reference}` nor holds one) is left as it is.
pub proof fn law_resolve_plain_unchanged(v: TokenValueV, env: Seq<(Seq<char>, TokenValueV)>, depth: int)
    requires
        v matches TokenValueV::String(s) ==> !is_reference_spec(s) && !contains_reference_spec(s),
    ensures
        resolve_spec(v, env, depth) == v,
{
}

/// A standalone reference to a token whose value has no reference in it
/// resolves to that value.
pub proof fn law_resolve_reference_to_plain(
    s: Seq<char>,
    env: Seq<(Seq<char>, TokenValueV)>,
    t: TokenValueV,
)
    requires
        is_reference_spec(s),
        env_get(env, s.subrange(1, s.len() - 1)) == Some(t),
        t matches TokenValueV::String(ts) ==> !is_reference_spec(ts) && !contains_reference_spec(ts),
    ensures
        resolve_spec(TokenValueV::String(s), env, 0) == t,
{
    law_resolve_plain_unchanged(t, env, 1);
}

/// An inline reference is replaced by what the same reference resolves to
/// standing alone: the fully resolved value of the token it names, not that
/// token's raw value.
pub proof fn law_inline_reference_resolves_as_standalone(
    s: Seq<char>,
    env: Seq<(Seq<char>, TokenValueV)>,
    depth: int,
    pos: int,
    e: int,
    x: Seq<char>,
)
    requires
        depth <= 20,
        ref_end(s, pos) == Some(e),
        resolve_spec(TokenValueV::String(s.subrange(pos, e + 1)), env, depth) == TokenValueV::String(x),
        env_get(env, s.subrange(pos + 1, e)) is Some,
    ensures
        resolve_inline_spec(s, env, depth, pos) == x + resolve_inline_spec(s, env, depth, e + 1),
{
    lemma_ref_end_bounds(s, pos);
    let r = s.subrange(pos, e + 1);
    assert(r.subrange(1, r.len() - 1) =~= s.subrange(pos + 1, e));
    assert(r.last() == s[e]);
    assert(is_reference_spec(r));
    let t = env_get(env, s.subrange(pos + 1, e)).unwrap();
    assert(resolve_spec(TokenValueV::String(r), env, depth) == resolve_spec(t, env, depth + 1));
    if depth + 1 > 20 {
        assert(resolve_spec(t, env, depth + 1) == t);
    }
}

/// A chain of references inside a string ends at a plain value: when the
/// inline reference at `pos` names a token whose value is itself a standalone
/// reference to a token holding the plain string `w`, the reference is
/// replaced by `w`.
pub proof fn law_inline_reference_chain(
    s: Seq<char>,
    env: Seq<(Seq<char>, TokenValueV)>,
    depth: int,
    pos: int,
    e: int,
    r: Seq<char>,
    w: Seq<char>,
)
    requires
        0 <= depth <= 18,
        ref_end(s, pos) == Some(e),
        env_get(env, s.subrange(pos + 1, e)) == Some(TokenValueV::String(r)),
        is_reference_spec(r),
        env_get(env, r.subrange(1, r.len() - 1)) == Some(TokenValueV::String(w)),
        !is_reference_spec(w),
        !contains_reference_spec(w),
    ensures
        resolve_inline_spec(s, env, depth, pos) == w + resolve_inline_spec(s, env, depth, e + 1),
{
    lemma_ref_end_bounds(s, pos);
    law_resolve_plain_unchanged(TokenValueV::String(w), env, depth + 2);
    assert(resolve_spec(TokenValueV::String(r), env, depth + 1) == TokenValueV::String(w));
}

} // verus!
