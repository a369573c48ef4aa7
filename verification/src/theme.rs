//! Design-token helpers: CSS custom property names for token paths, and the
//! recognition of `{reference}` strings.
use vstd::prelude::*;
use crate::json::{Json, JsonV, json_view, json_obj_view, member, get_member, lemma_json_obj_view_len};
use crate::text::{str_eq, ascii_lower, chars_of, char_is_uppercase, contains_char, ends_with, push_char, string_of_range, unicode_is_uppercase, find, lemma_find_from_result};

verus! {

/// The kebab-case characters for path character `i` (`.` → `-`; an upper-case
/// letter not at the start of a segment → `-` and its ASCII lower case).
pub open spec fn kebab_piece(path: Seq<char>, i: int) -> Seq<char> {
    let c = path[i];
    if c == '.' {
        seq!['-']
    } else if unicode_is_uppercase(c) && i > 0 && path[i - 1] != '.' {
        seq!['-', ascii_lower(c)]
    } else {
        seq![ascii_lower(c)]
    }
}

/// The kebab-case form of the first `n` characters of a token path.
pub open spec fn kebab_prefix(path: Seq<char>, n: int) -> Seq<char>
    decreases n,
{
    if n <= 0 {
        Seq::empty()
    } else {
        kebab_prefix(path, n - 1) + kebab_piece(path, n - 1)
    }
}

/// `--`, the optional prefix and `-`, then the kebab-case path.
pub open spec fn css_var_spec(path: Seq<char>, prefix: Option<Seq<char>>) -> Seq<char> {
    seq!['-', '-'] + match prefix {
        Some(p) => p + seq!['-'],
        None => Seq::empty(),
    } + kebab_prefix(path, path.len() as int)
}

/// A token path without the Style Dictionary root marker `._` at its end.
pub open spec fn strip_root_marker(path: Seq<char>) -> Seq<char> {
    if ends_with(path, seq!['.', '_']) {
        path.take(path.len() - 2)
    } else {
        path
    }
}

fn to_ascii_lower(c: char) -> (r: char)
    ensures
        r == ascii_lower(c),
{
    if 'A' <= c && c <= 'Z' {
        ((c as u8) + 32) as char
    } else {
        c
    }
}

/// `--{prefix-}` followed by the kebab-case form of `path[..n]`.
fn css_var_of(v: &Vec<char>, n: usize, prefix: Option<&str>) -> (r: String)
    requires
        n <= v@.len(),
    ensures
        r@ == css_var_spec(v@.take(n as int), match prefix { Some(p) => Some(p@), None => None }),
{
    let mut result = String::new();
    result.append("--");
    match prefix {
        Some(pfx) => {
            result.append(pfx);
            push_char(&mut result, '-');
        },
        None => {},
    }
    proof {
        reveal_strlit("--");
    }
    let ghost head = result@;
    let ghost path = v@.take(n as int);
    let mut i: usize = 0;
    while i < n
        invariant
            i <= n <= v@.len(),
            path == v@.take(n as int),
            result@ == head + kebab_prefix(path, i as int),
        decreases n - i,
    {
        let c = v[i];
        let ghost before = result@;
        if c == '.' {
            push_char(&mut result, '-');
        } else if char_is_uppercase(c) && i > 0 && v[i - 1] != '.' {
            push_char(&mut result, '-');
            push_char(&mut result, to_ascii_lower(c));
        } else {
            push_char(&mut result, to_ascii_lower(c));
        }
        assert(result@ =~= before + kebab_piece(path, i as int));
        i = i + 1;
    }
    proof {
        assert(head =~= seq!['-', '-'] + match prefix { Some(p) => p@ + seq!['-'], None => Seq::<char>::empty() });
    }
    result
}

/// CSS custom property name for a token path, with an optional name prefix
/// (a trailing `._` root marker is dropped first).
pub fn path_to_var_name_with_prefix(raw_path: &str, prefix: Option<&str>) -> (r: String)
    ensures
        r@ == css_var_spec(strip_root_marker(raw_path@), match prefix { Some(p) => Some(p@), None => None }),
{
    let v = chars_of(raw_path);
    let n = if v.len() >= 2 && v[v.len() - 2] == '.' && v[v.len() - 1] == '_' {
        assert(v@.subrange(v@.len() - 2, v@.len() as int) =~= seq!['.', '_']);
        v.len() - 2
    } else {
        proof {
            if ends_with(v@, seq!['.', '_']) {
                assert(v@.subrange(v@.len() - 2, v@.len() as int)[0] == '.');
                assert(v@.subrange(v@.len() - 2, v@.len() as int)[1] == '_');
            }
        }
        v.len()
    };
    let r = css_var_of(&v, n, prefix);
    proof {
        if n == v@.len() {
            assert(v@.take(n as int) =~= v@);
        }
    }
    r
}

/// CSS custom property name for a token path (no prefix).
pub fn path_to_var_name(raw_path: &str) -> (r: String)
    ensures
        r@ == css_var_spec(strip_root_marker(raw_path@), None),
{
    path_to_var_name_with_prefix(raw_path, None)
}

/// CSS custom property name for a dot-separated token path, taken as it is.
pub fn path_to_css_var_name(path: &str) -> (r: String)
    ensures
        r@ == css_var_spec(path@, None),
{
    let v = chars_of(path);
    let r = css_var_of(&v, v.len(), None);
    assert(v@.take(v@.len() as int) =~= v@);
    r
}

// ---------------------------------------------------------------------------
// References
// ---------------------------------------------------------------------------

/// A standalone `{path}` reference: braces around a non-empty inside with no `{`.
pub open spec fn is_reference_spec(s: Seq<char>) -> bool {
    &&& s.len() > 2
    &&& s[0] == '{'
    &&& s.last() == '}'
    &&& !s.subrange(1, s.len() - 1).contains('{')
}

/// A string with braces in it that is not itself a standalone reference.
pub open spec fn contains_reference_spec(s: Seq<char>) -> bool {
    !is_reference_spec(s) && s.contains('{') && s.contains('}')
}

/// `s` is a standalone `{reference}`.
pub fn is_reference(s: &str) -> (b: bool)
    ensures
        b == is_reference_spec(s@),
{
    let v = chars_of(s);
    if v.len() <= 2 || v[0] != '{' || v[v.len() - 1] != '}' {
        return false;
    }
    let inner = crate::text::subvec(&v, 1, v.len() - 1);
    !contains_char(&inner, '{')
}

/// `s` contains a `{reference}` pattern but is not itself a standalone reference.
pub fn contains_reference(s: &str) -> (b: bool)
    ensures
        b == contains_reference_spec(s@),
{
    let v = chars_of(s);
    !is_reference(s) && contains_char(&v, '{') && contains_char(&v, '}')
}

// ---------------------------------------------------------------------------
// Token paths
// ---------------------------------------------------------------------------

/// The first segment of a dotted path and the rest (empty when there is no dot).
pub open spec fn first_group_spec(path: Seq<char>) -> (Seq<char>, Seq<char>) {
    match find(path, seq!['.']) {
        Some(i) => (path.take(i), path.skip(i + 1)),
        None => (path, Seq::empty()),
    }
}

/// Split a dotted token path at its first `.`.
pub fn first_group(path: &str) -> (r: (String, String))
    ensures
        (r.0@, r.1@) == first_group_spec(path@),
{
    let v = chars_of(path);
    let dot: Vec<char> = vec!['.'];
    assert(dot@ =~= seq!['.']);
    proof {
        lemma_find_from_result(v@, seq!['.'], 0);
    }
    match crate::text::find_exec(&v, &dot) {
        Some(pos) => {
            assert(find(v@, seq!['.']) == Some(pos as int));
            assert(pos + 1 <= v.len());
            let a = string_of_range(&v, 0, pos);
            let b = string_of_range(&v, pos + 1, v.len());
            assert(a@ =~= v@.take(pos as int));
            assert(b@ =~= v@.skip(pos + 1));
            (a, b)
        },
        None => (path.to_owned(), String::new()),
    }
}

// ---------------------------------------------------------------------------
// Token files wrapped in a `tokens` key
// ---------------------------------------------------------------------------

/// A key that may stand beside a `tokens` wrapper: the wrapper itself or a `$` key.
pub open spec fn wrapper_key(k: Seq<char>) -> bool {
    (k.len() > 0 && k[0] == '$') || k == "tokens"@
}

/// A token file as the editor sees it: an object whose `tokens` member is an object and
/// whose other keys all start with `$` is replaced by that member; anything else is
/// left as it is.
pub open spec fn unwrap_tokens_spec(v: JsonV) -> JsonV {
    match v {
        JsonV::Object(m) => match member(m, "tokens"@) {
            Some(inner) => if inner is Object && (forall|i: int| 0 <= i < m.len() ==> #[trigger] wrapper_key(m[i].0)) {
                inner
            } else {
                v
            },
            None => v,
        },
        _ => v,
    }
}

fn is_wrapper_key(k: &str) -> (r: bool)
    ensures
        r == wrapper_key(k@),
{
    let v = chars_of(k);
    proof {
        reveal_strlit("tokens");
    }
    (v.len() > 0 && v[0] == '$') || str_eq(k, "tokens")
}

/// Removes a `tokens` wrapper around the token groups of a token file.
pub fn unwrap_tokens_key(value: Json) -> (r: Json)
    ensures
        r@ == unwrap_tokens_spec(value@),
{
    let unwrap = match &value {
        Json::Object(m) => {
            proof {
                lemma_json_obj_view_len(m@);
            }
            match get_member(m, "tokens") {
                Some(inner) => {
                    if matches!(inner, Json::Object(_)) {
                        let mut all = true;
                        let mut i: usize = 0;
                        while i < m.len()
                            invariant
                                i <= m.len(),
                                json_obj_view(m@).len() == m@.len(),
                                forall|k: int| 0 <= k < m@.len() ==> #[trigger] json_obj_view(m@)[k] == (m@[k].0@, json_view(m@[k].1)),
                                all == (forall|k: int| 0 <= k < i ==> #[trigger] wrapper_key(json_obj_view(m@)[k].0)),
                            decreases m.len() - i,
                        {
                            let w = is_wrapper_key(m[i].0.as_str());
                            proof {
                                assert(json_obj_view(m@)[i as int].0 == m@[i as int].0@);
                            }
                            all = all && w;
                            i = i + 1;
                        }
                        if all {
                            Some(inner.deep_clone())
                        } else {
                            None
                        }
                    } else {
                        None
                    }
                },
                None => None,
            }
        },
        _ => None,
    };
    match unwrap {
        Some(inner) => inner,
        None => value,
    }
}

} // verus!
