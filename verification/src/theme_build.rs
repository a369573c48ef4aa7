//! From token files to a theme: merging the design system's files, resolving
//! references, refusing what stays unresolved, and writing the theme's CSS.
use vstd::prelude::*;
use crate::css::{css_spec, generate_css_with_prefix};
use crate::json::{Json, JsonV};
use crate::merge::{merge_spec, merge_tokens};
use crate::resolve::{env_of, find_unresolved, resolve_references, resolve_references_with_base,
    resolve_spec, unresolved_all, unresolved_views, UnresolvedRef};
use crate::tokens::{DesignTokens, FlatToken, FlatV, flat_entries, flat_views, opt_strref, parse_members};

verus! {

/// Token files merged in order, each later one over what came before; `None` for no file.
pub open spec fn merged_files(docs: Seq<JsonV>) -> Option<JsonV>
    decreases docs.len(),
{
    if docs.len() == 0 {
        None
    } else {
        match merged_files(docs.drop_last()) {
            Some(base) => Some(merge_spec(base, docs.last())),
            None => Some(docs.last()),
        }
    }
}

pub open spec fn json_views(v: Seq<Json>) -> Seq<JsonV> {
    v.map_values(|j: Json| j@)
}

/// Merges token files in order.
pub fn merge_token_files(docs: &Vec<Json>) -> (r: Option<Json>)
    ensures
        match r {
            Some(j) => merged_files(json_views(docs@)) == Some(j@),
            None => merged_files(json_views(docs@)) is None,
        },
{
    let mut merged: Option<Json> = None;
    let mut i: usize = 0;
    while i < docs.len()
        invariant
            i <= docs.len(),
            match merged {
                Some(j) => merged_files(json_views(docs@).take(i as int)) == Some(j@),
                None => merged_files(json_views(docs@).take(i as int)) is None,
            },
        decreases docs.len() - i,
    {
        proof {
            let v = json_views(docs@);
            assert(v.take(i + 1).drop_last() =~= v.take(i as int));
            assert(v.take(i + 1).last() == docs@[i as int]@);
        }
        merged = Some(match merged {
            Some(base) => merge_tokens(&base, &docs[i]),
            None => docs[i].deep_clone(),
        });
        i = i + 1;
    }
    proof {
        assert(json_views(docs@).take(docs@.len() as int) =~= json_views(docs@));
    }
    merged
}

/// The tokens of a token file, by path.
pub open spec fn tokens_of(doc: JsonV) -> Seq<FlatV> {
    flat_entries(
        match doc {
            JsonV::Object(m) => parse_members(m),
            _ => Seq::empty(),
        },
        Seq::empty(),
        None,
        Seq::empty(),
    )
}

/// Tokens with their values resolved against an environment.
pub open spec fn resolved_with(ts: Seq<FlatV>, env: Seq<(Seq<char>, crate::tokens::TokenValueV)>) -> Seq<FlatV> {
    Seq::new(ts.len(), |i: int| FlatV { value: resolve_spec(ts[i].value, env, 0), ..ts[i] })
}

/// The tokens of a file, resolved against themselves and then the given base tokens.
pub open spec fn resolved_tokens(doc: JsonV, base: Option<Seq<FlatV>>) -> Seq<FlatV> {
    let ts = tokens_of(doc);
    match base {
        Some(b) => resolved_with(ts, env_of(ts) + env_of(b)),
        None => resolved_with(ts, env_of(ts)),
    }
}

fn resolved_from(doc: &Json, base: Option<&Vec<FlatToken>>) -> (r: Vec<FlatToken>)
    ensures
        flat_views(r@) == resolved_tokens(doc@, match base { Some(b) => Some(flat_views(b@)), None => None }),
{
    let mut flat = DesignTokens::from_json(doc).flatten();
    let ghost before = flat@;
    match base {
        Some(b) => resolve_references_with_base(&mut flat, b),
        None => resolve_references(&mut flat),
    }
    proof {
        let target = resolved_tokens(doc@, match base { Some(b) => Some(flat_views(b@)), None => None });
        assert(flat_views(flat@) =~= target) by {
            assert forall|i: int| 0 <= i < flat@.len() implies flat_views(flat@)[i] == target[i] by {
                assert(flat@[i]@ == flat_views(flat@)[i]);
                assert(before[i]@ == flat_views(before)[i]);
            }
        }
    }
    flat
}

/// The design system's tokens: its merged file resolved against itself, refused with its
/// unresolved references when some remain.
pub open spec fn design_system_spec(doc: JsonV) -> Result<Seq<FlatV>, Seq<(Seq<char>, Seq<char>)>> {
    let ts = resolved_tokens(doc, None);
    if unresolved_all(ts).len() == 0 {
        Ok(ts)
    } else {
        Err(unresolved_all(ts))
    }
}

/// Resolves the design system's merged tokens.
pub fn resolve_design_system(doc: &Json) -> (r: Result<Vec<FlatToken>, Vec<UnresolvedRef>>)
    ensures
        match (r, design_system_spec(doc@)) {
            (Ok(ts), Ok(s)) => flat_views(ts@) == s,
            (Err(e), Err(s)) => unresolved_views(e@) == s,
            _ => false,
        },
{
    let flat = resolved_from(doc, None);
    let unresolved = find_unresolved(&flat);
    if unresolved.len() == 0 {
        Ok(flat)
    } else {
        Err(unresolved)
    }
}

/// A theme's resolved tokens and its CSS: the deferred custom properties and the
/// critical ones.
pub struct ThemeCss {
    pub tokens: Vec<FlatToken>,
    pub css: String,
    pub critical_css: String,
}

/// A theme built from its merged token file: its tokens resolved against themselves and
/// the design system where there is one; refused with the references that stay
/// unresolved.  Dark-mode tokens (resolved against themselves) apply only without a
/// design system.
pub open spec fn theme_spec(
    doc: JsonV,
    system: Option<Seq<FlatV>>,
    dark: Option<JsonV>,
    prefix: Option<Seq<char>>,
) -> Result<(Seq<FlatV>, Seq<char>, Seq<char>), Seq<(Seq<char>, Seq<char>)>> {
    let ts = resolved_tokens(doc, system);
    let dark_ts = match (system, dark) {
        (None, Some(d)) => Some(resolved_tokens(d, None)),
        _ => None,
    };
    if unresolved_all(ts).len() == 0 {
        Ok((ts, css_spec(ts, dark_ts, false, prefix), css_spec(ts, dark_ts, true, prefix)))
    } else {
        Err(unresolved_all(ts))
    }
}

/// Builds a theme from its merged token file.
pub fn build_theme(
    doc: &Json,
    system: Option<&Vec<FlatToken>>,
    dark: Option<&Json>,
    prefix: Option<&str>,
) -> (r: Result<ThemeCss, Vec<UnresolvedRef>>)
    ensures
        match (r, theme_spec(
            doc@,
            match system { Some(s) => Some(flat_views(s@)), None => None },
            match dark { Some(d) => Some(d@), None => None },
            opt_strref(prefix),
        )) {
            (Ok(t), Ok((ts, css, critical))) => flat_views(t.tokens@) == ts && t.css@ == css && t.critical_css@ == critical,
            (Err(e), Err(s)) => unresolved_views(e@) == s,
            _ => false,
        },
{
    let flat = resolved_from(doc, system);
    let unresolved = find_unresolved(&flat);
    if unresolved.len() > 0 {
        return Err(unresolved);
    }
    let dark_flat = match (system, dark) {
        (None, Some(d)) => Some(resolved_from(d, None)),
        _ => None,
    };
    let css = generate_css_with_prefix(&flat, dark_flat.as_ref(), false, prefix);
    let critical_css = generate_css_with_prefix(&flat, dark_flat.as_ref(), true, prefix);
    Ok(ThemeCss { tokens: flat, css, critical_css })
}


/// The token files of a theme, as paths under the site root.
pub struct ThemeFiles {
    /// The theme's own tokens: `theme.json` when a design system is configured (the theme
    /// generated from it), else `tokens.json`.
    pub theme_file: String,
    /// The base theme's `tokens.json`, merged under the theme's own.
    pub base_file: Option<String>,
    /// The dark-mode tokens, only without a design system.
    pub dark_file: Option<String>,
}

pub open spec fn theme_dir_spec(name: Seq<char>) -> Seq<char> {
    "themes/"@ + name + "/"@
}

/// Which files a theme is built from.
pub open spec fn theme_files_spec(
    name: Seq<char>,
    has_system: bool,
    base: Option<Seq<char>>,
    dark: Option<Seq<char>>,
) -> (Seq<char>, Option<Seq<char>>, Option<Seq<char>>) {
    (
        theme_dir_spec(name) + if has_system { "theme.json"@ } else { "tokens.json"@ },
        match base {
            Some(b) => Some(theme_dir_spec(b) + "tokens.json"@),
            None => None,
        },
        match dark {
            Some(d) => if has_system { None } else { Some(theme_dir_spec(name) + d) },
            None => None,
        },
    )
}

fn theme_path(name: &str, file: &str) -> (r: String)
    ensures
        r@ == theme_dir_spec(name@) + file@,
{
    let mut r = "themes/".to_string();
    r.append(name);
    r.append("/");
    r.append(file);
    r
}

/// The files a theme is built from, given whether a design system is configured, the
/// base theme's name and the dark-mode file's name.
pub fn theme_token_files(name: &str, has_system: bool, base: Option<&str>, dark: Option<&str>) -> (r: ThemeFiles)
    ensures
        (r.theme_file@, crate::tokens::opt_str(r.base_file), crate::tokens::opt_str(r.dark_file))
            == theme_files_spec(name@, has_system, opt_strref(base), opt_strref(dark)),
{
    let theme_file = theme_path(name, if has_system { "theme.json" } else { "tokens.json" });
    let base_file = match base {
        Some(b) => Some(theme_path(b, "tokens.json")),
        None => None,
    };
    let dark_file = match dark {
        Some(d) => if has_system { None } else { Some(theme_path(name, d)) },
        None => None,
    };
    ThemeFiles { theme_file, base_file, dark_file }
}

} // verus!
