//! The markup of a web component placed by a template: its tag with attributes, and
//! the tag around what server-side rendering produced.
use vstd::prelude::*;
use crate::json::{Json, JsonV, json_view, json_obj_view, lemma_json_obj_view_len};
use crate::optimize::{replace_all, replace_str};
use crate::protocol::SsrResult;
use crate::text::str_eq;

verus! {

/// One attribute as it is written: ` key="value"` with each `"` of the value as `&quot;`.
pub open spec fn attr_text(k: Seq<char>, v: Seq<char>) -> Seq<char> {
    " "@ + k + "=\""@ + replace_all(v, "\""@, "&quot;"@) + "\""@
}

/// A list of attributes as they are written, one after the other.
pub open spec fn attrs_spec(attrs: Seq<(Seq<char>, Seq<char>)>) -> Seq<char>
    decreases attrs.len(),
{
    if attrs.len() == 0 {
        Seq::empty()
    } else {
        attrs_spec(attrs.drop_last()) + attr_text(attrs.last().0, attrs.last().1)
    }
}

pub open spec fn pairs_view(v: Seq<(String, String)>) -> Seq<(Seq<char>, Seq<char>)> {
    v.map_values(|p: (String, String)| (p.0@, p.1@))
}

/// Writes the attributes of a component tag.
pub fn build_attrs_str(attrs: &Vec<(String, String)>) -> (r: String)
    ensures
        r@ == attrs_spec(pairs_view(attrs@)),
{
    let mut s = String::new();
    let mut i: usize = 0;
    while i < attrs.len()
        invariant
            i <= attrs.len(),
            s@ == attrs_spec(pairs_view(attrs@).take(i as int)),
        decreases attrs.len() - i,
    {
        s.append(" ");
        s.append(attrs[i].0.as_str());
        s.append("=\"");
        let v = replace_str(attrs[i].1.as_str(), "\"", "&quot;");
        s.append(v.as_str());
        s.append("\"");
        proof {
            let pv = pairs_view(attrs@);
            assert(pv.take(i + 1).drop_last() =~= pv.take(i as int));
            assert(s@ =~= attrs_spec(pv.take(i as int)) + attr_text(pv[i as int].0, pv[i as int].1));
        }
        i = i + 1;
    }
    proof {
        assert(pairs_view(attrs@).take(attrs@.len() as int) =~= pairs_view(attrs@));
    }
    s
}

/// The bare element of a component: its tag with attributes around the slot content.
pub open spec fn tag_only_spec(name: Seq<char>, attrs: Seq<(Seq<char>, Seq<char>)>, children: Seq<char>) -> Seq<char> {
    "<"@ + name + attrs_spec(attrs) + ">"@ + children + "</"@ + name + ">"@
}

/// Writes the bare element of a component (no server-side rendering).
pub fn render_tag_only(name: &str, attrs: &Vec<(String, String)>, children: &str) -> (r: String)
    ensures
        r@ == tag_only_spec(name@, pairs_view(attrs@), children@),
{
    let a = build_attrs_str(attrs);
    let mut r = "<".to_string();
    r.append(name);
    r.append(a.as_str());
    r.append(">");
    r.append(children);
    r.append("</");
    r.append(name);
    r.append(">");
    r
}

/// A template argument that is not passed on as an attribute: `name`, `slot_content`,
/// `no_ssr`, and also `renderer` when the component is rendered on the server.
pub open spec fn reserved_arg(k: Seq<char>, server: bool) -> bool {
    k == "name"@ || k == "slot_content"@ || k == "no_ssr"@ || (server && k == "renderer"@)
}

/// The attributes of a component: its string-valued template arguments, in order,
/// but for the reserved ones.
pub open spec fn attrs_of_args(args: Seq<(Seq<char>, JsonV)>, server: bool) -> Seq<(Seq<char>, Seq<char>)>
    decreases args.len(),
{
    if args.len() == 0 {
        Seq::empty()
    } else {
        let rest = attrs_of_args(args.drop_last(), server);
        let (k, v) = args.last();
        match v {
            JsonV::String(s) => if reserved_arg(k, server) {
                rest
            } else {
                rest.push((k, s))
            },
            _ => rest,
        }
    }
}

fn is_reserved_arg(k: &str, server: bool) -> (b: bool)
    ensures
        b == reserved_arg(k@, server),
{
    proof {
        reveal_strlit("name");
        reveal_strlit("slot_content");
        reveal_strlit("no_ssr");
        reveal_strlit("renderer");
    }
    str_eq(k, "name") || str_eq(k, "slot_content") || str_eq(k, "no_ssr") || (server && str_eq(k, "renderer"))
}

/// The attributes a component gets from its template arguments.
pub fn component_attributes(args: &Vec<(String, Json)>, server: bool) -> (r: Vec<(String, String)>)
    ensures
        pairs_view(r@) == attrs_of_args(json_obj_view(args@), server),
{
    proof {
        lemma_json_obj_view_len(args@);
    }
    let mut r: Vec<(String, String)> = Vec::new();
    let mut i: usize = 0;
    while i < args.len()
        invariant
            i <= args.len(),
            json_obj_view(args@).len() == args@.len(),
            forall|k: int| 0 <= k < args@.len() ==> #[trigger] json_obj_view(args@)[k] == (
                args@[k].0@,
                json_view(args@[k].1),
            ),
            pairs_view(r@) == attrs_of_args(json_obj_view(args@).take(i as int), server),
        decreases args.len() - i,
    {
        let ghost ov = json_obj_view(args@);
        proof {
            assert(ov.take(i + 1).drop_last() =~= ov.take(i as int));
            assert(ov.take(i + 1).last() == ov[i as int]);
        }
        match &args[i].1 {
            Json::String(s) => {
                if !is_reserved_arg(args[i].0.as_str(), server) {
                    let ghost prev = r@;
                    r.push((args[i].0.clone(), s.clone()));
                    proof {
                        assert(pairs_view(r@) =~= pairs_view(prev).push((args@[i as int].0@, s@)));
                    }
                }
            },
            _ => {},
        }
        i = i + 1;
    }
    proof {
        assert(json_obj_view(args@).take(args@.len() as int) =~= json_obj_view(args@));
    }
    r
}

/// A component rendered on the server: what a `lit` renderer returns stands as it is;
/// otherwise the tag wraps the rendered HTML, inside a declarative shadow root
/// `<template>` when the component uses one, followed by the slot content.
pub open spec fn ssr_markup_spec(
    name: Seq<char>,
    attrs: Seq<(Seq<char>, Seq<char>)>,
    children: Seq<char>,
    html: Seq<char>,
    has_shadow_root: bool,
    lit: bool,
) -> Seq<char> {
    if lit {
        html
    } else if has_shadow_root {
        "<"@ + name + attrs_spec(attrs) + ">\n  <template shadowrootmode=\"open\">\n"@ + html
            + "\n  </template>\n"@ + children + "</"@ + name + ">"@
    } else {
        "<"@ + name + attrs_spec(attrs) + ">"@ + html + children + "</"@ + name + ">"@
    }
}

/// Writes a component from what server-side rendering returned for it.
pub fn ssr_markup(
    name: &str,
    attrs: &Vec<(String, String)>,
    children: &str,
    result: &SsrResult,
    lit: bool,
) -> (r: String)
    ensures
        r@ == ssr_markup_spec(name@, pairs_view(attrs@), children@, result.html@, result.has_shadow_root, lit),
{
    if lit {
        return result.html.clone();
    }
    let a = build_attrs_str(attrs);
    let mut r = "<".to_string();
    r.append(name);
    r.append(a.as_str());
    if result.has_shadow_root {
        r.append(">\n  <template shadowrootmode=\"open\">\n");
        r.append(result.html.as_str());
        r.append("\n  </template>\n");
    } else {
        r.append(">");
        r.append(result.html.as_str());
    }
    r.append(children);
    r.append("</");
    r.append(name);
    r.append(">");
    r
}

} // verus!
