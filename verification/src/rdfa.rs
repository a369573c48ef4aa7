//! RDFa markup for templates: the `prefix` attribute of the page, `property`
//! attributes and spans for friendly property names, and hidden `<meta>` tags
//! for the triples of a page that are not shown.
use vstd::prelude::*;
use crate::css::{join, join_strings};
use crate::mappings::{all_prefix_pairs, compact_with, expand_with, lookup_ci, MappingRegistry};
use crate::optimize::{replace_all, replace_str};
use crate::text::{starts_with, str_eq, str_starts_with, trim_chars_exec, trim_end_char, trim_start_char};
use crate::store::{iri_parses, page_rows_of, pair_views};

verus! {

/// The compact IRI of a friendly property name: its mapping, else its
/// expansion as a prefixed name, compacted again; else the name itself.
pub open spec fn property_name_spec(reg: MappingRegistry, name: Seq<char>) -> Seq<char> {
    let pairs = all_prefix_pairs(reg.extra_prefixes.pairs());
    match lookup_ci(reg.properties.pairs(), name) {
        Some(iri) => compact_with(pairs, iri),
        None => match expand_with(reg.extra_prefixes@, true, name) {
            Some(e) => compact_with(pairs, e),
            None => name,
        },
    }
}

/// Resolve a friendly property name to the compact IRI used in RDFa.
pub fn resolve_property_name(name: &str, registry: &MappingRegistry) -> (r: String)
    requires
        registry.wf(),
    ensures
        r@ == property_name_spec(*registry, name@),
{
    if let Some(iri) = registry.resolve_property(name) {
        return registry.compact_iri(iri);
    }
    if let Some(expanded) = registry.expand_iri(name) {
        return registry.compact_iri(expanded.as_str());
    }
    name.to_owned()
}

/// `property="…"` for a friendly property name.
pub fn rdfa_prop_attr(name: &str, registry: &MappingRegistry) -> (r: String)
    requires
        registry.wf(),
    ensures
        r@ == "property=\""@ + property_name_spec(*registry, name@) + "\""@,
{
    let resolved = resolve_property_name(name, registry);
    let mut r = "property=\"".to_owned();
    r.append(resolved.as_str());
    r.append("\"");
    r
}

/// `<span property="…">text</span>` for a value shown under a friendly property name.
pub fn rdfa_span(text: &str, prop: &str, registry: &MappingRegistry) -> (r: String)
    requires
        registry.wf(),
    ensures
        r@ == "<span property=\""@ + property_name_spec(*registry, prop@) + "\">"@ + text@ + "</span>"@,
{
    let resolved = resolve_property_name(prop, registry);
    let mut r = "<span property=\"".to_owned();
    r.append(resolved.as_str());
    r.append("\">");
    r.append(text);
    r.append("</span>");
    r
}

/// Prefixes left out of the `prefix` attribute (internal or implied by RDFa).
pub open spec fn hidden_prefix(p: Seq<char>) -> bool {
    p == "geoff"@ || p == "rdf"@ || p == "rdfs"@
}

/// `prefix: namespace` for each prefix that is not hidden, in order.
pub open spec fn prefix_parts(pairs: Seq<(Seq<char>, Seq<char>)>) -> Seq<Seq<char>>
    decreases pairs.len(),
{
    if pairs.len() == 0 {
        Seq::empty()
    } else {
        prefix_parts(pairs.drop_last()) + if hidden_prefix(pairs.last().0) {
            Seq::empty()
        } else {
            seq![pairs.last().0 + ": "@ + pairs.last().1]
        }
    }
}

/// The `prefix="…"` attribute for the `<html>` element.
pub fn rdfa_prefix_attr(registry: &MappingRegistry) -> (r: String)
    ensures
        r@ == "prefix=\""@ + join(prefix_parts(all_prefix_pairs(registry.extra_prefixes.pairs())), " "@) + "\""@,
{
    let pairs = registry.all_prefixes();
    let ghost ps = all_prefix_pairs(registry.extra_prefixes.pairs());
    let mut parts: Vec<String> = Vec::new();
    let mut i: usize = 0;
    while i < pairs.len()
        invariant
            i <= pairs@.len(),
            pairs@.len() == ps.len(),
            forall|k: int| 0 <= k < pairs@.len() ==> (#[trigger] pairs@[k]).0@ == ps[k].0 && pairs@[k].1@ == ps[k].1,
            parts@.map_values(|p: String| p@) == prefix_parts(ps.take(i as int)),
        decreases pairs@.len() - i,
    {
        proof {
            assert(ps.take(i + 1).drop_last() =~= ps.take(i as int));
        }
        let ghost before = parts@.map_values(|p: String| p@);
        let (p, ns) = pairs[i];
        if str_eq(p, "geoff") || str_eq(p, "rdf") || str_eq(p, "rdfs") {
            assert(parts@.map_values(|p: String| p@) =~= before + Seq::<Seq<char>>::empty());
        } else {
            let mut part = p.to_owned();
            part.append(": ");
            part.append(ns);
            parts.push(part);
            assert(parts@.map_values(|p: String| p@) =~= before + seq![ps[i as int].0 + ": "@ + ps[i as int].1]);
        }
        i = i + 1;
    }
    assert(ps.take(pairs@.len() as int) =~= ps);
    let mut r = "prefix=\"".to_owned();
    let joined = join_strings(&parts, " ");
    r.append(joined.as_str());
    r.append("\"");
    r
}

/// A predicate as a query row gives it, without angle brackets.
pub open spec fn bare_iri(p: Seq<char>) -> Seq<char> {
    trim_end_char(trim_start_char(p, '<'), '>')
}

/// Predicates that get no `<meta>` tag: internal ones, and the name, URL and
/// type that the page shows anyway.
pub open spec fn meta_skipped(pred: Seq<char>) -> bool {
    starts_with(pred, "urn:geoff:"@) || pred == "https://schema.org/name"@ || pred == "https://schema.org/url"@
        || pred == "http://www.w3.org/1999/02/22-rdf-syntax-ns#type"@
}

/// The `<meta>` tag of each (predicate, object) row that has both and is not skipped.
pub open spec fn meta_parts(reg: MappingRegistry, rows: Seq<(Option<Seq<char>>, Option<Seq<char>>)>) -> Seq<Seq<char>>
    decreases rows.len(),
{
    if rows.len() == 0 {
        Seq::empty()
    } else {
        meta_parts(reg, rows.drop_last()) + match rows.last() {
            (Some(p), Some(o)) => if meta_skipped(bare_iri(p)) {
                Seq::empty()
            } else {
                seq![
                    "<meta property=\""@ + compact_with(all_prefix_pairs(reg.extra_prefixes.pairs()), bare_iri(p))
                        + "\" content=\""@ + replace_all(o, "\""@, "&quot;"@) + "\">"@,
                ]
            },
            _ => Seq::empty(),
        }
    }
}

/// The views of optional strings in pairs.
pub open spec fn row_views(rows: Seq<(Option<String>, Option<String>)>) -> Seq<(Option<Seq<char>>, Option<Seq<char>>)> {
    rows.map_values(|r: (Option<String>, Option<String>)| (
        match r.0 {
            Some(s) => Some(s@),
            None => None,
        },
        match r.1 {
            Some(s) => Some(s@),
            None => None,
        },
    ))
}

/// Hidden `<meta>` tags, one per line, for the (predicate, object) rows of a
/// page's graph; nothing for a page without a URI.
pub fn rdfa_meta_tags(page_uri: &str, rows: &Vec<(Option<String>, Option<String>)>, registry: &MappingRegistry) -> (r: String)
    ensures
        r@ == if page_uri@.len() == 0 {
            Seq::empty()
        } else {
            join(meta_parts(*registry, row_views(rows@)), "\n"@)
        },
{
    if page_uri.is_empty() {
        return String::new();
    }
    let ghost rv = row_views(rows@);
    let mut metas: Vec<String> = Vec::new();
    let mut i: usize = 0;
    while i < rows.len()
        invariant
            i <= rows@.len(),
            rv == row_views(rows@),
            metas@.map_values(|m: String| m@) == meta_parts(*registry, rv.take(i as int)),
        decreases rows@.len() - i,
    {
        proof {
            assert(rv.take(i + 1).drop_last() =~= rv.take(i as int));
            reveal_strlit("urn:geoff:");
        }
        let ghost before = metas@.map_values(|m: String| m@);
        match (&rows[i].0, &rows[i].1) {
            (Some(p), Some(o)) => {
                let pred = trim_chars_exec(p.as_str(), '<', '>');
                if str_starts_with(pred.as_str(), "urn:geoff:") || str_eq(pred.as_str(), "https://schema.org/name")
                    || str_eq(pred.as_str(), "https://schema.org/url") || str_eq(
                    pred.as_str(),
                    "http://www.w3.org/1999/02/22-rdf-syntax-ns#type",
                ) {
                    assert(metas@.map_values(|m: String| m@) =~= before + Seq::<Seq<char>>::empty());
                } else {
                    let prop = registry.compact_iri(pred.as_str());
                    let val = replace_str(o.as_str(), "\"", "&quot;");
                    let mut tag = "<meta property=\"".to_owned();
                    tag.append(prop.as_str());
                    tag.append("\" content=\"");
                    tag.append(val.as_str());
                    tag.append("\">");
                    metas.push(tag);
                    assert(metas@.map_values(|m: String| m@) =~= before + seq![
                        "<meta property=\""@ + prop@ + "\" content=\""@ + val@ + "\">"@,
                    ]);
                }
            },
            _ => {
                assert(metas@.map_values(|m: String| m@) =~= before + Seq::<Seq<char>>::empty());
            },
        }
        i = i + 1;
    }
    assert(rv.take(rows@.len() as int) =~= rv);
    join_strings(&metas, "\n")
}

/// The hidden `<meta>` tags of a page, read from its graph in the store: nothing for a
/// page without a URI, or whose URI is not an IRI; otherwise the tags of the page's own
/// triples in its named graph, each once, in the store's order.
pub fn rdfa_meta_for_page(store: &crate::store::ContentStore, page_uri: &str, registry: &MappingRegistry) -> (r: String)
    ensures
        page_uri@.len() == 0 || !iri_parses(page_uri@) ==> r@ == Seq::<char>::empty(),
        page_uri@.len() > 0 && iri_parses(page_uri@) ==> exists|rows: Seq<(Option<Seq<char>>, Option<Seq<char>>)>|
            page_rows_of(store.quads(), page_uri@, rows) && r@ == join(meta_parts(*registry, rows), "\n"@),
{
    if page_uri.is_empty() {
        return String::new();
    }
    let rows = store.page_rows(page_uri);
    let r = rdfa_meta_tags(page_uri, &rows, registry);
    proof {
        assert(row_views(rows@) =~= pair_views(rows@));
        if !iri_parses(page_uri@) {
            assert(row_views(rows@) =~= Seq::<(Option<Seq<char>>, Option<Seq<char>>)>::empty());
            assert(meta_parts(*registry, row_views(rows@)) =~= Seq::<Seq<char>>::empty());
        }
    }
    r
}

} // verus!
