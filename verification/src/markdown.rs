//! Markdown rendering and the rewriting of `rdfa:` links into RDFa Lite
//! property spans.
use vstd::prelude::*;
use crate::mappings::{all_prefix_pairs, compact_with, expand_with, lookup_ci, MappingRegistry};
use crate::text::{chars_of, find_from, find_from_exec, lemma_find_from_result, occurs_at, push_char, push_range, starts_with, string_of_range};

verus! {

// ---------------------------------------------------------------------------
// Markdown → HTML
// ---------------------------------------------------------------------------

/// `pulldown_cmark::Options::ENABLE_TABLES`.
pub const ENABLE_TABLES: u32 = 2;
/// `pulldown_cmark::Options::ENABLE_FOOTNOTES`.
pub const ENABLE_FOOTNOTES: u32 = 4;
/// `pulldown_cmark::Options::ENABLE_STRIKETHROUGH`.
pub const ENABLE_STRIKETHROUGH: u32 = 8;
/// `pulldown_cmark::Options::ENABLE_TASKLISTS`.
pub const ENABLE_TASKLISTS: u32 = 16;

/// What `pulldown_cmark::html::push_html` writes for a source parsed with the given options.
pub uninterp spec fn cmark_html(options: u32, source: Seq<char>) -> Seq<char>;

/// `pulldown_cmark::Parser::new_ext` followed by `html::push_html` into an empty
/// string; the contract names the result `cmark_html` of the option bits and the source.
#[verifier::external_body]
fn cmark_to_html(source: &str, options: u32) -> (html: String)
    ensures
        html@ == cmark_html(options, source@),
{
    let parser = pulldown_cmark::Parser::new_ext(
        source,
        pulldown_cmark::Options::from_bits_truncate(options),
    );
    let mut html_output = String::new();
    pulldown_cmark::html::push_html(&mut html_output, parser);
    html_output
}

/// The options this library renders Markdown with (GFM tables, footnotes,
/// strikethrough and task lists).
pub open spec fn gfm_options() -> u32 {
    ENABLE_TABLES | ENABLE_FOOTNOTES | ENABLE_STRIKETHROUGH | ENABLE_TASKLISTS
}

/// Render Markdown source to HTML with GFM extensions.
pub fn render_markdown(source: &str) -> (html: String)
    ensures
        html@ == cmark_html(gfm_options(), source@),
{
    cmark_to_html(source, ENABLE_TABLES | ENABLE_FOOTNOTES | ENABLE_STRIKETHROUGH | ENABLE_TASKLISTS)
}

// ---------------------------------------------------------------------------
// rdfa: link rewriting
// ---------------------------------------------------------------------------

/// `<a href="rdfa:`
pub open spec fn marker() -> Seq<char> {
    seq!['<', 'a', ' ', 'h', 'r', 'e', 'f', '=', '"', 'r', 'd', 'f', 'a', ':']
}

pub open spec fn open_pre() -> Seq<char> { seq!['<', 'p', 'r', 'e'] }
pub open spec fn close_pre() -> Seq<char> { seq!['<', '/', 'p', 'r', 'e', '>'] }
pub open spec fn open_code() -> Seq<char> { seq!['<', 'c', 'o', 'd', 'e'] }
pub open spec fn close_code() -> Seq<char> { seq!['<', '/', 'c', 'o', 'd', 'e', '>'] }
pub open spec fn close_a() -> Seq<char> { seq!['<', '/', 'a', '>'] }
pub open spec fn span_open() -> Seq<char> {
    seq!['<', 's', 'p', 'a', 'n', ' ', 'p', 'r', 'o', 'p', 'e', 'r', 't', 'y', '=', '"']
}
pub open spec fn span_mid() -> Seq<char> { seq!['"', '>'] }
pub open spec fn span_close() -> Seq<char> { seq!['<', '/', 's', 'p', 'a', 'n', '>'] }

/// `<span property="{prop}">{text}</span>`
pub open spec fn span(prop: Seq<char>, text: Seq<char>) -> Seq<char> {
    span_open() + prop + span_mid() + text + span_close()
}

/// The compact property an `rdfa:` name resolves to: the registry's property
/// mapping, else the expansion of a prefixed IRI, else the name itself; mapped
/// and expanded IRIs are compacted with the registry's prefixes.
pub open spec fn rdfa_property(reg: MappingRegistry, name: Seq<char>) -> Seq<char> {
    let pairs = all_prefix_pairs(reg.extra_prefixes.pairs());
    match lookup_ci(reg.properties.pairs(), name) {
        Some(iri) => compact_with(pairs, iri),
        None => match expand_with(reg.extra_prefixes@, true, name) {
            Some(e) => compact_with(pairs, e),
            None => name,
        },
    }
}

/// `<pre>` state after seeing the tag that starts at `t`.
pub open spec fn pre_after(h: Seq<char>, t: int, in_pre: bool) -> bool {
    if starts_with(h.skip(t), open_pre()) {
        true
    } else if starts_with(h.skip(t), close_pre()) {
        false
    } else {
        in_pre
    }
}

/// `<code>` state after seeing the tag that starts at `t`.
pub open spec fn code_after(h: Seq<char>, t: int, in_code: bool) -> bool {
    if starts_with(h.skip(t), open_pre()) || starts_with(h.skip(t), close_pre()) {
        in_code
    } else if starts_with(h.skip(t), open_code()) {
        true
    } else if starts_with(h.skip(t), close_code()) {
        false
    } else {
        in_code
    }
}

/// The pieces of a complete `rdfa:` link starting at `t`, when there is one:
/// (end of the property name, start of the link text, end of the link text).
pub open spec fn rdfa_link_at(h: Seq<char>, t: int) -> Option<(int, int, int)> {
    let after = t + marker().len();
    if !starts_with(h.skip(t), marker()) {
        None
    } else {
        match find_from(h, seq!['"'], after) {
            None => None,
            Some(q) => match find_from(h, seq!['>'], q) {
                None => None,
                Some(g) => match find_from(h, close_a(), g + 1) {
                    None => None,
                    Some(c) => Some((q, g + 1, c)),
                },
            },
        }
    }
}

/// The rewritten form of `h` from position `pos` on, in the given `<pre>`/`<code>` state.
pub open spec fn rewrite_from(reg: MappingRegistry, h: Seq<char>, pos: int, in_pre: bool, in_code: bool) -> Seq<char>
    decreases h.len() - pos,
{
    if pos < 0 || pos >= h.len() {
        Seq::empty()
    } else {
        match find_from(h, seq!['<'], pos) {
            None => h.skip(pos),
            Some(t) => {
                if t < pos || t >= h.len() {
                    Seq::empty()
                } else {
                    let p2 = pre_after(h, t, in_pre);
                    let c2 = code_after(h, t, in_code);
                    let link = if !p2 && !c2 { rdfa_link_at(h, t) } else { None };
                    match link {
                        Some((q, s, e)) => if e > t {
                            h.subrange(pos, t) + span(
                                rdfa_property(reg, h.subrange(t + marker().len(), q)),
                                h.subrange(s, e),
                            ) + rewrite_from(reg, h, e + 4, p2, c2)
                        } else {
                            Seq::empty()
                        },
                        None => h.subrange(pos, t) + seq!['<'] + rewrite_from(reg, h, t + 1, p2, c2),
                    }
                }
            },
        }
    }
}

/// The result of rewriting `rdfa:` links in a whole HTML string.
pub open spec fn rewrite_rdfa_spec(reg: MappingRegistry, h: Seq<char>) -> Seq<char> {
    rewrite_from(reg, h, 0, false, false)
}

/// Resolve an RDFa property name to its compact prefixed form.
///
/// Resolution order:
/// 1. Try the registry's friendly-name property map.
/// 2. Try expanding as a prefixed IRI (e.g. `skos:broader`).
/// 3. Fall back to the raw name.
pub fn resolve_rdfa_property(name: &str, registry: &MappingRegistry) -> (r: String)
    requires
        registry.wf(),
    ensures
        r@ == rdfa_property(*registry, name@),
{
    if let Some(iri) = registry.resolve_property(name) {
        return registry.compact_iri(iri);
    }
    if let Some(expanded) = registry.expand_iri(name) {
        return registry.compact_iri(expanded.as_str());
    }
    name.to_owned()
}

fn starts_at(h: &Vec<char>, t: usize, p: &Vec<char>) -> (b: bool)
    requires
        t <= h@.len(),
    ensures
        b == starts_with(h@.skip(t as int), p@),
{
    let b = crate::text::occurs_at_exec(h, p, t);
    proof {
        if b {
            assert(h@.skip(t as int).subrange(0, p@.len() as int) =~= h@.subrange(t as int, t + p@.len()));
        } else if p@.len() <= h@.skip(t as int).len() {
            assert(h@.skip(t as int).subrange(0, p@.len() as int) =~= h@.subrange(t as int, t + p@.len()));
        }
    }
    b
}

proof fn lemma_find_bounds(h: Seq<char>, p: Seq<char>, from: int)
    ensures
        find_from(h, p, from) matches Some(i) ==> from <= i && i + p.len() <= h.len(),
{
    lemma_find_from_result(h, p, from);
}

/// The complete `rdfa:` link starting at `t`, if any.
fn find_link(h: &Vec<char>, t: usize) -> (r: Option<(usize, usize, usize)>)
    requires
        t < h@.len(),
    ensures
        r matches Some(x) ==> rdfa_link_at(h@, t as int) == Some((x.0 as int, x.1 as int, x.2 as int))
            && t + 14 <= x.0 && x.0 < x.1 && x.1 <= x.2 && x.2 + 4 <= h@.len(),
        r is None ==> rdfa_link_at(h@, t as int) is None,
{
    let mk: Vec<char> = vec!['<', 'a', ' ', 'h', 'r', 'e', 'f', '=', '"', 'r', 'd', 'f', 'a', ':'];
    let ca: Vec<char> = vec!['<', '/', 'a', '>'];
    let quote: Vec<char> = vec!['"'];
    let gt: Vec<char> = vec!['>'];
    assert(mk@ =~= marker() && ca@ =~= close_a() && quote@ =~= seq!['"'] && gt@ =~= seq!['>']);
    let n = h.len();
    if !starts_at(h, t, &mk) {
        return None;
    }
    assert(h@.skip(t as int).len() >= 14);
    let after = t + 14;
    proof {
        lemma_find_bounds(h@, seq!['"'], after as int);
    }
    let q = match find_from_exec(h, &quote, after) {
        Some(q) => q,
        None => return None,
    };
    proof {
        lemma_find_bounds(h@, seq!['>'], q as int);
    }
    let g = match find_from_exec(h, &gt, q) {
        Some(g) => g,
        None => return None,
    };
    proof {
        lemma_find_bounds(h@, close_a(), g + 1);
    }
    let c = match find_from_exec(h, &ca, g + 1) {
        Some(c) => c,
        None => return None,
    };
    Some((q, g + 1, c))
}

/// One step of the rewriting: copy up to the next tag and handle it.
fn rewrite_step(
    registry: &MappingRegistry,
    h: &Vec<char>,
    pos: usize,
    in_pre: bool,
    in_code: bool,
    out: &mut String,
) -> (r: (usize, bool, bool))
    requires
        registry.wf(),
        pos < h@.len(),
    ensures
        pos < r.0 <= h@.len(),
        final(out)@ + rewrite_from(*registry, h@, r.0 as int, r.1, r.2)
            == old(out)@ + rewrite_from(*registry, h@, pos as int, in_pre, in_code),
{
    let op: Vec<char> = vec!['<', 'p', 'r', 'e'];
    let cp: Vec<char> = vec!['<', '/', 'p', 'r', 'e', '>'];
    let oc: Vec<char> = vec!['<', 'c', 'o', 'd', 'e'];
    let cc: Vec<char> = vec!['<', '/', 'c', 'o', 'd', 'e', '>'];
    let lt: Vec<char> = vec!['<'];
    assert(op@ =~= open_pre() && cp@ =~= close_pre() && oc@ =~= open_code()
        && cc@ =~= close_code() && lt@ =~= seq!['<']);
    let ghost reg = *registry;
    proof {
        lemma_find_bounds(h@, seq!['<'], pos as int);
    }
    let t = match find_from_exec(h, &lt, pos) {
        Some(t) => t,
        None => {
            push_range(out, h, pos, h.len());
            proof {
                assert(h@.subrange(pos as int, h@.len() as int) =~= h@.skip(pos as int));
                assert(rewrite_from(reg, h@, h@.len() as int, in_pre, in_code) =~= Seq::<char>::empty());
                assert(old(out)@ + h@.skip(pos as int) + Seq::<char>::empty()
                    =~= old(out)@ + h@.skip(pos as int));
            }
            return (h.len(), in_pre, in_code);
        },
    };
    push_range(out, h, pos, t);
    let ghost p2 = pre_after(h@, t as int, in_pre);
    let ghost c2 = code_after(h@, t as int, in_code);
    let mut np = in_pre;
    let mut nc = in_code;
    if starts_at(h, t, &op) {
        np = true;
    } else if starts_at(h, t, &cp) {
        np = false;
    } else if starts_at(h, t, &oc) {
        nc = true;
    } else if starts_at(h, t, &cc) {
        nc = false;
    }
    assert(np == p2 && nc == c2);
    if !np && !nc {
        if let Some((q, s, c)) = find_link(h, t) {
            let prop = string_of_range(h, t + 14, q);
            let resolved = resolve_rdfa_property(prop.as_str(), registry);
            let ghost before = out@;
            out.append("<span property=\"");
            out.append(resolved.as_str());
            out.append("\">");
            push_range(out, h, s, c);
            out.append("</span>");
            proof {
                reveal_strlit("<span property=\"");
                reveal_strlit("\">");
                reveal_strlit("</span>");
                assert("<span property=\""@ =~= span_open());
                assert("\">"@ =~= span_mid());
                assert("</span>"@ =~= span_close());
                assert(out@ =~= before + span(rdfa_property(reg, h@.subrange(t + 14, q as int)),
                    h@.subrange(s as int, c as int)));
                let rest = rewrite_from(reg, h@, c + 4, p2, c2);
                assert(old(out)@ + h@.subrange(pos as int, t as int) + span(
                    rdfa_property(reg, h@.subrange(t + 14, q as int)),
                    h@.subrange(s as int, c as int),
                ) + rest =~= old(out)@ + (h@.subrange(pos as int, t as int) + span(
                    rdfa_property(reg, h@.subrange(t + 14, q as int)),
                    h@.subrange(s as int, c as int),
                ) + rest));
            }
            return (c + 4, np, nc);
        }
    }
    push_char(out, '<');
    proof {
        let rest = rewrite_from(reg, h@, t + 1, p2, c2);
        assert(old(out)@ + h@.subrange(pos as int, t as int) + seq!['<'] + rest
            =~= old(out)@ + (h@.subrange(pos as int, t as int) + seq!['<'] + rest));
    }
    (t + 1, np, nc)
}

/// Rewrite Markdown-generated `<a href="rdfa:...">text</a>` links into
/// `<span property="...">text</span>` for RDFa Lite 1.1 inline annotations.
///
/// Skips content inside `<code>` and `<pre>` tags.
pub fn rewrite_rdfa_links(html: &str, registry: &MappingRegistry) -> (r: String)
    requires
        registry.wf(),
    ensures
        r@ == rewrite_rdfa_spec(*registry, html@),
{
    let h = chars_of(html);
    let ghost reg = *registry;
    let mut out = String::new();
    let mut pos: usize = 0;
    let mut in_pre = false;
    let mut in_code = false;
    assert(out@ + rewrite_from(reg, h@, 0, false, false) =~= rewrite_rdfa_spec(reg, html@));
    while pos < h.len()
        invariant
            reg == *registry,
            registry.wf(),
            h@ == html@,
            pos <= h@.len(),
            out@ + rewrite_from(reg, h@, pos as int, in_pre, in_code) == rewrite_rdfa_spec(reg, html@),
        decreases h@.len() - pos,
    {
        let (np, p2, c2) = rewrite_step(registry, &h, pos, in_pre, in_code, &mut out);
        pos = np;
        in_pre = p2;
        in_code = c2;
    }
    assert(rewrite_from(reg, h@, pos as int, in_pre, in_code) =~= Seq::<char>::empty());
    assert(out@ =~= out@ + Seq::<char>::empty());
    out
}

// ---------------------------------------------------------------------------
// Laws
// ---------------------------------------------------------------------------

/// HTML that holds no `<a href="rdfa:` link opening from `pos` on is copied unchanged.
pub proof fn law_rewrite_without_links_is_identity(
    reg: MappingRegistry,
    h: Seq<char>,
    pos: int,
    in_pre: bool,
    in_code: bool,
)
    requires
        0 <= pos <= h.len(),
        forall|j: int| pos <= j ==> !occurs_at(h, marker(), j),
    ensures
        rewrite_from(reg, h, pos, in_pre, in_code) == h.skip(pos),
    decreases h.len() - pos,
{
    if pos < h.len() {
        lemma_find_from_result(h, seq!['<'], pos);
        match find_from(h, seq!['<'], pos) {
            None => {},
            Some(t) => {
                let p2 = pre_after(h, t, in_pre);
                let c2 = code_after(h, t, in_code);
                assert(!starts_with(h.skip(t), marker())) by {
                    if starts_with(h.skip(t), marker()) {
                        assert(h.skip(t).subrange(0, marker().len() as int)
                            =~= h.subrange(t, t + marker().len()));
                        assert(occurs_at(h, marker(), t));
                    }
                }
                law_rewrite_without_links_is_identity(reg, h, t + 1, p2, c2);
                assert(h.subrange(pos, t) + seq!['<'] + h.skip(t + 1) =~= h.skip(pos)) by {
                    assert(h.subrange(t, t + 1) =~= seq!['<']);
                }
            },
        }
    } else {
        assert(h.skip(pos) =~= Seq::<char>::empty());
    }
}


/// A page's body as HTML: its Markdown rendered, then, when RDFa links are on, its
/// `rdfa:` links rewritten into RDFa spans.
pub fn page_body_html(body: &str, rdfa_links: bool, registry: &MappingRegistry) -> (r: String)
    requires
        registry.wf(),
    ensures
        r@ == if rdfa_links {
            rewrite_rdfa_spec(*registry, cmark_html(gfm_options(), body@))
        } else {
            cmark_html(gfm_options(), body@)
        },
{
    let html = render_markdown(body);
    if rdfa_links {
        rewrite_rdfa_links(&html, registry)
    } else {
        html
    }
}

} // verus!
