//! Page-level decisions of the build: output paths and URLs, RDFa attributes,
//! critical CSS, the triples a page contributes to the graph, and the URL keys
//! of the navigation tree.
use vstd::prelude::*;
use crate::config::UrlStyle;
use crate::mappings::{all_prefix_pairs, compact_with, expand_with, lookup_ci, MappingRegistry};
use crate::text::{
    chars_of, contains_char, ends_with, find, find_exec, last_index_of_char, lemma_find_from_result,
    push_char, push_range, starts_with, str_ends_with, str_eq, str_starts_with, string_of_range,
    strip_suffix, trim_end_char, unicode_uppercase_char,
};
use crate::types::{ObjectValue, XSD_DATE, XSD_DATE_TIME};

verus! {

// ---------------------------------------------------------------------------
// Types
// ---------------------------------------------------------------------------

/// The schema.org type IRI for a content type name when the registry has none.
pub open spec fn default_type_iri_spec(ct: Seq<char>) -> Seq<char> {
    if ct == "Blog Post"@ || ct == "BlogPosting"@ {
        "https://schema.org/BlogPosting"@
    } else if ct == "Article"@ {
        "https://schema.org/Article"@
    } else if ct == "How-To Guide"@ || ct == "HowTo"@ {
        "https://schema.org/HowTo"@
    } else if ct == "FAQ Page"@ || ct == "FAQPage"@ {
        "https://schema.org/FAQPage"@
    } else if ct == "Event"@ {
        "https://schema.org/Event"@
    } else {
        "https://schema.org/WebPage"@
    }
}

/// Default type mappings used when the mapping registry has no entry.
pub fn default_type_iri(content_type: &str) -> (r: &'static str)
    ensures
        r@ == default_type_iri_spec(content_type@),
{
    if str_eq(content_type, "Blog Post") || str_eq(content_type, "BlogPosting") {
        "https://schema.org/BlogPosting"
    } else if str_eq(content_type, "Article") {
        "https://schema.org/Article"
    } else if str_eq(content_type, "How-To Guide") || str_eq(content_type, "HowTo") {
        "https://schema.org/HowTo"
    } else if str_eq(content_type, "FAQ Page") || str_eq(content_type, "FAQPage") {
        "https://schema.org/FAQPage"
    } else if str_eq(content_type, "Event") {
        "https://schema.org/Event"
    } else {
        "https://schema.org/WebPage"
    }
}

/// The type IRI of a content type: the registry's mapping, else the default.
pub open spec fn type_iri_spec(reg: MappingRegistry, ct: Seq<char>) -> Seq<char> {
    match lookup_ci(reg.types.pairs(), ct) {
        Some(iri) => iri,
        None => default_type_iri_spec(ct),
    }
}

/// Resolve a content type name to its type IRI.
pub fn resolve_type_iri(content_type: &str, registry: &MappingRegistry) -> (r: String)
    requires
        registry.wf(),
    ensures
        r@ == type_iri_spec(*registry, content_type@),
{
    match registry.resolve_type(content_type) {
        Some(s) => s.to_owned(),
        None => default_type_iri(content_type).to_owned(),
    }
}

/// A type IRI for display: its local name in the default vocabulary, else compacted.
pub open spec fn type_display(reg: MappingRegistry, iri: Seq<char>, vocab: Seq<char>) -> Seq<char> {
    if starts_with(iri, vocab) {
        iri.skip(vocab.len() as int)
    } else {
        compact_with(all_prefix_pairs(reg.extra_prefixes.pairs()), iri)
    }
}

/// `vocab="…"`, then ` typeof="…"` when there is a content type, then ` resource="…"`.
pub open spec fn rdfa_attrs_spec(
    reg: MappingRegistry,
    content_type: Option<Seq<char>>,
    page_url: Seq<char>,
    vocab: Seq<char>,
) -> Seq<char> {
    "vocab=\""@ + vocab + "\""@ + match content_type {
        Some(ct) => " typeof=\""@ + type_display(reg, type_iri_spec(reg, ct), vocab) + "\""@,
        None => Seq::empty(),
    } + " resource=\""@ + page_url + "\""@
}

/// Build RDFa attributes for the page container element, e.g.
/// `vocab="https://schema.org/" typeof="BlogPosting" resource="/blog/welcome/"`.
pub fn build_rdfa_attrs(
    content_type: Option<&str>,
    page_url: &str,
    default_vocab: &str,
    registry: &MappingRegistry,
) -> (r: String)
    requires
        registry.wf(),
    ensures
        r@ == rdfa_attrs_spec(*registry, match content_type { Some(c) => Some(c@), None => None }, page_url@, default_vocab@),
{
    let mut attrs = String::new();
    attrs.append("vocab=\"");
    attrs.append(default_vocab);
    attrs.append("\"");
    let ghost head = attrs@;
    match content_type {
        Some(ct) => {
            let type_iri = resolve_type_iri(ct, registry);
            let tv = chars_of(type_iri.as_str());
            let vv = chars_of(default_vocab);
            let type_label = if crate::text::starts_with_exec(&tv, &vv) {
                let r = string_of_range(&tv, vv.len(), tv.len());
                assert(r@ =~= type_iri@.skip(default_vocab@.len() as int));
                r
            } else {
                registry.compact_iri(type_iri.as_str())
            };
            attrs.append(" typeof=\"");
            attrs.append(type_label.as_str());
            attrs.append("\"");
        },
        None => {},
    }
    attrs.append(" resource=\"");
    attrs.append(page_url);
    attrs.append("\"");
    proof {
        let ct = match content_type { Some(c) => Some(c@), None => None::<Seq<char>> };
        match content_type {
            Some(c) => {
                assert(attrs@ =~= rdfa_attrs_spec(*registry, ct, page_url@, default_vocab@));
            },
            None => {
                assert(attrs@ =~= rdfa_attrs_spec(*registry, ct, page_url@, default_vocab@));
            },
        }
    }
    attrs
}

// ---------------------------------------------------------------------------
// Output paths and URLs
// ---------------------------------------------------------------------------

/// The output path under a URL style: with directory style, `x.html` becomes
/// `x/index.html`, leaving index pages and non-HTML paths unchanged.
pub open spec fn url_style_path(p: Seq<char>, style: UrlStyle) -> Seq<char> {
    match style {
        UrlStyle::File => p,
        UrlStyle::Directory => if p == "index.html"@ || ends_with(p, "/index.html"@) {
            p
        } else {
            match strip_suffix(p, ".html"@) {
                Some(stem) => stem + "/index.html"@,
                None => p,
            }
        },
    }
}

/// Convert a file path to the output path of the given URL style.
pub fn apply_url_style(output_path: &str, style: &UrlStyle) -> (r: String)
    ensures
        r@ == url_style_path(output_path@, *style),
{
    match style {
        UrlStyle::File => output_path.to_owned(),
        UrlStyle::Directory => {
            if str_eq(output_path, "index.html") || str_ends_with(output_path, "/index.html") {
                output_path.to_owned()
            } else if str_ends_with(output_path, ".html") {
                let v = chars_of(output_path);
                proof {
                    reveal_strlit(".html");
                }
                let mut r = string_of_range(&v, 0, v.len() - 5);
                r.append("/index.html");
                r
            } else {
                output_path.to_owned()
            }
        },
    }
}

/// The URL of an output path: `index.html` → `/`, `d/index.html` → `/d/`, `p` → `/p`.
pub open spec fn output_url(p: Seq<char>) -> Seq<char> {
    if p == "index.html"@ {
        seq!['/']
    } else {
        match strip_suffix(p, "/index.html"@) {
            Some(dir) => seq!['/'] + dir + seq!['/'],
            None => seq!['/'] + p,
        }
    }
}

/// Convert an output file path to a URL path.
pub fn output_path_to_url(output_path: &str) -> (r: String)
    ensures
        r@ == output_url(output_path@),
{
    proof {
        reveal_strlit("/");
        assert("/"@ =~= seq!['/']);
    }
    if str_eq(output_path, "index.html") {
        return "/".to_owned();
    }
    let mut r = String::new();
    push_char(&mut r, '/');
    if str_ends_with(output_path, "/index.html") {
        let v = chars_of(output_path);
        proof {
            reveal_strlit("/index.html");
        }
        push_range(&mut r, &v, 0, v.len() - 11);
        push_char(&mut r, '/');
    } else {
        r.append(output_path);
    }
    proof {
        reveal_strlit("/");
    }
    r
}

// ---------------------------------------------------------------------------
// Critical CSS
// ---------------------------------------------------------------------------

/// The category of a file in the static directory: `*` for `critical.css`,
/// the template stem for `critical-{stem}.css`, none for other files.
pub open spec fn critical_category(name: Seq<char>) -> Option<Seq<char>> {
    if name == "critical.css"@ {
        Some(seq!['*'])
    } else if starts_with(name, "critical-"@) && ends_with(name.skip(9), ".css"@) {
        Some(name.skip(9).take(name.len() - 9 - 4))
    } else {
        None
    }
}

/// Classify a static file name as critical CSS.
pub fn critical_css_category(name: &str) -> (r: Option<String>)
    ensures
        r matches Some(c) ==> critical_category(name@) == Some(c@),
        r is None ==> critical_category(name@) == None::<Seq<char>>,
{
    proof {
        reveal_strlit("critical-");
        reveal_strlit(".css");
        reveal_strlit("*");
    }
    if str_eq(name, "critical.css") {
        return Some("*".to_owned());
    }
    let v = chars_of(name);
    if str_starts_with(name, "critical-") {
        let rest = string_of_range(&v, 9, v.len());
        assert(rest@ =~= name@.skip(9));
        if str_ends_with(rest.as_str(), ".css") {
            let rv = chars_of(rest.as_str());
            let stem = string_of_range(&rv, 0, rv.len() - 4);
            assert(stem@ =~= name@.skip(9).take(name@.len() - 9 - 4));
            return Some(stem);
        }
    }
    None
}

/// The CSS inlined for a template: every global (`*`) or template-specific file, each followed by a newline.
pub open spec fn critical_css_for(stem: Seq<char>, files: Seq<(Seq<char>, Seq<char>)>) -> Seq<char>
    decreases files.len(),
{
    if files.len() == 0 {
        Seq::empty()
    } else {
        critical_css_for(stem, files.drop_last()) + if files.last().0 == seq!['*'] || files.last().0 == stem {
            files.last().1 + seq!['\n']
        } else {
            Seq::empty()
        }
    }
}

/// A template name without its `.html` extension.
pub open spec fn template_stem(template: Seq<char>) -> Seq<char> {
    match strip_suffix(template, ".html"@) {
        Some(s) => s,
        None => template,
    }
}

/// Build the critical CSS string for a page based on its template.
pub fn build_critical_css_for_page(template: &str, critical_files: &[(String, String)]) -> (css: String)
    ensures
        css@ == critical_css_for(template_stem(template@), critical_files@.map_values(
            |f: (String, String)| (f.0@, f.1@),
        )),
{
    let tv = chars_of(template);
    proof {
        reveal_strlit(".html");
    }
    let stem = if str_ends_with(template, ".html") {
        string_of_range(&tv, 0, tv.len() - 5)
    } else {
        template.to_owned()
    };
    assert(stem@ == template_stem(template@));
    let ghost fs = critical_files@.map_values(|f: (String, String)| (f.0@, f.1@));
    let mut css = String::new();
    let mut i: usize = 0;
    while i < critical_files.len()
        invariant
            i <= critical_files@.len(),
            fs == critical_files@.map_values(|f: (String, String)| (f.0@, f.1@)),
            css@ == critical_css_for(stem@, fs.take(i as int)),
        decreases critical_files@.len() - i,
    {
        proof {
            assert(fs.take(i + 1).drop_last() =~= fs.take(i as int));
            reveal_strlit("*");
            assert("*"@ =~= seq!['*']);
        }
        let (category, content) = (&critical_files[i].0, &critical_files[i].1);
        let ghost before = css@;
        if str_eq(category.as_str(), "*") || str_eq(category.as_str(), stem.as_str()) {
            css.append(content.as_str());
            push_char(&mut css, '\n');
            assert(css@ =~= before + (content@ + seq!['\n']));
        } else {
            assert(css@ =~= before + Seq::<char>::empty());
        }
        i = i + 1;
    }
    assert(fs.take(critical_files@.len() as int) =~= fs);
    css
}

/// `<style data-geoff-theme>{css}</style>` put before `</head>`, else before
/// `<body`, else at the start followed by a newline; nothing when `css` is empty.
pub open spec fn inject_css_spec(html: Seq<char>, css: Seq<char>) -> Seq<char> {
    let tag = "<style data-geoff-theme>"@ + css + "</style>"@;
    if css.len() == 0 {
        html
    } else {
        match find(html, "</head>"@) {
            Some(p) => html.take(p) + tag + seq!['\n'] + html.skip(p),
            None => match find(html, "<body"@) {
                Some(p) => html.take(p) + tag + seq!['\n'] + html.skip(p),
                None => tag + seq!['\n'] + html,
            },
        }
    }
}

/// Inject a `<style>` block into HTML, preferring insertion into `<head>`.
pub fn inject_css_into_html(html: &str, css: &str) -> (r: String)
    ensures
        r@ == inject_css_spec(html@, css@),
{
    if css.is_empty() {
        return html.to_owned();
    }
    let hv = chars_of(html);
    let mut tag = "<style data-geoff-theme>".to_owned();
    tag.append(css);
    tag.append("</style>");
    let head = chars_of("</head>");
    let body = chars_of("<body");
    proof {
        lemma_find_from_result(hv@, head@, 0);
        lemma_find_from_result(hv@, body@, 0);
    }
    let pos = match find_exec(&hv, &head) {
        Some(p) => Some(p),
        None => find_exec(&hv, &body),
    };
    match pos {
        Some(p) => {
            let mut r = string_of_range(&hv, 0, p);
            r.append(tag.as_str());
            push_char(&mut r, '\n');
            push_range(&mut r, &hv, p, hv.len());
            assert(r@ =~= inject_css_spec(html@, css@));
            r
        },
        None => {
            let mut r = tag;
            push_char(&mut r, '\n');
            r.append(html);
            r
        },
    }
}

// ---------------------------------------------------------------------------
// Graph triples for a page
// ---------------------------------------------------------------------------

/// The datatype of a page date: `xsd:dateTime` when it holds a `T`, else `xsd:date`.
pub open spec fn date_datatype(d: Seq<char>) -> Seq<char> {
    if d.contains('T') {
        XSD_DATE_TIME@
    } else {
        XSD_DATE@
    }
}

/// The object of a triple as plain character sequences: (kind, value, datatype),
/// kind 0 for an IRI, 1 for a plain literal, 2 for a typed literal.
pub open spec fn object_view(o: ObjectValue) -> (int, Seq<char>, Seq<char>) {
    match o {
        ObjectValue::Iri(s) => (0, s@, Seq::empty()),
        ObjectValue::Literal(s) => (1, s@, Seq::empty()),
        ObjectValue::TypedLiteral { value, datatype } => (2, value@, datatype@),
    }
}

/// The triples (predicate, object) a page's standard fields contribute, in order:
/// name, datePublished, author, description, rdf:type, url.
pub open spec fn page_triples_spec(
    reg: MappingRegistry,
    title: Option<Seq<char>>,
    date: Option<Seq<char>>,
    author: Option<Seq<char>>,
    description: Option<Seq<char>>,
    content_type: Option<Seq<char>>,
    url: Option<Seq<char>>,
) -> Seq<(Seq<char>, (int, Seq<char>, Seq<char>))> {
    (match title { Some(t) => seq![("https://schema.org/name"@, (1, t, Seq::empty()))], None => Seq::empty() })
        + (match date { Some(d) => seq![("https://schema.org/datePublished"@, (2, d, date_datatype(d)))], None => Seq::empty() })
        + (match author { Some(a) => seq![("https://schema.org/author"@, (1, a, Seq::empty()))], None => Seq::empty() })
        + (match description { Some(x) => seq![("https://schema.org/description"@, (1, x, Seq::empty()))], None => Seq::empty() })
        + (match content_type {
            Some(ct) => seq![("http://www.w3.org/1999/02/22-rdf-syntax-ns#type"@, (0, type_iri_spec(reg, ct), Seq::empty()))],
            None => Seq::empty(),
        })
        + (match url { Some(u) => seq![("https://schema.org/url"@, (1, u, Seq::empty()))], None => Seq::empty() })
}

pub open spec fn opt_view(o: Option<&str>) -> Option<Seq<char>> {
    match o {
        Some(s) => Some(s@),
        None => None,
    }
}

/// The triples a page's standard frontmatter fields contribute to its named graph.
#[verifier::rlimit(40)]
pub fn page_triples(
    title: Option<&str>,
    date: Option<&str>,
    author: Option<&str>,
    description: Option<&str>,
    content_type: Option<&str>,
    url: Option<&str>,
    registry: &MappingRegistry,
) -> (r: Vec<(String, ObjectValue)>)
    requires
        registry.wf(),
    ensures
        r@.map_values(|t: (String, ObjectValue)| (t.0@, object_view(t.1))) == page_triples_spec(
            *registry,
            opt_view(title),
            opt_view(date),
            opt_view(author),
            opt_view(description),
            opt_view(content_type),
            opt_view(url),
        ),
{
    let mut r: Vec<(String, ObjectValue)> = Vec::new();
    let ghost v0 = r@.map_values(|t: (String, ObjectValue)| (t.0@, object_view(t.1)));
    if let Some(t) = title {
        r.push(("https://schema.org/name".to_owned(), ObjectValue::Literal(t.to_owned())));
    }
    let ghost v1 = r@.map_values(|t: (String, ObjectValue)| (t.0@, object_view(t.1)));
    if let Some(d) = date {
        let dv = chars_of(d);
        let datatype = if contains_char(&dv, 'T') { XSD_DATE_TIME } else { XSD_DATE };
        r.push((
            "https://schema.org/datePublished".to_owned(),
            ObjectValue::TypedLiteral { value: d.to_owned(), datatype: datatype.to_owned() },
        ));
    }
    let ghost v2 = r@.map_values(|t: (String, ObjectValue)| (t.0@, object_view(t.1)));
    if let Some(a) = author {
        r.push(("https://schema.org/author".to_owned(), ObjectValue::Literal(a.to_owned())));
    }
    let ghost v3 = r@.map_values(|t: (String, ObjectValue)| (t.0@, object_view(t.1)));
    if let Some(x) = description {
        r.push(("https://schema.org/description".to_owned(), ObjectValue::Literal(x.to_owned())));
    }
    let ghost v4 = r@.map_values(|t: (String, ObjectValue)| (t.0@, object_view(t.1)));
    if let Some(ct) = content_type {
        let iri = resolve_type_iri(ct, registry);
        r.push(("http://www.w3.org/1999/02/22-rdf-syntax-ns#type".to_owned(), ObjectValue::Iri(iri)));
    }
    let ghost v5 = r@.map_values(|t: (String, ObjectValue)| (t.0@, object_view(t.1)));
    if let Some(u) = url {
        r.push(("https://schema.org/url".to_owned(), ObjectValue::Literal(u.to_owned())));
    }
    assert(r@.map_values(|t: (String, ObjectValue)| (t.0@, object_view(t.1))) =~= page_triples_spec(
        *registry,
        opt_view(title),
        opt_view(date),
        opt_view(author),
        opt_view(description),
        opt_view(content_type),
        opt_view(url),
    ));
    r
}

/// The predicate of a `[data]` field: the registry's property mapping, else the
/// expansion of a prefixed name, else `urn:geoff:meta:{key}`.
pub open spec fn data_predicate_spec(reg: MappingRegistry, key: Seq<char>) -> Seq<char> {
    match lookup_ci(reg.properties.pairs(), key) {
        Some(iri) => iri,
        None => match expand_with(reg.extra_prefixes@, true, key) {
            Some(e) => e,
            None => "urn:geoff:meta:"@ + key,
        },
    }
}

/// The predicate IRI a `[data]` field is stored under.
pub fn data_predicate(key: &str, registry: &MappingRegistry) -> (r: String)
    requires
        registry.wf(),
    ensures
        r@ == data_predicate_spec(*registry, key@),
{
    if let Some(iri) = registry.resolve_property(key) {
        return iri.to_owned();
    }
    if let Some(e) = registry.expand_iri(key) {
        return e;
    }
    let mut r = "urn:geoff:meta:".to_owned();
    r.append(key);
    r
}

/// The predicate of an `[rdf.custom]` field: the expansion of a prefixed name, else the key.
pub open spec fn custom_predicate_spec(reg: MappingRegistry, key: Seq<char>) -> Seq<char> {
    match expand_with(reg.extra_prefixes@, true, key) {
        Some(e) => e,
        None => key,
    }
}

/// The predicate IRI an `[rdf.custom]` field is stored under.
pub fn custom_predicate(key: &str, registry: &MappingRegistry) -> (r: String)
    requires
        registry.wf(),
    ensures
        r@ == custom_predicate_spec(*registry, key@),
{
    match registry.expand_iri(key) {
        Some(e) => e,
        None => key.to_owned(),
    }
}

// ---------------------------------------------------------------------------
// Navigation keys
// ---------------------------------------------------------------------------

/// A page URL as a navigation key: trailing `/` and a `.html` suffix removed, `/` when empty.
pub open spec fn url_key(url: Seq<char>) -> Seq<char> {
    let s = trim_end_char(url, '/');
    let s = match strip_suffix(s, ".html"@) {
        Some(t) => t,
        None => s,
    };
    if s.len() == 0 { seq!['/'] } else { s }
}

proof fn lemma_trim_end_char_take(s: Seq<char>, c: char, i: int)
    requires
        0 <= i <= s.len(),
        forall|j: int| i <= j < s.len() ==> s[j] == c,
        i == 0 || s[i - 1] != c,
    ensures
        trim_end_char(s, c) == s.take(i),
    decreases s.len() - i,
{
    if i < s.len() {
        assert(s.drop_last().take(i) =~= s.take(i));
        lemma_trim_end_char_take(s.drop_last(), c, i);
    } else {
        assert(s.take(i) =~= s);
        if i > 0 {
            assert(s.last() != c);
        }
    }
}

/// Normalize a page URL into a navigation key.
pub fn normalize_url_key(url: &str) -> (r: String)
    ensures
        r@ == url_key(url@),
{
    let v = chars_of(url);
    let mut n: usize = v.len();
    while n > 0 && v[n - 1] == '/'
        invariant
            n <= v@.len(),
            forall|j: int| n <= j < v@.len() ==> v@[j] == '/',
        decreases n,
    {
        n = n - 1;
    }
    proof {
        lemma_trim_end_char_take(v@, '/', n as int);
    }
    let s = string_of_range(&v, 0, n);
    let sv = chars_of(s.as_str());
    let t = if str_ends_with(s.as_str(), ".html") {
        proof {
            reveal_strlit(".html");
        }
        string_of_range(&sv, 0, sv.len() - 5)
    } else {
        s
    };
    proof {
        reveal_strlit("/");
        assert("/"@ =~= seq!['/']);
        reveal_strlit(".html");
    }
    if t.as_str().is_empty() {
        "/".to_owned()
    } else {
        t
    }
}

/// The navigation key of the parent of `key`.
pub open spec fn parent_key(key: Seq<char>) -> Option<Seq<char>> {
    if key == seq!['/'] {
        None
    } else {
        match last_index_of_char(key, '/') {
            Some(p) => if p == 0 { Some(seq!['/']) } else { Some(key.take(p)) },
            None => Some(seq!['/']),
        }
    }
}

pub proof fn lemma_last_index_range(s: Seq<char>, c: char)
    ensures
        last_index_of_char(s, c) matches Some(p) ==> 0 <= p < s.len(),
    decreases s.len(),
{
    if s.len() > 0 && s.last() != c {
        lemma_last_index_range(s.drop_last(), c);
    }
}

/// The parent navigation key of a key (`None` for the root `/`).
pub fn parent_url_key(key: &str) -> (r: Option<String>)
    ensures
        r matches Some(p) ==> parent_key(key@) == Some(p@),
        r is None ==> parent_key(key@) == None::<Seq<char>>,
{
    proof {
        reveal_strlit("/");
        assert("/"@ =~= seq!['/']);
    }
    if str_eq(key, "/") {
        return None;
    }
    let v = chars_of(key);
    let mut n: usize = v.len();
    assert(v@.take(n as int) =~= v@);
    while n > 0 && v[n - 1] != '/'
        invariant
            n <= v@.len(),
            last_index_of_char(v@, '/') == last_index_of_char(v@.take(n as int), '/'),
        decreases n,
    {
        proof {
            assert(v@.take(n as int).drop_last() =~= v@.take(n - 1));
        }
        n = n - 1;
    }
    if n == 0 {
        proof {
            assert(v@.take(0) =~= Seq::<char>::empty());
        }
        return Some("/".to_owned());
    }
    let p = n - 1;
    proof {
        assert(v@.take(n as int).last() == '/');
    }
    if p == 0 {
        Some("/".to_owned())
    } else {
        let r = string_of_range(&v, 0, p);
        Some(r)
    }
}

/// Title case for a URL segment: each `-` becomes a space and the first
/// character of every word is upper-cased (Unicode).
pub open spec fn titlecase_piece(s: Seq<char>, i: int) -> Seq<char> {
    if s[i] == '-' {
        seq![' ']
    } else if i == 0 || s[i - 1] == '-' {
        unicode_uppercase_char(s[i])
    } else {
        seq![s[i]]
    }
}

/// The title-cased form of `s[..n]`.
pub open spec fn titlecase_prefix(s: Seq<char>, n: int) -> Seq<char>
    decreases n,
{
    if n <= 0 {
        Seq::empty()
    } else {
        titlecase_prefix(s, n - 1) + titlecase_piece(s, n - 1)
    }
}

/// Turn a URL segment such as `getting-started` into `Getting Started`.
pub fn titlecase_segment(s: &str) -> (r: String)
    ensures
        r@ == titlecase_prefix(s@, s@.len() as int),
{
    let v = chars_of(s);
    let mut out = String::new();
    let mut i: usize = 0;
    while i < v.len()
        invariant
            i <= v@.len(),
            v@ == s@,
            out@ == titlecase_prefix(v@, i as int),
        decreases v@.len() - i,
    {
        let c = v[i];
        if c == '-' {
            push_char(&mut out, ' ');
        } else if i == 0 || v[i - 1] == '-' {
            let up = crate::text::char_to_uppercase(c);
            out.append(up.as_str());
        } else {
            push_char(&mut out, c);
        }
        i = i + 1;
    }
    out
}

/// A page's `datePublished` literal is typed by the form of its date: a date
/// with no time part (no `T`, such as `2026-01-02`) is an `xsd:date`, one
/// with a time part (`2026-01-02T10:00:00`) an `xsd:dateTime`.  The triple
/// follows the title's, whatever the page's other fields.
pub proof fn law_date_literal_type(
    reg: MappingRegistry,
    title: Option<Seq<char>>,
    d: Seq<char>,
    author: Option<Seq<char>>,
    description: Option<Seq<char>>,
    content_type: Option<Seq<char>>,
    url: Option<Seq<char>>,
)
    ensures
        ({
            let ts = page_triples_spec(reg, title, Some(d), author, description, content_type, url);
            let i: int = if title is Some { 1 } else { 0 };
            &&& i < ts.len()
            &&& ts[i].0 == "https://schema.org/datePublished"@
            &&& !d.contains('T') ==> ts[i].1 == (2int, d, "http://www.w3.org/2001/XMLSchema#date"@)
            &&& d.contains('T') ==> ts[i].1 == (2int, d, "http://www.w3.org/2001/XMLSchema#dateTime"@)
        }),
{
    let ts = page_triples_spec(reg, title, Some(d), author, description, content_type, url);
    let first: Seq<(Seq<char>, (int, Seq<char>, Seq<char>))> = match title {
        Some(t) => seq![("https://schema.org/name"@, (1int, t, Seq::<char>::empty()))],
        None => Seq::empty(),
    };
    let second = seq![("https://schema.org/datePublished"@, (2int, d, date_datatype(d)))];
    let rest = (match author { Some(a) => seq![("https://schema.org/author"@, (1int, a, Seq::<char>::empty()))], None => Seq::empty() })
        + (match description { Some(x) => seq![("https://schema.org/description"@, (1int, x, Seq::<char>::empty()))], None => Seq::empty() })
        + (match content_type {
            Some(ct) => seq![("http://www.w3.org/1999/02/22-rdf-syntax-ns#type"@, (0int, type_iri_spec(reg, ct), Seq::<char>::empty()))],
            None => Seq::empty(),
        })
        + (match url { Some(u) => seq![("https://schema.org/url"@, (1int, u, Seq::<char>::empty()))], None => Seq::empty() });
    assert(ts =~= first + second + rest);
    let i: int = if title is Some { 1 } else { 0 };
    assert(first.len() == i);
    assert(ts[i] == second[0]);
}

} // verus!
