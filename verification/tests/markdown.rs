use geoff::mappings::MappingRegistry;
use geoff::markdown::{render_markdown, resolve_rdfa_property, rewrite_rdfa_links};

#[test]
fn render_basic_markdown() {
    let html = render_markdown("# Hello\n\nA paragraph.");
    assert!(html.contains("<h1>Hello</h1>"));
    assert!(html.contains("<p>A paragraph.</p>"));
}

#[test]
fn render_gfm_table() {
    let md = "| A | B |\n|---|---|\n| 1 | 2 |";
    let html = render_markdown(md);
    assert!(html.contains("<table>"));
}

#[test]
fn render_strikethrough() {
    let html = render_markdown("~~deleted~~");
    assert!(html.contains("<del>deleted</del>"));
}

#[test]
fn render_markdown_is_not_identity() {
    let html = render_markdown("*x*");
    assert_eq!(html, "<p><em>x</em></p>\n");
}

#[test]
fn rewrite_rdfa_with_mapping() {
    let mut registry = MappingRegistry::new();
    registry.add_property("author", "https://schema.org/author");
    let html = r#"<p>By <a href="rdfa:author">John</a></p>"#;
    let result = rewrite_rdfa_links(html, &registry);
    assert!(
        result.contains(r#"<span property="schema:author">John</span>"#),
        "expected schema:author span, got: {result}"
    );
}

#[test]
fn rewrite_rdfa_skips_code_blocks() {
    let registry = MappingRegistry::new();
    let html = r#"<code><a href="rdfa:author">John</a></code>"#;
    let result = rewrite_rdfa_links(html, &registry);
    assert!(
        result.contains(r#"<a href="rdfa:author">"#),
        "should not rewrite inside code, got: {result}"
    );
}

#[test]
fn rewrite_rdfa_skips_pre_blocks() {
    let registry = MappingRegistry::new();
    let html = r#"<pre><a href="rdfa:author">John</a></pre>"#;
    let result = rewrite_rdfa_links(html, &registry);
    assert!(
        result.contains(r#"<a href="rdfa:author">"#),
        "should not rewrite inside pre, got: {result}"
    );
}

#[test]
fn rewrite_rdfa_no_match_passthrough() {
    let registry = MappingRegistry::new();
    let html = r#"<p>Normal <a href="https://example.com">link</a></p>"#;
    let result = rewrite_rdfa_links(html, &registry);
    assert_eq!(result, html);
}

#[test]
fn rewrite_rdfa_unmapped_property_passthrough() {
    let registry = MappingRegistry::new();
    let html = r#"<p><a href="rdfa:customProp">value</a></p>"#;
    let result = rewrite_rdfa_links(html, &registry);
    assert!(
        result.contains(r#"<span property="customProp">value</span>"#),
        "unmapped property should pass through as-is, got: {result}"
    );
}

#[test]
fn rewrite_rdfa_prefixed_iri() {
    let registry = MappingRegistry::new();
    let html = r#"<p><a href="rdfa:schema:name">Alice</a></p>"#;
    let result = rewrite_rdfa_links(html, &registry);
    assert!(
        result.contains(r#"<span property="schema:name">Alice</span>"#),
        "prefixed IRI should resolve and re-compact, got: {result}"
    );
}

#[test]
fn rewrite_rdfa_preserves_surrounding_html() {
    let mut registry = MappingRegistry::new();
    registry.add_property("author", "https://schema.org/author");
    let html = r#"<p>Written by <a href="rdfa:author">Jane</a> on Monday.</p>"#;
    let result = rewrite_rdfa_links(html, &registry);
    assert_eq!(
        result,
        r#"<p>Written by <span property="schema:author">Jane</span> on Monday.</p>"#
    );
}

#[test]
fn rewrite_rdfa_utf8_content() {
    let mut registry = MappingRegistry::new();
    registry.add_property("author", "https://schema.org/author");
    let html = r#"<p><a href="rdfa:author">Ólafur Árnalds</a></p>"#;
    let result = rewrite_rdfa_links(html, &registry);
    assert!(
        result.contains(r#"<span property="schema:author">Ólafur Árnalds</span>"#),
        "UTF-8 content should be preserved, got: {result}"
    );
}

#[test]
fn rewrite_rdfa_after_code_closes() {
    let registry = MappingRegistry::new();
    let html = r#"<code>x</code><a href="rdfa:title">T</a>"#;
    let result = rewrite_rdfa_links(html, &registry);
    assert_eq!(result, r#"<code>x</code><span property="schema:name">T</span>"#);
}

#[test]
fn rewrite_rdfa_unclosed_link_is_copied() {
    let registry = MappingRegistry::new();
    let html = r#"<a href="rdfa:title">no close"#;
    assert_eq!(rewrite_rdfa_links(html, &registry), html);
}

#[test]
fn resolve_rdfa_property_order() {
    let registry = MappingRegistry::new();
    assert_eq!(resolve_rdfa_property("Title", &registry), "schema:name");
    assert_eq!(resolve_rdfa_property("dc:language", &registry), "dc:language");
    assert_eq!(resolve_rdfa_property("plain", &registry), "plain");
}
