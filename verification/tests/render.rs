use geoff::json::{Json, JsonNumber};
use geoff::jsonld::{build_jsonld, build_jsonld_from_graph, jsonld_script_tag, strip_angle_brackets, GraphRow};
use geoff::mappings::MappingRegistry;
use geoff::preview::{content_type_slug, generate_preview_index};
use geoff::rdfa::{rdfa_meta_tags, rdfa_prefix_attr, rdfa_prop_attr, rdfa_span, resolve_property_name};
use geoff::tokens::{DesignTokens, FlatToken};

fn number(n: &serde_json::Number) -> JsonNumber {
    let f = n.as_f64().unwrap_or(0.0);
    JsonNumber {
        raw: n.to_string(),
        display: format!("{f}"),
        trunc: format!("{}", f as i64),
        int_text: n.as_i64().map(|i| i.to_string()),
        is_whole: f.fract() == 0.0,
        is_zero: f == 0.0,
        order: order_key(f),
    }
}

fn order_key(f: f64) -> u64 {
    if f == 0.0 {
        1u64 << 63
    } else {
        let b = f.to_bits();
        if b >> 63 == 1 { !b } else { b | (1u64 << 63) }
    }
}

fn convert(v: &serde_json::Value) -> Json {
    match v {
        serde_json::Value::Null => Json::Null,
        serde_json::Value::Bool(b) => Json::Bool(*b),
        serde_json::Value::Number(n) => Json::Number(number(n)),
        serde_json::Value::String(s) => Json::String(s.clone()),
        serde_json::Value::Array(a) => Json::Array(a.iter().map(convert).collect()),
        serde_json::Value::Object(m) => {
            Json::Object(m.iter().map(|(k, x)| (k.clone(), convert(x))).collect())
        }
    }
}

fn flat_of(text: &str) -> Vec<FlatToken> {
    let v: serde_json::Value = serde_json::from_str(text).unwrap();
    DesignTokens::from_json(&convert(&v)).flatten()
}

fn number_reading(o: &str) -> Option<Json> {
    let bare = strip_angle_brackets(o);
    if let Ok(i) = bare.parse::<i64>() {
        Some(convert(&serde_json::Value::from(i)))
    } else if let Ok(f) = bare.parse::<f64>() {
        Some(convert(&serde_json::Value::from(f)))
    } else {
        None
    }
}

fn row(p: &str, o: &str) -> GraphRow {
    GraphRow { p: Some(p.to_string()), o: Some(o.to_string()), o_number: number_reading(o) }
}

fn get<'a>(j: &'a Json, key: &str) -> Option<&'a Json> {
    match j {
        Json::Object(m) => m.iter().find(|(k, _)| k == key).map(|(_, v)| v),
        _ => None,
    }
}

fn get_str<'a>(j: &'a Json, key: &str) -> &'a str {
    match get(j, key) {
        Some(Json::String(s)) => s.as_str(),
        _ => panic!("expected a string member {key}"),
    }
}

#[test]
fn build_blog_jsonld() {
    let ld = build_jsonld(
        "https://example.com",
        "blog/hello",
        Some("Hello World"),
        Some("2026-04-10"),
        Some("ldary"),
        Some("Blog Post"),
    );
    assert_eq!(get_str(&ld, "@type"), "BlogPosting");
    assert_eq!(get_str(&ld, "name"), "Hello World");
    assert_eq!(get_str(&ld, "datePublished"), "2026-04-10");
    assert_eq!(get_str(get(&ld, "author").unwrap(), "name"), "ldary");
    assert_eq!(get_str(&ld, "@id"), "https://example.com/blog/hello");
    assert_eq!(get_str(&ld, "@context"), "https://schema.org/");
}

#[test]
fn default_type_is_webpage() {
    let ld = build_jsonld("https://example.com", "/about", Some("About"), None, None, None);
    assert_eq!(get_str(&ld, "@type"), "WebPage");
    assert_eq!(get_str(&ld, "@id"), "https://example.com/about");
    assert!(get(&ld, "author").is_none());
}

#[test]
fn unknown_content_type_is_kept() {
    let ld = build_jsonld("https://example.com/", "x", None, None, None, Some("Recipe"));
    assert_eq!(get_str(&ld, "@type"), "Recipe");
    assert_eq!(get_str(&ld, "@id"), "https://example.com/x");
}

#[test]
fn build_jsonld_from_graph_includes_all_triples() {
    let rows = vec![
        row("<https://schema.org/name>", "Hello World"),
        row("<https://schema.org/datePublished>", "2026-04-10"),
        row("<https://schema.org/author>", "ldary"),
        row("<https://schema.org/wordCount>", "1500"),
        row("<http://www.w3.org/1999/02/22-rdf-syntax-ns#type>", "<https://schema.org/BlogPosting>"),
    ];
    let registry = MappingRegistry::new();
    let ld = build_jsonld_from_graph(&rows, "https://example.com", "/blog/hello/", "https://schema.org/", &registry);
    assert_eq!(get_str(&ld, "@type"), "BlogPosting");
    assert_eq!(get_str(&ld, "name"), "Hello World");
    assert_eq!(get_str(&ld, "datePublished"), "2026-04-10");
    assert_eq!(get_str(get(&ld, "author").unwrap(), "name"), "ldary");
    match get(&ld, "wordCount") {
        Some(Json::Number(n)) => assert_eq!(n.raw, "1500"),
        _ => panic!("expected a number"),
    }
    assert_eq!(get_str(&ld, "@id"), "https://example.com/blog/hello/");
    assert_eq!(get_str(&ld, "@context"), "https://schema.org/");
}

#[test]
fn build_jsonld_from_graph_multi_vocab() {
    let rows = vec![
        row("<https://schema.org/name>", "Test"),
        row("<http://purl.org/dc/terms/language>", "en"),
    ];
    let registry = MappingRegistry::new();
    let ld = build_jsonld_from_graph(&rows, "https://example.com", "/test/", "https://schema.org/", &registry);
    assert_eq!(get_str(&ld, "name"), "Test");
    assert_eq!(get_str(&ld, "dc:language"), "en");
    let ctx = get(&ld, "@context").unwrap();
    assert_eq!(get_str(ctx, "@vocab"), "https://schema.org/");
    assert_eq!(get_str(ctx, "dc"), "http://purl.org/dc/terms/");
}

#[test]
fn build_jsonld_from_graph_filters_geoff_internals() {
    let rows = vec![
        row("<https://schema.org/name>", "Test"),
        row("<urn:geoff:meta:template>", "page.html"),
        GraphRow { p: None, o: Some("x".to_string()), o_number: None },
    ];
    let registry = MappingRegistry::new();
    let ld = build_jsonld_from_graph(&rows, "https://example.com", "/test/", "https://schema.org/", &registry);
    assert_eq!(get_str(&ld, "name"), "Test");
    assert!(get(&ld, "urn:geoff:meta:template").is_none());
    match &ld {
        Json::Object(m) => {
            let keys: Vec<&str> = m.iter().map(|(k, _)| k.as_str()).collect();
            assert_eq!(keys, vec!["@context", "@id", "name"]);
        }
        _ => panic!("expected object"),
    }
}

#[test]
fn jsonld_typed_booleans_and_unknown_iris() {
    let rows = vec![
        row("<https://example.org/flag>", "true"),
        row("<https://example.org/ratio>", "2.5"),
    ];
    let registry = MappingRegistry::new();
    let ld = build_jsonld_from_graph(&rows, "https://e.com", "p", "https://schema.org/", &registry);
    assert!(matches!(get(&ld, "https://example.org/flag"), Some(Json::Bool(true))));
    match get(&ld, "https://example.org/ratio") {
        Some(Json::Number(n)) => assert_eq!(n.display, "2.5"),
        _ => panic!("expected a number"),
    }
}

#[test]
fn script_tag_format() {
    let ld = build_jsonld("https://example.com", "/", None, None, None, None);
    let tag = jsonld_script_tag(&ld);
    assert!(tag.starts_with("<script type=\"application/ld+json\">"));
    assert!(tag.ends_with("</script>"));
    assert!(tag.contains("\"@type\": \"WebPage\""));
}

#[test]
fn strip_brackets_only_when_both() {
    assert_eq!(strip_angle_brackets("<a>"), "a");
    assert_eq!(strip_angle_brackets("<a"), "<a");
    assert_eq!(strip_angle_brackets("a>"), "a>");
}

#[test]
fn rdfa_property_names_and_attrs() {
    let registry = MappingRegistry::new();
    assert_eq!(resolve_property_name("title", &registry), "schema:name");
    assert_eq!(resolve_property_name("dc:creator", &registry), "dc:creator");
    assert_eq!(resolve_property_name("mystery", &registry), "mystery");
    assert_eq!(rdfa_prop_attr("author", &registry), "property=\"schema:author\"");
    assert_eq!(rdfa_span("Ada", "author", &registry), "<span property=\"schema:author\">Ada</span>");
}

#[test]
fn rdfa_prefix_attribute_skips_internal_prefixes() {
    let registry = MappingRegistry::new();
    let attr = rdfa_prefix_attr(&registry);
    assert!(attr.starts_with("prefix=\"schema: https://schema.org/"));
    assert!(!attr.contains("geoff:"));
    assert!(!attr.contains("rdf:"));
    assert!(attr.ends_with('"'));
}

#[test]
fn rdfa_meta_tags_for_hidden_properties() {
    let registry = MappingRegistry::new();
    let rows = vec![
        (Some("<https://schema.org/name>".to_string()), Some("T".to_string())),
        (Some("<https://schema.org/keywords>".to_string()), Some("a \"b\"".to_string())),
        (Some("<urn:geoff:x>".to_string()), Some("y".to_string())),
        (Some("<http://purl.org/dc/terms/language>".to_string()), Some("en".to_string())),
    ];
    let tags = rdfa_meta_tags("urn:geoff:content:a.md", &rows, &registry);
    assert_eq!(
        tags,
        "<meta property=\"schema:keywords\" content=\"a &quot;b&quot;\">\n<meta property=\"dc:language\" content=\"en\">"
    );
    assert_eq!(rdfa_meta_tags("", &rows, &registry), "");
}

#[test]
fn preview_index_lists_swatches_type_and_spacing() {
    let flat = flat_of(
        r##"{
            "color": { "$type": "color", "primary": { "$value": "#0066cc" } },
            "spacing": { "$type": "dimension", "md": { "$value": { "value": 16, "unit": "px" } }, "lg": { "$value": 1.5 } },
            "typography": { "body": { "$type": "typography", "$value": {
                "fontFamily": "Inter", "fontSize": { "value": 16, "unit": "px" }, "fontWeight": 400.7, "lineHeight": 1.5 } } }
        }"##,
    );
    let html = generate_preview_index("Demo", &flat, &vec!["Blog Post".to_string()]);
    assert!(html.starts_with("<!DOCTYPE html>"));
    assert!(html.contains("<title>{{ title }} — Theme Preview</title>"));
    assert!(html.contains("* { margin: 0; padding: 0; box-sizing: border-box; }"));
    assert!(html.contains("<h1>Theme Preview: Demo</h1>\n"));
    assert!(html.contains("<a href=\"/blog-post.html\">Blog Post</a>"));
    assert!(html.contains("style=\"background: #0066cc;\""));
    assert!(html.contains("<div class=\"swatch-name\">--color-primary</div>"));
    assert!(html.contains("style=\"font-family: Inter; font-size: 16px; font-weight: 400; line-height: 1.5; \""));
    assert!(html.contains("<div class=\"spacing-label\">16px</div>"));
    assert!(html.contains("style=\"width: 1.5px;\""));
    assert!(html.ends_with("    </div>\n</body>\n</html>\n"));
}

#[test]
fn preview_index_without_content_types_links_sample_page() {
    let html = generate_preview_index("Empty", &Vec::new(), &Vec::new());
    assert!(html.contains("<a href=\"/sample-page.html\">Sample Page (Web Page)</a>"));
    assert!(!html.contains("<h2>Colors</h2>"));
    assert!(!html.contains("<h2>Typography</h2>"));
    assert!(!html.contains("<h2>Spacing / Dimensions</h2>"));
    assert_eq!(content_type_slug("How To Guide"), "how-to-guide");
}
