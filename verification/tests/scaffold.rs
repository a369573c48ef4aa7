use geoff::component::{build_attrs_str, component_attributes, render_tag_only, ssr_markup};
use geoff::config::{devspaces_url, DevSpacesConfig};
use geoff::json::Json;
use geoff::protocol::SsrResult;
use geoff::scaffold::{new_page_source, title_from_stem, DEFAULT_CONFIG, DEFAULT_SAMPLE_POST};
use geoff::frontmatter::split_frontmatter;

#[test]
fn title_from_file_stem() {
    assert_eq!(title_from_stem("my-first_post"), "my first post");
    assert_eq!(title_from_stem(""), "");
}

#[test]
fn new_page_has_frontmatter_and_heading() {
    let text = new_page_source("Hello There", "2026-04-10", "Blog Post");
    assert_eq!(
        text,
        "+++\ntitle = \"Hello There\"\ndate = 2026-04-10\ntemplate = \"page.html\"\ntype = \"Blog Post\"\n+++\n\n# Hello There\n\nWrite your content here.\n"
    );
    let (fm, body) = split_frontmatter(&text).unwrap();
    assert!(fm.contains("type = \"Blog Post\""));
    assert!(body.starts_with("\n# Hello There"));
}

#[test]
fn scaffold_texts() {
    assert!(DEFAULT_CONFIG.starts_with("base_url = \"http://localhost:8080\"\n"));
    assert!(split_frontmatter(DEFAULT_SAMPLE_POST).is_ok());
}

#[test]
fn devspaces_url_needs_both_parts() {
    let both = DevSpacesConfig { url: Some("https://ds.example".into()), git_repo: Some("https://git/x".into()) };
    assert_eq!(devspaces_url(&both), "https://ds.example#https://git/x");
    let one = DevSpacesConfig { url: Some("https://ds.example".into()), git_repo: None };
    assert_eq!(devspaces_url(&one), "");
}

#[test]
fn component_tags_and_attributes() {
    let attrs = vec![("title".to_string(), "Say \"hi\"".to_string()), ("id".to_string(), "x".to_string())];
    assert_eq!(build_attrs_str(&attrs), " title=\"Say &quot;hi&quot;\" id=\"x\"");
    assert_eq!(build_attrs_str(&Vec::new()), "");
    assert_eq!(render_tag_only("my-card", &attrs, "<p>c</p>"), "<my-card title=\"Say &quot;hi&quot;\" id=\"x\"><p>c</p></my-card>");

    let args = vec![
        ("count".to_string(), Json::Bool(true)),
        ("name".to_string(), Json::String("my-card".into())),
        ("renderer".to_string(), Json::String("lit".into())),
        ("slot_content".to_string(), Json::String("kid".into())),
        ("title".to_string(), Json::String("T".into())),
    ];
    let tag_attrs = component_attributes(&args, false);
    assert_eq!(tag_attrs, vec![("renderer".to_string(), "lit".to_string()), ("title".to_string(), "T".to_string())]);
    let ssr_attrs = component_attributes(&args, true);
    assert_eq!(ssr_attrs, vec![("title".to_string(), "T".to_string())]);
}

#[test]
fn ssr_markup_variants() {
    let attrs = vec![("a".to_string(), "1".to_string())];
    let shadow = SsrResult { html: "<b>x</b>".into(), has_shadow_root: true };
    assert_eq!(
        ssr_markup("c-x", &attrs, "kid", &shadow, false),
        "<c-x a=\"1\">\n  <template shadowrootmode=\"open\">\n<b>x</b>\n  </template>\nkid</c-x>"
    );
    let light = SsrResult { html: "<b>x</b>".into(), has_shadow_root: false };
    assert_eq!(ssr_markup("c-x", &attrs, "kid", &light, false), "<c-x a=\"1\"><b>x</b>kid</c-x>");
    assert_eq!(ssr_markup("c-x", &attrs, "kid", &light, true), "<b>x</b>");
}
