use geoff::config::{OptimizeConfig, UrlStyle};
use geoff::dates::{chrono_today, date_from_days, decimal_string};
use geoff::mappings::MappingRegistry;
use geoff::optimize::{
    content_hash, hashed_asset_name, optimize_assets, replace_str, rewrite_asset_refs,
    to_forward_slashes, OptimizeStats, OptimizeStep,
};
use geoff::publish::{archive_slug, deploy_app_name, mime_for_extension, normalize_pod_url};
use geoff::site::{
    apply_url_style, build_critical_css_for_page, critical_css_category, default_type_iri,
    inject_css_into_html, normalize_url_key, output_path_to_url, parent_url_key,
    resolve_type_iri, titlecase_segment,
};
use geoff::theme::{
    contains_reference, first_group, is_reference, path_to_css_var_name, path_to_var_name,
    path_to_var_name_with_prefix,
};

#[test]
fn content_hash_deterministic() {
    let h1 = content_hash(b"hello world");
    let h2 = content_hash(b"hello world");
    assert_eq!(h1, h2);
    assert_eq!(h1.len(), 8);
}

#[test]
fn content_hash_differs_for_different_input() {
    let h1 = content_hash(b"hello");
    let h2 = content_hash(b"world");
    assert_ne!(h1, h2);
}

#[test]
fn content_hash_is_sha256_prefix() {
    assert_eq!(content_hash(b"hello world"), "b94d27b9");
    assert_eq!(content_hash(b"hello"), "2cf24dba");
}

#[test]
fn optimize_noop_when_all_disabled() {
    let config = OptimizeConfig::default();
    let steps = optimize_assets(&config);
    assert!(steps.is_empty());
    let stats = OptimizeStats::default();
    assert_eq!(stats.css_minified, 0);
    assert_eq!(stats.js_minified, 0);
    assert_eq!(stats.assets_hashed, 0);
    assert_eq!(stats.images_converted, 0);
}

#[test]
fn optimize_plan_order_minify_then_hash_then_images() {
    let mut config = OptimizeConfig::default();
    config.minify_css = true;
    config.minify_js = true;
    config.hash_assets = true;
    config.images.webp = true;
    config.images.max_width = Some(1200);
    let steps = optimize_assets(&config);
    assert_eq!(
        steps,
        vec![
            OptimizeStep::MinifyCss,
            OptimizeStep::MinifyJs,
            OptimizeStep::HashAssets,
            OptimizeStep::ConvertImages { quality: 80, max_width: Some(1200) },
        ]
    );
    let mut stats = OptimizeStats::default();
    stats.record(OptimizeStep::HashAssets, 3);
    stats.record(OptimizeStep::ConvertImages { quality: 80, max_width: None }, 2);
    assert_eq!(stats.assets_hashed, 3);
    assert_eq!(stats.images_converted, 2);
    assert_eq!(stats.css_minified, 0);
}

#[test]
fn hashed_name_and_reference_rewrite() {
    let name = hashed_asset_name("style", "abcd1234", "css");
    assert_eq!(name, "style.abcd1234.css");
    let renames = vec![("style.css".to_string(), name.clone())];
    let (html, changed) =
        rewrite_asset_refs(r#"<link rel="stylesheet" href="style.css">"#, &renames);
    assert!(changed);
    assert_eq!(html, r#"<link rel="stylesheet" href="style.abcd1234.css">"#);
    let (same, changed2) = rewrite_asset_refs("<p>none</p>", &renames);
    assert!(!changed2);
    assert_eq!(same, "<p>none</p>");
}

#[test]
fn replace_matches_std_replace() {
    assert_eq!(replace_str("a.b.c", ".", "-"), "a.b.c".replace('.', "-"));
    assert_eq!(replace_str("aaa", "aa", "b"), "aaa".replace("aa", "b"));
    assert_eq!(replace_str("ab", "", "-"), "ab".replace("", "-"));
    assert_eq!(replace_str("", "x", "y"), "");
}

#[test]
fn forward_slashes() {
    assert_eq!(to_forward_slashes("css\\main.css"), "css/main.css");
    assert_eq!(to_forward_slashes("a/b"), "a/b");
}

#[test]
fn camel_case_to_kebab() {
    assert_eq!(path_to_var_name("typography.body.fontSize"), "--typography-body-font-size");
    assert_eq!(path_to_var_name("color.primary"), "--color-primary");
    assert_eq!(path_to_var_name("spacing.md"), "--spacing-md");
}

#[test]
fn var_name_prefix_and_root_marker() {
    assert_eq!(path_to_var_name_with_prefix("color.primary", Some("rh")), "--rh-color-primary");
    assert_eq!(path_to_var_name("color.primary._"), "--color-primary");
    assert_eq!(path_to_css_var_name("color.primary._"), "--color-primary-_");
}

#[test]
fn reference_detection() {
    assert!(is_reference("{color.primary}"));
    assert!(!is_reference("{}"));
    assert!(!is_reference("1px solid {color.border}"));
    assert!(contains_reference("1px solid {color.border}"));
    assert!(!contains_reference("{color.primary}"));
    assert!(!contains_reference("plain"));
}

#[test]
fn first_group_splits_at_first_dot() {
    assert_eq!(first_group("color.brand.primary"), ("color".to_string(), "brand.primary".to_string()));
    assert_eq!(first_group("color"), ("color".to_string(), String::new()));
}

#[test]
fn pod_url_normalization() {
    assert_eq!(normalize_pod_url("pod.example.org/alice"), "https://pod.example.org/alice/");
    assert_eq!(normalize_pod_url("http://localhost:3000/"), "http://localhost:3000/");
}

#[test]
fn mime_types() {
    assert_eq!(mime_for_extension("html"), "text/html");
    assert_eq!(mime_for_extension("woff2"), "font/woff2");
    assert_eq!(mime_for_extension("ttl"), "text/turtle");
    assert_eq!(mime_for_extension("exe"), "application/octet-stream");
}

#[test]
fn dates_from_day_counts() {
    assert_eq!(date_from_days(0), "1970-01-01");
    assert_eq!(date_from_days(19723), "2024-01-01");
    assert_eq!(date_from_days(19782), "2024-02-29");
    assert_eq!(date_from_days(11016), "2000-02-29");
    assert_eq!(date_from_days(365), "1971-01-01");
    assert_eq!(decimal_string(0), "0");
    assert_eq!(decimal_string(2024), "2024");
}

#[test]
fn today_has_date_shape() {
    let d = chrono_today();
    assert_eq!(d.len(), 10);
    let b = d.as_bytes();
    assert_eq!(b[4], b'-');
    assert_eq!(b[7], b'-');
    assert!(d.as_str() >= "2024-01-01");
}

#[test]
fn url_styles_and_urls() {
    assert_eq!(apply_url_style("blog/post.html", &UrlStyle::Directory), "blog/post/index.html");
    assert_eq!(apply_url_style("blog/index.html", &UrlStyle::Directory), "blog/index.html");
    assert_eq!(apply_url_style("blog/post.html", &UrlStyle::File), "blog/post.html");
    assert_eq!(output_path_to_url("index.html"), "/");
    assert_eq!(output_path_to_url("blog/post/index.html"), "/blog/post/");
    assert_eq!(output_path_to_url("about.html"), "/about.html");
}

#[test]
fn url_keys_and_titles() {
    assert_eq!(normalize_url_key("/blog/post.html"), "/blog/post");
    assert_eq!(normalize_url_key("/docs/"), "/docs");
    assert_eq!(normalize_url_key("/"), "/");
    assert_eq!(parent_url_key("/blog/post"), Some("/blog".to_string()));
    assert_eq!(parent_url_key("/blog"), Some("/".to_string()));
    assert_eq!(parent_url_key("/"), None);
    assert_eq!(titlecase_segment("getting-started"), "Getting Started");
    assert_eq!(titlecase_segment("a--b"), "A  B");
}

#[test]
fn critical_css() {
    assert_eq!(critical_css_category("critical.css"), Some("*".to_string()));
    assert_eq!(critical_css_category("critical-post.css"), Some("post".to_string()));
    assert_eq!(critical_css_category("main.css"), None);
    let files = vec![
        ("*".to_string(), "body{}".to_string()),
        ("post".to_string(), "article{}".to_string()),
        ("page".to_string(), "main{}".to_string()),
    ];
    assert_eq!(build_critical_css_for_page("post.html", &files), "body{}\narticle{}\n");
    assert_eq!(
        inject_css_into_html("<html><head></head><body></body></html>", "a{}"),
        "<html><head><style data-geoff-theme>a{}</style>\n</head><body></body></html>"
    );
    assert_eq!(inject_css_into_html("<p>x</p>", ""), "<p>x</p>");
    assert_eq!(inject_css_into_html("<p>x</p>", "a{}"), "<style data-geoff-theme>a{}</style>\n<p>x</p>");
}

#[test]
fn type_iris() {
    assert_eq!(default_type_iri("Blog Post"), "https://schema.org/BlogPosting");
    assert_eq!(default_type_iri("Unknown"), "https://schema.org/WebPage");
    let mut reg = MappingRegistry::new();
    assert_eq!(resolve_type_iri("Recipe", &reg), "https://schema.org/WebPage");
    reg.add_type("Recipe", "https://schema.org/Recipe");
    assert_eq!(resolve_type_iri("recipe", &reg), "https://schema.org/Recipe");
}

#[test]
fn publish_names_are_slugs() {
    assert_eq!(archive_slug("My Cool Site!"), "my-cool-site");
    assert_eq!(archive_slug("--Hi--"), "hi");
    assert_eq!(deploy_app_name(None, "  Acme Docs Portal"), "acme");
    assert_eq!(deploy_app_name(Some("Team-Site 2"), "ignored"), "team-site-2");
    assert_eq!(deploy_app_name(None, "   "), "geoff-site");
}
