use geoff::dev::{search_manifest, search_partition_key, search_partition_path, dev_page_key, dev_page_map, inject_hot_reload, lookup_page, serve_page, static_content_type, HOT_RELOAD_SCRIPT};

#[test]
fn dev_keys_follow_output_paths() {
    assert_eq!(dev_page_key("index.html"), "/");
    assert_eq!(dev_page_key("blog/a/index.html"), "/blog/a/index.html");
    assert_eq!(dev_page_key("blog\\b.html"), "/blog/b.html");
}

#[test]
fn dev_lookup_tries_html_and_index() {
    let pages = dev_page_map(&vec![
        ("index.html".to_string(), "home".to_string()),
        ("about.html".to_string(), "about".to_string()),
        ("docs/index.html".to_string(), "docs".to_string()),
    ]);
    assert_eq!(lookup_page(&pages, "/").map(|s| s.as_str()), Some("home"));
    assert_eq!(lookup_page(&pages, "/about").map(|s| s.as_str()), Some("about"));
    assert_eq!(lookup_page(&pages, "/docs").map(|s| s.as_str()), Some("docs"));
    assert_eq!(lookup_page(&pages, "/docs/").map(|s| s.as_str()), Some("docs"));
    assert!(lookup_page(&pages, "/missing").is_none());
}

#[test]
fn dev_replies_by_kind() {
    let pages = dev_page_map(&vec![
        ("a.html".to_string(), "<html><body>x</body></html>".to_string()),
        ("data.json".to_string(), "{}".to_string()),
        ("search.nt".to_string(), "<a> <b> <c> .\n".to_string()),
    ]);
    let html = serve_page(&pages, "/a.html").unwrap();
    assert_eq!(html.content_type, "text/html; charset=utf-8");
    assert_eq!(html.body, format!("<html><body>x{HOT_RELOAD_SCRIPT}\n</body></html>"));
    let json = serve_page(&pages, "/data.json").unwrap();
    assert_eq!((json.content_type.as_str(), json.body.as_str()), ("application/json", "{}"));
    let nt = serve_page(&pages, "/search.nt").unwrap();
    assert_eq!(nt.content_type, "application/n-triples");
    assert!(serve_page(&pages, "/nope").is_none());
}

#[test]
fn hot_reload_goes_before_the_last_body_end() {
    assert_eq!(inject_hot_reload("a</body>b</body>"), format!("a</body>b{HOT_RELOAD_SCRIPT}\n</body>"));
    assert_eq!(inject_hot_reload("plain"), format!("plain\n{HOT_RELOAD_SCRIPT}"));
}

#[test]
fn static_types_by_extension() {
    assert_eq!(static_content_type("css"), "text/css");
    assert_eq!(static_content_type("jpeg"), "image/jpeg");
    assert_eq!(static_content_type("bin"), "application/octet-stream");
}

#[test]
fn search_partitions_by_first_path_segment() {
    assert_eq!(search_partition_key("<urn:geoff:content:blog/a.md>").as_deref(), Some("blog"));
    assert_eq!(search_partition_key("<urn:geoff:content:index.md>"), None);
    assert_eq!(search_partition_key("<urn:other:blog/a.md>"), None);
    assert_eq!(search_partition_key("<urn:geoff:content:blog/a.md"), None);
    assert_eq!(search_partition_path("blog"), "/search/blog.nt");
    assert_eq!(
        search_manifest("https://ex.org/", &vec!["blog".to_string(), String::new()]),
        "<https://ex.org/search/blog.nt> <http://www.w3.org/1999/02/22-rdf-syntax-ns#type> <urn:geoff:SearchGraph> .\n\
         <https://ex.org/search/blog.nt> <urn:geoff:graphName> \"blog\" .\n"
    );
}
