use geoff::config::McpConfig;
use geoff::mcp::{generate_mcp_manifest_json, site_name};

#[test]
fn site_name_strips_scheme_and_slashes() {
    assert_eq!(site_name("https://example.com/blog/"), "example.com-blog");
    assert_eq!(site_name("http://localhost:8080"), "localhost:8080");
}

#[test]
fn manifest_defaults_from_base_url() {
    let text = generate_mcp_manifest_json("https://example.com/", "My Site", "search.nt", &McpConfig::default());
    let v: serde_json::Value = serde_json::from_str(&text).unwrap();
    assert_eq!(v["mcp_version"], "1.0");
    assert_eq!(v["name"], "example.com-knowledge");
    assert_eq!(v["description"], "Structured knowledge base for My Site");
    let tool = &v["tools"][0];
    assert_eq!(tool["name"], "sparql_query");
    assert_eq!(tool["runtime"], "wasm-wasi");
    assert_eq!(tool["binary_url"], "https://example.com/bin/geoff-sparql.wasm");
    assert_eq!(tool["wit_url"], "https://example.com/bin/geoff-sparql.wit");
    assert_eq!(tool["fixed_arguments"]["dataset_url"], "https://example.com/search.nt");
    assert_eq!(
        tool["description"],
        "Execute a SPARQL SELECT or ASK query against the site's RDF knowledge graph"
    );
    assert_eq!(tool["input_schema"]["required"][0], "query");
    assert_eq!(tool["datasets"].as_array().unwrap().len(), 0);
    assert!(text.contains("\n  \"mcp_version\": \"1.0\""));
}

#[test]
fn manifest_uses_configured_wasm_and_description() {
    let mcp = McpConfig {
        enabled: true,
        wasm_source: "cdn".into(),
        wasm_url: Some("https://cdn.example/q.wasm".into()),
        description: Some("Ask me".into()),
    };
    let v: serde_json::Value =
        serde_json::from_str(&generate_mcp_manifest_json("http://x.org", "X", "idx.nt", &mcp)).unwrap();
    assert_eq!(v["tools"][0]["binary_url"], "https://cdn.example/q.wasm");
    assert_eq!(v["tools"][0]["description"], "Ask me");
    assert_eq!(v["tools"][0]["fixed_arguments"]["dataset_url"], "http://x.org/idx.nt");
}
