use geoff::context::{build_page_context, PageContext};
use geoff::entries::{
    build_page_entry, build_page_entry_from_frontmatter, custom_triples, data_triples,
    json_to_object_value, token_triples, token_value_to_string,
};
use geoff::json::{Json, JsonNumber};
use geoff::mappings::MappingRegistry;
use geoff::protocol::{
    apply_content_parsed, apply_page_render, check_response, ContentParsedResult, JsonRpcError,
    JsonRpcRequest, JsonRpcResponse, PageData, PageRenderResult, RpcFailure,
};
use geoff::entries::insert_page_graph;
use geoff::store::{ContentStore, StoreError};
use geoff::theme::unwrap_tokens_key;
use geoff::tokens::{DesignTokens, FlatToken, TokenValue};
use geoff::types::{ObjectValue, XSD_BOOLEAN, XSD_DOUBLE, XSD_INTEGER};

fn number(n: &serde_json::Number) -> JsonNumber {
    let f = n.as_f64().unwrap_or(0.0);
    JsonNumber {
        raw: n.to_string(),
        display: format!("{f}"),
        trunc: format!("{}", f as i64),
        int_text: n.as_i64().map(|i| i.to_string()),
        is_whole: f.fract() == 0.0,
        is_zero: f == 0.0,
        order: order_key(f),
    }
}

fn order_key(f: f64) -> u64 {
    if f == 0.0 {
        1u64 << 63
    } else {
        let b = f.to_bits();
        if b >> 63 == 1 { !b } else { b | (1u64 << 63) }
    }
}

fn convert(v: &serde_json::Value) -> Json {
    match v {
        serde_json::Value::Null => Json::Null,
        serde_json::Value::Bool(b) => Json::Bool(*b),
        serde_json::Value::Number(n) => Json::Number(number(n)),
        serde_json::Value::String(s) => Json::String(s.clone()),
        serde_json::Value::Array(a) => Json::Array(a.iter().map(convert).collect()),
        serde_json::Value::Object(m) => {
            Json::Object(m.iter().map(|(k, x)| (k.clone(), convert(x))).collect())
        }
    }
}

fn parse(text: &str) -> Json {
    convert(&serde_json::from_str::<serde_json::Value>(text).unwrap())
}

fn keys(j: &Json) -> Vec<String> {
    match j {
        Json::Object(m) => m.iter().map(|(k, _)| k.clone()).collect(),
        _ => panic!("expected an object"),
    }
}

fn get<'a>(j: &'a Json, key: &str) -> Option<&'a Json> {
    match j {
        Json::Object(m) => m.iter().find(|(k, _)| k == key).map(|(_, v)| v),
        _ => None,
    }
}

fn get_str<'a>(j: &'a Json, key: &str) -> &'a str {
    match get(j, key) {
        Some(Json::String(s)) => s.as_str(),
        _ => panic!("expected a string member {key}"),
    }
}

fn page(path: &str) -> PageData {
    PageData {
        path: path.to_string(),
        title: Some("T".to_string()),
        content_type: None,
        html: "<p>x</p>".to_string(),
        raw_body: "x".to_string(),
        frontmatter: Vec::new(),
    }
}

#[test]
fn json_to_object_value_string() {
    let val = Json::String("hello".into());
    assert_eq!(json_to_object_value(&val), ObjectValue::Literal("hello".into()));
}

#[test]
fn json_to_object_value_integer() {
    let val = parse("42");
    assert_eq!(
        json_to_object_value(&val),
        ObjectValue::TypedLiteral { value: "42".into(), datatype: XSD_INTEGER.into() }
    );
}

#[test]
fn json_to_object_value_bool() {
    let val = Json::Bool(true);
    assert_eq!(
        json_to_object_value(&val),
        ObjectValue::TypedLiteral { value: "true".into(), datatype: XSD_BOOLEAN.into() }
    );
}

#[test]
fn json_to_object_value_double_and_composites() {
    assert_eq!(
        json_to_object_value(&parse("1.5")),
        ObjectValue::TypedLiteral { value: "1.5".into(), datatype: XSD_DOUBLE.into() }
    );
    assert_eq!(json_to_object_value(&parse("[1,\"a\"]")), ObjectValue::Literal("[1,\"a\"]".into()));
    assert_eq!(json_to_object_value(&Json::Null), ObjectValue::Literal("null".into()));
}

#[test]
fn insert_custom_triples_expands_prefixed_iris() {
    let registry = MappingRegistry::new();
    let fields = vec![
        ("geoff:stage".to_string(), Json::String("develop".into())),
        ("http://example.org/custom".to_string(), Json::String("value".into())),
    ];
    let triples = custom_triples(&fields, &registry);
    assert_eq!(triples.len(), 2);
    assert_eq!(triples[0].0, "urn:geoff:ontology:stage");
    assert_eq!(triples[0].1, ObjectValue::Literal("develop".into()));
    assert_eq!(triples[1].0, "http://example.org/custom");
    assert_eq!(triples[1].1, ObjectValue::Literal("value".into()));
}

#[test]
fn insert_data_triples_resolves_friendly_names() {
    let mut registry = MappingRegistry::new();
    registry.add_property("wordCount", "https://schema.org/wordCount");
    let fields = vec![
        ("wordCount".to_string(), parse("1500")),
        ("schema:author".to_string(), Json::String("Alice".into())),
        ("customField".to_string(), Json::String("some value".into())),
    ];
    let triples = data_triples(&fields, &registry);
    assert_eq!(triples.len(), 3);
    assert_eq!(triples[0].0, "https://schema.org/wordCount");
    assert_eq!(
        triples[0].1,
        ObjectValue::TypedLiteral { value: "1500".into(), datatype: XSD_INTEGER.into() }
    );
    assert_eq!(triples[1].0, "https://schema.org/author");
    assert_eq!(triples[1].1, ObjectValue::Literal("Alice".into()));
    assert_eq!(triples[2].0, "urn:geoff:meta:customField");
    assert_eq!(triples[2].1, ObjectValue::Literal("some value".into()));
}

#[test]
fn page_entry_sets_url_title_and_optional_fields() {
    let fm = parse(r#"{"template":"post.html","title":"Old","weight":3}"#);
    let entry = build_page_entry(
        &fm,
        "/blog/a/",
        "New",
        &Some("2026-01-02".to_string()),
        &None,
        &Some("About a".to_string()),
        &Some(vec!["x".to_string(), "y".to_string()]),
    );
    assert_eq!(
        keys(&entry),
        vec!["date", "description", "tags", "template", "title", "url", "weight"]
    );
    assert_eq!(get_str(&entry, "title"), "New");
    assert_eq!(get_str(&entry, "url"), "/blog/a/");
    assert_eq!(get_str(&entry, "date"), "2026-01-02");
    assert!(get(&entry, "author").is_none());
    match get(&entry, "tags") {
        Some(Json::Array(a)) => {
            assert_eq!(a.len(), 2);
            assert!(matches!(&a[1], Json::String(s) if s == "y"));
        }
        _ => panic!("tags should be an array"),
    }
}

#[test]
fn page_entry_ignores_non_object_frontmatter() {
    let entry = build_page_entry(&Json::Null, "/", "Home", &None, &None, &None, &None);
    assert_eq!(keys(&entry), vec!["title", "url"]);
}

#[test]
fn frontmatter_entry_defaults_title() {
    let entry = build_page_entry_from_frontmatter(&parse(r#"{"date":"2026"}"#), "/x/");
    assert_eq!(get_str(&entry, "title"), "Untitled");
    assert_eq!(get_str(&entry, "url"), "/x/");
    let kept = build_page_entry_from_frontmatter(&parse(r#"{"title":"Mine"}"#), "/y/");
    assert_eq!(get_str(&kept, "title"), "Mine");
    assert_eq!(keys(&kept), vec!["title", "url"]);
}

#[test]
fn token_values_as_text() {
    assert_eq!(token_value_to_string(&TokenValue::String("#fff".into())), "#fff");
    assert_eq!(token_value_to_string(&TokenValue::Bool(false)), "false");
    match parse("16") {
        Json::Number(n) => assert_eq!(token_value_to_string(&TokenValue::Number(n)), "16"),
        _ => unreachable!(),
    }
    match parse("1.25") {
        Json::Number(n) => assert_eq!(token_value_to_string(&TokenValue::Number(n)), "1.25"),
        _ => unreachable!(),
    }
    match parse(r#"{"unit":"px","value":4}"#) {
        Json::Object(m) => {
            assert_eq!(token_value_to_string(&TokenValue::Object(m)), r#"{"unit":"px","value":4}"#)
        }
        _ => unreachable!(),
    }
}

#[test]
fn tokens_become_three_triples_each() {
    let doc = parse(
        r##"{"color":{"primaryBlue":{"$value":"#00f","$type":"color"}},"space":{"sm":{"$value":"4px"}}}"##,
    );
    let flat: Vec<FlatToken> = DesignTokens::from_json(&doc).flatten();
    let triples = token_triples(&flat);
    assert_eq!(triples.len(), 5);
    assert_eq!(triples[0].0, "urn:geoff:design-token:color.primaryBlue");
    assert_eq!(triples[0].1, "urn:geoff:design-token:type");
    assert_eq!(triples[0].2, ObjectValue::Literal("color".into()));
    assert_eq!(triples[1].1, "urn:geoff:design-token:value");
    assert_eq!(triples[1].2, ObjectValue::Literal("#00f".into()));
    assert_eq!(triples[2].1, "urn:geoff:design-token:cssVariable");
    assert_eq!(triples[2].2, ObjectValue::Literal("--color-primary-blue".into()));
    assert_eq!(triples[3].0, "urn:geoff:design-token:space.sm");
    assert_eq!(triples[3].1, "urn:geoff:design-token:value");
    assert_eq!(triples[4].2, ObjectValue::Literal("--space-sm".into()));
}

#[test]
fn page_context_has_fixed_and_optional_variables() {
    let ctx = PageContext {
        title: "Hello".into(),
        content_html: "<p>hi</p>".into(),
        json_ld: "{}".into(),
        site_title: "Site".into(),
        page_url: "/hello/".into(),
        page_uri: "urn:geoff:content:hello.md".into(),
        rdfa_attrs: "vocab=\"https://schema.org/\"".into(),
        critical_css: "body{margin:0}".into(),
        date: None,
        author: Some("Ann".into()),
        description: None,
        tags: Some(vec!["a".into()]),
    };
    let vars = build_page_context(&ctx);
    let names: Vec<&str> = vars.iter().map(|(k, _)| k.as_str()).collect();
    assert_eq!(
        names,
        vec![
            "title", "content", "json_ld", "page_url", "page_uri", "rdfa_attrs", "critical_css",
            "config", "author", "tags",
        ]
    );
    assert!(matches!(&vars[1].1, Json::String(s) if s == "<p>hi</p>"));
    assert_eq!(get_str(&vars[7].1, "title"), "Site");
    assert!(matches!(&vars[6].1, Json::String(s) if s == "body{margin:0}"));
}

#[test]
fn unwrap_tokens_wrapper_only_with_meta_siblings() {
    let wrapped = parse(r##"{"$schema":"x","tokens":{"color":{"$value":"#000"}}}"##);
    assert_eq!(keys(&unwrap_tokens_key(wrapped)), vec!["color"]);
    let mixed = parse(r#"{"other":{},"tokens":{"color":{}}}"#);
    assert_eq!(keys(&unwrap_tokens_key(mixed)), vec!["other", "tokens"]);
    let not_object = parse(r#"{"tokens":"plain"}"#);
    assert_eq!(keys(&unwrap_tokens_key(not_object)), vec!["tokens"]);
}

#[test]
fn rpc_request_and_response_checks() {
    let req = JsonRpcRequest::new("on_init", None, 7);
    assert_eq!(req.jsonrpc, "2.0");
    assert_eq!(req.method, "on_init");
    assert_eq!(req.id, 7);

    let ok = JsonRpcResponse { jsonrpc: "2.0".into(), result: Some(Json::Bool(true)), error: None, id: 7 };
    assert!(!ok.is_error());
    assert!(ok.error_message().is_none());
    assert!(matches!(check_response(ok, 7), Ok(Some(Json::Bool(true)))));

    let err = JsonRpcResponse {
        jsonrpc: "2.0".into(),
        result: None,
        error: Some(JsonRpcError { code: -32601, message: "no such method".into(), data: None }),
        id: 8,
    };
    assert!(err.is_error());
    assert_eq!(err.error_message(), Some("no such method"));
    match check_response(err, 8) {
        Err(RpcFailure::PluginError { code, message }) => {
            assert_eq!(code, -32601);
            assert_eq!(message, "no such method");
        }
        _ => panic!("expected a plugin error"),
    }

    let other = JsonRpcResponse { jsonrpc: "2.0".into(), result: None, error: None, id: 3 };
    assert!(matches!(check_response(other, 4), Err(RpcFailure::IdMismatch { expected: 4, got: 3 })));
}

#[test]
fn plugin_results_replace_page_data() {
    let mut p = page("a.md");
    apply_content_parsed(&mut p, None);
    assert_eq!(p.path, "a.md");
    apply_content_parsed(&mut p, Some(ContentParsedResult { page: page("b.md") }));
    assert_eq!(p.path, "b.md");

    let mut vars = vec![("k".to_string(), Json::Null)];
    apply_page_render(&mut p, &mut vars, None);
    assert_eq!(vars.len(), 1);
    apply_page_render(
        &mut p,
        &mut vars,
        Some(PageRenderResult { page: page("c.md"), extra_vars: Vec::new() }),
    );
    assert_eq!(p.path, "c.md");
    assert!(vars.is_empty());
}

#[test]
fn page_graph_holds_standard_custom_and_data_fields() {
    let mut registry = MappingRegistry::new();
    registry.add_property("wordCount", "https://schema.org/wordCount");
    let mut store = ContentStore::new().unwrap();
    let uri = "urn:geoff:content:blog/a.md";
    let rdf_fields = vec![("geoff:stage".to_string(), Json::String("develop".into()))];
    let data_fields = vec![("wordCount".to_string(), parse("1500"))];
    insert_page_graph(
        &mut store,
        uri,
        Some("A"),
        Some("2026-01-02"),
        None,
        None,
        Some("Blog Post"),
        Some("/blog/a/"),
        &rdf_fields,
        &data_fields,
        &registry,
    )
    .unwrap();
    let mut rows = store.page_rows(uri);
    rows.sort();
    let preds: Vec<String> = rows.iter().map(|(p, _)| p.clone().unwrap()).collect();
    assert_eq!(
        preds,
        vec![
            "<http://www.w3.org/1999/02/22-rdf-syntax-ns#type>",
            "<https://schema.org/datePublished>",
            "<https://schema.org/name>",
            "<https://schema.org/url>",
            "<https://schema.org/wordCount>",
            "<urn:geoff:ontology:stage>",
        ]
    );
    let word_count = rows.iter().find(|(p, _)| p.as_deref() == Some("<https://schema.org/wordCount>")).unwrap();
    assert_eq!(word_count.1.as_deref(), Some("1500"));
}

#[test]
fn page_graph_with_a_bad_iri_is_refused() {
    let registry = MappingRegistry::new();
    let mut store = ContentStore::new().unwrap();
    let r = insert_page_graph(
        &mut store,
        "not an iri",
        Some("A"),
        None,
        None,
        None,
        None,
        None,
        &Vec::new(),
        &Vec::new(),
        &registry,
    );
    assert_eq!(r, Err(StoreError::InvalidIri));
}
