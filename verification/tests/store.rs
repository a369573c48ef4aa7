use geoff::json::Json;
use geoff::store::{answer_to_json, page_graph_query, rows_of_answer, ContentStore, QueryAnswer, StoreError};
use geoff::types::ObjectValue;

fn rows_of(j: &Json) -> &Vec<Json> {
    match j {
        Json::Array(a) => a,
        _ => panic!("expected an array"),
    }
}

fn field<'a>(row: &'a Json, key: &str) -> &'a Json {
    match row {
        Json::Object(m) => &m.iter().find(|(k, _)| k == key).unwrap().1,
        _ => panic!("expected an object"),
    }
}

fn is_text(j: &Json, s: &str) -> bool {
    matches!(j, Json::String(x) if x == s)
}

#[test]
fn insert_and_query_named_graph() {
    let mut store = ContentStore::new().unwrap();
    store
        .insert_triple_into(
            "urn:geoff:content:blog/hello.md",
            "http://schema.org/name",
            &ObjectValue::Literal("Hello World".into()),
            "urn:geoff:content:blog/hello.md",
        )
        .unwrap();
    let json = store
        .query_to_json(
            "SELECT ?name WHERE { GRAPH <urn:geoff:content:blog/hello.md> { ?s <http://schema.org/name> ?name } }",
        )
        .unwrap();
    let rows = rows_of(&json);
    assert_eq!(rows.len(), 1);
    assert!(is_text(field(&rows[0], "name"), "Hello World"));
}

#[test]
fn insert_iri_object() {
    let mut store = ContentStore::new().unwrap();
    store
        .insert_triple_into(
            "urn:geoff:content:blog/hello.md",
            "http://www.w3.org/1999/02/22-rdf-syntax-ns#type",
            &ObjectValue::Iri("http://schema.org/BlogPosting".into()),
            "urn:geoff:content:blog/hello.md",
        )
        .unwrap();
    let json = store
        .query_to_json(
            "ASK { GRAPH <urn:geoff:content:blog/hello.md> { <urn:geoff:content:blog/hello.md> a <http://schema.org/BlogPosting> } }",
        )
        .unwrap();
    assert!(matches!(json, Json::Bool(true)));
}

#[test]
fn insert_typed_literal() {
    let mut store = ContentStore::new().unwrap();
    store
        .insert_triple_into(
            "urn:geoff:content:blog/hello.md",
            "http://schema.org/datePublished",
            &ObjectValue::TypedLiteral {
                value: "2026-04-01".into(),
                datatype: "http://www.w3.org/2001/XMLSchema#date".into(),
            },
            "urn:geoff:content:blog/hello.md",
        )
        .unwrap();
    let json = store
        .query_to_json(
            "SELECT ?d WHERE { GRAPH <urn:geoff:content:blog/hello.md> { ?s <http://schema.org/datePublished> ?d } }",
        )
        .unwrap();
    let rows = rows_of(&json);
    assert_eq!(rows.len(), 1);
    assert!(is_text(field(&rows[0], "d"), "2026-04-01"));
}

#[test]
fn clear_empties_store() {
    let mut store = ContentStore::new().unwrap();
    store
        .insert_triple_into(
            "urn:geoff:content:a",
            "http://example.org/p",
            &ObjectValue::Literal("v".into()),
            "urn:geoff:site",
        )
        .unwrap();
    store.clear();
    let json = store.query_to_json("SELECT ?s ?p ?o WHERE { GRAPH ?g { ?s ?p ?o } }").unwrap();
    assert!(rows_of(&json).is_empty());
}

#[test]
fn invalid_iri_is_refused() {
    let mut store = ContentStore::new().unwrap();
    let r = store.insert_triple_into("not an iri", "http://example.org/p", &ObjectValue::Literal("v".into()), "urn:g");
    assert_eq!(r, Err(StoreError::InvalidIri));
    assert!(store.export_search_ntriples().is_empty());
}

#[test]
fn bad_query_and_graph_queries_are_errors() {
    let store = ContentStore::new().unwrap();
    assert!(matches!(store.query_to_json("SELEC nothing"), Err(StoreError::Syntax(_))));
    assert!(matches!(
        store.query_to_json("CONSTRUCT { ?s ?p ?o } WHERE { ?s ?p ?o }"),
        Err(StoreError::Unsupported)
    ));
}

#[test]
fn page_rows_and_turtle_loading() {
    let mut store = ContentStore::new().unwrap();
    let uri = "urn:geoff:content:a.md";
    let triples = vec![
        ("https://schema.org/name".to_string(), ObjectValue::Literal("A".into())),
        ("https://schema.org/url".to_string(), ObjectValue::Literal("/a/".into())),
    ];
    store.insert_triples_into(uri, &triples, uri).unwrap();
    assert!(store.load_turtle_into("<urn:geoff:content:a.md> <https://schema.org/author> \"Ann\" .", uri));
    assert!(!store.load_turtle("this is not turtle"));
    let mut rows = store.page_rows(uri);
    rows.sort();
    assert_eq!(
        rows,
        vec![
            (Some("<https://schema.org/author>".to_string()), Some("Ann".to_string())),
            (Some("<https://schema.org/name>".to_string()), Some("A".to_string())),
            (Some("<https://schema.org/url>".to_string()), Some("/a/".to_string())),
        ]
    );
    assert_eq!(store.export_search_ntriples().lines().count(), 3);
    let flat = store.export_turtle();
    assert_eq!(flat.lines().count(), 3);
    assert!(flat.contains("<urn:geoff:content:a.md> <https://schema.org/author> \"Ann\" ."));
    assert!(!store.load_turtle_into("<urn:x> <urn:y> <urn:z> .", "not a graph name"));
    assert_eq!(store.export_turtle().lines().count(), 3);
}

#[test]
fn answers_as_json_and_rows() {
    assert_eq!(
        page_graph_query("urn:x"),
        "SELECT ?p ?o WHERE { GRAPH <urn:x> { <urn:x> ?p ?o } }"
    );
    let answer = QueryAnswer::Solutions {
        variables: vec!["o".to_string(), "p".to_string()],
        rows: vec![vec![Some("1".to_string()), None]],
    };
    let json = answer_to_json(&answer).unwrap();
    let rows = rows_of(&json);
    assert!(is_text(field(&rows[0], "o"), "1"));
    assert!(matches!(field(&rows[0], "p"), Json::Null));
    assert_eq!(rows_of_answer(&answer, "p", "o"), vec![(None, Some("1".to_string()))]);
    assert!(matches!(answer_to_json(&QueryAnswer::Boolean(false)), Ok(Json::Bool(false))));
    assert_eq!(rows_of_answer(&QueryAnswer::Graph, "p", "o"), vec![]);
}

#[test]
fn rdfa_meta_reads_the_page_graph() {
    let registry = geoff::mappings::MappingRegistry::new();
    let mut store = ContentStore::new().unwrap();
    let uri = "urn:geoff:content:a.md";
    let triples = vec![
        ("https://schema.org/name".to_string(), ObjectValue::Literal("T".into())),
        ("https://schema.org/keywords".to_string(), ObjectValue::Literal("a \"b\"".into())),
    ];
    store.insert_triples_into(uri, &triples, uri).unwrap();
    assert_eq!(
        geoff::rdfa::rdfa_meta_for_page(&store, uri, &registry),
        "<meta property=\"schema:keywords\" content=\"a &quot;b&quot;\">"
    );
    assert_eq!(geoff::rdfa::rdfa_meta_for_page(&store, "", &registry), "");
}

#[test]
fn turtle_and_export_follow_the_store() {
    let mut store = ContentStore::new().unwrap();
    assert!(store.export_turtle().is_empty());
    assert!(store.load_turtle("<urn:a> <urn:b> \"multi\\nline\" ."));
    let nt = store.export_turtle();
    assert!(nt.ends_with(" .\n"));
    assert_eq!(nt.lines().count(), 1);
    assert!(!store.load_turtle_into("<urn:a> <urn:b> <urn:c> .", "no graph"));
    assert!(matches!(store.query_answer("not sparql"), Err(StoreError::Syntax(_))));
    assert!(store.page_rows("a> } } oops {").is_empty());
}

#[test]
fn typed_literals_read_back_as_the_store_keeps_them() {
    let mut store = ContentStore::new().unwrap();
    let uri = "urn:geoff:content:t.md";
    let typed = |value: &str, datatype: &str| ObjectValue::TypedLiteral { value: value.into(), datatype: datatype.into() };
    store.insert_triple_into(uri, "urn:p:int", &typed("007", "http://www.w3.org/2001/XMLSchema#integer"), uri).unwrap();
    store.insert_triple_into(uri, "urn:p:own", &typed("007", "urn:my:type"), uri).unwrap();
    let mut rows = store.page_rows(uri);
    rows.sort();
    assert_eq!(
        rows,
        vec![
            (Some("<urn:p:int>".to_string()), Some("7".to_string())),
            (Some("<urn:p:own>".to_string()), Some("007".to_string())),
        ]
    );
}

#[test]
fn export_has_one_escaped_line_per_quad() {
    let mut store = ContentStore::new().unwrap();
    let lit = ObjectValue::Literal("two\nlines \"q\"".into());
    store.insert_triple_into("urn:s", "urn:p", &lit, "urn:g1").unwrap();
    store.insert_triple_into("urn:s", "urn:p", &lit, "urn:g2").unwrap();
    let typed = ObjectValue::TypedLiteral { value: "x".into(), datatype: "urn:dt".into() };
    store.insert_triple_into("urn:s", "urn:q", &typed, "urn:g1").unwrap();
    let nt = store.export_search_ntriples();
    let mut lines: Vec<&str> = nt.lines().collect();
    lines.sort();
    assert_eq!(
        lines,
        vec![
            "<urn:s> <urn:p> \"two\\nlines \\\"q\\\"\" .",
            "<urn:s> <urn:p> \"two\\nlines \\\"q\\\"\" .",
            "<urn:s> <urn:q> \"x\"^^<urn:dt> .",
        ]
    );
}

#[test]
fn turtle_without_a_graph_goes_to_the_default_graph() {
    let mut store = ContentStore::new().unwrap();
    let uri = "urn:geoff:content:b.md";
    assert!(store.load_turtle("<urn:geoff:content:b.md> <urn:p> \"x\" ."));
    assert!(store.page_rows(uri).is_empty());
    assert!(store.load_turtle_into("<urn:geoff:content:b.md> <urn:p> \"y\" .", uri));
    assert_eq!(store.page_rows(uri), vec![(Some("<urn:p>".to_string()), Some("y".to_string()))]);
    assert_eq!(store.export_turtle().lines().count(), 2);
}
