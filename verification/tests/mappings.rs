use geoff::mappings::MappingRegistry;

#[test]
fn case_insensitive_lookup() {
    let mut registry = MappingRegistry::new();
    registry.add_type("Blog Post", "https://schema.org/BlogPosting");
    assert_eq!(
        registry.resolve_type("blog post"),
        Some("https://schema.org/BlogPosting")
    );
    assert_eq!(
        registry.resolve_type("BLOG POST"),
        Some("https://schema.org/BlogPosting")
    );
}

#[test]
fn compact_iri_known_prefix() {
    let registry = MappingRegistry::new();
    assert_eq!(
        registry.compact_iri("https://schema.org/BlogPosting"),
        "schema:BlogPosting"
    );
    assert_eq!(
        registry.compact_iri("http://purl.org/dc/terms/title"),
        "dc:title"
    );
}

#[test]
fn compact_iri_unknown_prefix() {
    let registry = MappingRegistry::new();
    assert_eq!(
        registry.compact_iri("http://example.org/Foo"),
        "http://example.org/Foo"
    );
}

#[test]
fn expand_iri_roundtrip() {
    let registry = MappingRegistry::new();
    let iri = "https://schema.org/BlogPosting";
    let compact = registry.compact_iri(iri);
    let expanded = registry.expand_iri(&compact).unwrap();
    assert_eq!(expanded, iri);
}

#[test]
fn extra_prefixes_expand_and_compact() {
    let mut registry = MappingRegistry::new();
    registry.add_prefixes(vec![
        (
            "skos".to_string(),
            "http://www.w3.org/2004/02/skos/core#".to_string(),
        ),
        ("org".to_string(), "http://www.w3.org/ns/org#".to_string()),
    ]);

    let expanded = registry.expand_iri("skos:broader").unwrap();
    assert_eq!(expanded, "http://www.w3.org/2004/02/skos/core#broader");

    let compacted = registry.compact_iri("http://www.w3.org/ns/org#member");
    assert_eq!(compacted, "org:member");

    assert!(registry.expand_iri("unknown:foo").is_none());
}

#[test]
fn all_prefixes_includes_builtins_and_extras() {
    let mut registry = MappingRegistry::new();
    registry.add_prefixes(vec![(
        "skos".to_string(),
        "http://www.w3.org/2004/02/skos/core#".to_string(),
    )]);
    let prefixes = registry.all_prefixes();
    assert!(prefixes.iter().any(|(p, _)| *p == "schema"));
    assert!(prefixes.iter().any(|(p, _)| *p == "skos"));
}

#[test]
fn new_registry_has_default_properties() {
    let registry = MappingRegistry::new();
    assert!(registry.types.is_empty());
    assert!(!registry.properties.is_empty());
    assert_eq!(registry.properties.len(), 14);
    assert_eq!(registry.resolve_property("title"), Some("https://schema.org/name"));
    assert_eq!(registry.resolve_property("author"), Some("https://schema.org/author"));
    assert_eq!(registry.resolve_property("language"), Some("http://purl.org/dc/terms/language"));
    assert_eq!(registry.resolve_property("nonexistent"), None);
}

#[test]
fn seed_defaults_keeps_user_mappings() {
    let mut registry = MappingRegistry::new();
    registry.add_property("title", "http://purl.org/dc/terms/title");
    registry.seed_defaults();
    assert_eq!(registry.resolve_property("title"), Some("http://purl.org/dc/terms/title"));
}

#[test]
fn expand_iri_builtin_ignores_extras() {
    let mut registry = MappingRegistry::new();
    registry.add_prefixes(vec![("ex".to_string(), "http://example.org/".to_string())]);
    assert_eq!(registry.expand_iri("ex:a").as_deref(), Some("http://example.org/a"));
    assert_eq!(MappingRegistry::expand_iri_builtin("ex:a"), None);
    assert_eq!(
        MappingRegistry::expand_iri_builtin("rdf:type").as_deref(),
        Some("http://www.w3.org/1999/02/22-rdf-syntax-ns#type")
    );
    assert_eq!(MappingRegistry::expand_iri_builtin("no-colon"), None);
}

#[test]
fn compact_then_expand_with_user_prefix() {
    let mut registry = MappingRegistry::new();
    registry.add_prefixes(vec![("ex".to_string(), "http://example.org/ns#".to_string())]);
    let c = registry.compact_iri("http://example.org/ns#thing");
    assert_eq!(c, "ex:thing");
    assert_eq!(registry.expand_iri(&c).as_deref(), Some("http://example.org/ns#thing"));
}
