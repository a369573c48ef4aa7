use geoff::frontmatter::{split_frontmatter, SplitError};
use geoff::reading_time::ReadingTimePlugin;
use geoff::validation::generate_shapes;
use geoff::vocabulary::VocabularyIndex;
use geoff::json::{Json, JsonNumber};
use geoff::page_fields::{frontmatter_tables, page_fields};
use geoff::resolver::{resolve_known, KnownTerm};

#[test]
fn split_basic_frontmatter() {
    let input = "+++\ntitle = \"Hello\"\n+++\n# Hello\nBody text";
    let (fm, body) = split_frontmatter(input).unwrap();
    assert_eq!(fm, "title = \"Hello\"");
    assert_eq!(body, "# Hello\nBody text");
}

#[test]
fn split_windows_line_endings() {
    let input = "+++\r\ntitle = \"Hello\"\r\n+++\r\n# Hello\r\nBody text";
    let (fm, body) = split_frontmatter(input).unwrap();
    assert_eq!(fm, "title = \"Hello\"");
    assert_eq!(body, "# Hello\r\nBody text");
}

#[test]
fn split_ends_at_the_first_closing_line_whatever_its_break() {
    let (fm, body) = split_frontmatter("+++\na\n+++\nb\r\n+++\r\nc").unwrap();
    assert_eq!(fm, "a");
    assert_eq!(body, "b\r\n+++\r\nc");
    let (fm, body) = split_frontmatter("+++\na\r\n+++\nb").unwrap();
    assert_eq!(fm, "a");
    assert_eq!(body, "b");
}

#[test]
fn split_no_frontmatter_errors() {
    let input = "# Just Markdown";
    assert!(split_frontmatter(input).is_err());
}

#[test]
fn split_missing_opening_error() {
    assert!(matches!(split_frontmatter("# Title\n+++\n"), Err(SplitError::MissingOpening)));
}

#[test]
fn split_missing_closing_error() {
    let r = split_frontmatter("+++\ntitle = \"x\"\nno end");
    assert!(matches!(r, Err(SplitError::MissingClosing)));
}

#[test]
fn split_leading_whitespace_is_skipped() {
    let (fm, body) = split_frontmatter("\n  +++\na = 1\n+++\nbody").unwrap();
    assert_eq!(fm, "a = 1");
    assert_eq!(body, "body");
}

#[test]
fn split_error_messages() {
    assert_eq!(
        SplitError::MissingOpening.message(),
        "Content does not start with +++ frontmatter delimiter"
    );
    assert_eq!(SplitError::MissingClosing.message(), "Missing closing +++ frontmatter delimiter");
}

#[test]
fn generate_shapes_produces_valid_turtle() {
    let shapes = generate_shapes(&["Blog Post", "Article"]);
    assert!(shapes.contains("BlogPostingShape"));
    assert!(shapes.contains("ArticleShape"));
    assert!(shapes.contains("sh:targetClass"));
}

#[test]
fn generate_shapes_skips_unknown_types() {
    let shapes = generate_shapes(&["UnknownType"]);
    assert!(!shapes.contains("Shape"));
}

#[test]
fn generate_shapes_header_only_for_no_types() {
    let shapes = generate_shapes(&[]);
    assert!(shapes.starts_with("@prefix sh:"));
    assert!(!shapes.contains("NodeShape"));
}

#[test]
fn estimate_short_text() {
    assert_eq!(ReadingTimePlugin::estimate_minutes("one two three four five"), 1);
}

#[test]
fn estimate_longer_text() {
    let text = "word ".repeat(400);
    assert_eq!(ReadingTimePlugin::estimate_minutes(&text), 2);
}

#[test]
fn estimate_empty() {
    assert_eq!(ReadingTimePlugin::estimate_minutes(""), 1);
}

#[test]
fn estimate_exact_boundary() {
    let text = "word ".repeat(200);
    assert_eq!(ReadingTimePlugin::estimate_minutes(&text), 1);
}

#[test]
fn estimate_just_over_boundary() {
    let text = "word ".repeat(201);
    assert_eq!(ReadingTimePlugin::estimate_minutes(&text), 2);
}

#[test]
fn estimate_counts_words_across_mixed_whitespace() {
    let text = "a\tb\nc  d\r\ne ".repeat(100);
    assert_eq!(ReadingTimePlugin::estimate_minutes(&text), 3);
}

#[test]
fn reading_time_plugin_name() {
    assert_eq!(ReadingTimePlugin.name(), "reading-time");
}

fn sample_index() -> VocabularyIndex {
    let mut index = VocabularyIndex::new();
    index.add_term_row(
        "<https://schema.org/BlogPosting>",
        "Blog Post",
        "A blog post.",
        "post\tblog entry",
        true,
        "schema.org",
    );
    index.add_term_row(
        "<https://schema.org/Article>",
        "Article",
        "An article.",
        "",
        true,
        "schema.org",
    );
    index.add_term_row(
        "<https://schema.org/author>",
        "author",
        "The author of this content.",
        "writer",
        false,
        "schema.org",
    );
    index
}


/// A slice of the schema.org vocabulary in Turtle, loaded the way a site's ontology is.
fn schema_org_index() -> VocabularyIndex {
    let ttl = r#"
        @prefix rdfs: <http://www.w3.org/2000/01/rdf-schema#> .
        @prefix rdf: <http://www.w3.org/1999/02/22-rdf-syntax-ns#> .
        @prefix skos: <http://www.w3.org/2004/02/skos/core#> .
        @prefix schema: <https://schema.org/> .
        schema:Thing a rdfs:Class ; rdfs:label "Thing" .
        schema:CreativeWork a rdfs:Class ; rdfs:label "Creative Work" .
        schema:Article a rdfs:Class ; rdfs:label "Article" ; rdfs:comment "An article." .
        schema:BlogPosting a rdfs:Class ; rdfs:label "Blog Post" ; skos:altLabel "post" , "blog entry" .
        schema:WebPage a rdfs:Class ; rdfs:label "Web Page" .
        schema:Event a rdfs:Class ; rdfs:label "Event" .
        schema:Person a rdfs:Class ; rdfs:label "Person" .
        schema:name a rdf:Property ; rdfs:label "name" .
        schema:author a rdf:Property ; rdfs:label "author" ; skos:altLabel "writer" .
        schema:datePublished a rdf:Property ; rdfs:label "date published" .
        schema:description a rdf:Property ; rdfs:label "description" .
        schema:wordCount a rdf:Property ; rdfs:label "word count" .
    "#;
    let mut index = VocabularyIndex::new();
    index.load_ttl_text(ttl, "schema.org").unwrap();
    index
}

#[test]
fn load_schema_org_ttl() {
    let mut index = VocabularyIndex::new();
    let count = schema_org_index().len();
    assert!(count > 10, "Should load many terms from the schema.org vocabulary");
    assert_eq!(index.load_ttl_text("", "empty").unwrap(), 0);
}

#[test]
fn lookup_by_label_exact() {
    let index = schema_org_index();
    let results = index.lookup_by_label("Blog Post");
    assert_eq!(results.len(), 1);
    assert!(results[0].iri.contains("BlogPosting"));
}

#[test]
fn lookup_by_alt_label() {
    let index = schema_org_index();
    let results = index.lookup_by_label("post");
    assert!(results.iter().any(|t| t.iri.contains("BlogPosting")));
}

#[test]
fn classes_and_properties_separated() {
    let index = schema_org_index();
    let class_count = index.classes().len();
    let prop_count = index.properties().len();
    assert!(class_count > 0);
    assert!(prop_count > 0);
    assert_eq!(class_count + prop_count, index.len());
}

#[test]
fn add_term_row_strips_brackets_and_replaces() {
    let mut index = sample_index();
    assert_eq!(index.len(), 3);
    let t = index.get("https://schema.org/BlogPosting").unwrap();
    assert_eq!(t.label, "Blog Post");
    assert_eq!(t.alt_labels, vec!["post".to_string(), "blog entry".to_string()]);
    index.add_term_row("https://schema.org/Article", "Article", "Changed.", "", true, "other");
    assert_eq!(index.len(), 3);
    assert_eq!(index.get("https://schema.org/Article").unwrap().comment, "Changed.");
    assert_eq!(index.get("https://schema.org/Article").unwrap().source, "other");
}

#[test]
fn lookup_is_case_insensitive_and_misses_unknown() {
    let index = sample_index();
    assert_eq!(index.lookup_by_label("WRITER").len(), 1);
    assert_eq!(index.lookup_by_label("ARTICLE")[0].iri, "https://schema.org/Article");
    assert!(index.lookup_by_label("nothing").is_empty());
    assert!(index.get("https://schema.org/Nothing").is_none());
}

#[test]
fn empty_index() {
    let index = VocabularyIndex::new();
    assert!(index.is_empty());
    assert_eq!(index.len(), 0);
    assert!(index.all_terms().is_empty());
}

fn toml_json(v: &toml::Value) -> serde_json::Value {
    match v {
        toml::Value::String(s) => serde_json::Value::String(s.clone()),
        toml::Value::Integer(i) => serde_json::Value::Number((*i).into()),
        toml::Value::Float(f) => serde_json::Number::from_f64(*f).map(serde_json::Value::Number).unwrap_or(serde_json::Value::Null),
        toml::Value::Boolean(b) => serde_json::Value::Bool(*b),
        toml::Value::Array(a) => serde_json::Value::Array(a.iter().map(toml_json).collect()),
        toml::Value::Table(t) => serde_json::Value::Object(t.iter().map(|(k, v)| (k.clone(), toml_json(v))).collect()),
        toml::Value::Datetime(d) => serde_json::Value::String(d.to_string()),
    }
}

fn model(v: &serde_json::Value) -> Json {
    match v {
        serde_json::Value::Null => Json::Null,
        serde_json::Value::Bool(b) => Json::Bool(*b),
        serde_json::Value::Number(n) => {
            let f = n.as_f64().unwrap_or(0.0);
            Json::Number(JsonNumber {
                raw: n.to_string(),
                display: format!("{f}"),
                trunc: format!("{}", f as i64),
                int_text: n.as_i64().map(|i| i.to_string()),
                is_whole: f.fract() == 0.0,
                is_zero: f == 0.0,
                order: 0,
            })
        }
        serde_json::Value::String(s) => Json::String(s.clone()),
        serde_json::Value::Array(a) => Json::Array(a.iter().map(model).collect()),
        serde_json::Value::Object(m) => Json::Object(m.iter().map(|(k, x)| (k.clone(), model(x))).collect()),
    }
}

fn frontmatter_json(text: &str) -> Json {
    model(&toml_json(&toml::from_str::<toml::Value>(text).unwrap()))
}

fn int_text(j: &Json) -> Option<String> {
    match j {
        Json::Number(n) => n.int_text.clone(),
        _ => None,
    }
}

#[test]
fn parse_frontmatter_with_rdf_custom() {
    let fm = frontmatter_json(
        r#"
            title = "Test"
            [rdf.custom]
            "schema:wordCount" = 1500
        "#,
    );
    assert_eq!(page_fields(&fm).title, "Test");
    let (rdf, data) = frontmatter_tables(&fm);
    assert_eq!(rdf.len(), 1);
    assert_eq!(rdf[0].0, "schema:wordCount");
    assert_eq!(int_text(&rdf[0].1).as_deref(), Some("1500"));
    assert!(data.is_empty());
}

#[test]
fn parse_frontmatter_with_data_section() {
    let fm = frontmatter_json(
        r#"
            title = "Test"
            [data]
            wordCount = 1500
            category = "tutorial"
            featured = true
        "#,
    );
    assert_eq!(page_fields(&fm).title, "Test");
    let (rdf, data) = frontmatter_tables(&fm);
    assert!(rdf.is_empty());
    let get = |k: &str| &data.iter().find(|(key, _)| key == k).unwrap().1;
    assert_eq!(int_text(get("wordCount")).as_deref(), Some("1500"));
    assert!(matches!(get("category"), Json::String(s) if s == "tutorial"));
    assert!(matches!(get("featured"), Json::Bool(true)));
}

#[test]
fn page_fields_defaults_and_tags() {
    let fm = frontmatter_json("author = \"Ann\"\ntags = [\"a\", 3, \"b\"]\ntype = \"Blog Post\"\n");
    let f = page_fields(&fm);
    assert_eq!(f.title, "Untitled");
    assert_eq!(f.template, "page.html");
    assert_eq!(f.author.as_deref(), Some("Ann"));
    assert_eq!(f.content_type.as_deref(), Some("Blog Post"));
    assert_eq!(f.description, None);
    assert_eq!(f.tags, Some(vec!["a".to_string(), "b".to_string()]));
    let none = page_fields(&frontmatter_json("tags = \"x\"\ntemplate = \"post.html\"\n"));
    assert_eq!(none.tags, None);
    assert_eq!(none.template, "post.html");
}

#[test]
fn vocabulary_loads_classes_and_properties_from_turtle() {
    let ttl = r#"
        @prefix rdfs: <http://www.w3.org/2000/01/rdf-schema#> .
        @prefix rdf: <http://www.w3.org/1999/02/22-rdf-syntax-ns#> .
        @prefix skos: <http://www.w3.org/2004/02/skos/core#> .
        <https://schema.org/BlogPosting> a rdfs:Class ; rdfs:label "BlogPosting" ;
            rdfs:comment "A blog post." ; skos:altLabel "Blog Post" .
        <https://schema.org/author> a rdf:Property ; rdfs:label "author" .
    "#;
    let mut index = VocabularyIndex::new();
    assert_eq!(index.load_ttl_text(ttl, "schema-org").unwrap(), 2);
    let classes = index.classes();
    assert_eq!(classes.len(), 1);
    assert_eq!(classes[0].iri, "https://schema.org/BlogPosting");
    assert_eq!(classes[0].comment, "A blog post.");
    assert_eq!(classes[0].alt_labels, vec!["Blog Post".to_string()]);
    assert_eq!(classes[0].source, "schema-org");
    assert_eq!(index.properties()[0].label, "author");
    assert_eq!(index.lookup_by_label("blog post")[0].iri, "https://schema.org/BlogPosting");
    assert!(index.load_ttl_text("not turtle at all", "x").is_err());
}

#[test]
fn vocabulary_rows_stop_at_a_missing_term() {
    let mut index = VocabularyIndex::new();
    let rows = vec![
        vec![Some("<urn:a>".to_string()), Some("A".to_string()), None, None],
        vec![None, Some("B".to_string()), None, None],
        vec![Some("<urn:c>".to_string()), Some("C".to_string()), None, None],
    ];
    assert!(index.load_rows(&rows, true, "s").is_err());
    assert_eq!(index.len(), 1);
    assert!(index.get("urn:a").is_some());
    assert!(index.get("urn:c").is_none());
}

#[test]
fn known_names_resolve_by_mapping_then_unique_label() {
    let mut registry = geoff::mappings::MappingRegistry::new();
    registry.add_type("Blog Post", "https://schema.org/BlogPosting");
    let mut index = VocabularyIndex::new();
    index.add_term_row("<https://schema.org/Article>", "Article", "", "", true, "s");
    index.add_term_row("<https://schema.org/articleBody>", "article", "", "", false, "s");
    index.add_term_row("<urn:x:Thing>", "Thing", "", "", true, "s");
    index.add_term_row("<urn:y:Thing>", "Thing", "", "", true, "s");
    assert_eq!(
        resolve_known(&registry, &index, "blog post", true),
        Some(KnownTerm::Mapped("https://schema.org/BlogPosting".into()))
    );
    assert_eq!(
        resolve_known(&registry, &index, "ARTICLE", true),
        Some(KnownTerm::ExactMatch("https://schema.org/Article".into()))
    );
    assert_eq!(
        resolve_known(&registry, &index, "article", false),
        Some(KnownTerm::ExactMatch("https://schema.org/articleBody".into()))
    );
    assert_eq!(resolve_known(&registry, &index, "thing", true), None);
    assert_eq!(resolve_known(&registry, &index, "nothing", true), None);
    assert_eq!(
        resolve_known(&registry, &index, "title", false),
        Some(KnownTerm::Mapped("https://schema.org/name".into()))
    );
}

#[test]
fn shapes_of_concatenated_type_lists() {
    let header = generate_shapes(&[]);
    let a = ["Blog Post", "Recipe"];
    let b = ["Event", "Article"];
    let both = generate_shapes(&["Blog Post", "Recipe", "Event", "Article"]);
    assert_eq!(both, generate_shapes(&a) + &generate_shapes(&b)[header.len()..]);
    assert_eq!(generate_shapes(&["Recipe"]), header);
    assert_eq!(generate_shapes(&["Event"]).matches("a sh:NodeShape").count(), 1);
}

#[test]
fn vocabulary_get_and_class_split() {
    let ttl = r#"
        @prefix rdfs: <http://www.w3.org/2000/01/rdf-schema#> .
        @prefix rdf: <http://www.w3.org/1999/02/22-rdf-syntax-ns#> .
        <https://schema.org/Event> a rdfs:Class ; rdfs:label "Event" .
        <https://schema.org/Place> a rdfs:Class ; rdfs:label "Place" .
        <https://schema.org/name> a rdf:Property ; rdfs:label "name" .
    "#;
    let mut index = VocabularyIndex::new();
    assert_eq!(index.load_ttl_text(ttl, "s").unwrap(), 3);
    assert_eq!(index.classes().len() + index.properties().len(), index.len());
    assert!(index.classes().iter().all(|t| t.is_class));
    assert!(index.properties().iter().all(|t| !t.is_class));
    assert_eq!(index.get("https://schema.org/Place").map(|t| t.iri.as_str()), Some("https://schema.org/Place"));
    assert!(index.get("https://schema.org/Nothing").is_none());
}

#[test]
fn vocabulary_classes_and_properties_keep_their_flags_and_source() {
    let mut index = schema_org_index();
    assert!(index.get("https://schema.org/Event").unwrap().is_class);
    assert!(!index.get("https://schema.org/name").unwrap().is_class);
    assert!(index.all_terms().iter().all(|t| t.source == "schema.org"));
    let before = index.len();
    let more = "@prefix rdfs: <http://www.w3.org/2000/01/rdf-schema#> .\n<https://ex.org/Thing2> a rdfs:Class ; rdfs:label \"Thing Two\" .";
    assert_eq!(index.load_ttl_text(more, "ex").unwrap(), before + 1);
    assert_eq!(index.get("https://ex.org/Thing2").unwrap().source, "ex");
    assert!(index.get("https://schema.org/Event").is_some());
}
