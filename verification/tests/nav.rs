use geoff::json::{Json, JsonNumber};
use geoff::nav::{build_nav_tree, compare_json_values, json_equal, query_pages, sort_nodes, Order};

fn number(n: &serde_json::Number) -> JsonNumber {
    let f = n.as_f64().unwrap_or(0.0);
    JsonNumber {
        raw: n.to_string(),
        display: format!("{f}"),
        trunc: format!("{}", f as i64),
        int_text: n.as_i64().map(|i| i.to_string()),
        is_whole: f.fract() == 0.0,
        is_zero: f == 0.0,
        order: order_key(f),
    }
}

fn order_key(f: f64) -> u64 {
    if f == 0.0 {
        1u64 << 63
    } else {
        let b = f.to_bits();
        if b >> 63 == 1 { !b } else { b | (1u64 << 63) }
    }
}

fn convert(v: &serde_json::Value) -> Json {
    match v {
        serde_json::Value::Null => Json::Null,
        serde_json::Value::Bool(b) => Json::Bool(*b),
        serde_json::Value::Number(n) => Json::Number(number(n)),
        serde_json::Value::String(s) => Json::String(s.clone()),
        serde_json::Value::Array(a) => Json::Array(a.iter().map(convert).collect()),
        serde_json::Value::Object(m) => {
            Json::Object(m.iter().map(|(k, x)| (k.clone(), convert(x))).collect())
        }
    }
}

fn json(text: &str) -> Json {
    convert(&serde_json::from_str::<serde_json::Value>(text).unwrap())
}

fn pages(text: &str) -> Vec<Json> {
    match json(text) {
        Json::Array(v) => v,
        _ => panic!("expected array"),
    }
}

fn get<'a>(j: &'a Json, key: &str) -> Option<&'a Json> {
    match j {
        Json::Object(m) => m.iter().find(|(k, _)| k == key).map(|(_, v)| v),
        _ => None,
    }
}

fn title(j: &Json) -> &str {
    match get(j, "title") {
        Some(Json::String(s)) => s.as_str(),
        _ => "",
    }
}

fn children(j: &Json) -> &Vec<Json> {
    match get(j, "children") {
        Some(Json::Array(a)) => a,
        _ => panic!("expected children"),
    }
}

#[test]
fn pages_function_filters_and_sorts() {
    let index = pages(
        r#"[
            {"url": "/", "title": "Home"},
            {"url": "/about/team.html", "title": "Team", "order": 2, "navSection": "about"},
            {"url": "/about/mission.html", "title": "Mission", "order": 1, "navSection": "about"},
            {"url": "/blog.html", "title": "Blog", "navSection": "blog"}
        ]"#,
    );
    let filters = vec![("navSection".to_string(), Json::String("about".to_string()))];
    let r = query_pages(&index, None, &filters, Some("order"), false);
    let titles: Vec<&str> = r.iter().map(title).collect();
    assert_eq!(titles, vec!["Mission", "Team"]);
    let rev = query_pages(&index, None, &filters, Some("order"), true);
    let titles: Vec<&str> = rev.iter().map(title).collect();
    assert_eq!(titles, vec!["Team", "Mission"]);
}

#[test]
fn pages_section_prefix_and_missing_sort_field_last() {
    let index = pages(
        r#"[
            {"url": "/docs/b.html", "title": "B"},
            {"url": "/docs/a.html", "title": "A", "weight": 5},
            {"url": "/blog/x.html", "title": "X", "weight": 1},
            {"title": "No URL", "weight": 0}
        ]"#,
    );
    let r = query_pages(&index, Some("docs"), &Vec::new(), Some("weight"), false);
    let titles: Vec<&str> = r.iter().map(title).collect();
    assert_eq!(titles, vec!["A", "B"]);
    let all = query_pages(&index, None, &Vec::new(), Some("weight"), false);
    let titles: Vec<&str> = all.iter().map(title).collect();
    assert_eq!(titles, vec!["No URL", "X", "A", "B"]);
    let same = query_pages(&index, Some("/docs/"), &Vec::new(), None, false);
    assert_eq!(same.len(), 2);
}

#[test]
fn compare_values_orders_numbers_strings_and_missing() {
    let one = json("1");
    let two = json("2.5");
    let neg = json("-3");
    let a = json("\"a\"");
    let b = json("\"b\"");
    assert_eq!(compare_json_values(Some(&one), Some(&two)), Order::Less);
    assert_eq!(compare_json_values(Some(&neg), Some(&one)), Order::Less);
    assert_eq!(compare_json_values(Some(&json("-0.0")), Some(&json("0"))), Order::Equal);
    assert_eq!(compare_json_values(Some(&b), Some(&a)), Order::Greater);
    assert_eq!(compare_json_values(None, Some(&a)), Order::Greater);
    assert_eq!(compare_json_values(Some(&a), None), Order::Less);
    assert_eq!(compare_json_values(None, None), Order::Equal);
}

#[test]
fn sort_is_stable_by_title() {
    let v = pages(r#"[{"title": "b", "id": 1}, {"title": "a"}, {"title": "b", "id": 2}]"#);
    let s = sort_nodes(v, None);
    let ids: Vec<String> = s
        .iter()
        .map(|n| match get(n, "id") {
            Some(Json::Number(x)) => x.raw.clone(),
            _ => "-".to_string(),
        })
        .collect();
    assert_eq!(ids, vec!["-", "1", "2"]);
}

#[test]
fn json_equality() {
    assert!(json_equal(&json(r#"{"a": [1, "x", null]}"#), &json(r#"{"a": [1, "x", null]}"#)));
    assert!(!json_equal(&json(r#"{"a": [1]}"#), &json(r#"{"a": [2]}"#)));
    assert!(!json_equal(&json("1"), &json("1.0")));
}

#[test]
fn tree_function_builds_hierarchy() {
    let index = pages(
        r#"[
            {"url": "/", "title": "Home"},
            {"url": "/about/", "title": "About", "order": 1},
            {"url": "/about/team/", "title": "Team", "order": 1},
            {"url": "/about/history/", "title": "History", "order": 2}
        ]"#,
    );
    let tree = build_nav_tree(&index, "", Some("order"), None);
    assert_eq!(tree.len(), 1);
    assert_eq!(title(&tree[0]), "About");
    let kids: Vec<&str> = children(&tree[0]).iter().map(title).collect();
    assert_eq!(kids, vec!["Team", "History"]);
    assert!(children(&children(&tree[0])[0]).is_empty());
}

#[test]
fn tree_adds_synthetic_directories_and_limits_depth() {
    let index = pages(
        r#"[
            {"url": "/docs/getting-started/install.html", "title": "Install"},
            {"url": "/docs/getting-started/configure.html", "title": "Configure"}
        ]"#,
    );
    let tree = build_nav_tree(&index, "/", None, None);
    assert_eq!(tree.len(), 1);
    assert_eq!(title(&tree[0]), "Docs");
    assert!(matches!(get(&tree[0], "synthetic"), Some(Json::Bool(true))));
    match get(&tree[0], "url") {
        Some(Json::String(u)) => assert_eq!(u, "/docs/"),
        _ => panic!("expected url"),
    }
    let level2 = children(&tree[0]);
    assert_eq!(title(&level2[0]), "Getting Started");
    let leaves: Vec<&str> = children(&level2[0]).iter().map(title).collect();
    assert_eq!(leaves, vec!["Configure", "Install"]);
    let shallow = build_nav_tree(&index, "/", None, Some(1));
    assert!(children(&shallow[0]).is_empty());
}

#[test]
fn tree_under_a_root_section() {
    let index = pages(
        r#"[
            {"url": "/docs/", "title": "Docs"},
            {"url": "/docs/a.html", "title": "A"},
            {"url": "/blog/b.html", "title": "B"}
        ]"#,
    );
    let tree = build_nav_tree(&index, "/docs/", None, None);
    let titles: Vec<&str> = tree.iter().map(title).collect();
    assert_eq!(titles, vec!["A"]);
}
