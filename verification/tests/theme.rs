use geoff::css::{generate_css, generate_css_with_prefix, token_to_css_value};
use geoff::json::{Json, JsonNumber};
use geoff::merge::merge_tokens;
use geoff::resolve::{find_unresolved, resolve_references, resolve_references_with_base};
use geoff::tokens::{DesignTokens, FlatToken, TokenValue};
use geoff::theme_build::{build_theme, merge_token_files, resolve_design_system};

fn number(n: &serde_json::Number) -> JsonNumber {
    let f = n.as_f64().unwrap_or(0.0);
    JsonNumber {
        raw: n.to_string(),
        display: format!("{f}"),
        trunc: format!("{}", f as i64),
        int_text: n.as_i64().map(|i| i.to_string()),
        is_whole: f.fract() == 0.0,
        is_zero: f == 0.0,
        order: order_key(f),
    }
}

fn order_key(f: f64) -> u64 {
    if f == 0.0 {
        1u64 << 63
    } else {
        let b = f.to_bits();
        if b >> 63 == 1 { !b } else { b | (1u64 << 63) }
    }
}

fn convert(v: &serde_json::Value) -> Json {
    match v {
        serde_json::Value::Null => Json::Null,
        serde_json::Value::Bool(b) => Json::Bool(*b),
        serde_json::Value::Number(n) => Json::Number(number(n)),
        serde_json::Value::String(s) => Json::String(s.clone()),
        serde_json::Value::Array(a) => Json::Array(a.iter().map(convert).collect()),
        serde_json::Value::Object(m) => {
            Json::Object(m.iter().map(|(k, x)| (k.clone(), convert(x))).collect())
        }
    }
}

fn json(text: &str) -> Json {
    convert(&serde_json::from_str::<serde_json::Value>(text).unwrap())
}

fn flat_of(text: &str) -> Vec<FlatToken> {
    DesignTokens::from_json(&json(text)).flatten()
}

fn find<'a>(flat: &'a [FlatToken], path: &str) -> &'a FlatToken {
    flat.iter().find(|t| t.path == path).unwrap()
}

fn string_value<'a>(flat: &'a [FlatToken], path: &str) -> &'a str {
    match &find(flat, path).value {
        TokenValue::String(s) => s.as_str(),
        _ => panic!("expected string"),
    }
}

fn at<'a>(j: &'a Json, path: &[&str]) -> &'a Json {
    let mut cur = j;
    for key in path {
        match cur {
            Json::Object(m) => {
                cur = &m.iter().find(|(k, _)| k == key).unwrap().1;
            }
            _ => panic!("not an object"),
        }
    }
    cur
}

fn str_at<'a>(j: &'a Json, path: &[&str]) -> &'a str {
    match at(j, path) {
        Json::String(s) => s.as_str(),
        _ => panic!("expected string"),
    }
}

#[test]
fn parse_simple_tokens() {
    let flat = flat_of(
        r##"{
            "color": {
                "$type": "color",
                "primary": { "$value": "#0066cc", "$description": "Brand color" },
                "text": { "$value": "#1a1a1a" }
            }
        }"##,
    );
    assert_eq!(flat.len(), 2);
    assert_eq!(find(&flat, "color.primary").token_type.as_deref(), Some("color"));
    assert_eq!(find(&flat, "color.text").token_type.as_deref(), Some("color"));
}

#[test]
fn parse_composite_tokens() {
    let flat = flat_of(
        r##"{
            "spacing": {
                "$type": "dimension",
                "md": { "$value": { "value": 16, "unit": "px" } }
            }
        }"##,
    );
    assert_eq!(flat.len(), 1);
    assert_eq!(find(&flat, "spacing.md").token_type.as_deref(), Some("dimension"));
}

#[test]
fn type_inheritance_from_group() {
    let flat = flat_of(
        r##"{
            "color": {
                "$type": "color",
                "primary": { "$value": "#0066cc" },
                "secondary": { "$value": "#ff6b35", "$type": "color" }
            }
        }"##,
    );
    assert_eq!(find(&flat, "color.primary").token_type.as_deref(), Some("color"));
    assert_eq!(find(&flat, "color.secondary").token_type.as_deref(), Some("color"));
}

#[test]
fn nested_groups() {
    let flat = flat_of(
        r##"{
            "color": {
                "$type": "color",
                "neutral": {
                    "100": { "$value": "#f5f5f5" },
                    "900": { "$value": "#1a1a1a" }
                }
            }
        }"##,
    );
    assert!(flat.iter().any(|t| t.path == "color.neutral.100"));
    assert!(flat.iter().any(|t| t.path == "color.neutral.900"));
}

#[test]
fn description_preserved() {
    let flat = flat_of(
        r##"{
            "color": {
                "primary": { "$value": "#0066cc", "$description": "Main brand color" }
            }
        }"##,
    );
    assert_eq!(find(&flat, "color.primary").description.as_deref(), Some("Main brand color"));
}

#[test]
fn tokens_with_extra_fields() {
    let flat = flat_of(
        r##"{
            "border": {
                "width": {
                    "$type": "dimension",
                    "sm": {
                        "$value": "1px",
                        "$type": "dimension",
                        "original": { "$value": "1px", "attributes": { "category": "border" } },
                        "attributes": { "category": "border", "type": "width" },
                        "name": "rh-border-width-sm",
                        "path": ["border", "width", "sm"]
                    }
                }
            }
        }"##,
    );
    assert!(flat.iter().any(|t| t.path == "border.width.sm"));
    assert_eq!(string_value(&flat, "border.width.sm"), "1px");
}

#[test]
fn flatten_sorts_paths_and_handles_root_marker() {
    let flat = flat_of(
        r##"{
            "a": { "b": { "$value": "1" }, "_": { "$value": "root" } },
            "a-c": { "$value": "2" },
            "n": { "$value": null },
            "$meta": { "$value": "skip" }
        }"##,
    );
    let paths: Vec<&str> = flat.iter().map(|t| t.path.as_str()).collect();
    assert_eq!(paths, vec!["a", "a-c", "a.b"]);
    assert_eq!(string_value(&flat, "a"), "root");
}

#[test]
fn resolve_simple_reference() {
    let mut flat = flat_of(
        r##"{
            "blue": { "$value": "#0066cc", "$type": "color" },
            "primary": { "$value": "{blue}", "$type": "color" }
        }"##,
    );
    resolve_references(&mut flat);
    assert_eq!(string_value(&flat, "primary"), "#0066cc");
}

#[test]
fn resolve_nested_reference() {
    let mut flat = flat_of(
        r##"{
            "blue": { "$value": "#0066cc", "$type": "color" },
            "primary": { "$value": "{blue}", "$type": "color" },
            "button-bg": { "$value": "{primary}", "$type": "color" }
        }"##,
    );
    resolve_references(&mut flat);
    assert_eq!(string_value(&flat, "button-bg"), "#0066cc");
}

#[test]
fn unresolvable_reference_kept_as_is() {
    let mut flat = flat_of(r##"{ "primary": { "$value": "{nonexistent}", "$type": "color" } }"##);
    resolve_references(&mut flat);
    assert_eq!(string_value(&flat, "primary"), "{nonexistent}");
}

#[test]
fn non_reference_string_unchanged() {
    let mut flat = flat_of(r##"{ "color": { "$value": "#ff0000", "$type": "color" } }"##);
    resolve_references(&mut flat);
    assert_eq!(string_value(&flat, "color"), "#ff0000");
}

#[test]
fn circular_reference_terminates() {
    let mut flat = flat_of(
        r##"{
            "a": { "$value": "{b}", "$type": "color" },
            "b": { "$value": "{a}", "$type": "color" }
        }"##,
    );
    resolve_references(&mut flat);
    assert_eq!(flat.len(), 2);
}

#[test]
fn reference_in_group_path() {
    let mut flat = flat_of(
        r##"{
            "color": {
                "$type": "color",
                "base": { "$value": "#0066cc" },
                "primary": { "$value": "{color.base}" }
            }
        }"##,
    );
    resolve_references(&mut flat);
    assert_eq!(string_value(&flat, "color.primary"), "#0066cc");
}

#[test]
fn find_unresolved_detects_broken_refs() {
    let mut flat = flat_of(
        r##"{
            "color": {
                "$type": "color",
                "primary": { "$value": "{color.nonexistent}" },
                "valid": { "$value": "#ff0000" }
            }
        }"##,
    );
    resolve_references(&mut flat);
    let errors = find_unresolved(&flat);
    assert_eq!(errors.len(), 1);
    assert_eq!(errors[0].token_path, "color.primary");
    assert_eq!(errors[0].reference, "{color.nonexistent}");
}

#[test]
fn find_unresolved_empty_when_all_resolved() {
    let mut flat = flat_of(
        r##"{
            "blue": { "$value": "#0066cc", "$type": "color" },
            "primary": { "$value": "{blue}", "$type": "color" }
        }"##,
    );
    resolve_references(&mut flat);
    assert!(find_unresolved(&flat).is_empty());
}

#[test]
fn find_unresolved_cross_file() {
    let base_flat = flat_of(r##"{ "color": { "$type": "color", "red": { "$value": "#e00" } } }"##);
    let mut theme_flat =
        flat_of(r##"{ "brand": { "$type": "color", "primary": { "$value": "{color.missing}" } } }"##);
    resolve_references_with_base(&mut theme_flat, &base_flat);
    let errors = find_unresolved(&theme_flat);
    assert_eq!(errors.len(), 1);
    assert_eq!(errors[0].token_path, "brand.primary");
    assert_eq!(errors[0].reference, "{color.missing}");
}

#[test]
fn resolve_light_dark_refs_with_base() {
    let base_flat = flat_of(
        r##"{
            "surface-critical": {
                "background": {
                    "on": {
                        "$type": "color",
                        "light": { "$value": "#ffffff" },
                        "dark": { "$value": "#1a1a1a" }
                    }
                }
            }
        }"##,
    );
    let mut theme_flat = flat_of(
        r##"{
            "surface-critical": {
                "background": {
                    "$type": "color",
                    "$value": "light-dark({surface-critical.background.on.light}, {surface-critical.background.on.dark})"
                }
            }
        }"##,
    );
    resolve_references_with_base(&mut theme_flat, &base_flat);
    assert_eq!(string_value(&theme_flat, "surface-critical.background"), "light-dark(#ffffff, #1a1a1a)");
    assert!(find_unresolved(&theme_flat).is_empty());
}

#[test]
fn resolve_with_base_tokens() {
    let base_flat = flat_of(
        r##"{
            "color": { "$type": "color", "red": { "$value": "#e00" }, "blue": { "$value": "#06c" } }
        }"##,
    );
    let mut theme_flat = flat_of(
        r##"{
            "color": {
                "$type": "color",
                "primary": { "$value": "{color.red}" },
                "secondary": { "$value": "{color.blue}" }
            }
        }"##,
    );
    resolve_references_with_base(&mut theme_flat, &base_flat);
    assert_eq!(string_value(&theme_flat, "color.primary"), "#e00");
    assert_eq!(string_value(&theme_flat, "color.secondary"), "#06c");
}

#[test]
fn resolve_inline_number_and_local_override() {
    let base_flat = flat_of(r##"{ "gap": { "$value": "1px" }, "n": { "$value": 2.5 } }"##);
    let mut theme_flat = flat_of(
        r##"{ "gap": { "$value": "4px" }, "calc": { "$value": "calc({gap} * {n} + {w})" }, "w": { "$value": 3 } }"##,
    );
    resolve_references_with_base(&mut theme_flat, &base_flat);
    assert_eq!(string_value(&theme_flat, "calc"), "calc(4px * 2.5 + 3)");
}

#[test]
fn simple_color_tokens() {
    let flat = flat_of(
        r##"{
            "color": {
                "$type": "color",
                "primary": { "$value": "#0066cc" },
                "text": { "$value": "#1a1a1a" }
            }
        }"##,
    );
    let css = generate_css(&flat, None, false);
    assert!(css.contains("--color-primary: #0066cc;"));
    assert!(css.contains("--color-text: #1a1a1a;"));
}

#[test]
fn dimension_tokens() {
    let flat = flat_of(
        r##"{
            "spacing": {
                "$type": "dimension",
                "md": { "$value": { "value": 16, "unit": "px" } },
                "lg": { "$value": { "value": 1.5, "unit": "rem" } }
            }
        }"##,
    );
    let css = generate_css(&flat, None, false);
    assert!(css.contains("--spacing-md: 16px;"));
    assert!(css.contains("--spacing-lg: 1.5rem;"));
}

#[test]
fn typography_composite_expands() {
    let flat = flat_of(
        r##"{
            "typography": {
                "body": {
                    "$type": "typography",
                    "$value": {
                        "fontFamily": "system-ui",
                        "fontSize": { "value": 16, "unit": "px" },
                        "fontWeight": 400,
                        "lineHeight": 1.5
                    }
                }
            }
        }"##,
    );
    let css = generate_css(&flat, None, false);
    assert!(css.contains("--typography-body-font-family: system-ui;"));
    assert!(css.contains("--typography-body-font-size: 16px;"));
    assert!(css.contains("--typography-body-font-weight: 400;"));
    assert!(css.contains("--typography-body-line-height: 1.5;"));
}

#[test]
fn shadow_shorthand() {
    let flat = flat_of(
        r##"{
            "shadow": {
                "default": {
                    "$type": "shadow",
                    "$value": {
                        "color": "#00000014",
                        "offsetX": { "value": 0, "unit": "px" },
                        "offsetY": { "value": 2, "unit": "px" },
                        "blur": { "value": 4, "unit": "px" },
                        "spread": { "value": 0, "unit": "px" }
                    }
                }
            }
        }"##,
    );
    let css = generate_css(&flat, None, false);
    assert!(css.contains("--shadow-default: 0 2px 4px 0 #00000014;"));
}

#[test]
fn light_dark_mode() {
    let light = flat_of(
        r##"{
            "color": { "$type": "color", "bg": { "$value": "#ffffff" }, "text": { "$value": "#1a1a1a" } },
            "spacing": { "$type": "dimension", "md": { "$value": { "value": 16, "unit": "px" } } }
        }"##,
    );
    let dark = flat_of(
        r##"{
            "color": { "$type": "color", "bg": { "$value": "#1a1a1a" }, "text": { "$value": "#f5f5f5" } }
        }"##,
    );
    let css = generate_css(&light, Some(&dark), false);
    assert!(css.contains("--color-bg-on-light: #ffffff;"));
    assert!(css.contains("--color-bg-on-dark: #1a1a1a;"));
    assert!(css.contains("--color-bg: light-dark(var(--color-bg-on-light), var(--color-bg-on-dark));"));
    assert!(css.contains("--spacing-md: 16px;"));
    assert!(!css.contains("--spacing-md-on-light"));
}

#[test]
fn critical_filter() {
    let flat = flat_of(
        r##"{
            "color-critical": { "$type": "color", "bg": { "$value": "#ffffff" } },
            "color": { "$type": "color", "accent": { "$value": "#ff6b35" } }
        }"##,
    );
    let critical = generate_css(&flat, None, true);
    let deferred = generate_css(&flat, None, false);
    assert!(critical.contains("--color-critical-bg: #ffffff;"));
    assert!(!critical.contains("--color-accent"));
    assert!(deferred.contains("--color-accent: #ff6b35;"));
    assert!(!deferred.contains("--color-critical-bg"));
}

#[test]
fn css_exact_output_with_prefix_and_dark_only() {
    let light = flat_of(r##"{ "c": { "$value": "#fff" } }"##);
    let dark = flat_of(r##"{ "c": { "$value": "#fff" }, "d": { "$value": "#000" } }"##);
    let css = generate_css_with_prefix(&light, Some(&dark), false, Some("rh"));
    assert_eq!(css, "  --rh-c: #fff;\n  --rh-d-on-dark: #000;\n");
}

#[test]
fn css_value_fallbacks() {
    let flat = flat_of(
        r##"{
            "o": { "$value": { "a": 1, "b": "x" } },
            "f": { "$type": "fontFamily", "$value": ["Inter", "sans-serif"] },
            "e": { "$type": "cubicBezier", "$value": [0.5, 0, 1, 1] },
            "d": { "$type": "duration", "$value": { "value": 200 } },
            "t": { "$value": true }
        }"##,
    );
    let tv = |p: &str| {
        let t = find(&flat, p);
        token_to_css_value(&t.value, t.token_type.as_deref())
    };
    assert_eq!(tv("o"), r#"{"a":1,"b":"x"}"#);
    assert_eq!(tv("f"), "Inter, sans-serif");
    assert_eq!(tv("e"), "cubic-bezier(0.5, 0, 1, 1)");
    assert_eq!(tv("d"), "200ms");
    assert_eq!(tv("t"), "true");
}

#[test]
fn child_overrides_value() {
    let parent = json(
        r##"{
            "color": {
                "$type": "color",
                "primary": { "$value": "#0066cc" },
                "text": { "$value": "#1a1a1a" }
            }
        }"##,
    );
    let child = json(r##"{ "color": { "primary": { "$value": "#ee0000" } } }"##);
    let merged = merge_tokens(&parent, &child);
    assert_eq!(str_at(&merged, &["color", "primary", "$value"]), "#ee0000");
    assert_eq!(str_at(&merged, &["color", "text", "$value"]), "#1a1a1a");
    assert_eq!(str_at(&merged, &["color", "$type"]), "color");
}

#[test]
fn child_adds_new_token() {
    let parent = json(r##"{ "color": { "primary": { "$value": "#0066cc" } } }"##);
    let child = json(r##"{ "color": { "accent": { "$value": "#ff6b35" } } }"##);
    let merged = merge_tokens(&parent, &child);
    assert_eq!(str_at(&merged, &["color", "primary", "$value"]), "#0066cc");
    assert_eq!(str_at(&merged, &["color", "accent", "$value"]), "#ff6b35");
}

#[test]
fn child_adds_new_group() {
    let parent = json(r##"{ "color": { "primary": { "$value": "#0066cc" } } }"##);
    let child = json(r##"{ "spacing": { "md": { "$value": { "value": 16, "unit": "px" } } } }"##);
    let merged = merge_tokens(&parent, &child);
    assert_eq!(str_at(&merged, &["color", "primary", "$value"]), "#0066cc");
    match at(&merged, &["spacing", "md", "$value", "value"]) {
        Json::Number(n) => assert_eq!(n.raw, "16"),
        _ => panic!("expected number"),
    }
}

#[test]
fn three_level_inheritance() {
    let grandparent = json(
        r##"{
            "color": {
                "primary": { "$value": "#111" },
                "secondary": { "$value": "#222" },
                "accent": { "$value": "#333" }
            }
        }"##,
    );
    let parent = json(r##"{ "color": { "primary": { "$value": "#aaa" } } }"##);
    let child = json(r##"{ "color": { "secondary": { "$value": "#bbb" } } }"##);
    let merged = merge_tokens(&merge_tokens(&grandparent, &parent), &child);
    assert_eq!(str_at(&merged, &["color", "primary", "$value"]), "#aaa");
    assert_eq!(str_at(&merged, &["color", "secondary", "$value"]), "#bbb");
    assert_eq!(str_at(&merged, &["color", "accent", "$value"]), "#333");
}

#[test]
fn empty_child_preserves_parent() {
    let parent = json(r##"{ "color": { "primary": { "$value": "#0066cc" } } }"##);
    let child = json("{}");
    let merged = merge_tokens(&parent, &child);
    assert_eq!(str_at(&merged, &["color", "primary", "$value"]), "#0066cc");
}

#[test]
fn merge_keeps_member_order_sorted() {
    let parent = json(r##"{ "b": 1, "d": 2 }"##);
    let child = json(r##"{ "a": 0, "c": 3, "d": "x" }"##);
    let merged = merge_tokens(&parent, &child);
    match &merged {
        Json::Object(m) => {
            let keys: Vec<&str> = m.iter().map(|(k, _)| k.as_str()).collect();
            assert_eq!(keys, vec!["a", "b", "c", "d"]);
        }
        _ => panic!("expected object"),
    }
    assert_eq!(str_at(&merged, &["d"]), "x");
    let scalar = merge_tokens(&parent, &json("5"));
    assert!(matches!(scalar, Json::Number(_)));
}

#[test]
fn theme_generation_pairs_and_references() {
    let flat = flat_of(
        r##"{
            "color": {
                "$type": "color",
                "bg-on-light": { "$value": "#fff" },
                "bg-on-dark": { "$value": "#000" },
                "accent": { "$value": "#f00" }
            },
            "surface": {
                "x": { "on": { "light": { "$value": "#eee" }, "dark": { "$value": "#111" } } }
            },
            "spacing": { "md": { "$value": "8px" } }
        }"##,
    );
    let theme = geoff::theme_gen::generate_theme_tokens(&flat);
    assert_eq!(str_at(&theme, &["color", "$type"]), "color");
    assert_eq!(str_at(&theme, &["color", "accent", "$value"]), "{color.accent}");
    assert_eq!(str_at(&theme, &["color", "bg-on-light", "$value"]), "{color.bg-on-light}");
    assert_eq!(str_at(&theme, &["color", "bg-on-dark", "$value"]), "{color.bg-on-dark}");
    assert_eq!(
        str_at(&theme, &["color", "bg", "$value"]),
        "light-dark({color.bg-on-light}, {color.bg-on-dark})"
    );
    assert_eq!(str_at(&theme, &["color", "bg", "$description"]), "Auto-generated light-dark aggregate");
    assert_eq!(str_at(&theme, &["color", "bg", "$type"]), "color");
    assert_eq!(
        str_at(&theme, &["surface", "x", "$value"]),
        "light-dark({surface.x.on.light}, {surface.x.on.dark})"
    );
    assert_eq!(str_at(&theme, &["surface", "x.on.light", "$value"]), "{surface.x.on.light}");
    assert_eq!(str_at(&theme, &["spacing", "md", "$value"]), "{spacing.md}");
    match at(&theme, &["spacing"]) {
        Json::Object(m) => assert!(m.iter().all(|(k, _)| k != "$type")),
        _ => panic!("expected object"),
    }
    match &theme {
        Json::Object(m) => {
            let keys: Vec<&str> = m.iter().map(|(k, _)| k.as_str()).collect();
            assert_eq!(keys, vec!["color", "spacing", "surface"]);
        }
        _ => panic!("expected object"),
    }
}

#[test]
fn token_files_merge_in_order() {
    assert!(merge_token_files(&Vec::new()).is_none());
    let merged = merge_token_files(&vec![
        json(r##"{ "c": { "a": { "$value": "#111" }, "b": { "$value": "#222" } } }"##),
        json(r##"{ "c": { "a": { "$value": "#999" } } }"##),
    ])
    .unwrap();
    let flat = DesignTokens::from_json(&merged).flatten();
    assert_eq!(string_value(&flat, "c.a"), "#999");
    assert_eq!(string_value(&flat, "c.b"), "#222");
}

#[test]
fn design_system_refuses_unresolved_references() {
    let ok = resolve_design_system(&json(r##"{ "a": { "$value": "#fff" }, "b": { "$value": "{a}" } }"##)).unwrap();
    assert_eq!(string_value(&ok, "b"), "#fff");
    let err = resolve_design_system(&json(r##"{ "b": { "$value": "{missing.token}" } }"##)).err().unwrap();
    assert_eq!(err.len(), 1);
    assert_eq!(err[0].token_path, "b");
    assert_eq!(err[0].reference, "{missing.token}");
}

#[test]
fn theme_resolves_against_design_system_and_writes_css() {
    let system = resolve_design_system(&json(r##"{ "brand": { "blue": { "$value": "#00f" } } }"##)).unwrap();
    let theme_doc = json(r##"{ "color": { "link": { "$value": "{brand.blue}" } } }"##);
    let dark = json(r##"{ "color": { "link": { "$value": "#0ff" } } }"##);
    let with_system = build_theme(&theme_doc, Some(&system), Some(&dark), Some("x")).ok().unwrap();
    assert_eq!(string_value(&with_system.tokens, "color.link"), "#00f");
    assert_eq!(with_system.css, "  --x-color-link: #00f;\n");
    assert_eq!(with_system.critical_css, "");

    let unresolved = build_theme(&theme_doc, None, None, None).err().unwrap();
    assert_eq!(unresolved[0].reference, "{brand.blue}");

    let plain = json(r##"{ "color": { "link": { "$value": "#00f" } } }"##);
    let with_dark = build_theme(&plain, None, Some(&dark), None).ok().unwrap();
    assert!(with_dark.css.contains("--color-link: light-dark(var(--color-link-on-light), var(--color-link-on-dark));"));
}

#[test]
fn empty_parent_gives_the_child_back() {
    let child = json(r##"{ "color": { "primary": { "$value": "#ee0000" } }, "a": 1 }"##);
    let merged = merge_tokens(&json("{}"), &child);
    assert_eq!(format!("{merged:?}"), format!("{child:?}"));
    let scalar = json("\"x\"");
    assert_eq!(format!("{:?}", merge_tokens(&json("{}"), &scalar)), format!("{scalar:?}"));
}

#[test]
fn every_line_follows_its_path_sheet() {
    let light = flat_of(r##"{ "a-critical": { "$value": "#111" }, "b": { "$value": "#222" },
        "type-critical": { "$type": "typography", "$value": { "fontSize": "1rem" } } }"##);
    let dark = flat_of(r##"{ "a-critical": { "$value": "#999" }, "z": { "$value": "#000" } }"##);
    let critical = generate_css(&light, Some(&dark), true);
    let deferred = generate_css(&light, Some(&dark), false);
    for line in critical.lines() {
        assert!(line.contains("-critical"), "{line}");
        assert!(!deferred.contains(line));
    }
    for line in deferred.lines() {
        assert!(!line.contains("-critical"), "{line}");
    }
    assert!(critical.contains("--a-critical-on-dark: #999;"));
    assert!(deferred.contains("--z-on-dark: #000;"));
}

#[test]
fn merging_the_same_child_twice_changes_nothing() {
    let parent = json(r##"{ "color": { "primary": { "$value": "#0066cc" }, "text": { "$value": "#111" } }, "n": 1 }"##);
    let child = json(r##"{ "color": { "primary": { "$value": "#ee0000" }, "accent": { "$value": "#f60" } }, "n": [1, 2] }"##);
    let once = merge_tokens(&parent, &child);
    let twice = merge_tokens(&once, &child);
    assert_eq!(format!("{twice:?}"), format!("{once:?}"));
    assert_eq!(format!("{:?}", merge_tokens(&child, &child)), format!("{child:?}"));
}

#[test]
fn theme_files_follow_the_configuration() {
    let f = geoff::theme_build::theme_token_files("ocean", false, Some("base"), Some("dark.json"));
    assert_eq!(f.theme_file, "themes/ocean/tokens.json");
    assert_eq!(f.base_file.as_deref(), Some("themes/base/tokens.json"));
    assert_eq!(f.dark_file.as_deref(), Some("themes/ocean/dark.json"));
    let g = geoff::theme_build::theme_token_files("ocean", true, None, Some("dark.json"));
    assert_eq!(g.theme_file, "themes/ocean/theme.json");
    assert_eq!(g.base_file, None);
    assert_eq!(g.dark_file, None);
    let pretty = geoff::json::pretty_json_text(&json(r#"{ "a": 1 }"#));
    assert_eq!(pretty, "{\n  \"a\": 1\n}");
}
