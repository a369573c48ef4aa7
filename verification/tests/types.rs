use geoff::types::{iri_escape, PageUri, PredicateIri};

#[test]
fn page_uri_from_path() {
    let uri = PageUri::from_path("blog/hello-world.md");
    assert_eq!(uri.as_str(), "urn:geoff:content:blog/hello-world.md");
}

#[test]
fn iri_escape_spaces() {
    assert_eq!(iri_escape("hello world"), "hello%20world");
}

#[test]
fn iri_escape_passthrough() {
    assert_eq!(iri_escape("simple-path.md"), "simple-path.md");
}

#[test]
fn iri_escape_multibyte_uses_utf8_bytes() {
    assert_eq!(iri_escape("café"), "caf%C3%A9");
    assert_eq!(iri_escape("a#b"), "a%23b");
}

#[test]
fn page_uri_escapes_path() {
    let uri = PageUri::from_path("my post.md");
    assert_eq!(uri.as_str(), "urn:geoff:content:my%20post.md");
}

#[test]
fn predicate_iri_as_str() {
    let p = PredicateIri("schema:name".to_string());
    assert_eq!(p.as_str(), "schema:name");
}

fn percent_decode(s: &str) -> String {
    let bytes = s.as_bytes();
    let mut out = Vec::new();
    let mut i = 0;
    while i < bytes.len() {
        if bytes[i] == b'%' && i + 2 < bytes.len() {
            out.push(u8::from_str_radix(&s[i + 1..i + 3], 16).unwrap());
            i += 3;
        } else {
            out.push(bytes[i]);
            i += 1;
        }
    }
    String::from_utf8(out).unwrap()
}

#[test]
fn iri_escape_decodes_back() {
    for s in ["a b%c", "café/ünï", "100%", "plain-path.md", "x\ty\u{1F600}"] {
        assert_eq!(percent_decode(&iri_escape(s)), s);
    }
    assert_eq!(iri_escape("%"), "%25");
    assert_ne!(PageUri::from_path("a b.md").as_str(), PageUri::from_path("a%20b.md").as_str());
}
