use geoff::cache::{hash_bytes, hash_directory_from, BuildCache};
use geoff::cache::{plan_page, templates_changed, PagePlan};

#[test]
fn empty_cache_everything_changed() {
    let cache = BuildCache::default();
    assert!(cache.is_changed("foo.md", "abc123"));
}

#[test]
fn cached_file_unchanged() {
    let mut cache = BuildCache::default();
    cache.record("foo.md".into(), "abc123".into());
    assert!(!cache.is_changed("foo.md", "abc123"));
}

#[test]
fn cached_file_changed() {
    let mut cache = BuildCache::default();
    cache.record("foo.md".into(), "abc123".into());
    assert!(cache.is_changed("foo.md", "def456"));
}

#[test]
fn prune_removes_deleted_files() {
    let mut cache = BuildCache::default();
    cache.record("a.md".into(), "h1".into());
    cache.record("b.md".into(), "h2".into());
    cache.record("c.md".into(), "h3".into());
    cache.prune(&["a.md", "c.md"]);
    assert_eq!(cache.files.len(), 2);
    assert!(!cache.files.contains_key("b.md"));
}

#[test]
fn record_overwrites_previous_hash() {
    let mut cache = BuildCache::default();
    cache.record("a.md".into(), "h1".into());
    cache.record("a.md".into(), "h2".into());
    assert_eq!(cache.files.len(), 1);
    assert!(!cache.is_changed("a.md", "h2"));
    assert!(cache.is_changed("a.md", "h1"));
}

#[test]
fn hash_bytes_deterministic() {
    assert_eq!(hash_bytes(b"hello world"), hash_bytes(b"hello world"));
    assert_ne!(hash_bytes(b"hello"), hash_bytes(b"world"));
}

#[test]
fn content_hash_is_hex_sha256() {
    assert_eq!(hash_bytes(b""), "e3b0c44298fc1c149afbf4c8996fb92427ae41e4649b934ca495991b7852b855");
    assert_eq!(hash_bytes(b"abc"), "ba7816bf8f01cfea414140de5dae2223b00361a396177a9cb410ff61f20015ad");
    assert_eq!(hash_bytes(b"hello").len(), 64);
}

#[test]
fn directory_hash_is_fnv_of_the_file_hashes_in_order() {
    assert_eq!(hash_directory_from(&Vec::new()), "cbf29ce484222325");
    assert_eq!(hash_directory_from(&vec!["a".to_string()]), "af63dc4c8601ec8c");
    let split = vec!["0123".to_string(), "abcd".to_string()];
    assert_eq!(hash_directory_from(&split), hash_directory_from(&vec!["0123abcd".to_string()]));
    assert_eq!(hash_directory_from(&split).len(), 16);
}

#[test]
fn incremental_plan_skips_only_unchanged_independent_pages() {
    assert_eq!(plan_page(false, true, false), PagePlan::GraphOnly);
    assert_eq!(plan_page(true, true, false), PagePlan::Render);
    assert_eq!(plan_page(false, false, false), PagePlan::Render);
    assert_eq!(plan_page(false, true, true), PagePlan::Render);
    assert!(!templates_changed(&Some("abc".to_string()), "abc"));
    assert!(templates_changed(&Some("abc".to_string()), "abd"));
    assert!(templates_changed(&None, "abc"));
}
