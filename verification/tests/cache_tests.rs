use replace_t::cache::{Cache, CacheError};
use replace_t::resolve::resolve;

fn loaded_cache() -> Cache {
    let mut cache = Cache::new("fixture/json".to_string());
    cache
        .add_file("noArgs".to_string(), 1, "{\"a\":\"test1\",\"x\":{\"y\":\"nested\"}}")
        .unwrap();
    cache
}

#[test]
fn cache_get_resolves_value() {
    let cache = loaded_cache();
    assert_eq!(cache.get("noArgs".to_string(), "a".to_string()).unwrap(), "test1");
}

#[test]
fn cache_get_resolves_dotted_path() {
    let cache = loaded_cache();
    assert_eq!(cache.get("noArgs".to_string(), "x.y".to_string()).unwrap(), "nested");
}

#[test]
fn cache_get_missing_key() {
    let cache = loaded_cache();
    let r = cache.get("noArgs".to_string(), "notExists".to_string());
    assert!(matches!(r, Err(CacheError::KeyNotFound(_))));
}

#[test]
fn cache_get_missing_namespace() {
    let cache = loaded_cache();
    let r = cache.get("notExists".to_string(), "a".to_string());
    assert!(matches!(r, Err(CacheError::KeyNotFound(_))));
}

#[test]
fn cache_get_non_string_match_fails() {
    let cache = loaded_cache();
    let r = cache.get("noArgs".to_string(), "x".to_string());
    assert!(matches!(r, Err(CacheError::KeyNotFound(_))));
}

#[test]
fn cache_rejects_invalid_json() {
    let mut cache = Cache::new("base".to_string());
    let r = cache.add_file("bad".to_string(), 1, "{not json");
    assert!(matches!(r, Err(CacheError::JsonError(_))));
    assert!(cache.get("bad".to_string(), "a".to_string()).is_err());
}

#[test]
fn unchanged_mtime_skips_reparse() {
    let mut cache = Cache::new("base".to_string());
    cache.add_file("ns".to_string(), 7, "{\"a\":\"one\"}").unwrap();
    assert_eq!(cache.load_count(), 1);
    // same modification time: no reparse, values identical
    cache.add_file("ns".to_string(), 7, "{\"a\":\"two\"}").unwrap();
    assert_eq!(cache.load_count(), 1);
    assert_eq!(cache.get("ns".to_string(), "a".to_string()).unwrap(), "one");
    // changed modification time: reparsed
    cache.add_file("ns".to_string(), 8, "{\"a\":\"two\"}").unwrap();
    assert_eq!(cache.load_count(), 2);
    assert_eq!(cache.get("ns".to_string(), "a".to_string()).unwrap(), "two");
}

#[test]
fn resource_path_joins_base_and_namespace() {
    let cache = Cache::new("fixture/json".to_string());
    assert_eq!(cache.resource_path(&"noArgs".to_string()), "/cwd/fixture/json/noArgs.json");
    let abs = Cache::new("/srv/json".to_string());
    assert_eq!(abs.resource_path(&"dir/dir".to_string()), "/srv/json/dir/dir.json");
}

#[test]
fn namespace_override_ignores_scopes() {
    let mut cache = Cache::new("base".to_string());
    cache.add_file("dir/dir".to_string(), 1, "{\"foo\":{\"bar\":\"hello\"}}").unwrap();
    let none: Vec<String> = vec![];
    let other = vec!["unrelated".to_string()];
    let r1 = resolve(&cache, &none, "dir/dir:foo.bar".to_string()).unwrap();
    let r2 = resolve(&cache, &other, "dir/dir:foo.bar".to_string()).unwrap();
    assert_eq!(r1, "hello");
    assert_eq!(r2, "hello");
}

#[test]
fn resolve_uses_first_scope() {
    let mut cache = Cache::new("base".to_string());
    cache.add_file("first".to_string(), 1, "{\"k\":\"v1\"}").unwrap();
    cache.add_file("second".to_string(), 1, "{\"k\":\"v2\"}").unwrap();
    let scopes = vec!["first".to_string(), "second".to_string()];
    assert_eq!(resolve(&cache, &scopes, "k".to_string()).unwrap(), "v1");
}

#[test]
fn resolve_with_empty_scopes_fails() {
    let cache = loaded_cache();
    let none: Vec<String> = vec![];
    assert!(resolve(&cache, &none, "a".to_string()).is_err());
}
