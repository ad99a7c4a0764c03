//! The bounded key cache: idempotent resolution, whole replacement, the
//! capacity bound and least-recently-used eviction.

use auth_sdk::cache::JwksKeyCache;

fn key(kid: &str) -> (String, String, String) {
    (kid.to_string(), "bW9k".to_string(), "AQAB".to_string())
}

#[test]
fn resolve_is_idempotent() {
    let mut c = JwksKeyCache::new();
    c.store("https://idp/jwks".to_string(), vec![key("k1")]);
    let ep = "https://idp/jwks".to_string();
    let kid = "k1".to_string();
    let first = c.lookup(&ep, &kid);
    let second = c.lookup(&ep, &kid);
    assert!(first.is_some());
    assert_eq!(first, second);
}

#[test]
fn lookup_misses_on_unknown_endpoint_and_kid() {
    let mut c = JwksKeyCache::new();
    c.store("https://idp/jwks".to_string(), vec![key("k1")]);
    assert!(c.lookup(&"https://other/jwks".to_string(), &"k1".to_string()).is_none());
    assert!(c.lookup(&"https://idp/jwks".to_string(), &"k2".to_string()).is_none());
}

#[test]
fn store_replaces_the_whole_entry() {
    let mut c = JwksKeyCache::new();
    let ep = "https://idp/jwks".to_string();
    c.store(ep.clone(), vec![key("k1")]);
    c.store(ep.clone(), vec![key("k2")]);
    assert!(c.lookup(&ep, &"k1".to_string()).is_none());
    assert!(c.lookup(&ep, &"k2".to_string()).is_some());
    assert_eq!(c.len(), 1);
}

#[test]
fn duplicate_kid_later_entry_wins() {
    let mut c = JwksKeyCache::new();
    let ep = "https://idp/jwks".to_string();
    let older = ("k1".to_string(), "b2xk".to_string(), "AQAB".to_string());
    let newer = ("k1".to_string(), "bmV3".to_string(), "AQAB".to_string());
    c.store(ep.clone(), vec![older, newer]);
    let hit = c.lookup(&ep, &"k1".to_string()).unwrap();
    assert_eq!(hit.0, "bmV3");
}

#[test]
fn cache_bound_evicts_least_recently_used() {
    let mut c = JwksKeyCache::new();
    let mut endpoints: Vec<String> = Vec::new();
    for i in 0..11 {
        endpoints.push(format!("https://idp{}/jwks", i));
    }
    for ep in &endpoints {
        c.store(ep.clone(), vec![key("k1")]);
    }
    assert_eq!(c.len(), 10);
    assert!(!c.contains_endpoint(&endpoints[0]));
    for ep in &endpoints[1..] {
        assert!(c.contains_endpoint(ep));
    }
}

#[test]
fn lookup_promotes_against_eviction() {
    let mut c = JwksKeyCache::new();
    c.store("https://a/jwks".to_string(), vec![key("k1")]);
    c.store("https://b/jwks".to_string(), vec![key("k1")]);
    // Touch the older endpoint, making the other one least recently used.
    let _ = c.lookup(&"https://a/jwks".to_string(), &"k1".to_string());
    for i in 0..9 {
        c.store(format!("https://fresh{}/jwks", i), vec![key("k1")]);
    }
    assert_eq!(c.len(), 10);
    assert!(c.contains_endpoint(&"https://a/jwks".to_string()));
    assert!(!c.contains_endpoint(&"https://b/jwks".to_string()));
}
