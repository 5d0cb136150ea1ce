//! Which keys of the caches a script may use.

use siphon::cache::{validate_key, validate_prefix, CacheCall, PyCacheNamespace};

#[test]
fn validate_prefix_rejects_empty() {
    assert_eq!(
        validate_prefix("").unwrap_err().message,
        "prefix must not be empty (would scan the entire keyspace)"
    );
}

#[test]
fn validate_prefix_rejects_reserved() {
    assert!(validate_prefix("siphon:internal").is_err());
}

#[test]
fn validate_prefix_accepts_normal() {
    assert!(validate_prefix("ims_queue_").is_ok());
}

#[test]
fn a_key_is_reserved_only_by_its_start() {
    assert_eq!(
        validate_key("siphon:x").unwrap_err().display(),
        "ValueError: keys starting with 'siphon:' are reserved for internal use"
    );
    assert!(validate_key("siphon").is_ok());
    assert!(validate_key("my-siphon:x").is_ok());
    assert!(validate_key("").is_ok());
}

#[test]
fn no_call_reaches_a_reserved_key() {
    let ns = PyCacheNamespace::new(vec!["users".to_string()]);
    let name = || "users".to_string();
    let bad = || "siphon:reg".to_string();
    assert!(ns.fetch(name(), bad()).is_err());
    assert!(ns.store(name(), bad(), "v".to_string(), None).is_err());
    assert!(ns.delete(name(), bad()).is_err());
    assert!(ns.list_push(name(), bad(), "i".to_string()).is_err());
    assert!(ns.list_pop_all(name(), bad()).is_err());
    assert!(ns.expire(name(), bad(), 5).is_err());
    assert!(ns.list_len(name(), bad()).is_err());
    assert!(ns.list_len_sum(name(), bad()).is_err());
    assert!(ns.list_len_sum(name(), String::new()).is_err());
    assert!(ns.has_key(name(), bad()).is_err());
}

#[test]
fn an_allowed_call_is_passed_on_as_it_is() {
    let ns = PyCacheNamespace::new(vec!["users".to_string()]);
    assert!(ns.has_cache("users"));
    assert!(!ns.has_cache("other"));
    let request =
        ns.store("users".to_string(), "k".to_string(), "v".to_string(), Some(60)).unwrap();
    assert_eq!(request.cache, "users");
    match request.call {
        CacheCall::Store { key, value, ttl } => {
            assert_eq!((key.as_str(), value.as_str(), ttl), ("k", "v", Some(60)));
        }
        _ => panic!("expected a store"),
    }
}
