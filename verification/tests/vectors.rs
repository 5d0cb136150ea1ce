//! Pending authentication vectors.

use siphon::vectors::{
    store_auth_vector, take_auth_vector, AuthVectorStore, ImsAuthVector, AUTH_VECTOR_PRUNE_EVERY,
    AUTH_VECTOR_TTL,
};

const NOW: u64 = 1_000_000_000_000;

fn expired_vector() -> ImsAuthVector {
    ImsAuthVector {
        expected_response: vec![0xBB; 8],
        ck: None,
        ik: None,
        stored_at: NOW - (AUTH_VECTOR_TTL + 1_000_000_000),
    }
}

#[test]
fn auth_vector_store_prunes_expired_entries_on_insert() {
    let mut store = AuthVectorStore::new();
    let stale = "aka-nonce-stale-prune";
    store.put(stale.to_string(), expired_vector());
    store.insert("aka-nonce-prune-0".to_string(), vec![0xCC; 8], NOW);
    assert!(!store.contains(stale), "prune drops expired vectors");
    assert!(store.contains("aka-nonce-prune-0"));
}

#[test]
fn auth_vector_store_prunes_again_at_every_threshold() {
    let mut store = AuthVectorStore::new();
    store.insert("aka-nonce-cadence-0".to_string(), vec![0xCC; 8], NOW);
    let stale = "aka-nonce-stale-cadence";
    store.put(stale.to_string(), expired_vector());
    for index in 1..AUTH_VECTOR_PRUNE_EVERY {
        store.insert(format!("aka-nonce-cadence-{index}"), vec![0xCC; 8], NOW);
    }
    assert!(store.contains(stale), "an insert between thresholds pruned the store");
    store.insert(
        format!("aka-nonce-cadence-{AUTH_VECTOR_PRUNE_EVERY}"),
        vec![0xCC; 8],
        NOW,
    );
    assert!(!store.contains(stale), "the insert at the next threshold did not prune");
    assert_eq!(store.len(), AUTH_VECTOR_PRUNE_EVERY as usize + 1);
}

#[test]
fn every_run_of_inserts_as_long_as_the_cadence_prunes() {
    let mut store = AuthVectorStore::new();
    for index in 0..100 {
        store.insert(format!("fresh-{index}"), vec![1], NOW);
    }
    for index in 0..32 {
        store.put(format!("stale-{index}"), expired_vector());
    }
    for index in 0..AUTH_VECTOR_PRUNE_EVERY {
        store.insert(format!("more-{index}"), vec![1], NOW);
    }
    for index in 0..32 {
        assert!(!store.contains(&format!("stale-{index}")));
    }
    assert_eq!(store.len(), 100 + AUTH_VECTOR_PRUNE_EVERY as usize);
}

#[test]
fn a_cached_response_keeps_no_keys() {
    let mut store = AuthVectorStore::new();
    let vector = ImsAuthVector {
        expected_response: vec![1],
        ck: Some(vec![2; 16]),
        ik: None,
        stored_at: NOW,
    };
    store.put("n".to_string(), vector);
    let whole = store.take("n", NOW).unwrap();
    assert_eq!((whole.ck, whole.ik), (Some(vec![2; 16]), None));
    let vector = ImsAuthVector {
        expected_response: vec![1],
        ck: Some(vec![2; 16]),
        ik: Some(vec![3; 16]),
        stored_at: NOW,
    };
    store.put("n".to_string(), vector);
    store.insert("n".to_string(), vec![9], NOW);
    let cached = store.take("n", NOW).unwrap();
    assert_eq!(cached.expected_response, vec![9]);
    assert_eq!((cached.ck, cached.ik), (None, None));
}

#[test]
fn a_vector_is_used_once_and_only_while_it_lives() {
    let mut store = AuthVectorStore::new();
    store_auth_vector(&mut store, "n".to_string(), vec![1, 2], NOW);
    let vector = take_auth_vector(&mut store, "n", NOW + AUTH_VECTOR_TTL - 1).unwrap();
    assert_eq!(vector.expected_response, vec![1, 2]);
    assert_eq!(vector.stored_at, NOW);
    assert!(take_auth_vector(&mut store, "n", NOW).is_none());
    store_auth_vector(&mut store, "n".to_string(), vec![3], NOW);
    assert!(take_auth_vector(&mut store, "n", NOW + AUTH_VECTOR_TTL).is_none());
    assert!(!store.contains("n"), "removal is unconditional");
    store_auth_vector(&mut store, "a".to_string(), vec![4], NOW);
    store_auth_vector(&mut store, "b".to_string(), vec![5], NOW);
    store.discard("a");
    assert!(!store.contains("a"));
    assert!(store.contains("b"));
}
