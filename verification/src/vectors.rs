//! Pending IMS AKA authentication vectors: the expected response cached between
//! a 401 challenge and the REGISTER that answers it.

use crate::timed_map::{age_of, fresh_entries, is_fresh_at, lookup, no_entries, TimedMap};
use vstd::prelude::*;

verus! {

/// How long a pending vector stays usable after its 401 went out: 120 s, in
/// nanoseconds.
///
/// A UE answers a challenge inside one SIP transaction, so RFC 3261 Timer F
/// (32 s) is the natural ceiling; the rest is room for a slow radio link and a
/// retransmitted REGISTER.
pub const AUTH_VECTOR_TTL: u64 = 120_000_000_000;

/// Prune on every 64th insert rather than on each one, so that a burst of
/// challenges does not turn every insert into a scan of the store.
pub const AUTH_VECTOR_PRUNE_EVERY: u64 = 64;

/// The expected response to a challenge, the keys that were put in with it, and
/// when the challenge was issued. The vector of a challenge carries no keys:
/// they go into the challenge, and the REGISTER that answers it needs only the
/// expected response.
pub struct ImsAuthVector {
    pub expected_response: Vec<u8>,
    pub ck: Option<Vec<u8>>,
    pub ik: Option<Vec<u8>>,
    pub stored_at: u64,
}

/// What a vector store holds: the pending vectors by nonce with their keys, and
/// the number of inserts so far (modulo the range of the counter).
pub struct AuthVectors {
    pub vectors: Map<Seq<char>, (Seq<u8>, u64)>,
    pub cks: Map<Seq<char>, (Seq<u8>, u64)>,
    pub iks: Map<Seq<char>, (Seq<u8>, u64)>,
    pub inserts: u64,
}

/// The bytes of an optional key.
pub open spec fn key_bytes(key: Option<Vec<u8>>) -> Option<Seq<u8>> {
    match key {
        Some(key) => Some(key@),
        None => None,
    }
}

/// The key under a nonce.
pub open spec fn key_under(m: Map<Seq<char>, (Seq<u8>, u64)>, nonce: Seq<char>) -> Option<Seq<u8>> {
    match lookup(m, nonce) {
        Some(entry) => Some(entry.0),
        None => None,
    }
}

/// Keys by nonce with that of one nonce set, or taken away.
pub open spec fn with_key(
    m: Map<Seq<char>, (Seq<u8>, u64)>,
    nonce: Seq<char>,
    key: Option<Seq<u8>>,
    at: u64,
) -> Map<Seq<char>, (Seq<u8>, u64)> {
    match key {
        Some(key) => m.insert(nonce, (key, at)),
        None => m.remove(nonce),
    }
}

/// Whether the next insert is one that prunes.
pub open spec fn prunes(s: AuthVectors) -> bool {
    s.inserts % AUTH_VECTOR_PRUNE_EVERY == 0
}

/// The entries that an insert at time `now` keeps.
pub open spec fn kept(s: AuthVectors, m: Map<Seq<char>, (Seq<u8>, u64)>, now: u64) -> Map<
    Seq<char>,
    (Seq<u8>, u64),
> {
    if prunes(s) {
        fresh_entries(m, now, AUTH_VECTOR_TTL)
    } else {
        m
    }
}

/// The store after caching `response` for `nonce` at time `now`.
pub open spec fn after_insert(s: AuthVectors, nonce: Seq<char>, response: Seq<u8>, now: u64) -> AuthVectors {
    AuthVectors {
        vectors: kept(s, s.vectors, now).insert(nonce, (response, now)),
        cks: kept(s, s.cks, now).remove(nonce),
        iks: kept(s, s.iks, now).remove(nonce),
        inserts: if s.inserts == u64::MAX { 0 } else { (s.inserts + 1) as u64 },
    }
}

/// The store after a vector was put in as it stands.
pub open spec fn after_put(
    s: AuthVectors,
    nonce: Seq<char>,
    response: Seq<u8>,
    ck: Option<Seq<u8>>,
    ik: Option<Seq<u8>>,
    at: u64,
) -> AuthVectors {
    AuthVectors {
        vectors: s.vectors.insert(nonce, (response, at)),
        cks: with_key(s.cks, nonce, ck, at),
        iks: with_key(s.iks, nonce, ik, at),
        inserts: s.inserts,
    }
}

/// The store after the vector for `nonce` was consumed.
pub open spec fn after_take(s: AuthVectors, nonce: Seq<char>) -> AuthVectors {
    AuthVectors {
        vectors: s.vectors.remove(nonce),
        cks: s.cks.remove(nonce),
        iks: s.iks.remove(nonce),
        inserts: s.inserts,
    }
}

/// The response that consuming `nonce` at time `now` yields.
pub open spec fn taken(s: AuthVectors, nonce: Seq<char>, now: u64) -> Option<Seq<u8>> {
    match lookup(s.vectors, nonce) {
        Some(entry) => if age_of(now, entry.1) < AUTH_VECTOR_TTL {
            Some(entry.0)
        } else {
            None
        },
        None => None,
    }
}

/// Pending IMS auth vectors, keyed by nonce: stored with the 401 challenge,
/// consumed by the REGISTER that answers it.
pub struct AuthVectorStore {
    vectors: TimedMap,
    cks: TimedMap,
    iks: TimedMap,
    inserts: u64,
}

impl View for AuthVectorStore {
    type V = AuthVectors;

    closed spec fn view(&self) -> AuthVectors {
        AuthVectors {
            vectors: self.vectors@,
            cks: self.cks@,
            iks: self.iks@,
            inserts: self.inserts,
        }
    }
}

/// Sets the key of a nonce, or takes it away.
fn set_key(keys: &mut TimedMap, nonce: &str, key: Option<Vec<u8>>, at: u64)
    ensures
        final(keys)@ == with_key(old(keys)@, nonce@, key_bytes(key), at),
{
    match key {
        Some(key) => {
            let _ = keys.insert(nonce.to_owned(), key, at);
        },
        None => {
            let _ = keys.remove(nonce);
        },
    }
}

/// Takes the key of a nonce out.
fn take_key(keys: &mut TimedMap, nonce: &str) -> (r: Option<Vec<u8>>)
    ensures
        final(keys)@ == old(keys)@.remove(nonce@),
        key_bytes(r) == key_under(old(keys)@, nonce@),
{
    match keys.remove(nonce) {
        Some(entry) => Some(entry.0),
        None => None,
    }
}

impl AuthVectorStore {
    pub fn new() -> (r: Self)
        ensures
            r@.vectors == no_entries(),
            r@.cks == no_entries(),
            r@.iks == no_entries(),
            r@.inserts == 0,
    {
        AuthVectorStore {
            vectors: TimedMap::new(),
            cks: TimedMap::new(),
            iks: TimedMap::new(),
            inserts: 0,
        }
    }

    /// Caches the expected response for `nonce`; on every insert at a prune
    /// threshold the vectors whose challenge has expired are dropped first.
    pub fn insert(&mut self, nonce: String, expected_response: Vec<u8>, now: u64)
        ensures
            final(self)@ == after_insert(old(self)@, nonce@, expected_response@, now),
    {
        let count: u64 = self.inserts;
        self.inserts = count.wrapping_add(1);
        if count % AUTH_VECTOR_PRUNE_EVERY == 0 {
            self.vectors.retain_fresh(now, AUTH_VECTOR_TTL);
            self.cks.retain_fresh(now, AUTH_VECTOR_TTL);
            self.iks.retain_fresh(now, AUTH_VECTOR_TTL);
        }
        set_key(&mut self.cks, &nonce, None, now);
        set_key(&mut self.iks, &nonce, None, now);
        let _ = self.vectors.insert(nonce, expected_response, now);
    }

    /// Puts a vector in as it stands, outside the insert count.
    pub fn put(&mut self, nonce: String, vector: ImsAuthVector)
        ensures
            final(self)@ == after_put(
                old(self)@,
                nonce@,
                vector.expected_response@,
                key_bytes(vector.ck),
                key_bytes(vector.ik),
                vector.stored_at,
            ),
    {
        set_key(&mut self.cks, &nonce, vector.ck, vector.stored_at);
        set_key(&mut self.iks, &nonce, vector.ik, vector.stored_at);
        let _ = self.vectors.insert(nonce, vector.expected_response, vector.stored_at);
    }

    /// Consumes the vector for `nonce`, if one is cached and still within its
    /// lifetime. Removal is unconditional, so a nonce is single-use.
    pub fn take(&mut self, nonce: &str, now: u64) -> (r: Option<ImsAuthVector>)
        ensures
            final(self)@ == after_take(old(self)@, nonce@),
            match r {
                Some(vector) => taken(old(self)@, nonce@, now) == Some(vector.expected_response@)
                    && lookup(old(self)@.vectors, nonce@) == Some(
                    (vector.expected_response@, vector.stored_at),
                ) && key_bytes(vector.ck) == key_under(old(self)@.cks, nonce@) && key_bytes(vector.ik)
                    == key_under(old(self)@.iks, nonce@),
                None => taken(old(self)@, nonce@, now) is None,
            },
    {
        let ck = take_key(&mut self.cks, nonce);
        let ik = take_key(&mut self.iks, nonce);
        match self.vectors.remove(nonce) {
            Some(entry) => {
                if is_fresh_at(entry.1, now, AUTH_VECTOR_TTL) {
                    Some(ImsAuthVector { expected_response: entry.0, ck, ik, stored_at: entry.1 })
                } else {
                    None
                }
            },
            None => None,
        }
    }

    /// Drops the vector for `nonce`, whatever its age.
    pub fn discard(&mut self, nonce: &str)
        ensures
            final(self)@ == after_take(old(self)@, nonce@),
    {
        let _ = take_key(&mut self.cks, nonce);
        let _ = take_key(&mut self.iks, nonce);
        let _ = self.vectors.remove(nonce);
    }

    pub fn contains(&self, nonce: &str) -> (r: bool)
        ensures
            r == self@.vectors.dom().contains(nonce@),
    {
        self.vectors.contains_key(nonce)
    }

    pub fn len(&self) -> (r: usize)
        ensures
            r == self@.vectors.dom().len(),
    {
        self.vectors.len()
    }
}

/// Caches the expected response for `nonce` in the given store.
pub fn store_auth_vector(store: &mut AuthVectorStore, nonce: String, expected_response: Vec<u8>, now: u64)
    ensures
        final(store)@ == after_insert(old(store)@, nonce@, expected_response@, now),
{
    store.insert(nonce, expected_response, now)
}

/// Consumes the vector for `nonce` from the given store.
pub fn take_auth_vector(store: &mut AuthVectorStore, nonce: &str, now: u64) -> (r: Option<ImsAuthVector>)
    ensures
        final(store)@ == after_take(old(store)@, nonce@),
        match r {
            Some(vector) => taken(old(store)@, nonce@, now) == Some(vector.expected_response@)
                && lookup(old(store)@.vectors, nonce@) == Some(
                (vector.expected_response@, vector.stored_at),
            ) && key_bytes(vector.ck) == key_under(old(store)@.cks, nonce@) && key_bytes(vector.ik)
                == key_under(old(store)@.iks, nonce@),
            None => taken(old(store)@, nonce@, now) is None,
        },
{
    store.take(nonce, now)
}

/// A nonce is single-use: once consumed, it yields nothing until it is stored
/// again, whether or not the first consumer's response verified.
pub proof fn vector_is_single_use(s: AuthVectors, nonce: Seq<char>, later: u64)
    ensures
        taken(after_take(s, nonce), nonce, later) is None,
{
}

/// A vector that was put in is there whole, its keys too; caching the response
/// to a challenge keeps no keys under its nonce.
pub proof fn vector_keeps_its_keys(
    s: AuthVectors,
    nonce: Seq<char>,
    response: Seq<u8>,
    ck: Option<Seq<u8>>,
    ik: Option<Seq<u8>>,
    at: u64,
)
    ensures
        lookup(after_put(s, nonce, response, ck, ik, at).vectors, nonce) == Some((response, at)),
        key_under(after_put(s, nonce, response, ck, ik, at).cks, nonce) == ck,
        key_under(after_put(s, nonce, response, ck, ik, at).iks, nonce) == ik,
        key_under(after_insert(s, nonce, response, at).cks, nonce) is None,
        key_under(after_insert(s, nonce, response, at).iks, nonce) is None,
{
}

/// A stored vector comes back exactly while its challenge is under the
/// lifetime, and never after.
pub proof fn vector_comes_back_within_ttl(
    s: AuthVectors,
    nonce: Seq<char>,
    response: Seq<u8>,
    now: u64,
    later: u64,
)
    ensures
        taken(after_insert(s, nonce, response, now), nonce, later) == if age_of(later, now)
            < AUTH_VECTOR_TTL {
            Some(response)
        } else {
            None
        },
{
}

/// Storing or consuming one nonce does not disturb a vector that is still
/// usable under another.
pub proof fn vectors_are_independent(
    s: AuthVectors,
    nonce: Seq<char>,
    response: Seq<u8>,
    other: Seq<char>,
    now: u64,
    later: u64,
)
    requires
        nonce != other,
        now <= later,
    ensures
        taken(after_insert(s, nonce, response, now), other, later) == taken(s, other, later),
        taken(after_take(s, nonce), other, later) == taken(s, other, later),
{
}

/// After an insert at a threshold no expired vector is left.
pub proof fn threshold_insert_leaves_only_fresh(
    s: AuthVectors,
    nonce: Seq<char>,
    response: Seq<u8>,
    now: u64,
    key: Seq<char>,
)
    requires
        prunes(s),
        after_insert(s, nonce, response, now).vectors.dom().contains(key),
    ensures
        age_of(now, after_insert(s, nonce, response, now).vectors[key].1) < AUTH_VECTOR_TTL,
{
}

/// The counter after `n` more inserts.
pub open spec fn inserts_after(count: u64, n: nat) -> u64
    decreases n,
{
    if n == 0 {
        count
    } else {
        let c = inserts_after(count, (n - 1) as nat);
        if c == u64::MAX {
            0
        } else {
            (c + 1) as u64
        }
    }
}

/// The prune cadence never drifts, not even where the counter wraps around:
/// the insert `n` inserts from now is at a threshold exactly where the count so
/// far and `n` add up to a multiple of the cadence.
pub proof fn prune_cadence(count: u64, n: nat)
    ensures
        inserts_after(count, n) as int % AUTH_VECTOR_PRUNE_EVERY as int == (count + n)
            % AUTH_VECTOR_PRUNE_EVERY as int,
    decreases n,
{
    if n > 0 {
        prune_cadence(count, (n - 1) as nat);
    }
}

/// No threshold is skipped: of any sixty-four consecutive inserts one prunes.
pub proof fn some_insert_in_each_cadence_prunes(count: u64)
    ensures
        exists|n: nat| n < AUTH_VECTOR_PRUNE_EVERY && #[trigger] inserts_after(count, n)
            % AUTH_VECTOR_PRUNE_EVERY == 0,
{
    let n = ((64 - count as int % 64) % 64) as nat;
    prune_cadence(count, n);
    assert((count + n) % 64 == 0);
    assert(inserts_after(count, n) % AUTH_VECTOR_PRUNE_EVERY == 0);
}

/// A prune bounds the store: what is left are the vectors that were still
/// fresh and the one just stored.
pub proof fn prune_bounds_store(s: AuthVectors, nonce: Seq<char>, response: Seq<u8>, now: u64)
    requires
        prunes(s),
        s.vectors.dom().finite(),
    ensures
        after_insert(s, nonce, response, now).vectors.dom().len() <= fresh_entries(
            s.vectors,
            now,
            AUTH_VECTOR_TTL,
        ).dom().len() + 1,
        after_insert(s, nonce, response, now).vectors.dom().finite(),
{
    let fresh = fresh_entries(s.vectors, now, AUTH_VECTOR_TTL);
    assert(fresh.dom().subset_of(s.vectors.dom()));
    vstd::set_lib::lemma_len_subset(fresh.dom(), s.vectors.dom());
    assert(fresh.insert(nonce, (response, now)).dom() =~= fresh.dom().insert(nonce));
}

} // verus!
