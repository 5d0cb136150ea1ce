//! A concurrent map from text keys to timestamped bytes.
//!
//! Instants are monotonic readings in nanoseconds. The map itself is a
//! `DashMap`; every access goes through this module with exclusive access for
//! the operations that change it, so that its contents are a plain value.

use dashmap::DashMap;
use vstd::prelude::*;

verus! {

/// The outside map type.
#[verifier::external_type_specification]
#[verifier::external_body]
#[verifier::reject_recursive_types(K)]
#[verifier::reject_recursive_types(V)]
#[verifier::reject_recursive_types(S)]
pub struct ExDashMap<K, V, S>(dashmap::DashMap<K, V, S>);

/// What a map of timestamped bytes holds.
pub uninterp spec fn entries_of(map: DashMap<String, (Vec<u8>, u64)>) -> Map<Seq<char>, (Seq<u8>, u64)>;

/// The contents of an empty map.
pub open spec fn no_entries() -> Map<Seq<char>, (Seq<u8>, u64)> {
    Map::empty()
}

/// The contents of an optional entry.
pub open spec fn entry_view(entry: Option<(Vec<u8>, u64)>) -> Option<(Seq<u8>, u64)> {
    match entry {
        Some(e) => Some((e.0@, e.1)),
        None => None,
    }
}

/// The entry under `key`, if there is one.
pub open spec fn lookup(m: Map<Seq<char>, (Seq<u8>, u64)>, key: Seq<char>) -> Option<(Seq<u8>, u64)> {
    if m.dom().contains(key) {
        Some(m[key])
    } else {
        None
    }
}

/// The time between two readings; zero where the later one is not later.
pub open spec fn age_of(now: u64, at: u64) -> int {
    if now >= at {
        now - at
    } else {
        0
    }
}

/// The entries whose age is under `ttl`.
pub open spec fn fresh_entries(m: Map<Seq<char>, (Seq<u8>, u64)>, now: u64, ttl: u64) -> Map<
    Seq<char>,
    (Seq<u8>, u64),
> {
    m.restrict(m.dom().filter(|k: Seq<char>| age_of(now, m[k].1) < ttl))
}

/// Whether an entry of the given age is still within its lifetime.
pub fn is_cache_fresh(age: u64, ttl: u64) -> (r: bool)
    ensures
        r == (age < ttl),
{
    age < ttl
}

/// Whether an entry stamped `at` is still within its lifetime at `now`.
pub fn is_fresh_at(at: u64, now: u64, ttl: u64) -> (r: bool)
    ensures
        r == (age_of(now, at) < ttl),
{
    let age: u64 = if now >= at {
        now - at
    } else {
        0
    };
    is_cache_fresh(age, ttl)
}

/// `DashMap::new`: an empty map.
#[verifier::external_body]
fn dash_new() -> (r: DashMap<String, (Vec<u8>, u64)>)
    ensures
        entries_of(r) == no_entries(),
{
    DashMap::new()
}

/// `DashMap::insert`: stores the value under the key and returns what stood there.
#[verifier::external_body]
fn dash_insert(map: &mut DashMap<String, (Vec<u8>, u64)>, key: String, value: (Vec<u8>, u64)) -> (r:
    Option<(Vec<u8>, u64)>)
    ensures
        entries_of(*final(map)) == entries_of(*old(map)).insert(key@, (value.0@, value.1)),
        entry_view(r) == lookup(entries_of(*old(map)), key@),
{
    map.insert(key, value)
}

/// `DashMap::remove`: takes the entry under the key out, if there is one.
#[verifier::external_body]
fn dash_remove(map: &mut DashMap<String, (Vec<u8>, u64)>, key: &str) -> (r: Option<(Vec<u8>, u64)>)
    ensures
        entries_of(*final(map)) == entries_of(*old(map)).remove(key@),
        entry_view(r) == lookup(entries_of(*old(map)), key@),
{
    map.remove(key).map(|entry| entry.1)
}

/// `DashMap::get`: a copy of the entry under the key, if there is one.
#[verifier::external_body]
fn dash_get(map: &DashMap<String, (Vec<u8>, u64)>, key: &str) -> (r: Option<(Vec<u8>, u64)>)
    ensures
        entry_view(r) == lookup(entries_of(*map), key@),
{
    map.get(key).map(|entry| entry.value().clone())
}

/// `DashMap::contains_key`: whether the map has an entry under the key.
#[verifier::external_body]
fn dash_contains(map: &DashMap<String, (Vec<u8>, u64)>, key: &str) -> (r: bool)
    ensures
        r == entries_of(*map).dom().contains(key@),
{
    map.contains_key(key)
}

/// `DashMap::len`: the number of entries.
#[verifier::external_body]
fn dash_len(map: &DashMap<String, (Vec<u8>, u64)>) -> (r: usize)
    ensures
        r == entries_of(*map).dom().len(),
{
    map.len()
}

/// `DashMap::retain`: keeps the entries that the test accepts, here those
/// whose age is under the lifetime.
#[verifier::external_body]
fn dash_retain_fresh(map: &mut DashMap<String, (Vec<u8>, u64)>, now: u64, ttl: u64)
    ensures
        entries_of(*final(map)) == fresh_entries(entries_of(*old(map)), now, ttl),
{
    map.retain(|_, value| is_fresh_at(value.1, now, ttl))
}

/// Timestamped bytes by text key.
pub struct TimedMap {
    entries: DashMap<String, (Vec<u8>, u64)>,
}

impl View for TimedMap {
    type V = Map<Seq<char>, (Seq<u8>, u64)>;

    closed spec fn view(&self) -> Map<Seq<char>, (Seq<u8>, u64)> {
        entries_of(self.entries)
    }
}

impl TimedMap {
    pub fn new() -> (r: Self)
        ensures
            r@ == no_entries(),
    {
        TimedMap { entries: dash_new() }
    }

    pub fn insert(&mut self, key: String, value: Vec<u8>, at: u64) -> (r: Option<(Vec<u8>, u64)>)
        ensures
            final(self)@ == old(self)@.insert(key@, (value@, at)),
            entry_view(r) == lookup(old(self)@, key@),
    {
        dash_insert(&mut self.entries, key, (value, at))
    }

    pub fn remove(&mut self, key: &str) -> (r: Option<(Vec<u8>, u64)>)
        ensures
            final(self)@ == old(self)@.remove(key@),
            entry_view(r) == lookup(old(self)@, key@),
    {
        dash_remove(&mut self.entries, key)
    }

    pub fn get(&self, key: &str) -> (r: Option<(Vec<u8>, u64)>)
        ensures
            entry_view(r) == lookup(self@, key@),
    {
        dash_get(&self.entries, key)
    }

    pub fn contains_key(&self, key: &str) -> (r: bool)
        ensures
            r == self@.dom().contains(key@),
    {
        dash_contains(&self.entries, key)
    }

    pub fn len(&self) -> (r: usize)
        ensures
            r == self@.dom().len(),
    {
        dash_len(&self.entries)
    }

    /// Drops every entry that has reached its lifetime.
    pub fn retain_fresh(&mut self, now: u64, ttl: u64)
        ensures
            final(self)@ == fresh_entries(old(self)@, now, ttl),
    {
        dash_retain_fresh(&mut self.entries, now, ttl)
    }
}

} // verus!
