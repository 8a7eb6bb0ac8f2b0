//! Trusted boundary to the bounded LRU store that backs the decompression
//! cache.
//!
//! The cache is modelled by `cache_contents`, the key-to-bytes map a cache
//! value currently holds.  Recency order, hit counters and which entry an
//! eviction removes are left open: the contracts state only what holds of
//! every outcome.

use vstd::prelude::*;

use cached::Cached;
use std::collections::hash_map::RandomState;

verus! {

/// The store behind the decompression cache: a bounded LRU map from file
/// hashes to decompressed bytes, hashed with std's default hasher.
pub type LruStore = cached::stores::LruCache<u64, Vec<u8>, RandomState>;

/// Declares cached's bounded LRU store so that it can stand in fields and
/// signatures; the value itself stays opaque, `cache_contents` is its model.
#[verifier::external_type_specification]
#[verifier::external_body]
#[verifier::reject_recursive_types(K)]
#[verifier::reject_recursive_types(V)]
#[verifier::reject_recursive_types(S)]
pub struct ExLruCache<K, V, S>(cached::stores::LruCache<K, V, S>);

/// The key-to-bytes map a cache value currently holds.
pub uninterp spec fn cache_contents(c: LruStore) -> Map<
    u64,
    Seq<u8>,
>;

/// Relies on `cached::stores::LruCacheBuilder`: a freshly built cache holds
/// no entries.  Building fails only on a zero capacity or on a failed
/// pre-allocation, so those inputs are excluded.
#[verifier::external_body]
pub fn cache_new(capacity: usize) -> (r: LruStore)
    requires
        1 <= capacity <= 0x10000,
    ensures
        forall|k: u64| !cache_contents(r).dom().contains(k),
{
    cached::stores::LruCache::builder().max_size(capacity).hasher(RandomState::new()).build().expect(
        "a bounded cache with a small positive capacity always builds",
    )
}

/// Relies on `Cached::cache_get` of an `LruCache`: a lookup returns the
/// stored value exactly when the key is present, and moves no entry in or out
/// of the cache (it only touches recency order and counters).
#[verifier::external_body]
pub fn cache_get(c: &mut LruStore, key: u64) -> (r: Option<Vec<u8>>)
    ensures
        cache_contents(*final(c)) == cache_contents(*old(c)),
        match r {
            Some(v) => cache_contents(*old(c)).contains_pair(key, v@),
            None => !cache_contents(*old(c)).dom().contains(key),
        },
{
    c.cache_get(&key).cloned()
}

/// Relies on `Cached::cache_set` of an `LruCache`: the value is stored under
/// the key, replacing any previous value for it; reaching capacity may evict
/// entries, so the final contents is otherwise a submap of what was there.
#[verifier::external_body]
pub fn cache_set(c: &mut LruStore, key: u64, value: Vec<u8>)
    ensures
        cache_contents(*final(c)).contains_pair(key, value@),
        cache_contents(*final(c)).submap_of(cache_contents(*old(c)).insert(key, value@)),
{
    c.cache_set(key, value);
}

} // verus!
