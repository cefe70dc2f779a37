//! The cache of recently seen gossip messages: an `lru::LruCache` that holds message ids.

use lru::LruCache;
use vstd::prelude::*;

verus! {

/// The least-recently-used cache of the `lru` crate.
#[verifier::external_type_specification]
#[verifier::external_body]
#[verifier::reject_recursive_types(K)]
#[verifier::reject_recursive_types(V)]
#[verifier::reject_recursive_types(S)]
pub struct ExLruCache<K, V, S>(LruCache<K, V, S>);

/// The hasher that an `LruCache` uses where none is named.
#[verifier::external_type_specification]
#[verifier::external_body]
pub struct ExDefaultHasher(lru::DefaultHasher);

/// The keys of a cache, the most recently used first.
pub uninterp spec fn cache_keys(cache: LruCache<String, ()>) -> Seq<Seq<char>>;

/// The number of keys that a cache was made to hold.
pub uninterp spec fn cache_capacity(cache: LruCache<String, ()>) -> nat;

/// The keys of a cache of this capacity after `key` has been put: `key` comes first, and where a
/// new key finds the cache full, the least recently used one is gone.
pub open spec fn touched(keys: Seq<Seq<char>>, capacity: nat, key: Seq<char>) -> Seq<Seq<char>> {
    if keys.contains(key) {
        seq![key] + keys.remove_value(key)
    } else if keys.len() == capacity {
        seq![key] + keys.drop_last()
    } else {
        seq![key] + keys
    }
}

/// What holds of the keys of every cache: none occurs twice, and there are no more than the
/// cache was made for.
pub open spec fn cache_wf(keys: Seq<Seq<char>>, capacity: nat) -> bool {
    &&& 0 < capacity
    &&& keys.len() <= capacity
    &&& keys.no_duplicates()
}

/// `LruCache::new`: an empty cache of the given capacity. A capacity of zero is left out, since
/// `put` would then look for an entry to replace where there is none, and so are capacities that
/// run into the millions, up to which the table is sure to have a layout in memory.
#[verifier::external_body]
pub(crate) fn new_cache(capacity: usize) -> (cache: LruCache<String, ()>)
    requires
        0 < capacity <= 0x10_0000,
    ensures
        cache_keys(cache) == Seq::<Seq<char>>::empty(),
        cache_capacity(cache) == capacity,
{
    LruCache::new(capacity)
}

/// `LruCache::put`: answers with a value if and only if the key was in the cache, and makes it
/// the most recently used one.
#[verifier::external_body]
pub(crate) fn put_key(cache: &mut LruCache<String, ()>, key: String) -> (previous: Option<()>)
    requires
        0 < cache_capacity(*old(cache)),
    ensures
        previous is Some <==> cache_keys(*old(cache)).contains(key@),
        cache_keys(*final(cache)) == touched(
            cache_keys(*old(cache)),
            cache_capacity(*old(cache)),
            key@,
        ),
        cache_capacity(*final(cache)) == cache_capacity(*old(cache)),
{
    cache.put(key, ())
}

/// Putting a key keeps the shape of a cache, and the key is in it afterwards.
pub proof fn lemma_touched(keys: Seq<Seq<char>>, capacity: nat, key: Seq<char>)
    requires
        cache_wf(keys, capacity),
    ensures
        cache_wf(touched(keys, capacity, key), capacity),
        touched(keys, capacity, key).contains(key),
        touched(keys, capacity, key)[0] == key,
{
    let after = touched(keys, capacity, key);
    assert(after[0] == key);
    if keys.contains(key) {
        let at = keys.index_of_first(key).unwrap();
        keys.index_of_first_ensures(key);
        assert(keys.remove_value(key) == keys.remove(at));
    }
}

} // verus!
