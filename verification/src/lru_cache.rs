//! The `lru` crate's `LruCache`, as the library uses it: keys are `usize`
//! request keys and the stored values are `usize` slot numbers.
//!
//! The contents of a cache are named by `lru_entries`, ordered from the least
//! recently used entry (first) to the most recently used one (last); the limit
//! it was made with is named by `lru_capacity`.
use lru::LruCache;
use std::num::NonZeroUsize;
use vstd::prelude::*;

verus! {

#[verifier::external_type_specification]
#[verifier::external_body]
#[verifier::reject_recursive_types(K)]
#[verifier::reject_recursive_types(V)]
#[verifier::reject_recursive_types(S)]
pub struct ExLruCache<K, V, S>(LruCache<K, V, S>);

#[verifier::external_type_specification]
#[verifier::external_body]
pub struct ExDefaultHasher(lru::DefaultHasher);

/// The entries of an LRU cache, least recently used first.
pub uninterp spec fn lru_entries(cache: LruCache<usize, usize>) -> Seq<(usize, usize)>;

/// The number of entries an LRU cache was made to hold.
pub uninterp spec fn lru_capacity(cache: LruCache<usize, usize>) -> nat;

/// Whether some entry of `entries` has the key `key`.
pub open spec fn has_key<T>(entries: Seq<(usize, T)>, key: usize) -> bool {
    exists|i: int| 0 <= i < entries.len() && #[trigger] entries[i].0 == key
}

/// The position of the entry with key `key` (meaningful where `has_key` holds).
pub open spec fn key_index<T>(entries: Seq<(usize, T)>, key: usize) -> int {
    choose|i: int| 0 <= i < entries.len() && #[trigger] entries[i].0 == key
}

/// No two entries share a key.
pub open spec fn distinct_keys<T>(entries: Seq<(usize, T)>) -> bool {
    forall|i: int, j: int|
        0 <= i < entries.len() && 0 <= j < entries.len() && i != j ==> #[trigger] entries[i].0
            != #[trigger] entries[j].0
}

/// `LruCache::new`: an empty cache holding at most `cap` entries. The
/// capacity is handed over as the `NonZeroUsize` that the method takes, which
/// `requires` makes sure exists.
#[verifier::external_body]
pub(crate) fn lru_new(cap: usize) -> (r: LruCache<usize, usize>)
    requires
        cap > 0,
    ensures
        lru_entries(r) == Seq::<(usize, usize)>::empty(),
        lru_capacity(r) == cap,
{
    LruCache::new(NonZeroUsize::new(cap).unwrap())
}

/// `LruCache::get`: the slot stored under `key`, if any; a found entry becomes
/// the most recently used one, and nothing else changes.
#[verifier::external_body]
pub(crate) fn lru_get(cache: &mut LruCache<usize, usize>, key: usize) -> (r: Option<usize>)
    ensures
        lru_capacity(*final(cache)) == lru_capacity(*old(cache)),
        match r {
            None => !has_key(lru_entries(*old(cache)), key) && lru_entries(*final(cache))
                == lru_entries(*old(cache)),
            Some(s) => exists|i: int|
                0 <= i < lru_entries(*old(cache)).len() && lru_entries(*old(cache))[i] == (key, s)
                    && lru_entries(*final(cache)) == lru_entries(*old(cache)).remove(i).push(
                    (key, s),
                ),
        },
{
    cache.get(&key).copied()
}

/// `LruCache::peek`: the slot stored under `key`, if any, without touching the
/// order of the entries.
#[verifier::external_body]
pub(crate) fn lru_peek(cache: &LruCache<usize, usize>, key: usize) -> (r: Option<usize>)
    ensures
        match r {
            None => !has_key(lru_entries(*cache), key),
            Some(s) => exists|i: int|
                0 <= i < lru_entries(*cache).len() && lru_entries(*cache)[i] == (key, s),
        },
{
    cache.peek(&key).copied()
}

/// `LruCache::peek_lru`: the least recently used entry, if any.
#[verifier::external_body]
pub(crate) fn lru_peek_lru(cache: &LruCache<usize, usize>) -> (r: Option<(usize, usize)>)
    ensures
        r == (if lru_entries(*cache).len() == 0 {
            None
        } else {
            Some(lru_entries(*cache)[0])
        }),
{
    cache.peek_lru().map(|(k, v)| (*k, *v))
}

/// `LruCache::put`: stores `slot` under `key` as the most recently used entry.
/// An entry with the same key is replaced, and its old slot returned; otherwise,
/// when the cache is full, the least recently used entry is dropped.
#[verifier::external_body]
pub(crate) fn lru_put(cache: &mut LruCache<usize, usize>, key: usize, slot: usize) -> (r: Option<
    usize,
>)
    ensures
        lru_capacity(*final(cache)) == lru_capacity(*old(cache)),
        match r {
            Some(prev) => exists|i: int|
                0 <= i < lru_entries(*old(cache)).len() && lru_entries(*old(cache))[i] == (
                    key,
                    prev,
                ) && lru_entries(*final(cache)) == lru_entries(*old(cache)).remove(i).push(
                    (key, slot),
                ),
            None => !has_key(lru_entries(*old(cache)), key) && lru_entries(*final(cache)) == (
            if lru_entries(*old(cache)).len() == lru_capacity(*old(cache)) {
                lru_entries(*old(cache)).drop_first()
            } else {
                lru_entries(*old(cache))
            }).push((key, slot)),
        },
{
    cache.put(key, slot)
}

/// `LruCache::len`: the number of entries.
#[verifier::external_body]
pub(crate) fn lru_len(cache: &LruCache<usize, usize>) -> (r: usize)
    ensures
        r == lru_entries(*cache).len(),
{
    cache.len()
}

/// `LruCache::cap`: the capacity the cache was made with.
#[verifier::external_body]
pub(crate) fn lru_cap(cache: &LruCache<usize, usize>) -> (r: usize)
    ensures
        r == lru_capacity(*cache),
{
    cache.cap().get()
}

/// `LruCache::clear`: drops every entry; the capacity stays.
#[verifier::external_body]
pub(crate) fn lru_clear(cache: &mut LruCache<usize, usize>)
    ensures
        lru_entries(*final(cache)) == Seq::<(usize, usize)>::empty(),
        lru_capacity(*final(cache)) == lru_capacity(*old(cache)),
{
    cache.clear()
}

} // verus!
