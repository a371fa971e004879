//! The result cache: a least-recently-used map from request keys to values.
//!
//! The recency order and the eviction are the `lru` crate's; the values live in
//! `values`, and the cache stores for each key the slot of its value there.
use crate::lru_cache::{
    distinct_keys, has_key, key_index, lru_cap, lru_capacity, lru_clear, lru_entries, lru_get,
    lru_len, lru_new, lru_peek, lru_peek_lru, lru_put,
};
use lru::LruCache;
use vstd::prelude::*;

verus! {

/// What a cache holds: its entries, least recently used first, and the most
/// entries it keeps.
pub struct CacheModel<V> {
    pub entries: Seq<(usize, V)>,
    pub capacity: nat,
}

/// The value stored under `key` (meaningful where `has_key` holds).
pub open spec fn value_of<V>(entries: Seq<(usize, V)>, key: usize) -> V {
    entries[key_index(entries, key)].1
}

/// What a lookup of `key` returns.
pub open spec fn cache_lookup<V>(m: CacheModel<V>, key: usize) -> Option<V> {
    if has_key(m.entries, key) {
        Some(value_of(m.entries, key))
    } else {
        None
    }
}

/// The cache after a lookup of `key`: a found entry becomes the most recently
/// used one.
pub open spec fn cache_touch<V>(m: CacheModel<V>, key: usize) -> CacheModel<V> {
    if has_key(m.entries, key) {
        let i: int = key_index(m.entries, key);
        CacheModel { entries: m.entries.remove(i).push(m.entries[i]), capacity: m.capacity }
    } else {
        m
    }
}

/// The cache after storing `value` under `key`: the entry becomes the most
/// recently used one, replacing an entry with the same key, or else, when the
/// cache is full, the least recently used entry.
pub open spec fn cache_put<V>(m: CacheModel<V>, key: usize, value: V) -> CacheModel<V> {
    if has_key(m.entries, key) {
        CacheModel {
            entries: m.entries.remove(key_index(m.entries, key)).push((key, value)),
            capacity: m.capacity,
        }
    } else if m.entries.len() == m.capacity {
        CacheModel { entries: m.entries.drop_first().push((key, value)), capacity: m.capacity }
    } else {
        CacheModel { entries: m.entries.push((key, value)), capacity: m.capacity }
    }
}

/// A well-formed cache model: distinct keys, no more entries than the capacity.
pub open spec fn model_wf<V>(m: CacheModel<V>) -> bool {
    &&& distinct_keys(m.entries)
    &&& m.entries.len() <= m.capacity
    &&& m.capacity > 0
}

/// In a sequence with distinct keys, the entry at `i` is the one found for its key.
pub proof fn lemma_key_index<T>(entries: Seq<(usize, T)>, i: int, key: usize)
    requires
        distinct_keys(entries),
        0 <= i < entries.len(),
        entries[i].0 == key,
    ensures
        has_key(entries, key),
        key_index(entries, key) == i,
{
    assert(has_key(entries, key));
    let j: int = key_index(entries, key);
    assert(entries[j].0 == key);
}

/// The slots of `e` are distinct and each below the length of `e`: they are
/// the positions of a sequence as long as `e`.
pub open spec fn slots_are_positions(e: Seq<(usize, usize)>) -> bool {
    &&& forall|i: int| 0 <= i < e.len() ==> #[trigger] e[i].1 < e.len()
    &&& forall|i: int, j: int|
        0 <= i < e.len() && 0 <= j < e.len() && i != j ==> #[trigger] e[i].1 != #[trigger] e[j].1
}

/// Moving one entry to the back keeps keys and slots as they were.
pub proof fn lemma_move_to_back(e: Seq<(usize, usize)>, i: int)
    requires
        distinct_keys(e),
        slots_are_positions(e),
        0 <= i < e.len(),
    ensures
        distinct_keys(e.remove(i).push(e[i])),
        slots_are_positions(e.remove(i).push(e[i])),
{
    let e2 = e.remove(i).push(e[i]);
    assert forall|a: int| 0 <= a < e2.len() implies #[trigger] e2[a] == e[if a < i {
        a
    } else if a < e.len() - 1 {
        a + 1
    } else {
        i
    }] by {}
}

/// A least-recently-used cache of values by `usize` key.
pub struct Cache<V> {
    lru: LruCache<usize, usize>,
    values: Vec<V>,
}

impl<V> View for Cache<V> {
    type V = CacheModel<V>;

    closed spec fn view(&self) -> CacheModel<V> {
        let e = lru_entries(self.lru);
        CacheModel {
            entries: Seq::new(e.len(), |i: int| (e[i].0, self.values@[e[i].1 as int])),
            capacity: lru_capacity(self.lru),
        }
    }
}

impl<V> Cache<V> {
    /// The slots of the entries are distinct and are exactly the positions of
    /// `values`; keys are distinct; the entries fit the capacity.
    pub closed spec fn wf(&self) -> bool {
        let e = lru_entries(self.lru);
        &&& distinct_keys(e)
        &&& e.len() == self.values@.len()
        &&& e.len() <= lru_capacity(self.lru)
        &&& lru_capacity(self.lru) > 0
        &&& slots_are_positions(e)
    }

    /// A well-formed cache has a well-formed model.
    pub proof fn lemma_wf_model(&self)
        requires
            self.wf(),
        ensures
            model_wf(self@),
    {
    }

    /// A cache holding at most `max_capacity` entries; none for a capacity of 0.
    pub fn new(max_capacity: usize) -> (r: Option<Self>)
        ensures
            r is Some <==> max_capacity > 0,
            r matches Some(c) ==> c.wf() && c@.entries == Seq::<(usize, V)>::empty() && c@.capacity
                == max_capacity,
    {
        if max_capacity > 0 {
            let c = Cache { lru: lru_new(max_capacity), values: Vec::new() };
            assert(c@.entries =~= Seq::<(usize, V)>::empty());
            Some(c)
        } else {
            None
        }
    }

    /// The number of entries in use.
    pub fn count(&self) -> (r: usize)
        requires
            self.wf(),
        ensures
            r == self@.entries.len(),
    {
        lru_len(&self.lru)
    }

    /// Looks `key` up; a found entry becomes the most recently used one, and a
    /// clone of its value is returned.
    pub fn get(&mut self, key: usize) -> (r: Option<V>) where V: Clone
        requires
            old(self).wf(),
        ensures
            final(self).wf(),
            final(self)@ == cache_touch(old(self)@, key),
            match cache_lookup(old(self)@, key) {
                None => r is None,
                Some(v) => r matches Some(x) && cloned(v, x),
            },
    {
        let ghost e = lru_entries(self.lru);
        let ghost m = self@;
        match lru_get(&mut self.lru, key) {
            Some(s) => {
                let ghost i: int = choose|i: int| 0 <= i < e.len() && e[i] == (key, s) && lru_entries(self.lru) == e.remove(i).push((key, s));
                proof {
                    lemma_key_index(e, i, key);
                    lemma_key_index(m.entries, i, key);
                    lemma_move_to_back(e, i);
                    assert(self@.entries =~= m.entries.remove(i).push(m.entries[i]));
                }
                Some(self.values[s].clone())
            },
            None => None,
        }
    }

    /// Stores `value` under `key` as the most recently used entry, replacing an
    /// entry with the same key, or else, when the cache is full, the least
    /// recently used entry.
    pub fn insert(&mut self, key: usize, value: V)
        requires
            old(self).wf(),
        ensures
            final(self).wf(),
            final(self)@ == cache_put(old(self)@, key, value),
    {
        let ghost e = lru_entries(self.lru);
        let ghost m = self@;
        match lru_peek(&self.lru, key) {
            Some(s) => {
                let ghost i: int = choose|i: int| 0 <= i < e.len() && e[i] == (key, s);
                proof {
                    lemma_key_index(e, i, key);
                    lemma_key_index(m.entries, i, key);
                    lemma_move_to_back(e, i);
                }
                self.values.set(s, value);
                let prev = lru_put(&mut self.lru, key, s);
                proof {
                    let e2 = lru_entries(self.lru);
                    let p: usize = prev->0;
                    let j: int = choose|j: int| 0 <= j < e.len() && e[j] == (key, p) && e2 == e.remove(j).push((key, s));
                    lemma_key_index(e, j, key);
                    assert(e2 == e.remove(i).push(e[i]));
                    assert(self@.entries =~= m.entries.remove(i).push((key, value)));
                }
            },
            None => {
                let len: usize = lru_len(&self.lru);
                let cap: usize = lru_cap(&self.lru);
                if len < cap {
                    let s: usize = self.values.len();
                    self.values.push(value);
                    let prev = lru_put(&mut self.lru, key, s);
                    proof {
                        let e2 = lru_entries(self.lru);
                        if let Some(p) = prev {
                            let j: int = choose|j: int| 0 <= j < e.len() && e[j] == (key, p);
                            assert(e[j].0 == key);
                        }
                        assert(e2 == e.push((key, s)));
                        assert(e2.len() == e.len() + 1);
                        assert forall|a: int| 0 <= a < e2.len() - 1 implies #[trigger] e2[a] == e[a] by {}
                        assert(!has_key(e, key));
                        assert forall|a: int| 0 <= a < e.len() implies #[trigger] e[a].0 != key by {
                            if e[a].0 == key { assert(has_key(e, key)); }
                        }
                        assert(self@.entries =~= m.entries.push((key, value)));
                    }
                } else {
                    let oldest = lru_peek_lru(&self.lru);
                    match oldest {
                        Some((_, s)) => {
                            self.values.set(s, value);
                            let prev = lru_put(&mut self.lru, key, s);
                            proof {
                                let e2 = lru_entries(self.lru);
                                if let Some(p) = prev {
                                    let j: int = choose|j: int| 0 <= j < e.len() && e[j] == (key, p);
                                    assert(e[j].0 == key);
                                }
                                assert(e2 == e.drop_first().push((key, s)));
                                assert forall|a: int| 0 <= a < e2.len() - 1 implies #[trigger] e2[a] == e[a + 1] by {}
                                assert forall|a: int| 0 <= a < e.len() implies #[trigger] e[a].0 != key by {
                                    if e[a].0 == key { assert(has_key(e, key)); }
                                }
                                assert forall|a: int| 0 < a < e.len() implies #[trigger] e[a].1 != s by {
                                    assert(e[a].1 != e[0].1);
                                }
                                assert(self@.entries =~= m.entries.drop_first().push((key, value)));
                            }
                        },
                        None => {},
                    }
                }
            },
        }
    }

    /// Drops every entry.
    pub fn clear(&mut self)
        requires
            old(self).wf(),
        ensures
            final(self).wf(),
            final(self)@ == (CacheModel { entries: Seq::<(usize, V)>::empty(), ..old(self)@ }),
    {
        lru_clear(&mut self.lru);
        self.values.clear();
        assert(self@.entries =~= Seq::<(usize, V)>::empty());
    }
}

} // verus!
