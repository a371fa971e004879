//! Request deduplication with an optional result cache.
//!
//! A request for a key either joins the fetch already running for that key,
//! is answered from the cache, or becomes the one request that runs the
//! delegate for the key. The waiting itself (and the running of the delegate's
//! future) is the caller's: the library decides, under the caller's lock, what
//! each request does, and keeps the bookkeeping that those decisions rest on.
use crate::cache::{cache_lookup, cache_put, cache_touch, model_wf, Cache, CacheModel};
use crate::channel::{
    downgrade, open_channel, publish, subscribe, upgrade, Closed, Receipt, Rx, Tx, WeakTx,
};
use std::collections::HashMap;
use vstd::prelude::*;

verus! {

broadcast use vstd::std_specs::hash::group_hash_axioms;

/// The cache capacity that `new` uses.
pub const DEFAULT_CACHE_CAPACITY: usize = 512;

/// Deduplication errors.
#[derive(Debug, Clone, Copy, PartialEq, Eq, Structural)]
pub enum DeduplicateError {
    /// The delegated get failed.
    Failed,
    /// There is no cache in this instance.
    NoCache,
}

/// The text that describes an error.
pub open spec fn error_message(e: DeduplicateError) -> Seq<char> {
    match e {
        DeduplicateError::Failed => "Delegated get failed"@,
        DeduplicateError::NoCache => "Cache not enabled"@,
    }
}

impl DeduplicateError {
    /// The text that describes the error.
    pub fn to_string(&self) -> (r: String)
        ensures
            r@ == error_message(*self),
    {
        match self {
            DeduplicateError::Failed => "Delegated get failed".to_owned(),
            DeduplicateError::NoCache => "Cache not enabled".to_owned(),
        }
    }
}

/// A counter one step further on, wrapping to 0 past `u64::MAX`.
pub open spec fn bump(n: u64) -> u64 {
    if n == u64::MAX {
        0
    } else {
        (n + 1) as u64
    }
}

fn bumped(n: u64) -> (r: u64)
    ensures
        r == bump(n),
{
    if n == u64::MAX {
        0
    } else {
        n + 1
    }
}

/// What a deduplicator holds, apart from its delegate: the cache (none where
/// caching is disabled), the keys with a fetch in flight, each with the number
/// of its fetch and the channel on which that fetch sends its result, the
/// number that the next fetch gets, and the two request counters.
pub struct DedupModel<V> {
    pub cache: Option<CacheModel<V>>,
    pub waiting: Map<usize, (u64, int)>,
    pub next_fetch: u64,
    pub deduplicated: u64,
    pub total: u64,
}

/// How a request was admitted.
#[derive(PartialEq, Eq, Structural)]
pub enum Step {
    /// A fetch for the key was in flight: the request waits for its result.
    Joined,
    /// A fetch for the key was registered but its sender was gone: the entry
    /// was dropped and the request failed.
    Abandoned,
    /// The value was in the cache.
    Hit,
    /// The request fetches the value itself.
    Lead,
}

/// What a request does next, as decided by `Deduplicate::begin_get`.
#[verifier::reject_recursive_types(V)]
pub enum Admission<V> {
    /// The request is answered.
    Done(Result<Option<V>, DeduplicateError>),
    /// The request waits on this receiver, of the channel of the fetch in
    /// flight, for that fetch's result; `Deduplicate::outcome` turns what
    /// arrives into its answer.
    Wait(Rx<Option<V>>),
    /// The request runs the delegate for its key, as the fetch with this
    /// number; the fetch sends its result through `Deduplicate::finish_fetch`
    /// with this sender, and the request waits on this receiver (of the same
    /// channel, the one registered for the key) and ends with
    /// `Deduplicate::complete`. Both hand back the fetch's number.
    Fetch(u64, Tx<Option<V>>, Rx<Option<V>>),
}

impl<V> Admission<V> {
    /// The step that an admission stands for.
    pub open spec fn step(&self) -> Step {
        match self {
            Admission::Done(Ok(_)) => Step::Hit,
            Admission::Done(Err(_)) => Step::Abandoned,
            Admission::Wait(_) => Step::Joined,
            Admission::Fetch(_, _, _) => Step::Lead,
        }
    }
}

/// The model after admitting a request for `key` in the given step: the total
/// counter moves on for every request, the deduplicated counter for every
/// request that does not fetch; `Abandoned` drops the key's entry, `Hit` makes
/// the key the most recently used one, `Lead` registers the key as in flight
/// under the next fetch number (with the channel of the new fetch, which is
/// not known beforehand), and moves that number on.
/// Which of `Joined` and `Abandoned` happens for a key in flight rests on
/// whether its fetch still holds its sender, which the model does not hold
/// (`Deduplicate::admit_in_flight` ties it to that); otherwise the step is
/// determined by the model.
pub open spec fn begin_step<V>(m: DedupModel<V>, key: usize, s: Step, m2: DedupModel<V>) -> bool {
    &&& m2.total == bump(m.total)
    &&& if m.waiting.contains_key(key) {
        &&& (s == Step::Joined || s == Step::Abandoned)
        &&& m2.deduplicated == bump(m.deduplicated)
        &&& m2.cache == m.cache
        &&& m2.next_fetch == m.next_fetch
        &&& m2.waiting == (if s == Step::Joined {
            m.waiting
        } else {
            m.waiting.remove(key)
        })
    } else if m.cache is Some && cache_lookup(m.cache->0, key) is Some {
        &&& s == Step::Hit
        &&& m2.deduplicated == bump(m.deduplicated)
        &&& m2.cache == Some(cache_touch(m.cache->0, key))
        &&& m2.next_fetch == m.next_fetch
        &&& m2.waiting == m.waiting
    } else {
        &&& s == Step::Lead
        &&& m2.deduplicated == m.deduplicated
        &&& m2.cache == m.cache
        &&& m2.next_fetch == bump(m.next_fetch)
        &&& m2.waiting.contains_key(key)
        &&& m2.waiting[key].0 == m.next_fetch
        &&& m2.waiting == m.waiting.insert(key, m2.waiting[key])
    }
}

/// The keys in flight after the fetch numbered `ticket` for `key` let go of
/// its entry: the entry goes only where it is that fetch's.
pub open spec fn release(waiting: Map<usize, (u64, int)>, key: usize, ticket: u64) -> Map<
    usize,
    (u64, int),
> {
    if waiting.contains_key(key) && waiting[key].0 == ticket {
        waiting.remove(key)
    } else {
        waiting
    }
}

/// The model after the fetch numbered `ticket` for `key` has ended: the key is
/// no longer in flight, unless a newer fetch holds it.
pub open spec fn finish_model<V>(m: DedupModel<V>, key: usize, ticket: u64) -> DedupModel<V> {
    DedupModel { waiting: release(m.waiting, key, ticket), ..m }
}

/// The model after the request that ran the fetch numbered `ticket` for `key`
/// has received `received` (`None` where the channel closed without a value):
/// the key is no longer in flight, unless a newer fetch holds it, and a fetched
/// value is stored in the cache.
pub open spec fn complete_model<V>(
    m: DedupModel<V>,
    key: usize,
    ticket: u64,
    received: Option<Option<V>>,
) -> DedupModel<V> {
    DedupModel {
        waiting: release(m.waiting, key, ticket),
        cache: match (m.cache, received) {
            (Some(c), Some(Some(v))) => Some(cache_put(c, key, v)),
            _ => m.cache,
        },
        ..m
    }
}

/// The model after storing `value` under `key` directly.
pub open spec fn insert_model<V>(m: DedupModel<V>, key: usize, value: V) -> DedupModel<V> {
    DedupModel {
        cache: match m.cache {
            Some(c) => Some(cache_put(c, key, value)),
            None => None,
        },
        ..m
    }
}

/// The model after `clear`: no cache entries and both counters at 0; the
/// keys in flight stay.
pub open spec fn clear_model<V>(m: DedupModel<V>) -> DedupModel<V> {
    DedupModel {
        cache: match m.cache {
            Some(c) => Some(CacheModel { entries: Seq::empty(), capacity: c.capacity }),
            None => None,
        },
        deduplicated: 0,
        total: 0,
        ..m
    }
}

/// The number of cache entries in use; 0 without a cache.
pub open spec fn count_model<V>(m: DedupModel<V>) -> nat {
    match m.cache {
        Some(c) => c.entries.len(),
        None => 0,
    }
}

/// The answer that a request gets from what it received: a closed channel
/// means that the fetch failed.
pub open spec fn answer<V>(received: Option<Option<V>>) -> Result<Option<V>, DeduplicateError> {
    match received {
        Some(r) => Ok(r),
        None => Err(DeduplicateError::Failed),
    }
}

/// A well-formed model: a cache, where there is one, is well formed.
pub open spec fn dedup_wf<V>(m: DedupModel<V>) -> bool {
    m.cache matches Some(c) ==> model_wf(c)
}

/// Query de-duplication with optional cache.
///
/// When trying to avoid multiple slow or expensive gets, use this.
#[verifier::reject_recursive_types(V)]
pub struct Deduplicate<G, V> {
    delegate: G,
    storage: Option<Cache<V>>,
    wait_map: HashMap<usize, (u64, WeakTx<Option<V>>)>,
    // The record of the closed channel behind the last failed join.
    last_closed: Option<Closed>,
    fetch_counter: u64,
    request_deduplicated_counter: u64,
    request_total_counter: u64,
}

impl<G, V> View for Deduplicate<G, V> {
    type V = DedupModel<V>;

    closed spec fn view(&self) -> DedupModel<V> {
        DedupModel {
            cache: match self.storage {
                Some(c) => Some(c@),
                None => None,
            },
            waiting: Map::new(
                |k: usize| self.wait_map@.contains_key(k),
                |k: usize| (self.wait_map@[k].0, self.wait_map@[k].1.chan()),
            ),
            next_fetch: self.fetch_counter,
            deduplicated: self.request_deduplicated_counter,
            total: self.request_total_counter,
        }
    }
}

impl<G, V> Deduplicate<G, V> {
    /// The cache, where there is one, is well formed.
    pub closed spec fn wf(&self) -> bool {
        self.storage matches Some(c) ==> c.wf()
    }

    /// The channel behind the last request that failed to join a fetch, as
    /// recorded by the upgrade that found it closed.
    pub closed spec fn last_closed_channel(&self) -> Option<int> {
        match self.last_closed {
            Some(c) => Some(c.chan()),
            None => None,
        }
    }

    /// The delegate that fetches values.
    pub closed spec fn current_delegate(&self) -> G {
        self.delegate
    }

    /// A well-formed deduplicator has a well-formed model, to which the laws
    /// apply.
    pub proof fn lemma_wf_model(&self)
        requires
            self.wf(),
        ensures
            dedup_wf(self@),
    {
        if let Some(c) = self.storage {
            c.lemma_wf_model();
        }
    }

    /// Create a new deduplicator for the provided delegate with default cache
    /// capacity: 512.
    pub fn new(delegate: G) -> (r: Self)
        ensures
            r.wf(),
            r.current_delegate() == delegate,
            r@ == (DedupModel::<V> {
                cache: Some(CacheModel { entries: Seq::empty(), capacity: 512 }),
                waiting: Map::empty(),
                next_fetch: 0,
                deduplicated: 0,
                total: 0,
            }),
    {
        Self::with_capacity(delegate, DEFAULT_CACHE_CAPACITY)
    }

    /// Create a new deduplicator for the provided delegate with specified
    /// cache capacity. If capacity is 0, then caching is disabled.
    pub fn with_capacity(delegate: G, capacity: usize) -> (r: Self)
        ensures
            r.wf(),
            r.current_delegate() == delegate,
            r@ == (DedupModel::<V> {
                cache: if capacity > 0 {
                    Some(CacheModel { entries: Seq::empty(), capacity: capacity as nat })
                } else {
                    None
                },
                waiting: Map::empty(),
                next_fetch: 0,
                deduplicated: 0,
                total: 0,
            }),
    {
        let storage = Cache::new(capacity);
        let r = Deduplicate {
            delegate,
            storage,
            wait_map: HashMap::new(),
            last_closed: None,
            fetch_counter: 0,
            request_deduplicated_counter: 0,
            request_total_counter: 0,
        };
        assert(r@.waiting =~= Map::empty());
        r
    }

    /// Clear the internal cache. This will also reset the request counters.
    pub fn clear(&mut self)
        requires
            old(self).wf(),
        ensures
            final(self).wf(),
            final(self).current_delegate() == old(self).current_delegate(),
            final(self)@ == clear_model(old(self)@),
    {
        match &mut self.storage {
            Some(c) => c.clear(),
            None => {},
        }
        self.request_deduplicated_counter = 0;
        self.request_total_counter = 0;
    }

    /// Return the number of cache entries in use. Will return 0 if no cache is
    /// configured.
    pub fn count(&self) -> (r: usize)
        requires
            self.wf(),
        ensures
            r == count_model(self@),
    {
        match &self.storage {
            Some(c) => c.count(),
            None => 0,
        }
    }

    /// Return the deduplicated request count.
    pub fn request_deduplicated_count(&self) -> (r: u64)
        ensures
            r == self@.deduplicated,
    {
        self.request_deduplicated_counter
    }

    /// Return the total request count.
    pub fn request_count(&self) -> (r: u64)
        ensures
            r == self@.total,
    {
        self.request_total_counter
    }

    /// Insert an entry directly into the cache. If there is no cache, this
    /// will fail with `DeduplicateError::NoCache`.
    pub fn insert(&mut self, key: usize, value: V) -> (r: Result<(), DeduplicateError>)
        requires
            old(self).wf(),
        ensures
            final(self).wf(),
            final(self).current_delegate() == old(self).current_delegate(),
            final(self)@ == insert_model(old(self)@, key, value),
            r == (if old(self)@.cache is Some {
                Ok::<(), DeduplicateError>(())
            } else {
                Err(DeduplicateError::NoCache)
            }),
    {
        match &mut self.storage {
            Some(c) => {
                c.insert(key, value);
                Ok(())
            },
            None => Err(DeduplicateError::NoCache),
        }
    }

    /// Update the delegate to use for future gets. This will also clear the
    /// internal cache and reset the request counters.
    pub fn set_delegate(&mut self, delegate: G)
        requires
            old(self).wf(),
        ensures
            final(self).wf(),
            final(self).current_delegate() == delegate,
            final(self)@ == clear_model(old(self)@),
    {
        self.clear();
        self.delegate = delegate;
    }

    /// Admits a request for `key`: the decisions of `get` before any waiting.
    ///
    /// Many concurrent requests can ask for the same key, but only the first
    /// is told to fetch (`Admission::Fetch`, with the number of its fetch and
    /// both ends of the channel registered for the key); until that fetch ends,
    /// the others wait on that channel for its result (`Admission::Wait`), or
    /// fail at once where its sender is gone (`Admission::Done` with
    /// `DeduplicateError::Failed`). A key not in flight whose value is cached
    /// is answered from the cache. For a key in flight, the weak sender of its
    /// fetch is upgraded and `admit_in_flight` decides; a request fails only
    /// where the upgrade found the fetch's channel closed, which it records
    /// (`last_closed_channel`).
    pub fn begin_get(&mut self, key: usize) -> (r: Admission<V>) where V: Clone
        requires
            old(self).wf(),
        ensures
            final(self).wf(),
            final(self).current_delegate() == old(self).current_delegate(),
            begin_step(old(self)@, key, r.step(), final(self)@),
            r matches Admission::Fetch(t, tx, rx) ==> t == old(self)@.next_fetch && tx.chan()
                == final(self)@.waiting[key].1 && rx.chan() == final(self)@.waiting[key].1,
            r matches Admission::Wait(rx) ==> rx.chan() == old(self)@.waiting[key].1,
            r.step() == Step::Abandoned ==> final(self).last_closed_channel() == Some(
                old(self)@.waiting[key].1,
            ),
            r matches Admission::Done(res) ==> match res {
                Ok(x) => x matches Some(y) && cloned(
                    cache_lookup(old(self)@.cache->0, key)->0,
                    y,
                ),
                Err(e) => e == DeduplicateError::Failed,
            },
    {
        match self.wait_map.get(&key) {
            Some(entry) => {
                match upgrade(&entry.1) {
                    Ok(tx) => self.admit_in_flight(key, Some(tx)),
                    Err(closed) => {
                        let r = self.admit_in_flight(key, None);
                        self.last_closed = Some(closed);
                        r
                    },
                }
            },
            None => {
                self.request_total_counter = bumped(self.request_total_counter);
                let hit = match &mut self.storage {
                    Some(c) => c.get(key),
                    None => None,
                };
                match hit {
                    Some(value) => {
                        self.request_deduplicated_counter = bumped(
                            self.request_deduplicated_counter,
                        );
                        Admission::Done(Ok(Some(value)))
                    },
                    None => {
                        let ticket = self.fetch_counter;
                        let (tx, rx) = open_channel(1);
                        let _ = self.wait_map.insert(key, (ticket, downgrade(&tx)));
                        self.fetch_counter = bumped(self.fetch_counter);
                        assert(self@.waiting =~= old(self)@.waiting.insert(key, self@.waiting[key]));
                        Admission::Fetch(ticket, tx, rx)
                    },
                }
            },
        }
    }

    /// Admits a request for `key`, which is in flight, given what upgrading
    /// the weak sender of its fetch gave back: a live sender of the fetch's
    /// channel means the request joins the fetch and waits on a new receiver
    /// of that channel; no sender means the fetch is gone (it ended without
    /// sending, as when it panicked or was cancelled), so the entry is dropped
    /// and the request fails.
    pub fn admit_in_flight(&mut self, key: usize, strong: Option<Tx<Option<V>>>) -> (r:
        Admission<V>)
        requires
            old(self).wf(),
            old(self)@.waiting.contains_key(key),
        ensures
            final(self).wf(),
            final(self).current_delegate() == old(self).current_delegate(),
            begin_step(old(self)@, key, r.step(), final(self)@),
            (strong is Some) == (r.step() == Step::Joined),
            strong matches Some(tx) ==> r matches Admission::Wait(rx) && rx.chan() == tx.chan(),
            strong is None ==> r == Admission::<V>::Done(Err(DeduplicateError::Failed)),
    {
        self.request_total_counter = bumped(self.request_total_counter);
        self.request_deduplicated_counter = bumped(self.request_deduplicated_counter);
        match strong {
            Some(tx) => {
                let rx = subscribe(&tx);
                Admission::Wait(rx)
            },
            None => {
                let _ = self.wait_map.remove(&key);
                assert(self@.waiting =~= old(self)@.waiting.remove(key));
                Admission::Done(Err(DeduplicateError::Failed))
            },
        }
    }

    /// Drops the entry of `key` where the fetch numbered `ticket` holds it.
    fn release_entry(&mut self, key: usize, ticket: u64)
        requires
            old(self).wf(),
        ensures
            final(self).wf(),
            final(self).current_delegate() == old(self).current_delegate(),
            final(self)@ == (DedupModel { waiting: release(old(self)@.waiting, key, ticket), ..old(self)@ }),
    {
        let owned = match self.wait_map.get(&key) {
            Some(entry) => entry.0 == ticket,
            None => false,
        };
        if owned {
            let _ = self.wait_map.remove(&key);
            assert(self@.waiting =~= old(self)@.waiting.remove(key));
        } else {
            assert(self@.waiting =~= old(self)@.waiting);
        }
    }

    /// Ends the fetch numbered `ticket` for `key`: the key is no longer in
    /// flight, unless a newer fetch holds it, and `value` is sent on the
    /// channel of `tx` to every request that waits on it; the receipt records
    /// that send.
    pub fn finish_fetch(
        &mut self,
        key: usize,
        ticket: u64,
        tx: Tx<Option<V>>,
        value: Option<V>,
    ) -> (sent: Receipt<Option<V>>)
        requires
            old(self).wf(),
        ensures
            final(self).wf(),
            final(self).current_delegate() == old(self).current_delegate(),
            final(self)@ == finish_model(old(self)@, key, ticket),
            sent.chan() == tx.chan(),
            sent.value() == value,
    {
        self.release_entry(key, ticket);
        publish(&tx, value)
    }

    /// Ends the request that ran the fetch numbered `ticket` for `key`, with
    /// what it received (`None` where the channel closed without a value, as
    /// when the fetch panicked or was cancelled): the key is no longer in
    /// flight, unless a newer fetch holds it, a fetched value is cached, and
    /// the answer is returned.
    pub fn complete(
        &mut self,
        key: usize,
        ticket: u64,
        received: Option<Option<V>>,
    ) -> (r: Result<Option<V>, DeduplicateError>) where V: Clone
        requires
            old(self).wf(),
        ensures
            final(self).wf(),
            final(self).current_delegate() == old(self).current_delegate(),
            final(self)@ == complete_model(old(self)@, key, ticket, received),
            match received {
                None => r == Err::<Option<V>, DeduplicateError>(DeduplicateError::Failed),
                Some(None) => r == Ok::<Option<V>, DeduplicateError>(None),
                Some(Some(v)) => r matches Ok(Some(x)) && cloned(v, x),
            },
    {
        self.release_entry(key, ticket);
        match received {
            None => Err(DeduplicateError::Failed),
            Some(None) => Ok(None),
            Some(Some(v)) => match &mut self.storage {
                Some(c) => {
                    let x = v.clone();
                    c.insert(key, v);
                    Ok(Some(x))
                },
                None => Ok(Some(v)),
            },
        }
    }

    /// The answer of a request that waited on a fetch in flight, from what it
    /// received (`None` where the channel closed without a value).
    pub fn outcome(received: Option<Option<V>>) -> (r: Result<Option<V>, DeduplicateError>)
        ensures
            r == answer(received),
    {
        match received {
            Some(x) => Ok(x),
            None => Err(DeduplicateError::Failed),
        }
    }

    /// The delegate, for running a fetch.
    pub fn delegate(&self) -> (r: &G)
        ensures
            *r == self.current_delegate(),
    {
        &self.delegate
    }
}

} // verus!
