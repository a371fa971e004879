//! Properties of the cache and of the deduplicator that span several
//! operations, stated over the models that the operations' contracts use.
use crate::cache::{
    cache_lookup, cache_put, cache_touch, lemma_key_index, model_wf, value_of, CacheModel,
};
use crate::deduplicate::{
    begin_step, bump, clear_model, complete_model, count_model, dedup_wf, finish_model,
    insert_model, DedupModel, Step,
};
use crate::lru_cache::{distinct_keys, has_key, key_index};
use vstd::prelude::*;

verus! {

/// Storing a value keeps the cache well formed: keys stay distinct and the
/// entries never outnumber the capacity.
pub proof fn law_put_keeps_cache_well_formed<V>(m: CacheModel<V>, key: usize, value: V)
    requires
        model_wf(m),
    ensures
        model_wf(cache_put(m, key, value)),
        cache_put(m, key, value).capacity == m.capacity,
{
    let e = m.entries;
    let e2 = cache_put(m, key, value).entries;
    if has_key(e, key) {
        let i: int = key_index(e, key);
        assert forall|a: int| 0 <= a < e2.len() - 1 implies #[trigger] e2[a] == e[if a < i {
            a
        } else {
            a + 1
        }] by {}
        assert forall|a: int, b: int|
            0 <= a < e2.len() && 0 <= b < e2.len() && a != b implies #[trigger] e2[a].0
            != #[trigger] e2[b].0 by {
            if a == e2.len() - 1 {
                let ob: int = if b < i { b } else { b + 1 };
                assert(e[ob].0 != e[i].0);
            } else if b == e2.len() - 1 {
                let oa: int = if a < i { a } else { a + 1 };
                assert(e[oa].0 != e[i].0);
            }
        }
    } else {
        assert forall|a: int| 0 <= a < e.len() implies #[trigger] e[a].0 != key by {
            if e[a].0 == key {
                assert(has_key(e, key));
            }
        }
        if e.len() == m.capacity {
            assert forall|a: int| 0 <= a < e2.len() - 1 implies #[trigger] e2[a] == e[a + 1] by {}
        } else {
            assert forall|a: int| 0 <= a < e2.len() - 1 implies #[trigger] e2[a] == e[a] by {}
        }
    }
}

/// What a read gives back of a write: after storing `value` under `key`, a
/// lookup of `key` finds `value`.
pub proof fn law_lookup_after_put<V>(m: CacheModel<V>, key: usize, value: V)
    requires
        model_wf(m),
    ensures
        cache_lookup(cache_put(m, key, value), key) == Some(value),
{
    law_put_keeps_cache_well_formed(m, key, value);
    let e2 = cache_put(m, key, value).entries;
    lemma_key_index(e2, e2.len() - 1, key);
}

/// Storing under `key` leaves the value of every other key as it was, except
/// for the least recently used entry, which a store of a new key into a full
/// cache evicts.
pub proof fn law_put_keeps_other_keys<V>(m: CacheModel<V>, key: usize, value: V, other: usize)
    requires
        model_wf(m),
        other != key,
        !(!has_key(m.entries, key) && m.entries.len() == m.capacity && m.entries[0].0 == other),
    ensures
        cache_lookup(cache_put(m, key, value), other) == cache_lookup(m, other),
{
    law_put_keeps_cache_well_formed(m, key, value);
    let e = m.entries;
    let e2 = cache_put(m, key, value).entries;
    if has_key(e, other) {
        let j: int = key_index(e, other);
        lemma_key_index(e, j, other);
        if has_key(e, key) {
            let i: int = key_index(e, key);
            let j2: int = if j < i { j } else { j - 1 };
            assert(e2[j2] == e[j]);
            lemma_key_index(e2, j2, other);
        } else if e.len() == m.capacity {
            assert(j != 0);
            assert(e2[j - 1] == e[j]);
            lemma_key_index(e2, j - 1, other);
        } else {
            assert(e2[j] == e[j]);
            lemma_key_index(e2, j, other);
        }
    } else {
        if has_key(e2, other) {
            let j: int = key_index(e2, other);
            assert(e2[j].0 == other);
            if has_key(e, key) {
                let i: int = key_index(e, key);
                let oj: int = if j < i { j } else { j + 1 };
                assert(e2[j] == e[oj]);
            } else if e.len() == m.capacity {
                assert(e2[j] == e[j + 1]);
            } else {
                assert(e2[j] == e[j]);
            }
            assert(has_key(e, other));
        }
    }
}

/// Storing a new key into a full cache evicts the least recently used entry
/// and keeps the number of entries at the capacity.
pub proof fn law_full_cache_evicts_least_recent<V>(m: CacheModel<V>, key: usize, value: V)
    requires
        model_wf(m),
        !has_key(m.entries, key),
        m.entries.len() == m.capacity,
    ensures
        cache_lookup(cache_put(m, key, value), m.entries[0].0) is None,
        cache_put(m, key, value).entries.len() == m.capacity,
{
    let e = m.entries;
    let e2 = cache_put(m, key, value).entries;
    let k0: usize = e[0].0;
    if has_key(e2, k0) {
        let j: int = key_index(e2, k0);
        if j == e2.len() - 1 {
            assert(e[0].0 == key);
            assert(has_key(e, key));
        } else {
            assert(e2[j] == e[j + 1]);
            assert(e[j + 1].0 == e[0].0);
        }
    }
}

/// A lookup changes which entry is the most recently used, not what the
/// cache holds.
pub proof fn law_lookup_keeps_contents<V>(m: CacheModel<V>, key: usize, other: usize)
    requires
        model_wf(m),
    ensures
        model_wf(cache_touch(m, key)),
        cache_touch(m, key).capacity == m.capacity,
        cache_lookup(cache_touch(m, key), other) == cache_lookup(m, other),
{
    let e = m.entries;
    if has_key(e, key) {
        let i: int = key_index(e, key);
        let e2 = cache_touch(m, key).entries;
        assert forall|a: int| 0 <= a < e2.len() implies #[trigger] e2[a] == e[if a < i {
            a
        } else if a < e.len() - 1 {
            a + 1
        } else {
            i
        }] by {}
        assert forall|a: int, b: int|
            0 <= a < e2.len() && 0 <= b < e2.len() && a != b implies #[trigger] e2[a].0
            != #[trigger] e2[b].0 by {
            let oa: int = if a < i { a } else if a < e.len() - 1 { a + 1 } else { i };
            let ob: int = if b < i { b } else if b < e.len() - 1 { b + 1 } else { i };
            assert(e2[a] == e[oa]);
            assert(e2[b] == e[ob]);
        }
        if has_key(e, other) {
            let j: int = key_index(e, other);
            lemma_key_index(e, j, other);
            let j2: int = if j < i { j } else if j == i { e.len() - 1 } else { j - 1 };
            assert(e2[j2] == e[j]);
            lemma_key_index(e2, j2, other);
        } else if has_key(e2, other) {
            let j: int = key_index(e2, other);
            assert(e2[j].0 == other);
            let oj: int = if j < i { j } else if j < e.len() - 1 { j + 1 } else { i };
            assert(e2[j] == e[oj]);
            assert(has_key(e, other));
        }
    }
}

/// A key that was just looked up is the most recently used one, so storing a
/// different key next does not evict it (where the cache holds two or more).
pub proof fn law_looked_up_key_survives_next_put<V>(
    m: CacheModel<V>,
    key: usize,
    other: usize,
    value: V,
)
    requires
        model_wf(m),
        has_key(m.entries, key),
        other != key,
        m.capacity >= 2,
    ensures
        cache_lookup(cache_put(cache_touch(m, key), other, value), key) == cache_lookup(m, key),
{
    law_lookup_keeps_contents(m, key, key);
    let t = cache_touch(m, key);
    let e = t.entries;
    assert(e[e.len() - 1].0 == key);
    if !has_key(e, other) && e.len() == t.capacity && e[0].0 == key {
        assert(e.len() >= 2);
        assert(e[0].0 != e[e.len() - 1].0);
    }
    law_put_keeps_other_keys(t, other, value, key);
}

/// The cache after storing each of `items` in turn.
pub open spec fn put_all<V>(m: CacheModel<V>, items: Seq<(usize, V)>) -> CacheModel<V>
    decreases items.len(),
{
    if items.len() == 0 {
        m
    } else {
        put_all(cache_put(m, items[0].0, items[0].1), items.drop_first())
    }
}

proof fn lemma_put_adds_only_its_key<V>(m: CacheModel<V>, key: usize, value: V, other: usize)
    requires
        model_wf(m),
        other != key,
        has_key(cache_put(m, key, value).entries, other),
    ensures
        has_key(m.entries, other),
{
    let e = m.entries;
    let e2 = cache_put(m, key, value).entries;
    let j: int = key_index(e2, other);
    assert(e2[j].0 == other);
    if has_key(e, key) {
        let i: int = key_index(e, key);
        let oj: int = if j < i { j } else { j + 1 };
        assert(e2[j] == e[oj]);
        assert(e[oj].0 == other);
    } else if e.len() == m.capacity {
        assert(e2[j] == e[j + 1]);
        assert(e[j + 1].0 == other);
    } else {
        assert(e2[j] == e[j]);
        assert(e[j].0 == other);
    }
}

/// Storing keys that are new to the cache, and distinct from one another, fills
/// it one entry at a time up to its capacity: from an empty cache of capacity
/// `c`, `c` such stores leave exactly `c` entries.
pub proof fn law_distinct_puts_fill_cache<V>(m: CacheModel<V>, items: Seq<(usize, V)>)
    requires
        model_wf(m),
        distinct_keys(items),
        forall|i: int| 0 <= i < items.len() ==> !has_key(m.entries, #[trigger] items[i].0),
    ensures
        model_wf(put_all(m, items)),
        put_all(m, items).capacity == m.capacity,
        put_all(m, items).entries.len() == (if m.entries.len() + items.len() <= m.capacity {
            m.entries.len() + items.len()
        } else {
            m.capacity
        }),
    decreases items.len(),
{
    if items.len() > 0 {
        let k = items[0].0;
        let m1 = cache_put(m, k, items[0].1);
        law_put_keeps_cache_well_formed(m, k, items[0].1);
        assert(!has_key(m.entries, items[0].0));
        let rest = items.drop_first();
        assert forall|i: int| 0 <= i < rest.len() implies !has_key(m1.entries, #[trigger] rest[i].0) by {
            assert(rest[i] == items[i + 1]);
            assert(items[i + 1].0 != items[0].0);
            if has_key(m1.entries, rest[i].0) {
                lemma_put_adds_only_its_key(m, k, items[0].1, rest[i].0);
            }
        }
        assert(distinct_keys(rest)) by {
            assert forall|a: int, b: int|
                0 <= a < rest.len() && 0 <= b < rest.len() && a != b implies #[trigger] rest[a].0
                != #[trigger] rest[b].0 by {
                assert(rest[a] == items[a + 1]);
                assert(rest[b] == items[b + 1]);
            }
        }
        law_distinct_puts_fill_cache(m1, rest);
    }
}

/// After a store, the stored entry is the most recently used one, whether or
/// not the key was present before; the number of entries grows by one for a
/// new key in a cache that is not full, and stays the same otherwise.
pub proof fn law_put_makes_entry_most_recent<V>(m: CacheModel<V>, key: usize, value: V)
    requires
        model_wf(m),
    ensures
        cache_put(m, key, value).entries.len() > 0,
        cache_put(m, key, value).entries.last() == (key, value),
        cache_put(m, key, value).entries.len() == (if !has_key(m.entries, key)
            && m.entries.len() < m.capacity {
            m.entries.len() + 1
        } else {
            m.entries.len()
        }),
{
}

/// A key just stored survives the next store of a different key, in a cache
/// that holds two or more entries: it is not the least recently used one.
pub proof fn law_stored_key_survives_next_put<V>(
    m: CacheModel<V>,
    key: usize,
    value: V,
    other: usize,
    other_value: V,
)
    requires
        model_wf(m),
        other != key,
        m.capacity >= 2,
    ensures
        cache_lookup(cache_put(cache_put(m, key, value), other, other_value), key) == Some(value),
{
    law_put_keeps_cache_well_formed(m, key, value);
    law_lookup_after_put(m, key, value);
    let m1 = cache_put(m, key, value);
    let e = m1.entries;
    if !has_key(e, other) && e.len() == m1.capacity && e[0].0 == key {
        assert(e.len() >= 2);
        assert(e[e.len() - 1].0 == key);
        assert(e[0].0 != e[e.len() - 1].0);
    }
    law_put_keeps_other_keys(m1, other, other_value, key);
}

/// Every admitted request is counted once in the total; it is counted as
/// deduplicated exactly when it does not run the delegate itself.
pub proof fn law_request_counting<V>(m: DedupModel<V>, key: usize, s: Step, m2: DedupModel<V>)
    requires
        begin_step(m, key, s, m2),
    ensures
        m2.total == bump(m.total),
        m2.deduplicated == (if s == Step::Lead {
            m.deduplicated
        } else {
            bump(m.deduplicated)
        }),
{
}

/// The deduplicated count never exceeds the total count (as long as the total
/// does not wrap around).
pub proof fn law_deduplicated_within_total<V>(
    m: DedupModel<V>,
    key: usize,
    ticket: u64,
    s: Step,
    m2: DedupModel<V>,
    value: V,
    received: Option<Option<V>>,
)
    requires
        m.deduplicated <= m.total < u64::MAX,
    ensures
        begin_step(m, key, s, m2) ==> m2.deduplicated <= m2.total,
        finish_model(m, key, ticket).deduplicated <= finish_model(m, key, ticket).total,
        complete_model(m, key, ticket, received).deduplicated <= complete_model(
            m,
            key,
            ticket,
            received,
        ).total,
        insert_model(m, key, value).deduplicated <= insert_model(m, key, value).total,
        clear_model(m).deduplicated <= clear_model(m).total,
{
}

/// One operation on a deduplicator, as the model sees it.
pub enum Op<V> {
    /// `begin_get` for a key, admitted in the given step.
    Request(usize, Step),
    /// `finish_fetch` for a key and fetch number.
    FetchEnded(usize, u64),
    /// `complete` for a key and fetch number, with what was received.
    Completed(usize, u64, Option<Option<V>>),
    /// `insert` of a value under a key.
    Insert(usize, V),
    /// `clear` (or `set_delegate`, which changes the model in the same way).
    Clear,
}

/// `m2` is a model that the operation `op` can lead to from `m`.
pub open spec fn op_step<V>(m: DedupModel<V>, op: Op<V>, m2: DedupModel<V>) -> bool {
    match op {
        Op::Request(key, s) => begin_step(m, key, s, m2),
        Op::FetchEnded(key, t) => m2 == finish_model(m, key, t),
        Op::Completed(key, t, received) => m2 == complete_model(m, key, t, received),
        Op::Insert(key, value) => m2 == insert_model(m, key, value),
        Op::Clear => m2 == clear_model(m),
    }
}

/// `states` is a run of the operations `ops`: each state follows from the one
/// before by the operation between them.
pub open spec fn is_run<V>(ops: Seq<Op<V>>, states: Seq<DedupModel<V>>) -> bool {
    &&& states.len() == ops.len() + 1
    &&& forall|i: int| 0 <= i < ops.len() ==> op_step(states[i], #[trigger] ops[i], states[i + 1])
}

/// The operation ends the fetch numbered `ticket` for `key`.
pub open spec fn ends_fetch<V>(op: Op<V>, key: usize, ticket: u64) -> bool {
    match op {
        Op::FetchEnded(k, t) => k == key && t == ticket,
        Op::Completed(k, t, _) => k == key && t == ticket,
        _ => false,
    }
}

/// The operation is a request for `key` admitted in step `s`.
pub open spec fn is_request<V>(op: Op<V>, key: usize, s: Step) -> bool {
    match op {
        Op::Request(k, t) => k == key && t == s,
        _ => false,
    }
}

/// Among the first `n` operations, a request for `key` found the key's fetch
/// gone (its sender dropped) and failed.
pub open spec fn abandoned_before<V>(ops: Seq<Op<V>>, key: usize, n: int) -> bool {
    exists|j: int| 0 <= j < n && is_request(#[trigger] ops[j], key, Step::Abandoned)
}

/// The number of requests among the first `n` operations.
pub open spec fn requests_in<V>(ops: Seq<Op<V>>, n: int) -> nat
    decreases n,
{
    if n <= 0 {
        0
    } else {
        requests_in(ops, n - 1) + (if ops[n - 1] is Request {
            1nat
        } else {
            0nat
        })
    }
}

/// The number of requests among the first `n` operations that did not run the
/// delegate themselves (cache hits, joins, failed joins).
pub open spec fn deduplicated_in<V>(ops: Seq<Op<V>>, n: int) -> nat
    decreases n,
{
    if n <= 0 {
        0
    } else {
        deduplicated_in(ops, n - 1) + (if ops[n - 1] matches Op::Request(k, s) && s
            != Step::Lead {
            1nat
        } else {
            0nat
        })
    }
}

proof fn lemma_counts_at<V>(ops: Seq<Op<V>>, states: Seq<DedupModel<V>>, n: int)
    requires
        is_run(ops, states),
        states[0].total == 0,
        states[0].deduplicated == 0,
        forall|i: int| 0 <= i < ops.len() ==> !(#[trigger] ops[i] is Clear),
        ops.len() < u64::MAX,
        0 <= n <= ops.len(),
    ensures
        states[n].total == requests_in(ops, n),
        states[n].deduplicated == deduplicated_in(ops, n),
        deduplicated_in(ops, n) <= requests_in(ops, n) <= n,
    decreases n,
{
    if n > 0 {
        lemma_counts_at(ops, states, n - 1);
        assert(op_step(states[n - 1], ops[n - 1], states[n]));
        assert(!(ops[n - 1] is Clear));
    }
}

/// The counters over a run: since construction or the last clear, and with no
/// clear in between, the total counter is the number of requests and the
/// deduplicated counter the number of requests that did not run the delegate
/// themselves, so it never exceeds the total (for runs of fewer than
/// `u64::MAX` operations, where the counters do not wrap around).
pub proof fn law_counters_over_run<V>(ops: Seq<Op<V>>, states: Seq<DedupModel<V>>)
    requires
        is_run(ops, states),
        states[0].total == 0,
        states[0].deduplicated == 0,
        forall|i: int| 0 <= i < ops.len() ==> !(#[trigger] ops[i] is Clear),
        ops.len() < u64::MAX,
    ensures
        forall|n: int|
            0 <= n <= ops.len() ==> (#[trigger] states[n]).total == requests_in(ops, n)
                && states[n].deduplicated == deduplicated_in(ops, n) && states[n].deduplicated
                <= states[n].total,
{
    assert forall|n: int| 0 <= n <= ops.len() implies (#[trigger] states[n]).total == requests_in(
        ops,
        n,
    ) && states[n].deduplicated == deduplicated_in(ops, n) && states[n].deduplicated
        <= states[n].total by {
        lemma_counts_at(ops, states, n);
    }
}

/// A request that leads registers its key in flight under the next fetch
/// number, and moves that number on.
pub proof fn law_lead_registers_fetch<V>(m: DedupModel<V>, key: usize, m2: DedupModel<V>)
    requires
        begin_step(m, key, Step::Lead, m2),
    ensures
        !m.waiting.contains_key(key),
        m2.waiting.contains_key(key),
        m2.waiting[key].0 == m.next_fetch,
        m2.next_fetch == bump(m.next_fetch),
{
}

proof fn lemma_fetch_held<V>(
    ops: Seq<Op<V>>,
    states: Seq<DedupModel<V>>,
    key: usize,
    ticket: u64,
    chan: int,
    n: int,
)
    requires
        is_run(ops, states),
        states[0].waiting.contains_key(key),
        states[0].waiting[key] == (ticket, chan),
        forall|i: int| 0 <= i < ops.len() ==> !ends_fetch(#[trigger] ops[i], key, ticket),
        0 <= n <= ops.len(),
    ensures
        !abandoned_before(ops, key, n) ==> states[n].waiting.contains_key(key)
            && states[n].waiting[key] == (ticket, chan),
    decreases n,
{
    if n > 0 {
        lemma_fetch_held(ops, states, key, ticket, chan, n - 1);
        if !abandoned_before(ops, key, n) {
            assert(!abandoned_before(ops, key, n - 1)) by {
                if abandoned_before(ops, key, n - 1) {
                    let j = choose|j: int|
                        0 <= j < n - 1 && is_request(#[trigger] ops[j], key, Step::Abandoned);
                    assert(0 <= j < n && is_request(ops[j], key, Step::Abandoned));
                }
            }
            let op = ops[n - 1];
            assert(op_step(states[n - 1], op, states[n]));
            assert(!ends_fetch(op, key, ticket));
            if let Op::Request(k, s) = op {
                if k == key {
                    assert(s != Step::Abandoned) by {
                        if s == Step::Abandoned {
                            assert(is_request(ops[n - 1], key, Step::Abandoned));
                        }
                    }
                }
            }
        }
    }
}

/// Only one fetch per key runs at a time. Once a fetch numbered `ticket` holds
/// `key` with its result to go on channel `chan` (the channel of the sender
/// that `begin_get` handed to the fetching request), and until that fetch ends
/// (`finish_fetch` or `complete` with `ticket`), whatever other operations run
/// in between (requests for any key, ends of other fetches, among them late
/// ends of older fetches for `key`, inserts, clears), the key stays held by
/// that fetch and that channel, and every request for it joins the fetch, so
/// that `begin_get` hands it a receiver of `chan`, the channel on which
/// `finish_fetch` sends the fetch's value; or it fails where the fetch's
/// sender is gone; after such a
/// failure the entry is dropped and the next request may fetch anew. A request
/// is admitted as `Abandoned` only where upgrading the fetch's weak sender
/// found no sender (`Deduplicate::admit_in_flight`), that is, where the fetch
/// ended without sending (it panicked or was cancelled); while the fetch runs,
/// every request for the key joins it.
#[verifier::spinoff_prover]
pub proof fn law_one_fetch_per_key<V>(
    ops: Seq<Op<V>>,
    states: Seq<DedupModel<V>>,
    key: usize,
    ticket: u64,
    chan: int,
)
    requires
        is_run(ops, states),
        states[0].waiting.contains_key(key),
        states[0].waiting[key] == (ticket, chan),
        forall|i: int| 0 <= i < ops.len() ==> !ends_fetch(#[trigger] ops[i], key, ticket),
    ensures
        forall|n: int|
            0 <= n <= ops.len() && !abandoned_before(ops, key, n) ==> #[trigger] states[n].waiting.contains_key(key)
                && states[n].waiting[key] == (ticket, chan),
        forall|i: int|
            0 <= i < ops.len() && !abandoned_before(ops, key, i) ==> !is_request(
                #[trigger] ops[i],
                key,
                Step::Lead,
            ) && !is_request(ops[i], key, Step::Hit),
{
    assert forall|n: int|
        0 <= n <= ops.len() && !abandoned_before(ops, key, n) implies #[trigger] states[n].waiting.contains_key(key)
            && states[n].waiting[key] == (ticket, chan) by {
        lemma_fetch_held(ops, states, key, ticket, chan, n);
        assert(states[n].waiting.contains_key(key) && states[n].waiting[key] == (ticket, chan));
    }
    assert forall|i: int|
        0 <= i < ops.len() && !abandoned_before(ops, key, i) implies !is_request(
            #[trigger] ops[i],
            key,
            Step::Lead,
        ) && !is_request(ops[i], key, Step::Hit) by {
        lemma_fetch_held(ops, states, key, ticket, chan, i);
        assert(op_step(states[i], ops[i], states[i + 1]));
    }
}

/// Fetch numbers are never reused while the counter does not wrap around:
/// along a run, a later request that leads gets a larger number than an
/// earlier one.
pub proof fn law_fetch_numbers_increase<V>(
    ops: Seq<Op<V>>,
    states: Seq<DedupModel<V>>,
    i: int,
    j: int,
)
    requires
        is_run(ops, states),
        forall|n: int| 0 <= n < ops.len() ==> (#[trigger] states[n]).next_fetch < u64::MAX,
        0 <= i < j < ops.len(),
        ops[i] matches Op::Request(k, s) && s == Step::Lead,
    ensures
        states[i].next_fetch < states[j].next_fetch,
    decreases j - i,
{
    assert(op_step(states[i], ops[i], states[i + 1]));
    assert(states[i].next_fetch < u64::MAX);
    lemma_next_fetch_grows(ops, states, i + 1, j);
}

proof fn lemma_next_fetch_grows<V>(ops: Seq<Op<V>>, states: Seq<DedupModel<V>>, i: int, j: int)
    requires
        is_run(ops, states),
        forall|n: int| 0 <= n < ops.len() ==> (#[trigger] states[n]).next_fetch < u64::MAX,
        0 <= i <= j <= ops.len(),
    ensures
        states[i].next_fetch <= states[j].next_fetch,
    decreases j - i,
{
    if i < j {
        assert(op_step(states[i], ops[i], states[i + 1]));
        assert(states[i].next_fetch < u64::MAX);
        lemma_next_fetch_grows(ops, states, i + 1, j);
    }
}

/// Where every fetch in flight has a number below the next one, this stays so
/// through every operation (while the number does not wrap around): a request
/// that leads never gets the number of a fetch in flight.
pub proof fn law_fetch_numbers_fresh<V>(m: DedupModel<V>, op: Op<V>, m2: DedupModel<V>)
    requires
        forall|k: usize| #[trigger] m.waiting.contains_key(k) ==> m.waiting[k].0 < m.next_fetch,
        m.next_fetch < u64::MAX,
        op_step(m, op, m2),
    ensures
        forall|k: usize| #[trigger] m2.waiting.contains_key(k) ==> m2.waiting[k].0 < m2.next_fetch,
{
}

/// The end of a fetch for `key` that no longer holds it (a late end of an
/// older fetch) leaves the newer fetch's entry in place.
pub proof fn law_late_end_keeps_newer_fetch<V>(
    m: DedupModel<V>,
    key: usize,
    ticket: u64,
    old_ticket: u64,
    received: Option<Option<V>>,
)
    requires
        m.waiting.contains_key(key),
        m.waiting[key].0 == ticket,
        old_ticket != ticket,
    ensures
        finish_model(m, key, old_ticket).waiting == m.waiting,
        complete_model(m, key, old_ticket, received).waiting == m.waiting,
{
}

/// Requests for different keys do not wait on one another: with a fetch in
/// flight for `key`, a request for another key that is neither in flight nor
/// cached fetches by itself, and the fetch for `key` keeps its entry.
pub proof fn law_other_keys_fetch_independently<V>(
    m: DedupModel<V>,
    key: usize,
    other: usize,
    s: Step,
    m2: DedupModel<V>,
)
    requires
        m.waiting.contains_key(key),
        other != key,
        !m.waiting.contains_key(other),
        !(m.cache matches Some(c) && cache_lookup(c, other) is Some),
        begin_step(m, other, s, m2),
    ensures
        s == Step::Lead,
        m2.waiting.contains_key(key),
        m2.waiting[key] == m.waiting[key],
{
}

/// Once the fetch that holds a key has ended, the next request for it fetches
/// again unless the value is cached.
pub proof fn law_ended_fetch_releases_key<V>(
    m: DedupModel<V>,
    key: usize,
    s: Step,
    m2: DedupModel<V>,
)
    requires
        m.waiting.contains_key(key),
        !(m.cache matches Some(c) && cache_lookup(c, key) is Some),
        begin_step(finish_model(m, key, m.waiting[key].0), key, s, m2),
    ensures
        s == Step::Lead,
{
}

/// A request for a key that is not in flight and is cached is answered from
/// the cache, without a fetch.
pub proof fn law_cached_key_is_served<V>(m: DedupModel<V>, key: usize, s: Step, m2: DedupModel<V>)
    requires
        !m.waiting.contains_key(key),
        m.cache matches Some(c) && cache_lookup(c, key) is Some,
        begin_step(m, key, s, m2),
    ensures
        s == Step::Hit,
        m2.waiting == m.waiting,
{
}

/// What a request gets back of a direct insert: after storing `value` under
/// `key`, a request for `key` (not in flight) is a cache hit on `value`.
pub proof fn law_insert_then_get<V>(
    m: DedupModel<V>,
    key: usize,
    value: V,
    s: Step,
    m2: DedupModel<V>,
)
    requires
        dedup_wf(m),
        m.cache is Some,
        !m.waiting.contains_key(key),
        begin_step(insert_model(m, key, value), key, s, m2),
    ensures
        s == Step::Hit,
        cache_lookup(insert_model(m, key, value).cache->0, key) == Some(value),
{
    law_lookup_after_put(m.cache->0, key, value);
}

/// A fetched value is kept: after the fetch that holds `key` delivered
/// `value`, the next request for `key` is a cache hit on `value`, without
/// another fetch.
pub proof fn law_fetched_value_is_reused<V>(
    m: DedupModel<V>,
    key: usize,
    value: V,
    s: Step,
    m2: DedupModel<V>,
)
    requires
        dedup_wf(m),
        m.cache is Some,
        m.waiting.contains_key(key),
        begin_step(complete_model(m, key, m.waiting[key].0, Some(Some(value))), key, s, m2),
    ensures
        s == Step::Hit,
        cache_lookup(complete_model(m, key, m.waiting[key].0, Some(Some(value))).cache->0, key)
            == Some(value),
{
    law_lookup_after_put(m.cache->0, key, value);
}

/// Ending a fetch (`finish_fetch`) touches nothing but the key's entry: the
/// cache, the counters and the next fetch number stay; the entries of other
/// keys stay; the key's entry goes exactly where it is that fetch's.
pub proof fn law_ending_a_fetch_touches_only_its_entry<V>(
    m: DedupModel<V>,
    key: usize,
    ticket: u64,
    other: usize,
)
    requires
        other != key,
    ensures
        finish_model(m, key, ticket).cache == m.cache,
        finish_model(m, key, ticket).total == m.total,
        finish_model(m, key, ticket).deduplicated == m.deduplicated,
        finish_model(m, key, ticket).next_fetch == m.next_fetch,
        finish_model(m, key, ticket).waiting.contains_key(other) == m.waiting.contains_key(other),
        m.waiting.contains_key(other) ==> finish_model(m, key, ticket).waiting[other]
            == m.waiting[other],
        finish_model(m, key, ticket).waiting.contains_key(key) == (m.waiting.contains_key(key)
            && m.waiting[key].0 != ticket),
        finish_model(m, key, ticket).waiting.contains_key(key) ==> finish_model(
            m,
            key,
            ticket,
        ).waiting[key] == m.waiting[key],
{
}

/// A direct insert always stores its value where there is a cache, whether or
/// not a fetch for the key is in flight: a lookup of the key then finds the
/// value, other keys keep their values (but for the least recently used entry
/// that a store of a new key into a full cache evicts), and the keys in
/// flight stay as they were.
pub proof fn law_insert_stores_value<V>(m: DedupModel<V>, key: usize, value: V, other: usize)
    requires
        dedup_wf(m),
        m.cache is Some,
    ensures
        cache_lookup(insert_model(m, key, value).cache->0, key) == Some(value),
        insert_model(m, key, value).waiting == m.waiting,
        other != key && !(!has_key(m.cache->0.entries, key) && m.cache->0.entries.len()
            == m.cache->0.capacity && m.cache->0.entries[0].0 == other) ==> cache_lookup(
            insert_model(m, key, value).cache->0,
            other,
        ) == cache_lookup(m.cache->0, other),
{
    law_lookup_after_put(m.cache->0, key, value);
    if other != key && !(!has_key(m.cache->0.entries, key) && m.cache->0.entries.len()
        == m.cache->0.capacity && m.cache->0.entries[0].0 == other) {
        law_put_keeps_other_keys(m.cache->0, key, value, other);
    }
}

/// Completing a fetch stores a fetched value alongside the cached ones,
/// whether or not the fetch still holds the key: a lookup of the key then
/// finds the value, and every other key keeps its value (but for the least
/// recently used entry that a store of a new key into a full cache evicts).
/// Without a fetched value the cache stays as it was.
pub proof fn law_complete_keeps_other_cached_values<V>(
    m: DedupModel<V>,
    key: usize,
    ticket: u64,
    received: Option<Option<V>>,
    other: usize,
)
    requires
        dedup_wf(m),
        m.cache is Some,
    ensures
        received matches Some(Some(v)) ==> cache_lookup(
            complete_model(m, key, ticket, received).cache->0,
            key,
        ) == Some(v),
        !(received matches Some(Some(v))) ==> complete_model(m, key, ticket, received).cache
            == m.cache,
        other != key && !(!has_key(m.cache->0.entries, key) && m.cache->0.entries.len()
            == m.cache->0.capacity && m.cache->0.entries[0].0 == other) ==> cache_lookup(
            complete_model(m, key, ticket, received).cache->0,
            other,
        ) == cache_lookup(m.cache->0, other),
{
    if let Some(Some(v)) = received {
        law_lookup_after_put(m.cache->0, key, v);
        if other != key && !(!has_key(m.cache->0.entries, key) && m.cache->0.entries.len()
            == m.cache->0.capacity && m.cache->0.entries[0].0 == other) {
            law_put_keeps_other_keys(m.cache->0, key, v, other);
        }
    }
}

/// A fetch that failed, or found nothing, leaves the cache as it was.
pub proof fn law_failed_fetch_not_cached<V>(m: DedupModel<V>, key: usize, ticket: u64)
    ensures
        complete_model(m, key, ticket, None).cache == m.cache,
        complete_model(m, key, ticket, Some(None)).cache == m.cache,
{
}

/// With caching disabled (capacity 0) nothing is ever cached: the count stays
/// 0 and no request is a cache hit.
pub proof fn law_disabled_cache_stays_empty<V>(m: DedupModel<V>, op: Op<V>, m2: DedupModel<V>)
    requires
        m.cache is None,
        op_step(m, op, m2),
    ensures
        count_model(m) == 0,
        m2.cache is None,
        !(op matches Op::Request(k, s) && s == Step::Hit),
{
}

/// Clearing empties the cache and resets both counters, and keeps the
/// capacity and the keys in flight.
pub proof fn law_clear_resets<V>(m: DedupModel<V>)
    ensures
        count_model(clear_model(m)) == 0,
        clear_model(m).total == 0,
        clear_model(m).deduplicated == 0,
        clear_model(m).waiting == m.waiting,
        clear_model(m).next_fetch == m.next_fetch,
        clear_model(m).cache is Some <==> m.cache is Some,
        m.cache is Some ==> clear_model(m).cache->0.capacity == m.cache->0.capacity,
{
}

/// Every operation keeps the deduplicator well formed, so the cache never
/// holds more entries than its capacity.
pub proof fn law_operations_keep_well_formed<V>(m: DedupModel<V>, op: Op<V>, m2: DedupModel<V>)
    requires
        dedup_wf(m),
        op_step(m, op, m2),
    ensures
        dedup_wf(m2),
        count_model(m2) <= (if m2.cache is Some {
            m2.cache->0.capacity
        } else {
            0
        }),
{
    if let Some(c) = m.cache {
        match op {
            Op::Request(key, _) => {
                law_lookup_keeps_contents(c, key, key);
            },
            Op::Completed(key, _, received) => {
                if let Some(Some(v)) = received {
                    law_put_keeps_cache_well_formed(c, key, v);
                }
            },
            Op::Insert(key, value) => {
                law_put_keeps_cache_well_formed(c, key, value);
            },
            _ => {},
        }
    }
}

} // verus!
