# deduplicate

A caching request deduplicator. Concurrent requests for the same key share a
single run of a delegate; results are kept in a least-recently-used cache
(capacity 0 disables caching).

Layout:

- `src/` is the verified library (Verus).
  - `deduplicate.rs`: `Deduplicate`, the decisions each request makes
    (`begin_get`, `admit_in_flight`, `finish_fetch`, `complete`, `outcome`), the direct cache
    operations, the counters, and their models.
  - `cache.rs`: the LRU result cache, built on `lru::LruCache`.
  - `lru_cache.rs`, `channel.rs`: the trusted contracts of the `lru` cache and
    of the `tokio` broadcast channel that the library calls; each channel end
    carries a ghost label of its channel, and each send gives a receipt.
  - `laws.rs`: properties across operations (one fetch per key in flight over
    any run of operations, fetch numbers never reused,
    reads of the cache give back what was written, eviction order, counters).
- `app/` is the asynchronous front: it shares the library state behind a lock,
  runs the delegate's future on a tokio task and awaits the results.
- `tests/` runs the library on concrete values.
