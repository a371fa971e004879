//! A caching request deduplicator: concurrent requests for one key share a
//! single fetch, and fetched values are kept in a least-recently-used cache.
//!
//! `deduplicate` holds the decisions of a request and the bookkeeping behind
//! them; `cache` the result cache, over the `lru` crate (`lru_cache`); and
//! `channel` the `tokio` broadcast channel that carries a fetch's result to the
//! requests that wait for it. `laws` states what holds across operations.
pub mod cache;
pub mod channel;
pub mod deduplicate;
pub mod laws;
pub mod lru_cache;

pub use crate::deduplicate::Admission;
pub use crate::deduplicate::Deduplicate;
pub use crate::deduplicate::DeduplicateError;
