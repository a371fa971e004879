use deduplicate::cache::Cache;
use deduplicate::deduplicate::DEFAULT_CACHE_CAPACITY;
use deduplicate::{Admission, Deduplicate, DeduplicateError};
use deduplicate::channel::{Rx, Tx};

fn getter(_key: usize) -> u32 {
    1
}

fn other_getter(_key: usize) -> u32 {
    2
}

type Dedup = Deduplicate<fn(usize) -> u32, String>;

fn make(capacity: usize) -> Dedup {
    Deduplicate::with_capacity(getter as fn(usize) -> u32, capacity)
}

fn expect_fetch(a: Admission<String>) -> (u64, Tx<Option<String>>, Rx<Option<String>>) {
    match a {
        Admission::Fetch(t, tx, rx) => (t, tx, rx),
        _ => panic!("expected a fetch"),
    }
}

fn expect_wait(a: Admission<String>) -> Rx<Option<String>> {
    match a {
        Admission::Wait(rx) => rx,
        _ => panic!("expected to wait"),
    }
}

fn expect_done(a: Admission<String>) -> Result<Option<String>, DeduplicateError> {
    match a {
        Admission::Done(r) => r,
        _ => panic!("expected an answer"),
    }
}

#[test]
fn new_starts_empty_with_default_capacity() {
    let d: Dedup = Deduplicate::new(getter as fn(usize) -> u32);
    assert_eq!(DEFAULT_CACHE_CAPACITY, 512);
    assert_eq!(d.count(), 0);
    assert_eq!(d.request_count(), 0);
    assert_eq!(d.request_deduplicated_count(), 0);
    assert_eq!((d.delegate())(7), 1);
}

#[test]
fn insert_then_get_is_a_cache_hit() {
    let mut d = make(4);
    assert_eq!(d.insert(3, "three".to_string()), Ok(()));
    assert_eq!(d.count(), 1);
    let r = expect_done(d.begin_get(3));
    assert_eq!(r, Ok(Some("three".to_string())));
    assert_eq!(d.request_count(), 1);
    assert_eq!(d.request_deduplicated_count(), 1);
}

#[test]
fn insert_without_cache_fails() {
    let mut d = make(0);
    assert_eq!(d.insert(3, "three".to_string()), Err(DeduplicateError::NoCache));
    assert_eq!(d.count(), 0);
}

#[test]
fn first_request_fetches_and_later_ones_join() {
    let mut d = make(4);
    let (t, tx, rx) = expect_fetch(d.begin_get(5));
    let rx2 = expect_wait(d.begin_get(5));
    let rx3 = expect_wait(d.begin_get(5));
    assert_eq!(d.request_count(), 3);
    assert_eq!(d.request_deduplicated_count(), 2);

    let _ = d.finish_fetch(5, t, tx, Some("five".to_string()));
    assert_eq!(
        Dedup::outcome(rx2.into_receiver().blocking_recv().ok()),
        Ok(Some("five".to_string()))
    );
    assert_eq!(
        Dedup::outcome(rx3.into_receiver().blocking_recv().ok()),
        Ok(Some("five".to_string()))
    );
    let received = rx.into_receiver().blocking_recv().ok();
    assert_eq!(d.complete(5, t, received), Ok(Some("five".to_string())));
    assert_eq!(d.count(), 1);

    // The next request is answered from the cache, without a fetch.
    let r = expect_done(d.begin_get(5));
    assert_eq!(r, Ok(Some("five".to_string())));
    assert_eq!(d.request_count(), 4);
    assert_eq!(d.request_deduplicated_count(), 3);
}

#[test]
fn requests_for_other_keys_fetch_separately() {
    let mut d = make(4);
    let _a = expect_fetch(d.begin_get(1));
    let _b = expect_fetch(d.begin_get(2));
    assert_eq!(d.request_deduplicated_count(), 0);
    assert_eq!(d.request_count(), 2);
}

#[test]
fn lost_fetch_fails_the_joiner_and_releases_the_key() {
    let mut d = make(4);
    let (_t, tx, _rx) = expect_fetch(d.begin_get(5));
    drop(tx);
    let r = expect_done(d.begin_get(5));
    assert_eq!(r, Err(DeduplicateError::Failed));
    assert_eq!(d.request_deduplicated_count(), 1);
    // The entry was dropped: the next request fetches again.
    let _again = expect_fetch(d.begin_get(5));
}

#[test]
fn closed_channel_fails_the_fetching_request() {
    let mut d = make(4);
    let (t, tx, rx) = expect_fetch(d.begin_get(5));
    drop(tx);
    let received = rx.into_receiver().blocking_recv().ok();
    assert_eq!(received, None);
    assert_eq!(d.complete(5, t, received), Err(DeduplicateError::Failed));
    assert_eq!(d.count(), 0);
    let _again = expect_fetch(d.begin_get(5));
}

#[test]
fn empty_result_is_not_cached() {
    let mut d = make(4);
    let (t, tx, rx) = expect_fetch(d.begin_get(5));
    let _ = d.finish_fetch(5, t, tx, None);
    let received = rx.into_receiver().blocking_recv().ok();
    assert_eq!(received, Some(None));
    assert_eq!(d.complete(5, t, received), Ok(None));
    assert_eq!(d.count(), 0);
}

#[test]
fn without_cache_every_request_fetches() {
    let mut d = make(0);
    let (t, tx, rx) = expect_fetch(d.begin_get(5));
    let _ = d.finish_fetch(5, t, tx, Some("five".to_string()));
    let received = rx.into_receiver().blocking_recv().ok();
    assert_eq!(d.complete(5, t, received), Ok(Some("five".to_string())));
    assert_eq!(d.count(), 0);
    let _again = expect_fetch(d.begin_get(5));
}

#[test]
fn outcome_maps_a_closed_channel_to_failed() {
    assert_eq!(Dedup::outcome(None), Err(DeduplicateError::Failed));
    assert_eq!(Dedup::outcome(Some(None)), Ok(None));
    assert_eq!(
        Dedup::outcome(Some(Some("x".to_string()))),
        Ok(Some("x".to_string()))
    );
}

#[test]
fn clear_resets_counters_and_cache() {
    let mut d = make(4);
    d.insert(1, "one".to_string()).unwrap();
    d.insert(2, "two".to_string()).unwrap();
    let _ = expect_done(d.begin_get(1));
    assert_eq!(d.count(), 2);
    d.clear();
    assert_eq!(d.count(), 0);
    assert_eq!(d.request_count(), 0);
    assert_eq!(d.request_deduplicated_count(), 0);
    let _fetch = expect_fetch(d.begin_get(1));
}

#[test]
fn clear_keeps_keys_in_flight() {
    let mut d = make(4);
    let _fetch = expect_fetch(d.begin_get(1));
    d.clear();
    let _join = expect_wait(d.begin_get(1));
}

#[test]
fn set_delegate_replaces_and_clears() {
    let mut d = make(4);
    d.insert(1, "one".to_string()).unwrap();
    let _ = expect_done(d.begin_get(1));
    d.set_delegate(other_getter as fn(usize) -> u32);
    assert_eq!((d.delegate())(0), 2);
    assert_eq!(d.count(), 0);
    assert_eq!(d.request_count(), 0);
    assert_eq!(d.request_deduplicated_count(), 0);
}

#[test]
fn least_recently_used_entry_is_evicted() {
    let mut d = make(2);
    d.insert(1, "one".to_string()).unwrap();
    d.insert(2, "two".to_string()).unwrap();
    // Using key 1 makes key 2 the least recently used.
    let _ = expect_done(d.begin_get(1));
    d.insert(3, "three".to_string()).unwrap();
    assert_eq!(d.count(), 2);
    let _fetch = expect_fetch(d.begin_get(2));
    assert_eq!(expect_done(d.begin_get(1)), Ok(Some("one".to_string())));
    assert_eq!(expect_done(d.begin_get(3)), Ok(Some("three".to_string())));
}

#[test]
fn insert_replaces_an_existing_value() {
    let mut d = make(2);
    d.insert(1, "one".to_string()).unwrap();
    d.insert(1, "uno".to_string()).unwrap();
    assert_eq!(d.count(), 1);
    assert_eq!(expect_done(d.begin_get(1)), Ok(Some("uno".to_string())));
}

#[test]
fn error_messages() {
    assert_eq!(DeduplicateError::Failed.to_string(), "Delegated get failed");
    assert_eq!(DeduplicateError::NoCache.to_string(), "Cache not enabled");
}

#[test]
fn cache_without_capacity_is_none() {
    assert!(Cache::<u32>::new(0).is_none());
}

#[test]
fn cache_get_insert_count() {
    let mut c: Cache<u32> = Cache::new(3).unwrap();
    assert_eq!(c.get(1), None);
    c.insert(1, 10);
    c.insert(2, 20);
    c.insert(3, 30);
    assert_eq!(c.count(), 3);
    assert_eq!(c.get(1), Some(10));
    c.insert(4, 40);
    assert_eq!(c.count(), 3);
    assert_eq!(c.get(2), None);
    assert_eq!(c.get(1), Some(10));
    assert_eq!(c.get(3), Some(30));
    assert_eq!(c.get(4), Some(40));
    c.insert(3, 33);
    assert_eq!(c.get(3), Some(33));
    c.clear();
    assert_eq!(c.count(), 0);
    assert_eq!(c.get(1), None);
    c.insert(5, 50);
    assert_eq!(c.get(5), Some(50));
}

#[test]
fn cache_of_one_keeps_the_latest() {
    let mut c: Cache<u32> = Cache::new(1).unwrap();
    c.insert(1, 10);
    c.insert(2, 20);
    assert_eq!(c.count(), 1);
    assert_eq!(c.get(1), None);
    assert_eq!(c.get(2), Some(20));
}

#[test]
fn fetch_numbers_count_up() {
    let mut d = make(4);
    let (t1, _tx1, _rx1) = expect_fetch(d.begin_get(1));
    let (t2, _tx2, _rx2) = expect_fetch(d.begin_get(2));
    assert_eq!(t1, 0);
    assert_eq!(t2, 1);
}

#[test]
fn late_complete_of_an_older_fetch_keeps_the_newer_one() {
    let mut d = make(0);
    // The first fetch for key 5 ends; its request has not completed yet.
    let (t1, tx1, rx1) = expect_fetch(d.begin_get(5));
    let _ = d.finish_fetch(5, t1, tx1, Some("first".to_string()));
    // A new request leads a second fetch for the key.
    let (t2, tx2, rx2) = expect_fetch(d.begin_get(5));
    assert_ne!(t1, t2);
    // The first request completes late: the second fetch keeps the key.
    let received = rx1.into_receiver().blocking_recv().ok();
    assert_eq!(d.complete(5, t1, received), Ok(Some("first".to_string())));
    let rx3 = expect_wait(d.begin_get(5));
    assert_eq!(d.request_deduplicated_count(), 1);
    let _ = d.finish_fetch(5, t2, tx2, Some("second".to_string()));
    assert_eq!(
        Dedup::outcome(rx3.into_receiver().blocking_recv().ok()),
        Ok(Some("second".to_string()))
    );
    let received = rx2.into_receiver().blocking_recv().ok();
    assert_eq!(d.complete(5, t2, received), Ok(Some("second".to_string())));
    let _again = expect_fetch(d.begin_get(5));
}

#[test]
fn late_finish_of_an_older_fetch_keeps_the_newer_one() {
    let mut d = make(0);
    let (t1, tx1, _rx1) = expect_fetch(d.begin_get(5));
    // The first request ends without a value while its fetch still runs.
    assert_eq!(d.complete(5, t1, None), Err(DeduplicateError::Failed));
    // A new request leads a second fetch for the key.
    let (t2, _tx2, _rx2) = expect_fetch(d.begin_get(5));
    assert_ne!(t1, t2);
    // The old fetch ends late and must not release the new fetch.
    let _ = d.finish_fetch(5, t1, tx1, Some("old".to_string()));
    let _join = expect_wait(d.begin_get(5));
}

#[test]
fn admission_in_flight_follows_the_upgrade() {
    let mut d = make(4);
    let (t, tx, _rx) = expect_fetch(d.begin_get(5));
    let (_t7, tx7, _rx7) = expect_fetch(d.begin_get(7));
    // A live sender: the request joins.
    let _joined = expect_wait(d.admit_in_flight(5, Some(tx7)));
    assert_eq!(d.request_count(), 3);
    assert_eq!(d.request_deduplicated_count(), 1);
    // No sender: the request fails and the entry is dropped.
    let r = expect_done(d.admit_in_flight(5, None));
    assert_eq!(r, Err(DeduplicateError::Failed));
    assert_eq!(d.request_count(), 4);
    assert_eq!(d.request_deduplicated_count(), 2);
    let (t2, _tx2, _rx2) = expect_fetch(d.begin_get(5));
    assert_ne!(t, t2);
    // The old fetch's end leaves the new fetch's entry in place.
    let _ = d.finish_fetch(5, t, tx, Some("five".to_string()));
    let _join = expect_wait(d.begin_get(5));
}
