use rate_limiter::check;
use rate_limiter::decide_after_write;
use rate_limiter::plan_update;
use rate_limiter::KeyValueStore;
use rate_limiter::MemStore;
use rate_limiter::RateLimitError;
use rate_limiter::StoreError;

fn stored(store: &MemStore, key: &str) -> Option<String> {
    store.get(key).expect("in-memory get cannot fail")
}

#[test]
fn threshold_five_admit_sixth_rejects() {
    let mut store = MemStore::new();
    for t in [0u64, 10, 20, 30, 40] {
        assert_eq!(check(&mut store, "A", t), Ok(()));
    }
    assert_eq!(
        check(&mut store, "A", 45),
        Err(RateLimitError::TooManyRequests)
    );
}

#[test]
fn concrete_scenario_persists_all_six() {
    let mut store = MemStore::new();
    for t in [0u64, 10, 20, 30, 40] {
        assert_eq!(check(&mut store, "A", t), Ok(()));
    }
    assert_eq!(stored(&store, "A"), Some("[0,10,20,30,40]".to_string()));
    assert_eq!(
        check(&mut store, "A", 45),
        Err(RateLimitError::TooManyRequests)
    );
    // The rejected arrival is persisted all the same.
    assert_eq!(stored(&store, "A"), Some("[0,10,20,30,40,45]".to_string()));
}

#[test]
fn full_window_of_silence_empties_history() {
    let mut store = MemStore::new();
    let t0 = 1000u64;
    for _ in 0..6 {
        let _ = check(&mut store, "A", t0);
    }
    // Whatever piled up before t0, a call one past the window admits and
    // starts the record over.
    assert_eq!(check(&mut store, "A", t0 + 121), Ok(()));
    assert_eq!(stored(&store, "A"), Some("[1121]".to_string()));
}

#[test]
fn pruning_boundary_is_exactly_the_window() {
    let mut store = MemStore::new();
    assert_eq!(check(&mut store, "A", 0), Ok(()));
    // 119 seconds later the first arrival still counts.
    assert_eq!(check(&mut store, "A", 119), Ok(()));
    assert_eq!(stored(&store, "A"), Some("[0,119]".to_string()));

    let mut other = MemStore::new();
    assert_eq!(check(&mut other, "B", 0), Ok(()));
    // A full window later it does not.
    assert_eq!(check(&mut other, "B", 120), Ok(()));
    assert_eq!(stored(&other, "B"), Some("[120]".to_string()));
}

#[test]
fn pruned_history_keeps_order() {
    let mut store = MemStore::new();
    assert_eq!(check(&mut store, "A", 5), Ok(()));
    assert_eq!(check(&mut store, "A", 50), Ok(()));
    assert_eq!(check(&mut store, "A", 130), Ok(()));
    // 5 has left the window (130 - 5 >= 120); 50 is retained ahead of 130.
    assert_eq!(stored(&store, "A"), Some("[50,130]".to_string()));
}

#[test]
fn fresh_key_stores_single_arrival_and_admits() {
    let mut store = MemStore::new();
    assert_eq!(check(&mut store, "bob", 500), Ok(()));
    assert_eq!(stored(&store, "bob"), Some("[500]".to_string()));
}

#[test]
fn keys_are_limited_independently() {
    let mut store = MemStore::new();
    for t in [0u64, 1, 2, 3, 4, 5] {
        let _ = check(&mut store, "A", t);
    }
    assert_eq!(
        check(&mut store, "A", 6),
        Err(RateLimitError::TooManyRequests)
    );
    assert_eq!(check(&mut store, "B", 6), Ok(()));
}

#[test]
fn malformed_stored_record_fails_closed() {
    let mut store = MemStore::new();
    store
        .put("A", "surely not a timestamp list", None)
        .expect("in-memory put cannot fail");
    assert_eq!(
        check(&mut store, "A", 10),
        Err(RateLimitError::StoreUnavailable)
    );
}

#[test]
fn concurrent_checks_can_lose_an_update() {
    // Known race, kept on purpose: two checks for the same key may both read
    // the same prior record, each prune and append independently, and the
    // later write overwrites the earlier one's arrival. There is no
    // compare-and-swap; under concurrent load the effective limit can be
    // exceeded by a small margin.
    let mut store = MemStore::new();
    assert_eq!(check(&mut store, "A", 100), Ok(()));

    // Both in-flight checks read "[100]" before either writes.
    let read_one = stored(&store, "A");
    let read_two = stored(&store, "A");

    let plan_one = plan_update(Ok(read_one), 101).expect("the payload parses");
    let plan_two = plan_update(Ok(read_two), 102).expect("the payload parses");

    store
        .put("A", &plan_one.payload, Some(120))
        .expect("in-memory put cannot fail");
    store
        .put("A", &plan_two.payload, Some(120))
        .expect("in-memory put cannot fail");

    // The arrival at 101 is lost.
    assert_eq!(stored(&store, "A"), Some("[100,102]".to_string()));
}

#[test]
fn plan_update_fresh_history_is_one_arrival() {
    let plan = plan_update(Ok(None), 7).expect("a fresh history is admitted");
    assert_eq!(plan.record, vec![7]);
    assert_eq!(plan.payload, "[7]");
    assert!(plan.admitted);
}

#[test]
fn plan_update_prunes_appends_and_counts() {
    let plan = plan_update(Ok(Some("[0,1,2,3]".to_string())), 10).expect("the payload parses");
    assert_eq!(plan.record, vec![0, 1, 2, 3, 10]);
    assert_eq!(plan.payload, "[0,1,2,3,10]");
    assert!(plan.admitted);

    let over = plan_update(Ok(Some("[0,1,2,3,4]".to_string())), 10).expect("the payload parses");
    assert_eq!(over.record, vec![0, 1, 2, 3, 4, 10]);
    assert!(!over.admitted);
}

#[test]
fn plan_update_failed_read_fails_closed() {
    match plan_update(Err(StoreError), 10) {
        Err(RateLimitError::StoreUnavailable) => {}
        other => panic!("expected StoreUnavailable, got {:?}", other),
    }
}

#[test]
fn plan_update_unparseable_payload_fails_closed() {
    match plan_update(Ok(Some("bogus".to_string())), 10) {
        Err(RateLimitError::StoreUnavailable) => {}
        other => panic!("expected StoreUnavailable, got {:?}", other),
    }
}

#[test]
fn rejection_messages_match_the_service() {
    assert_eq!(RateLimitError::TooManyRequests.message(), "Too many requests");
    assert_eq!(
        RateLimitError::StoreUnavailable.message(),
        "data store not available"
    );
}

#[test]
fn decide_after_write_covers_all_outcomes() {
    assert_eq!(decide_after_write(true, true), Ok(()));
    assert_eq!(
        decide_after_write(true, false),
        Err(RateLimitError::TooManyRequests)
    );
    assert_eq!(
        decide_after_write(false, true),
        Err(RateLimitError::StoreUnavailable)
    );
    assert_eq!(
        decide_after_write(false, false),
        Err(RateLimitError::StoreUnavailable)
    );
}
