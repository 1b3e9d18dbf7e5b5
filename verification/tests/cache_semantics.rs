use engine::cache::{GetStep, MemoCache};

/// Three concurrent callers, no fresh entry: the computation runs once (one
/// leader), the others wait, and all of them see the one result.
#[test]
fn single_flight_one_leader_all_share_result() {
    let mut cache: MemoCache<u64> = MemoCache::new(30);
    let key = String::from("k");

    let first = cache.get_begin(&key, 100);
    let second = cache.get_begin(&key, 100);
    let third = cache.get_begin(&key, 100);
    assert_eq!(first, GetStep::LeadCompute);
    assert_eq!(second, GetStep::JoinWait);
    assert_eq!(third, GetStep::JoinWait);

    // the leader computes and publishes; two waiters share the outcome
    let waiters = cache.finish_ok(&key, 7u64, 100);
    assert_eq!(waiters, 2);

    // every caller that now reads the key gets the identical value
    assert_eq!(cache.get_begin(&key, 101), GetStep::HitFresh);
    assert_eq!(*cache.read_fresh(&key, 101), 7u64);
    assert_eq!(cache.get_begin(&key, 102), GetStep::HitFresh);
    assert_eq!(*cache.read_fresh(&key, 102), 7u64);
}

/// An expired entry is treated as absent: the next get-or-compute leads a
/// recomputation instead of returning the stale value.
#[test]
fn expired_entry_recomputes() {
    let mut cache: MemoCache<u64> = MemoCache::new(30);
    let key = String::from("k");

    assert_eq!(cache.get_begin(&key, 100), GetStep::LeadCompute);
    cache.finish_ok(&key, 1u64, 100);

    // fresh strictly before the expiry instant
    assert_eq!(cache.get_begin(&key, 129), GetStep::HitFresh);
    assert_eq!(*cache.read_fresh(&key, 129), 1u64);

    // at the expiry instant the entry no longer serves
    assert_eq!(cache.get_begin(&key, 130), GetStep::LeadCompute);
}

/// A failed computation is never cached: the next get-or-compute for the key
/// invokes the computation again rather than returning the prior failure.
#[test]
fn failure_is_not_cached() {
    let mut cache: MemoCache<u64> = MemoCache::new(30);
    let key = String::from("k");

    assert_eq!(cache.get_begin(&key, 100), GetStep::LeadCompute);
    let waiters = cache.finish_err(&key);
    assert_eq!(waiters, 0);

    assert_eq!(cache.get_begin(&key, 100), GetStep::LeadCompute);
    cache.finish_ok(&key, 9u64, 100);
    assert_eq!(cache.get_begin(&key, 101), GetStep::HitFresh);
    assert_eq!(*cache.read_fresh(&key, 101), 9u64);
}

/// Waiters attached before a failure all share that one failure.
#[test]
fn failure_reaches_all_waiters() {
    let mut cache: MemoCache<u64> = MemoCache::new(30);
    let key = String::from("k");

    assert_eq!(cache.get_begin(&key, 50), GetStep::LeadCompute);
    assert_eq!(cache.get_begin(&key, 50), GetStep::JoinWait);
    assert_eq!(cache.get_begin(&key, 51), GetStep::JoinWait);
    assert_eq!(cache.finish_err(&key), 2);
}

/// Unrelated keys proceed independently: a flight for one key neither blocks
/// nor serves another.
#[test]
fn distinct_keys_are_independent() {
    let mut cache: MemoCache<u64> = MemoCache::new(30);
    let a = String::from("a");
    let b = String::from("b");

    assert_eq!(cache.get_begin(&a, 10), GetStep::LeadCompute);
    assert_eq!(cache.get_begin(&b, 10), GetStep::LeadCompute);
    cache.finish_ok(&a, 1u64, 10);
    cache.finish_ok(&b, 2u64, 10);
    assert_eq!(*cache.read_fresh(&a, 11), 1u64);
    assert_eq!(*cache.read_fresh(&b, 11), 2u64);
}

/// Population near the top of the clock's range clamps the expiry instead of
/// overflowing: the entry simply never expires.
#[test]
fn expiry_clamps_at_clock_top() {
    let mut cache: MemoCache<u64> = MemoCache::new(30);
    let key = String::from("k");

    let late: u64 = u64::MAX - 10;
    assert_eq!(cache.get_begin(&key, late), GetStep::LeadCompute);
    cache.finish_ok(&key, 5u64, late);
    assert_eq!(cache.get_begin(&key, u64::MAX - 1), GetStep::HitFresh);
    assert_eq!(*cache.read_fresh(&key, u64::MAX - 1), 5u64);
}

/// A zero time-to-live caches nothing usefully: an entry is already expired
/// at the instant it was populated.
#[test]
fn zero_ttl_expires_immediately() {
    let mut cache: MemoCache<u64> = MemoCache::new(0);
    let key = String::from("k");
    assert_eq!(cache.ttl(), 0);

    assert_eq!(cache.get_begin(&key, 100), GetStep::LeadCompute);
    cache.finish_ok(&key, 3u64, 100);
    assert_eq!(cache.get_begin(&key, 100), GetStep::LeadCompute);
}
