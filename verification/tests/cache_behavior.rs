//! Behavior of the cache manager and the per-key registry.

use gitlab_cache::cache::CacheGroup;
use gitlab_cache::cache::CacheManagerBuilder;
use gitlab_cache::cache::DAILY_SECS;
use std::cell::Cell;

#[test]
fn fresh_entry_computes_once_and_returns_result() {
    let mut m = CacheManagerBuilder::new("k.msgpack.z".to_string())
        .with_fresh_duration(Some(60))
        .build::<u64>();
    let calls = Cell::new(0u32);
    let r = m.get_or_try_init(100, || {
        calls.set(calls.get() + 1);
        Ok::<u64, String>(42)
    });
    assert_eq!(r, Ok(42));
    assert_eq!(calls.get(), 1);
    assert_eq!(m.stored_ref(), Some(&42));
    assert_eq!(m.written_at(), 100);
}

#[test]
fn populated_fresh_entry_skips_compute() {
    let mut m = CacheManagerBuilder::new("k.msgpack.z".to_string())
        .with_fresh_duration(Some(60))
        .build::<u64>();
    let r0 = m.get_or_try_init(100, || Ok::<u64, String>(42));
    assert_eq!(r0, Ok(42));
    // still fresh at 159: the compute function must not run
    let r1 = m.get_or_try_init(159, || -> Result<u64, String> {
        panic!("compute must not run on a fresh entry")
    });
    assert_eq!(r1, Ok(42));
}

#[test]
fn expired_entry_computes_again() {
    let mut m = CacheManagerBuilder::new("k.msgpack.z".to_string())
        .with_fresh_duration(Some(60))
        .build::<u64>();
    assert_eq!(m.get_or_try_init(100, || Ok::<u64, String>(1)), Ok(1));
    // age 60 equals the duration: no longer fresh
    let calls = Cell::new(0u32);
    let r = m.get_or_try_init(160, || {
        calls.set(calls.get() + 1);
        Ok::<u64, String>(2)
    });
    assert_eq!(r, Ok(2));
    assert_eq!(calls.get(), 1);
    assert_eq!(m.written_at(), 160);
}

#[test]
fn no_duration_never_expires() {
    let mut m = CacheManagerBuilder::new("k.msgpack.z".to_string()).build::<u64>();
    assert_eq!(m.get_or_try_init(0, || Ok::<u64, String>(7)), Ok(7));
    let r = m.get_or_try_init(u64::MAX, || -> Result<u64, String> {
        panic!("an entry without a freshness duration never expires")
    });
    assert_eq!(r, Ok(7));
}

#[test]
fn failed_compute_stores_nothing_and_retries() {
    let mut m = CacheManagerBuilder::new("k.msgpack.z".to_string())
        .with_fresh_duration(Some(60))
        .build::<u64>();
    let r0 = m.get_or_try_init(100, || Err::<u64, String>("boom".to_string()));
    assert_eq!(r0, Err("boom".to_string()));
    assert_eq!(m.stored_ref(), None);
    // the next call retries and can succeed
    let calls = Cell::new(0u32);
    let r1 = m.get_or_try_init(101, || {
        calls.set(calls.get() + 1);
        Ok::<u64, String>(5)
    });
    assert_eq!(r1, Ok(5));
    assert_eq!(calls.get(), 1);
}

#[test]
fn builder_sets_file_name_and_duration() {
    let m = CacheManagerBuilder::new("dir/a-tags.msgpack.z".to_string())
        .with_fresh_duration(Some(DAILY_SECS))
        .build::<u64>();
    assert_eq!(m.file_name().as_str(), "dir/a-tags.msgpack.z");
    assert_eq!(m.stored_ref(), None);
}

#[test]
fn restore_adopts_a_persisted_value() {
    let mut m = CacheManagerBuilder::new("k.msgpack.z".to_string())
        .with_fresh_duration(Some(60))
        .build::<u64>();
    m.restore(9, 50);
    // fresh at 100 (age 50 < 60): served without computing
    let r = m.get_or_try_init(100, || -> Result<u64, String> {
        panic!("restored value is still fresh")
    });
    assert_eq!(r, Ok(9));
    // stale at 111: recomputed
    assert_eq!(m.get_or_try_init(111, || Ok::<u64, String>(10)), Ok(10));
}

#[test]
fn group_restore_fills_an_entry_in_place() {
    let mut g: CacheGroup<u64> = CacheGroup::new();
    let k = "alpha".to_string();
    g.get_or_create(&k, "alpha.bin".to_string(), Some(60));
    g.restore(&k, 33, 40);
    assert_eq!(g.get(&k).unwrap().stored_ref(), Some(&33));
    assert_eq!(g.get(&k).unwrap().written_at(), 40);
    // still fresh at 99 (age 59): served without recomputation
    let r = g.get_or_try_init(&k, 99, || -> Result<u64, String> {
        panic!("restored value is fresh")
    });
    assert_eq!(r, Ok(33));
}

#[test]
fn group_creates_one_entry_per_key() {
    let mut g: CacheGroup<u64> = CacheGroup::new();
    let k = "alpha".to_string();
    g.get_or_create(&k, "alpha.bin".to_string(), Some(60));
    g.get_or_create(&k, "other-file.bin".to_string(), Some(5));
    // the second call must not replace the first entry
    let m = g.get(&k).expect("entry exists");
    assert_eq!(m.file_name().as_str(), "alpha.bin");
}

#[test]
fn entries_of_distinct_keys_are_independent() {
    let mut g: CacheGroup<u64> = CacheGroup::new();
    let k1 = "alpha".to_string();
    let k2 = "beta".to_string();
    g.get_or_create(&k1, "alpha.bin".to_string(), Some(60));
    g.get_or_create(&k2, "beta.bin".to_string(), Some(60));
    // populating k1 leaves k2 untouched
    assert_eq!(g.get_or_try_init(&k1, 10, || Ok::<u64, String>(1)), Ok(1));
    assert_eq!(g.get(&k2).unwrap().stored_ref(), None);
    // populating k2 leaves k1's value and write time alone
    assert_eq!(g.get_or_try_init(&k2, 20, || Ok::<u64, String>(2)), Ok(2));
    assert_eq!(g.get(&k1).unwrap().stored_ref(), Some(&1));
    assert_eq!(g.get(&k1).unwrap().written_at(), 10);
    assert_eq!(g.get(&k2).unwrap().stored_ref(), Some(&2));
}
