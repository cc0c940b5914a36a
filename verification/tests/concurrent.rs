//! Many callers, one computation per key per freshness window.

use gitlab_cache::cache::CacheGroup;
use gitlab_cache::gitlab::cache_dir;
use gitlab_cache::gitlab::list_tags;
use gitlab_cache::gitlab::GitlabTag;
use std::cell::Cell;

#[test]
fn repeated_callers_observe_one_computation() {
    let mut group = CacheGroup::<Vec<String>>::new();
    let counter = Cell::new(0u64);
    let dir = cache_dir("cache");
    let mut results: Vec<Vec<String>> = Vec::new();
    for _ in 0..8 {
        let fetch = |_u: String| -> Result<(Vec<GitlabTag>, Option<String>), String> {
            let n = counter.get() + 1;
            counter.set(n);
            Ok((vec![GitlabTag { name: format!("v{n}") }], None))
        };
        results.push(list_tags(&mut group, dir.as_str(), "a/b", 100, false, fetch).unwrap());
    }
    for r in &results {
        assert_eq!(r, &vec!["v1".to_string()]);
    }
    // the unique counter value proves the transport ran exactly once
    assert_eq!(counter.get(), 1);
}
