//! Behavior of the link parser, the paginated fetcher and the query layer.

use gitlab_cache::cache::CacheGroup;
use gitlab_cache::fetch::fetch_pages;
use gitlab_cache::gitlab::cache_dir;
use gitlab_cache::gitlab::get_release;
use gitlab_cache::gitlab::list_releases;
use gitlab_cache::gitlab::list_tags;
use gitlab_cache::gitlab::retain_stable;
use gitlab_cache::gitlab::tag_names;
use gitlab_cache::gitlab::GitlabAsset;
use gitlab_cache::gitlab::GitlabRelease;
use gitlab_cache::gitlab::GitlabTag;
use gitlab_cache::link::next_page;
use std::cell::Cell;

fn release(tag: &str, draft: bool, prerelease: bool) -> GitlabRelease {
    GitlabRelease {
        tag_name: tag.to_string(),
        draft,
        prerelease,
        assets: vec![GitlabAsset {
            name: format!("{tag}.tar.gz"),
            browser_download_url: format!("https://example.test/{tag}.tar.gz"),
        }],
    }
}

#[test]
fn next_page_finds_the_next_link() {
    let h = "<https://api.example.test/repos/a/b/releases?page=2>; rel=\"next\"";
    assert_eq!(
        next_page(h),
        Some("https://api.example.test/repos/a/b/releases?page=2".to_string())
    );
}

#[test]
fn next_page_picks_next_among_other_relations() {
    let h = "<https://x.test/p1>; rel=\"prev\", <https://x.test/p3>; rel=\"next\", <https://x.test/p9>; rel=\"last\"";
    assert_eq!(next_page(h), Some("https://x.test/p3".to_string()));
}

#[test]
fn next_page_takes_the_leftmost_match() {
    let h = "<u1>; rel=\"next\", <u2>; rel=\"next\"";
    assert_eq!(next_page(h), Some("u1".to_string()));
}

#[test]
fn next_page_rejects_malformed_headers() {
    assert_eq!(next_page(""), None);
    assert_eq!(next_page("<https://x.test/p2>; rel=\"prev\""), None);
    assert_eq!(next_page("no brackets at all"), None);
    assert_eq!(next_page("<>; rel=\"next\""), None);
    assert_eq!(next_page("<unclosed; rel=\"next\""), None);
}

#[test]
fn next_page_allows_angle_inside_url() {
    // the URL part may hold anything but a closing bracket
    assert_eq!(next_page("<a<b>; rel=\"next\""), Some("a<b".to_string()));
}

#[test]
fn fetch_all_concatenates_pages_in_order() {
    let fetch = |url: String| -> Result<(Vec<u64>, Option<String>), String> {
        match url.as_str() {
            "p1" => Ok((vec![1, 2], Some("<p2>; rel=\"next\"".to_string()))),
            "p2" => Ok((vec![3], Some("<p3>; rel=\"next\"".to_string()))),
            "p3" => Ok((vec![4, 5], None)),
            _ => Err(format!("unexpected url {url}")),
        }
    };
    assert_eq!(fetch_pages("p1".to_string(), true, fetch), Ok(vec![1, 2, 3, 4, 5]));
}

#[test]
fn first_page_only_without_fetch_all() {
    let calls = Cell::new(0u32);
    let fetch = |url: String| -> Result<(Vec<u64>, Option<String>), String> {
        calls.set(calls.get() + 1);
        match url.as_str() {
            "p1" => Ok((vec![1, 2], Some("<p2>; rel=\"next\"".to_string()))),
            _ => Err(format!("unexpected url {url}")),
        }
    };
    assert_eq!(fetch_pages("p1".to_string(), false, fetch), Ok(vec![1, 2]));
    assert_eq!(calls.get(), 1);
}

#[test]
fn a_failing_page_aborts_the_whole_run() {
    let fetch = |url: String| -> Result<(Vec<u64>, Option<String>), String> {
        match url.as_str() {
            "p1" => Ok((vec![1], Some("<p2>; rel=\"next\"".to_string()))),
            _ => Err("transport down".to_string()),
        }
    };
    assert_eq!(
        fetch_pages("p1".to_string(), true, fetch),
        Err("transport down".to_string())
    );
}

#[test]
fn retain_stable_drops_drafts_and_prereleases() {
    let mut v = vec![
        release("v1", false, false),
        release("v2", true, false),
        release("v3", false, true),
    ];
    retain_stable(&mut v);
    assert_eq!(v.len(), 1);
    assert_eq!(v[0].tag_name, "v1");
}

#[test]
fn tag_names_projects_in_order() {
    let tags = vec![
        GitlabTag { name: "v1.0".to_string() },
        GitlabTag { name: "v2.0".to_string() },
    ];
    assert_eq!(tag_names(tags), vec!["v1.0".to_string(), "v2.0".to_string()]);
}

#[test]
fn cache_dir_is_under_the_root() {
    assert_eq!(cache_dir("/root/.cache/app").as_str(), "/root/.cache/app/gitlab");
}

#[test]
fn release_list_query_filters_and_caches() {
    let mut g: CacheGroup<Vec<GitlabRelease>> = CacheGroup::new();
    let dir = cache_dir("cache");
    let fetch = |url: String| -> Result<(Vec<GitlabRelease>, Option<String>), String> {
        assert_eq!(url, "https://api.github.com/repos/a/b/releases");
        Ok((
            vec![
                release("v1", false, false),
                release("v2", true, false),
                release("v3", false, true),
            ],
            None,
        ))
    };
    let r = list_releases(&mut g, dir.as_str(), "a/b", 100, true, fetch).unwrap();
    assert_eq!(r.len(), 1);
    assert_eq!(r[0].tag_name, "v1");
    // the entry sits under the normalized token, bound to its file
    let key = "a-b".to_string();
    let m = g.get(&key).expect("entry exists under the normalized key");
    assert_eq!(m.file_name().as_str(), "cache/gitlab/a-b-releases.msgpack.z");
    assert_eq!(m.written_at(), 100);
}

#[test]
fn same_token_resolves_to_the_same_entry() {
    let mut g: CacheGroup<Vec<GitlabRelease>> = CacheGroup::new();
    let dir = cache_dir("cache");
    let first = |_url: String| -> Result<(Vec<GitlabRelease>, Option<String>), String> {
        Ok((vec![release("v1", false, false)], None))
    };
    let r1 = list_releases(&mut g, dir.as_str(), "My_Repo", 100, false, first).unwrap();
    assert_eq!(r1.len(), 1);
    // "my repo" normalizes to the same token as "My_Repo": the fresh cache
    // entry answers, and this second transport is never asked
    let second = |_url: String| -> Result<(Vec<GitlabRelease>, Option<String>), String> {
        panic!("the cached entry must answer")
    };
    let r2 = list_releases(&mut g, dir.as_str(), "my repo", 150, false, second).unwrap();
    assert_eq!(r2, r1);
    assert_eq!(heck::ToKebabCase::to_kebab_case("My_Repo"), "my-repo");
    assert_eq!(heck::ToKebabCase::to_kebab_case("my repo"), "my-repo");
}

#[test]
fn different_tokens_get_independent_entries() {
    let mut g: CacheGroup<Vec<GitlabRelease>> = CacheGroup::new();
    let dir = cache_dir("cache");
    let fetch_a = |_u: String| -> Result<(Vec<GitlabRelease>, Option<String>), String> {
        Ok((vec![release("a1", false, false)], None))
    };
    let fetch_b = |_u: String| -> Result<(Vec<GitlabRelease>, Option<String>), String> {
        Ok((vec![release("b1", false, false)], None))
    };
    let ra = list_releases(&mut g, dir.as_str(), "org/a", 100, false, fetch_a).unwrap();
    let rb = list_releases(&mut g, dir.as_str(), "org/b", 110, false, fetch_b).unwrap();
    assert_eq!(ra[0].tag_name, "a1");
    assert_eq!(rb[0].tag_name, "b1");
    // populating org/b did not disturb org/a's entry
    let ma = g.get(&"org-a".to_string()).unwrap();
    assert_eq!(ma.written_at(), 100);
    assert_eq!(ma.stored_ref().unwrap()[0].tag_name, "a1");
}

#[test]
fn tag_list_query_paginates_and_projects() {
    let mut g: CacheGroup<Vec<String>> = CacheGroup::new();
    let dir = cache_dir("cache");
    let fetch = |url: String| -> Result<(Vec<GitlabTag>, Option<String>), String> {
        match url.as_str() {
            "https://api.github.com/repos/a/b/tags" => Ok((
                vec![GitlabTag { name: "v1".to_string() }],
                Some("<page2>; rel=\"next\"".to_string()),
            )),
            "page2" => Ok((vec![GitlabTag { name: "v2".to_string() }], None)),
            _ => Err(format!("unexpected url {url}")),
        }
    };
    let r = list_tags(&mut g, dir.as_str(), "a/b", 100, true, fetch).unwrap();
    assert_eq!(r, vec!["v1".to_string(), "v2".to_string()]);
    let m = g.get(&"a-b".to_string()).unwrap();
    assert_eq!(m.file_name().as_str(), "cache/gitlab/a-b-tags.msgpack.z");
}

#[test]
fn tag_list_stops_after_first_page_without_fetch_all() {
    let mut g: CacheGroup<Vec<String>> = CacheGroup::new();
    let dir = cache_dir("cache");
    let fetch = |url: String| -> Result<(Vec<GitlabTag>, Option<String>), String> {
        match url.as_str() {
            "https://api.github.com/repos/a/b/tags" => Ok((
                vec![GitlabTag { name: "v1".to_string() }],
                Some("<page2>; rel=\"next\"".to_string()),
            )),
            _ => panic!("must stop after the first page"),
        }
    };
    let r = list_tags(&mut g, dir.as_str(), "a/b", 100, false, fetch).unwrap();
    assert_eq!(r, vec!["v1".to_string()]);
}

#[test]
fn failed_query_caches_nothing_and_retries() {
    let mut g: CacheGroup<Vec<String>> = CacheGroup::new();
    let dir = cache_dir("cache");
    let failing = |_u: String| -> Result<(Vec<GitlabTag>, Option<String>), String> {
        Err("503".to_string())
    };
    let r = list_tags(&mut g, dir.as_str(), "a/b", 100, false, failing);
    assert_eq!(r, Err("503".to_string()));
    assert_eq!(g.get(&"a-b".to_string()).unwrap().stored_ref(), None);
    // the next call retries the transport
    let working = |_u: String| -> Result<(Vec<GitlabTag>, Option<String>), String> {
        Ok((vec![GitlabTag { name: "v1".to_string() }], None))
    };
    let r2 = list_tags(&mut g, dir.as_str(), "a/b", 101, false, working).unwrap();
    assert_eq!(r2, vec!["v1".to_string()]);
}

#[test]
fn single_release_query_uses_its_own_key_and_url() {
    let mut g: CacheGroup<GitlabRelease> = CacheGroup::new();
    let dir = cache_dir("cache");
    let fetch_one = |url: String| -> Result<GitlabRelease, String> {
        assert_eq!(url, "https://gitlab.example.test/api/v4/projects/a/b/releases/v1.0");
        Ok(release("v1.0", false, false))
    };
    let r = get_release(
        &mut g,
        dir.as_str(),
        "a/b",
        "v1.0",
        "https://gitlab.example.test/api/v4",
        100,
        fetch_one,
    )
    .unwrap();
    assert_eq!(r.tag_name, "v1.0");
    // key is the token of "<repo>-<tag>"
    let m = g.get(&"a-b-v1-0".to_string()).expect("entry exists");
    assert_eq!(m.file_name().as_str(), "cache/gitlab/a-b-v1-0.msgpack.z");
    // a second call within the window is served from the cache
    let r2 = get_release(
        &mut g,
        dir.as_str(),
        "a/b",
        "v1.0",
        "https://gitlab.example.test/api/v4",
        200,
        |_u: String| -> Result<GitlabRelease, String> { panic!("cached") },
    )
    .unwrap();
    assert_eq!(r2, r);
}

#[test]
fn expired_entry_is_fetched_again() {
    let mut g: CacheGroup<Vec<String>> = CacheGroup::new();
    let dir = cache_dir("cache");
    let v1 = |_u: String| -> Result<(Vec<GitlabTag>, Option<String>), String> {
        Ok((vec![GitlabTag { name: "v1".to_string() }], None))
    };
    assert_eq!(
        list_tags(&mut g, dir.as_str(), "a/b", 0, false, v1).unwrap(),
        vec!["v1".to_string()]
    );
    // one day later the entry has expired and the transport is asked again
    let v2 = |_u: String| -> Result<(Vec<GitlabTag>, Option<String>), String> {
        Ok((vec![GitlabTag { name: "v2".to_string() }], None))
    };
    let r = list_tags(&mut g, dir.as_str(), "a/b", 86400, false, v2).unwrap();
    assert_eq!(r, vec!["v2".to_string()]);
}
