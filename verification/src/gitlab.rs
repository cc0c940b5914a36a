//! The release/tag query layer.
//!
//! Three independently cached queries against a remote release API: the
//! release list and the tag list of a repository, and a single release by
//! tag.  Each normalizes its repository identifier to a canonical token,
//! keeps one cache entry per token in its own registry, and populates the
//! entry through the paginated fetcher at most once per freshness window.
//! The HTTP transport is handed in as a function from a URL to a typed
//! page; reading the clock, the cache directory and the fetch-all flag is
//! the embedding application's business.

use crate::cache::CacheGroup;
use crate::cache::DAILY_SECS;
use crate::fetch::fetch_errored;
use crate::fetch::fetch_pages;
use crate::fetch::fetched_records;
use crate::fetch::truncated_records;
use vstd::pervasive::cloned;
use vstd::prelude::*;
use vstd::string::StringExecFns;

verus! {

/// One release: its tag name, its draft and prerelease flags, and its
/// ordered assets.
#[derive(Debug, PartialEq, Eq)]
pub struct GitlabRelease {
    pub tag_name: String,
    pub draft: bool,
    pub prerelease: bool,
    pub assets: Vec<GitlabAsset>,
}

/// One tag: its name.
#[derive(Debug, PartialEq, Eq)]
pub struct GitlabTag {
    pub name: String,
}

/// One release asset: its display name and its download URL.
#[derive(Debug, PartialEq, Eq)]
pub struct GitlabAsset {
    pub name: String,
    pub browser_download_url: String,
}

impl Clone for GitlabAsset {
    fn clone(&self) -> (res: Self)
        ensures
            res == *self,
    {
        GitlabAsset {
            name: self.name.clone(),
            browser_download_url: self.browser_download_url.clone(),
        }
    }
}

impl Clone for GitlabTag {
    fn clone(&self) -> (res: Self)
        ensures
            res == *self,
    {
        GitlabTag { name: self.name.clone() }
    }
}

/// `a` and `b` agree on every observable field: the asset vectors may be
/// distinct vectors, but they hold the same assets in the same order.
pub open spec fn release_eq(a: GitlabRelease, b: GitlabRelease) -> bool {
    &&& a.tag_name == b.tag_name
    &&& a.draft == b.draft
    &&& a.prerelease == b.prerelease
    &&& a.assets@ == b.assets@
}

/// `a` and `b` hold observably equal releases in the same order.
pub open spec fn releases_eq(a: Seq<GitlabRelease>, b: Seq<GitlabRelease>) -> bool {
    &&& a.len() == b.len()
    &&& forall|i: int| 0 <= i < a.len() ==> release_eq(a[i], b[i])
}

impl Clone for GitlabRelease {
    fn clone(&self) -> (res: Self)
        ensures
            release_eq(*self, res),
    {
        let assets = self.assets.clone();
        proof {
            assert forall|i: int| 0 <= i < assets@.len() implies assets@[i]
                == self.assets@[i] by {
                assert(cloned::<GitlabAsset>(self.assets@[i], assets@[i]));
            }
            assert(assets@ =~= self.assets@);
        }
        GitlabRelease {
            tag_name: self.tag_name.clone(),
            draft: self.draft,
            prerelease: self.prerelease,
            assets,
        }
    }
}

/// The canonical, filesystem-safe, case-normalized (lowercase,
/// hyphen-separated) token of an identifier.  The token depends on the
/// identifier's characters alone; nothing further is assumed about it.
pub uninterp spec fn kebab_of(s: Seq<char>) -> Seq<char>;

/// Relies on heck's `to_kebab_case`: a pure function of the input string
/// that produces its lowercase, hyphen-separated form.
#[verifier::external_body]
fn to_kebab_case(s: &str) -> (r: String)
    ensures
        r@ == kebab_of(s@),
{
    heck::ToKebabCase::to_kebab_case(s)
}

/// The releases-list endpoint of a repository.
pub open spec fn releases_url_of(repo: Seq<char>) -> Seq<char> {
    "https://api.github.com/repos/"@ + repo + "/releases"@
}

fn releases_url(repo: &str) -> (r: String)
    ensures
        r@ == releases_url_of(repo@),
{
    let mut s = "https://api.github.com/repos/".to_owned();
    s.append(repo);
    s.append("/releases");
    s
}

/// The tags-list endpoint of a repository.
pub open spec fn tags_url_of(repo: Seq<char>) -> Seq<char> {
    "https://api.github.com/repos/"@ + repo + "/tags"@
}

fn tags_url(repo: &str) -> (r: String)
    ensures
        r@ == tags_url_of(repo@),
{
    let mut s = "https://api.github.com/repos/".to_owned();
    s.append(repo);
    s.append("/tags");
    s
}

/// The single-release-by-tag endpoint, templated by the API base URL.
pub open spec fn release_url_of(api_base_url: Seq<char>, repo: Seq<char>, tag: Seq<char>) -> Seq<
    char,
> {
    api_base_url + "/projects/"@ + repo + "/releases/"@ + tag
}

fn release_url(api_base_url: &str, repo: &str, tag: &str) -> (r: String)
    ensures
        r@ == release_url_of(api_base_url@, repo@, tag@),
{
    let mut s = api_base_url.to_owned();
    s.append("/projects/");
    s.append(repo);
    s.append("/releases/");
    s.append(tag);
    s
}

/// The cache key of a single release: the normalized token of
/// `<repo>-<tag>`.
pub open spec fn release_key_of(repo: Seq<char>, tag: Seq<char>) -> Seq<char> {
    kebab_of(repo + "-"@ + tag)
}

fn release_key(repo: &str, tag: &str) -> (r: String)
    ensures
        r@ == release_key_of(repo@, tag@),
{
    let mut s = repo.to_owned();
    s.append("-");
    s.append(tag);
    to_kebab_case(s.as_str())
}

/// The dedicated cache directory under a cache root.
pub fn cache_dir(cache_root: &str) -> (r: String)
    ensures
        r@ == cache_root@ + "/gitlab"@,
{
    let mut s = cache_root.to_owned();
    s.append("/gitlab");
    s
}

/// The file a release-list entry persists to.
pub open spec fn releases_file_of(dir: Seq<char>, key: Seq<char>) -> Seq<char> {
    dir + "/"@ + key + "-releases.msgpack.z"@
}

/// The file a tag-list entry persists to.
pub open spec fn tags_file_of(dir: Seq<char>, key: Seq<char>) -> Seq<char> {
    dir + "/"@ + key + "-tags.msgpack.z"@
}

/// The file a single-release entry persists to.
pub open spec fn release_file_of(dir: Seq<char>, key: Seq<char>) -> Seq<char> {
    dir + "/"@ + key + ".msgpack.z"@
}

/// A release survives filtering when it is neither a draft nor a
/// prerelease.
pub open spec fn stable(r: GitlabRelease) -> bool {
    !r.draft && !r.prerelease
}

/// The releases that are neither drafts nor prereleases, in order.
pub open spec fn stable_of(s: Seq<GitlabRelease>) -> Seq<GitlabRelease> {
    s.filter(|r: GitlabRelease| stable(r))
}

/// Discard every release flagged draft or prerelease, keeping the order
/// of the rest.
pub fn retain_stable(releases: &mut Vec<GitlabRelease>)
    ensures
        final(releases)@ == stable_of(old(releases)@),
{
    let ghost orig = old(releases)@;
    let mut i: usize = 0;
    let ghost mut k: int = 0;
    while i < releases.len()
        invariant
            0 <= k <= orig.len(),
            i == stable_of(orig.subrange(0, k)).len(),
            releases@ == stable_of(orig.subrange(0, k)) + orig.subrange(k, orig.len() as int),
        decreases orig.len() - k,
    {
        proof {
            reveal(Seq::filter);
            assert(releases@[i as int] == orig[k]);
            assert(orig.subrange(0, k + 1).drop_last() =~= orig.subrange(0, k));
            assert(orig.subrange(0, k + 1).last() == orig[k]);
        }
        if releases[i].draft || releases[i].prerelease {
            releases.remove(i);
            proof {
                reveal(Seq::filter);
                k = k + 1;
                assert(stable_of(orig.subrange(0, k)) == stable_of(orig.subrange(0, k - 1)));
                assert(releases@ =~= stable_of(orig.subrange(0, k)) + orig.subrange(
                    k,
                    orig.len() as int,
                ));
            }
        } else {
            proof {
                reveal(Seq::filter);
                k = k + 1;
                assert(stable_of(orig.subrange(0, k)) == stable_of(orig.subrange(0, k - 1)).push(
                    orig[k - 1],
                ));
                assert(releases@ =~= stable_of(orig.subrange(0, k)) + orig.subrange(
                    k,
                    orig.len() as int,
                ));
            }
            i = i + 1;
        }
    }
    proof {
        reveal(Seq::filter);
        assert(releases@.len() == i + orig.len() - k);
        assert(orig.subrange(0, orig.len() as int) =~= orig);
        assert(releases@ =~= stable_of(orig));
    }
}

/// The names of a tag sequence, in order.
pub open spec fn names_of(s: Seq<GitlabTag>) -> Seq<String> {
    s.map_values(|t: GitlabTag| t.name)
}

/// Project each tag record to its name.
pub fn tag_names(tags: Vec<GitlabTag>) -> (r: Vec<String>)
    ensures
        r@ == names_of(tags@),
{
    let mut out: Vec<String> = Vec::new();
    let mut i: usize = 0;
    while i < tags.len()
        invariant
            i <= tags@.len(),
            out@ == names_of(tags@.subrange(0, i as int)),
        decreases tags@.len() - i,
    {
        out.push(tags[i].name.clone());
        proof {
            assert(out@ =~= names_of(tags@.subrange(0, i + 1)));
        }
        i = i + 1;
    }
    proof {
        assert(tags@.subrange(0, tags@.len() as int) =~= tags@);
    }
    out
}

/// A clone of a release is observably the same release.
proof fn lemma_release_cloned(a: GitlabRelease, b: GitlabRelease)
    requires
        cloned::<GitlabRelease>(a, b),
    ensures
        release_eq(a, b),
{
}

/// A clone of a release vector holds observably the same releases.
proof fn lemma_releases_cloned(a: Vec<GitlabRelease>, b: Vec<GitlabRelease>)
    requires
        cloned::<Vec<GitlabRelease>>(a, b),
    ensures
        releases_eq(a@, b@),
{
    if a == b {
    } else {
        assert forall|i: int| 0 <= i < a@.len() implies release_eq(a@[i], b@[i]) by {
            assert(cloned::<GitlabRelease>(a@[i], b@[i]));
            lemma_release_cloned(a@[i], b@[i]);
        }
    }
}

/// A clone of a string vector reads as the same strings.
proof fn lemma_strings_cloned(a: Vec<String>, b: Vec<String>)
    requires
        cloned::<Vec<String>>(a, b),
    ensures
        a@ == b@,
{
    if a == b {
    } else {
        assert forall|i: int| 0 <= i < a@.len() implies a@[i] == b@[i] by {
            assert(cloned::<String>(a@[i], b@[i]));
        }
        assert(a@ =~= b@);
    }
}

/// Ensure the release-list registry holds an entry for `key`, bound to
/// its deterministic file under `dir` and the daily freshness window.
pub fn get_releases_cache(group: &mut CacheGroup<Vec<GitlabRelease>>, dir: &str, key: &String)
    ensures
        final(group).contains(key@),
        old(group).contains(key@) ==> *final(group) == *old(group),
        !old(group).contains(key@) ==> {
            let m = final(group).lookup(key@)->0;
            &&& m.stored() is None
            &&& m.spec_file_name() == releases_file_of(dir@, key@)
            &&& m.spec_fresh_duration() == Option::Some(DAILY_SECS)
        },
        forall|k2: Seq<char>| k2 != key@ ==> final(group).lookup(k2) == old(group).lookup(k2),
{
    let mut f = dir.to_owned();
    f.append("/");
    f.append(key.as_str());
    f.append("-releases.msgpack.z");
    group.get_or_create(key, f, Option::Some(DAILY_SECS));
}

/// Ensure the tag-list registry holds an entry for `key`, bound to its
/// deterministic file under `dir` and the daily freshness window.
pub fn get_tags_cache(group: &mut CacheGroup<Vec<String>>, dir: &str, key: &String)
    ensures
        final(group).contains(key@),
        old(group).contains(key@) ==> *final(group) == *old(group),
        !old(group).contains(key@) ==> {
            let m = final(group).lookup(key@)->0;
            &&& m.stored() is None
            &&& m.spec_file_name() == tags_file_of(dir@, key@)
            &&& m.spec_fresh_duration() == Option::Some(DAILY_SECS)
        },
        forall|k2: Seq<char>| k2 != key@ ==> final(group).lookup(k2) == old(group).lookup(k2),
{
    let mut f = dir.to_owned();
    f.append("/");
    f.append(key.as_str());
    f.append("-tags.msgpack.z");
    group.get_or_create(key, f, Option::Some(DAILY_SECS));
}

/// Ensure the single-release registry holds an entry for `key`, bound to
/// its deterministic file under `dir` and the daily freshness window.
pub fn get_release_cache(group: &mut CacheGroup<GitlabRelease>, dir: &str, key: &String)
    ensures
        final(group).contains(key@),
        old(group).contains(key@) ==> *final(group) == *old(group),
        !old(group).contains(key@) ==> {
            let m = final(group).lookup(key@)->0;
            &&& m.stored() is None
            &&& m.spec_file_name() == release_file_of(dir@, key@)
            &&& m.spec_fresh_duration() == Option::Some(DAILY_SECS)
        },
        forall|k2: Seq<char>| k2 != key@ ==> final(group).lookup(k2) == old(group).lookup(k2),
{
    let mut f = dir.to_owned();
    f.append("/");
    f.append(key.as_str());
    f.append(".msgpack.z");
    group.get_or_create(key, f, Option::Some(DAILY_SECS));
}

/// `res` is a possible outcome of one uncached release-list query: on
/// success, the draft/prerelease-filtered records of a complete (or
/// cap-cut) pagination run from the repository's releases endpoint; on
/// failure, an error some page request can return.
pub open spec fn releases_result<E, F: Fn(String) -> Result<(Vec<GitlabRelease>, Option<String>), E>>(
    fetch: F,
    repo: Seq<char>,
    fetch_all: bool,
    res: Result<Vec<GitlabRelease>, E>,
) -> bool {
    match res {
        Result::Ok(v) => exists|all: Seq<GitlabRelease>|
            {
                &&& v@ == #[trigger] stable_of(all)
                &&& (fetched_records(fetch, releases_url_of(repo), fetch_all, all)
                    || truncated_records(fetch, releases_url_of(repo), all))
            },
        Result::Err(e) => fetch_errored::<GitlabRelease, E, F>(fetch, e),
    }
}

/// `res` is a possible outcome of one uncached tag-list query: on
/// success, the names of the records of a complete (or cap-cut)
/// pagination run from the repository's tags endpoint.
pub open spec fn tags_result<E, F: Fn(String) -> Result<(Vec<GitlabTag>, Option<String>), E>>(
    fetch: F,
    repo: Seq<char>,
    fetch_all: bool,
    res: Result<Vec<String>, E>,
) -> bool {
    match res {
        Result::Ok(v) => exists|all: Seq<GitlabTag>|
            {
                &&& v@ == #[trigger] names_of(all)
                &&& (fetched_records(fetch, tags_url_of(repo), fetch_all, all)
                    || truncated_records(fetch, tags_url_of(repo), all))
            },
        Result::Err(e) => fetch_errored::<GitlabTag, E, F>(fetch, e),
    }
}

/// `res` is a possible outcome of one uncached single-release query:
/// whatever `fetch_one` can return for the release's endpoint URL.
pub open spec fn release_result<E, G: Fn(String) -> Result<GitlabRelease, E>>(
    fetch_one: G,
    api_base_url: Seq<char>,
    repo: Seq<char>,
    tag: Seq<char>,
    res: Result<GitlabRelease, E>,
) -> bool {
    exists|u: String|
        {
            &&& u@ == release_url_of(api_base_url, repo, tag)
            &&& #[trigger] call_ensures(fetch_one, (u,), res)
        }
}

/// One uncached release-list query: fetch every page of the repository's
/// releases endpoint, then discard drafts and prereleases.
pub fn list_releases_<E, F: Fn(String) -> Result<(Vec<GitlabRelease>, Option<String>), E>>(
    repo: &str,
    fetch_all: bool,
    fetch: F,
) -> (r: Result<Vec<GitlabRelease>, E>)
    requires
        forall|u: String| call_requires(fetch, (u,)),
    ensures
        releases_result(fetch, repo@, fetch_all, r),
{
    let ghost fetch_g = fetch;
    let url = releases_url(repo);
    match fetch_pages(url, fetch_all, fetch) {
        Result::Err(e) => {
            proof {
                assert(fetch_errored::<GitlabRelease, E, F>(fetch_g, e));
            }
            Result::Err(e)
        },
        Result::Ok(mut v) => {
            let ghost all_g = v@;
            retain_stable(&mut v);
            proof {
                assert(v@ == stable_of(all_g));
            }
            Result::Ok(v)
        },
    }
}

/// One uncached tag-list query: fetch every page of the repository's
/// tags endpoint, then project each record to its name.
pub fn list_tags_<E, F: Fn(String) -> Result<(Vec<GitlabTag>, Option<String>), E>>(
    repo: &str,
    fetch_all: bool,
    fetch: F,
) -> (r: Result<Vec<String>, E>)
    requires
        forall|u: String| call_requires(fetch, (u,)),
    ensures
        tags_result(fetch, repo@, fetch_all, r),
{
    let ghost fetch_g = fetch;
    let url = tags_url(repo);
    match fetch_pages(url, fetch_all, fetch) {
        Result::Err(e) => {
            proof {
                assert(fetch_errored::<GitlabTag, E, F>(fetch_g, e));
            }
            Result::Err(e)
        },
        Result::Ok(v) => {
            let ghost all_g = v@;
            let names = tag_names(v);
            proof {
                assert(names@ == names_of(all_g));
            }
            Result::Ok(names)
        },
    }
}

/// One uncached single-release query: one request against the
/// single-release endpoint.
pub fn get_release_<E, G: Fn(String) -> Result<GitlabRelease, E>>(
    repo: &str,
    tag: &str,
    api_base_url: &str,
    fetch_one: G,
) -> (r: Result<GitlabRelease, E>)
    requires
        forall|u: String| call_requires(fetch_one, (u,)),
    ensures
        release_result(fetch_one, api_base_url@, repo@, tag@, r),
{
    let url = release_url(api_base_url, repo, tag);
    let ghost u_g = url;
    let r = fetch_one(url);
    proof {
        assert(call_ensures(fetch_one, (u_g,), r));
    }
    r
}

/// The cached release list of `repo`.
///
/// The repository identifier is normalized to its token; the entry for
/// that token (created on first use, under its deterministic file name)
/// is returned while fresh, and otherwise populated by one uncached
/// release-list query.  No other key's entry is touched.  On a failed
/// query nothing is stored and the error surfaces.
pub fn list_releases<E, F: Fn(String) -> Result<(Vec<GitlabRelease>, Option<String>), E>>(
    group: &mut CacheGroup<Vec<GitlabRelease>>,
    dir: &str,
    repo: &str,
    now: u64,
    fetch_all: bool,
    fetch: F,
) -> (r: Result<Vec<GitlabRelease>, E>)
    requires
        forall|u: String| call_requires(fetch, (u,)),
    ensures
        final(group).contains(kebab_of(repo@)),
        forall|k2: Seq<char>|
            k2 != kebab_of(repo@) ==> final(group).lookup(k2) == old(group).lookup(k2),
        ({
            let key = kebab_of(repo@);
            let m0 = old(group).lookup(key)->0;
            let m1 = final(group).lookup(key)->0;
            let served_from_cache = old(group).contains(key) && m0.is_fresh(now);
            &&& m1.spec_file_name() == if old(group).contains(key) {
                m0.spec_file_name()
            } else {
                releases_file_of(dir@, key)
            }
            &&& m1.spec_fresh_duration() == if old(group).contains(key) {
                m0.spec_fresh_duration()
            } else {
                Option::Some(DAILY_SECS)
            }
            &&& (served_from_cache ==> {
                &&& m1 == m0
                &&& r is Ok
                &&& releases_eq(m0.stored()->0@, r->Ok_0@)
            })
            &&& (!served_from_cache ==> {
                &&& (r is Ok ==> {
                    &&& m1.stored() is Some
                    &&& m1.spec_written_at() == now
                    &&& releases_eq(m1.stored()->0@, r->Ok_0@)
                    &&& releases_result(
                        fetch,
                        repo@,
                        fetch_all,
                        Result::Ok::<Vec<GitlabRelease>, E>(m1.stored()->0),
                    )
                })
                &&& (r is Err ==> {
                    &&& releases_result(
                        fetch,
                        repo@,
                        fetch_all,
                        Result::Err::<Vec<GitlabRelease>, E>(r->Err_0),
                    )
                    &&& (old(group).contains(key) ==> m1 == m0)
                    &&& (!old(group).contains(key) ==> m1.stored() is None)
                })
            })
        }),
{
    let ghost fetch_g = fetch;
    let key = to_kebab_case(repo);
    get_releases_cache(group, dir, &key);
    let compute = || -> (res: Result<Vec<GitlabRelease>, E>)
        ensures
            releases_result(fetch_g, repo@, fetch_all, res),
        { list_releases_(repo, fetch_all, fetch) };
    let out = group.get_or_try_init(&key, now, compute);
    proof {
        if old(group).contains(key@) && old(group).lookup(key@)->0.is_fresh(now) {
            lemma_releases_cloned(
                old(group).lookup(key@)->0.stored()->0,
                out->Ok_0,
            );
        } else {
            if out is Ok {
                lemma_releases_cloned(group.lookup(key@)->0.stored()->0, out->Ok_0);
            }
        }
    }
    out
}

/// The cached tag-name list of `repo`.
///
/// The repository identifier is normalized to its token; the entry for
/// that token (created on first use, under its deterministic file name)
/// is returned while fresh, and otherwise populated by one uncached
/// tag-list query.  No other key's entry is touched.  On a failed query
/// nothing is stored and the error surfaces.
pub fn list_tags<E, F: Fn(String) -> Result<(Vec<GitlabTag>, Option<String>), E>>(
    group: &mut CacheGroup<Vec<String>>,
    dir: &str,
    repo: &str,
    now: u64,
    fetch_all: bool,
    fetch: F,
) -> (r: Result<Vec<String>, E>)
    requires
        forall|u: String| call_requires(fetch, (u,)),
    ensures
        final(group).contains(kebab_of(repo@)),
        forall|k2: Seq<char>|
            k2 != kebab_of(repo@) ==> final(group).lookup(k2) == old(group).lookup(k2),
        ({
            let key = kebab_of(repo@);
            let m0 = old(group).lookup(key)->0;
            let m1 = final(group).lookup(key)->0;
            let served_from_cache = old(group).contains(key) && m0.is_fresh(now);
            &&& m1.spec_file_name() == if old(group).contains(key) {
                m0.spec_file_name()
            } else {
                tags_file_of(dir@, key)
            }
            &&& m1.spec_fresh_duration() == if old(group).contains(key) {
                m0.spec_fresh_duration()
            } else {
                Option::Some(DAILY_SECS)
            }
            &&& (served_from_cache ==> {
                &&& m1 == m0
                &&& r is Ok
                &&& r->Ok_0@ == m0.stored()->0@
            })
            &&& (!served_from_cache ==> {
                &&& (r is Ok ==> {
                    &&& m1.stored() is Some
                    &&& m1.spec_written_at() == now
                    &&& r->Ok_0@ == m1.stored()->0@
                    &&& tags_result(
                        fetch,
                        repo@,
                        fetch_all,
                        Result::Ok::<Vec<String>, E>(m1.stored()->0),
                    )
                })
                &&& (r is Err ==> {
                    &&& tags_result(
                        fetch,
                        repo@,
                        fetch_all,
                        Result::Err::<Vec<String>, E>(r->Err_0),
                    )
                    &&& (old(group).contains(key) ==> m1 == m0)
                    &&& (!old(group).contains(key) ==> m1.stored() is None)
                })
            })
        }),
{
    let ghost fetch_g = fetch;
    let key = to_kebab_case(repo);
    get_tags_cache(group, dir, &key);
    let compute = || -> (res: Result<Vec<String>, E>)
        ensures
            tags_result(fetch_g, repo@, fetch_all, res),
        { list_tags_(repo, fetch_all, fetch) };
    let out = group.get_or_try_init(&key, now, compute);
    proof {
        if old(group).contains(key@) && old(group).lookup(key@)->0.is_fresh(now) {
            lemma_strings_cloned(old(group).lookup(key@)->0.stored()->0, out->Ok_0);
        } else {
            if out is Ok {
                lemma_strings_cloned(group.lookup(key@)->0.stored()->0, out->Ok_0);
            }
        }
    }
    out
}

/// The cached single release of `repo` at `tag`.
///
/// The key is the normalized token of `<repo>-<tag>`; the entry for that
/// token (created on first use, under its deterministic file name) is
/// returned while fresh, and otherwise populated by one request against
/// the single-release endpoint.  No other key's entry is touched.  On a
/// failed request nothing is stored and the error surfaces.
pub fn get_release<E, G: Fn(String) -> Result<GitlabRelease, E>>(
    group: &mut CacheGroup<GitlabRelease>,
    dir: &str,
    repo: &str,
    tag: &str,
    api_base_url: &str,
    now: u64,
    fetch_one: G,
) -> (r: Result<GitlabRelease, E>)
    requires
        forall|u: String| call_requires(fetch_one, (u,)),
    ensures
        final(group).contains(release_key_of(repo@, tag@)),
        forall|k2: Seq<char>|
            k2 != release_key_of(repo@, tag@) ==> final(group).lookup(k2) == old(group).lookup(
                k2,
            ),
        ({
            let key = release_key_of(repo@, tag@);
            let m0 = old(group).lookup(key)->0;
            let m1 = final(group).lookup(key)->0;
            let served_from_cache = old(group).contains(key) && m0.is_fresh(now);
            &&& m1.spec_file_name() == if old(group).contains(key) {
                m0.spec_file_name()
            } else {
                release_file_of(dir@, key)
            }
            &&& m1.spec_fresh_duration() == if old(group).contains(key) {
                m0.spec_fresh_duration()
            } else {
                Option::Some(DAILY_SECS)
            }
            &&& (served_from_cache ==> {
                &&& m1 == m0
                &&& r is Ok
                &&& release_eq(m0.stored()->0, r->Ok_0)
            })
            &&& (!served_from_cache ==> {
                &&& (r is Ok ==> {
                    &&& m1.stored() is Some
                    &&& m1.spec_written_at() == now
                    &&& release_eq(m1.stored()->0, r->Ok_0)
                    &&& release_result(
                        fetch_one,
                        api_base_url@,
                        repo@,
                        tag@,
                        Result::Ok::<GitlabRelease, E>(m1.stored()->0),
                    )
                })
                &&& (r is Err ==> {
                    &&& release_result(
                        fetch_one,
                        api_base_url@,
                        repo@,
                        tag@,
                        Result::Err::<GitlabRelease, E>(r->Err_0),
                    )
                    &&& (old(group).contains(key) ==> m1 == m0)
                    &&& (!old(group).contains(key) ==> m1.stored() is None)
                })
            })
        }),
{
    let ghost fetch_g = fetch_one;
    let key = release_key(repo, tag);
    get_release_cache(group, dir, &key);
    let compute = || -> (res: Result<GitlabRelease, E>)
        ensures
            release_result(fetch_g, api_base_url@, repo@, tag@, res),
        { get_release_(repo, tag, api_base_url, fetch_one) };
    let out = group.get_or_try_init(&key, now, compute);
    proof {
        if old(group).contains(key@) && old(group).lookup(key@)->0.is_fresh(now) {
            lemma_release_cloned(old(group).lookup(key@)->0.stored()->0, out->Ok_0);
        } else {
            if out is Ok {
                lemma_release_cloned(group.lookup(key@)->0.stored()->0, out->Ok_0);
            }
        }
    }
    out
}

/// Law: two identifiers that normalize to the same token resolve to the
/// same cache entry of any registry.
pub proof fn lemma_same_token_same_entry<T>(
    group: CacheGroup<T>,
    repo1: Seq<char>,
    repo2: Seq<char>,
)
    requires
        kebab_of(repo1) == kebab_of(repo2),
    ensures
        group.lookup(kebab_of(repo1)) == group.lookup(kebab_of(repo2)),
{
}

} // verus!
