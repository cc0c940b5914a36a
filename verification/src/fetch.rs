//! The paginated fetcher.
//!
//! One request yields a typed page of records plus the value of the
//! continuation header; while that header carries a next-page link and
//! fetch-all mode is on, the fetcher follows the link and appends the next
//! page, until a response carries no link.  With fetch-all mode off it
//! stops after the first page.  Any failing request aborts the whole run
//! and discards the pages already fetched.
//!
//! The transport itself is the caller's: it is handed in as a function
//! from a URL to a page, so everything here holds whatever that function
//! returns.  A run follows at most `usize::MAX - 1` continuation links —
//! out of reach for any real response sequence, but it keeps every run
//! finite.

use crate::link::link_of;
use crate::link::next_page;
use vstd::prelude::*;

verus! {

/// The skeleton of a pagination run: every response came from `fetch` on
/// its URL, starting at `url0`, and each next-page link was followed.
pub open spec fn chain_links<R, E, F: Fn(String) -> Result<(Vec<R>, Option<String>), E>>(
    fetch: F,
    url0: Seq<char>,
    urls: Seq<String>,
    resps: Seq<(Vec<R>, Option<String>)>,
) -> bool {
    &&& urls.len() == resps.len()
    &&& urls.len() >= 1
    &&& urls[0]@ == url0
    &&& (forall|p: int|
        0 <= p < urls.len() ==> call_ensures(fetch, (urls[p],), Result::Ok(resps[p])))
    &&& (forall|p: int|
        0 <= p < urls.len() - 1 ==> link_of(resps[p].1) == Option::Some(urls[p + 1]@))
}

/// One complete pagination run: a chain that ends with the first response
/// carrying no next-page link (or after the first page when `fetch_all`
/// is off).
pub open spec fn page_chain<R, E, F: Fn(String) -> Result<(Vec<R>, Option<String>), E>>(
    fetch: F,
    url0: Seq<char>,
    fetch_all: bool,
    urls: Seq<String>,
    resps: Seq<(Vec<R>, Option<String>)>,
) -> bool {
    &&& chain_links(fetch, url0, urls, resps)
    &&& if fetch_all {
        link_of(resps[urls.len() - 1].1) is None
    } else {
        urls.len() == 1
    }
}

/// All records of a run's pages, in page order.
pub open spec fn chain_records<R>(resps: Seq<(Vec<R>, Option<String>)>) -> Seq<R>
    decreases resps.len(),
{
    if resps.len() == 0 {
        Seq::empty()
    } else {
        chain_records(resps.drop_last()) + resps.last().0@
    }
}

/// `v` is the record sequence of some complete pagination run of `fetch`
/// from `url0`.
pub open spec fn fetched_records<R, E, F: Fn(String) -> Result<(Vec<R>, Option<String>), E>>(
    fetch: F,
    url0: Seq<char>,
    fetch_all: bool,
    v: Seq<R>,
) -> bool {
    exists|urls: Seq<String>, resps: Seq<(Vec<R>, Option<String>)>|
        {
            &&& #[trigger] page_chain(fetch, url0, fetch_all, urls, resps)
            &&& v == chain_records(resps)
        }
}

/// `v` is the record sequence of a run cut off at the link cap: only a
/// response sequence of `usize::MAX` pages reaches it.
pub open spec fn truncated_records<R, E, F: Fn(String) -> Result<(Vec<R>, Option<String>), E>>(
    fetch: F,
    url0: Seq<char>,
    v: Seq<R>,
) -> bool {
    exists|urls: Seq<String>, resps: Seq<(Vec<R>, Option<String>)>|
        {
            &&& #[trigger] chain_links(fetch, url0, urls, resps)
            &&& urls.len() == usize::MAX as int
            &&& v == chain_records(resps)
        }
}

/// Some URL exists on which `fetch` can fail with `e`.
pub open spec fn fetch_errored<R, E, F: Fn(String) -> Result<(Vec<R>, Option<String>), E>>(
    fetch: F,
    e: E,
) -> bool {
    exists|u: String| #[trigger] call_ensures(
        fetch,
        (u,),
        Result::Err::<(Vec<R>, Option<String>), E>(e),
    )
}

/// Fetch the page at `url0` and, in fetch-all mode, every page a
/// continuation link leads to, accumulating the records in order.  An
/// error on any page aborts the run and surfaces the transport's error.
pub fn fetch_pages<R, E, F: Fn(String) -> Result<(Vec<R>, Option<String>), E>>(
    url0: String,
    fetch_all: bool,
    fetch: F,
) -> (r: Result<Vec<R>, E>)
    requires
        forall|u: String| call_requires(fetch, (u,)),
    ensures
        r is Ok ==> fetched_records(fetch, url0@, fetch_all, r->Ok_0@) || truncated_records(
            fetch,
            url0@,
            r->Ok_0@,
        ),
        r is Err ==> fetch_errored::<R, E, F>(fetch, r->Err_0),
{
    let first = fetch(url0.clone());
    let ghost first_g = first;
    match first {
        Result::Err(e) => {
            proof {
                assert(call_ensures(fetch, (url0,), Result::Err::<(Vec<R>, Option<String>), E>(e)));
                assert(fetch_errored::<R, E, F>(fetch, e));
            }
            Result::Err(e)
        },
        Result::Ok((mut records, mut header)) => {
            let ghost mut urls: Seq<String> = seq![url0];
            let ghost mut resps: Seq<(Vec<R>, Option<String>)> = seq![(records, header)];
            proof {
                assert(resps.drop_last() =~= Seq::<(Vec<R>, Option<String>)>::empty());
                assert(chain_records(Seq::<(Vec<R>, Option<String>)>::empty()) =~= Seq::<
                    R,
                >::empty());
                assert(chain_records(resps) =~= records@);
            }
            proof {
                assert(first_g == Result::Ok::<(Vec<R>, Option<String>), E>(resps[0]));
            }
            if !fetch_all {
                proof {
                    assert(page_chain(fetch, url0@, fetch_all, urls, resps));
                    assert(fetched_records(fetch, url0@, fetch_all, records@));
                }
                return Result::Ok(records);
            }
            let mut left: usize = usize::MAX - 1;
            loop
                invariant
                    fetch_all,
                    urls.len() == resps.len(),
                    urls.len() >= 1,
                    urls[0] == url0,
                    urls.len() + left == usize::MAX as int,
                    forall|p: int|
                        0 <= p < urls.len() ==> call_ensures(
                            fetch,
                            (urls[p],),
                            Result::Ok(resps[p]),
                        ),
                    forall|p: int|
                        0 <= p < urls.len() - 1 ==> link_of(resps[p].1) == Option::Some(
                            urls[p + 1]@,
                        ),
                    records@ == chain_records(resps),
                    header == resps.last().1,
                    forall|u: String| call_requires(fetch, (u,)),
                decreases left,
            {
                let next_url = match &header {
                    Option::Some(h) => next_page(h.as_str()),
                    Option::None => Option::None,
                };
                match next_url {
                    Option::None => {
                        proof {
                            assert(link_of(resps.last().1) is None);
                            assert(page_chain(fetch, url0@, fetch_all, urls, resps));
                            assert(fetched_records(fetch, url0@, fetch_all, records@));
                        }
                        return Result::Ok(records);
                    },
                    Option::Some(u) => {
                        if left == 0 {
                            proof {
                                assert(chain_links(fetch, url0@, urls, resps));
                                assert(truncated_records(fetch, url0@, records@));
                            }
                            return Result::Ok(records);
                        }
                        left = left - 1;
                        let ghost u_g = u;
                        let res = fetch(u);
                        let ghost res_g = res;
                        match res {
                            Result::Err(e) => {
                                proof {
                                    assert(call_ensures(fetch, (u_g,), Result::Err::<(Vec<R>, Option<String>), E>(e)));
                                    assert(fetch_errored::<R, E, F>(fetch, e));
                                }
                                return Result::Err(e);
                            },
                            Result::Ok((mut more, h2)) => {
                                let ghost more_g = more;
                                let ghost h2_g = h2;
                                records.append(&mut more);
                                header = h2;
                                proof {
                                    let resps0 = resps;
                                    urls = urls.push(u_g);
                                    resps = resps.push((more_g, h2_g));
                                    assert(resps.drop_last() =~= resps0);
                                    assert(records@ == chain_records(resps));
                                }
                            },
                        }
                    },
                }
            }
        },
    }
}

} // verus!
