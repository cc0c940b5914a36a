//! A single-key, disk-backed, time-to-live cache manager.
//!
//! A `CacheManager<T>` holds at most one value of type `T`, remembers when it
//! was written, and considers it fresh while its age is below a configured
//! freshness duration (no duration means the value never expires by time).
//! `get_or_try_init` returns the cached value while it is fresh and otherwise
//! runs the supplied compute function exactly once, keeping its result only
//! on success.  Reading and writing the backing file, and reading the clock,
//! are the embedding application's business: it loads a persisted value with
//! `restore` and passes the current wall-clock time in.

use vstd::pervasive::cloned;
use vstd::pervasive::unreached;
use vstd::prelude::*;

verus! {

/// Freshness window used by the query layer: one day, in seconds.
pub const DAILY_SECS: u64 = 86400;

/// One cache entry: a lazily populated value with its write time, bound to a
/// deterministic file name under which the application persists it.
pub struct CacheManager<T> {
    file_name: String,
    fresh_duration: Option<u64>,
    value: Option<T>,
    written_at: u64,
}

impl<T> CacheManager<T> {
    /// The file name this entry is persisted under.
    pub closed spec fn spec_file_name(self) -> Seq<char> {
        self.file_name@
    }

    /// The freshness duration in seconds; `None` means the value never
    /// expires by time.
    pub closed spec fn spec_fresh_duration(self) -> Option<u64> {
        self.fresh_duration
    }

    /// The currently held value, if the entry has been populated.
    pub closed spec fn stored(self) -> Option<T> {
        self.value
    }

    /// The wall-clock second at which the held value was written.
    pub closed spec fn spec_written_at(self) -> u64 {
        self.written_at
    }

    /// A populated entry is fresh at `now` while its age is below the
    /// freshness duration; with no duration it stays fresh until the
    /// application drops or replaces it.
    pub open spec fn is_fresh(self, now: u64) -> bool {
        &&& self.stored() is Some
        &&& match self.spec_fresh_duration() {
            Option::None => true,
            Option::Some(d) => now < self.spec_written_at() + d,
        }
    }

    /// Decide freshness at wall-clock second `now`.
    pub fn fresh(&self, now: u64) -> (r: bool)
        ensures
            r == self.is_fresh(now),
    {
        match (&self.value, &self.fresh_duration) {
            (Option::Some(_), Option::None) => true,
            (Option::Some(_), Option::Some(d)) => now < self.written_at || now - self.written_at < *d,
            (Option::None, _) => false,
        }
    }

    /// Return the cached value while it is fresh; otherwise run `compute`
    /// exactly once, keep its result on success (stamped with `now`), and
    /// keep the entry unchanged on failure so that a later call retries.
    pub fn get_or_try_init<E, F: FnOnce() -> Result<T, E>>(&mut self, now: u64, compute: F) -> (r:
        Result<T, E>) where T: Clone
        requires
            call_requires(compute, ()),
        ensures
            final(self).spec_file_name() == old(self).spec_file_name(),
            final(self).spec_fresh_duration() == old(self).spec_fresh_duration(),
            old(self).is_fresh(now) ==> {
                &&& *final(self) == *old(self)
                &&& r is Ok
                &&& cloned::<T>(old(self).stored()->0, r->Ok_0)
            },
            !old(self).is_fresh(now) ==> exists|res: Result<T, E>|
                {
                    &&& #[trigger] call_ensures(compute, (), res)
                    &&& match res {
                        Result::Ok(v) => {
                            &&& final(self).stored() == Option::Some(v)
                            &&& final(self).spec_written_at() == now
                            &&& r is Ok
                            &&& cloned::<T>(v, r->Ok_0)
                        },
                        Result::Err(e) => {
                            &&& *final(self) == *old(self)
                            &&& r is Err
                            &&& r->Err_0 == e
                        },
                    }
                },
    {
        if self.fresh(now) {
            match &self.value {
                Option::Some(v) => Result::Ok(v.clone()),
                Option::None => unreached(),
            }
        } else {
            match compute() {
                Result::Ok(v) => {
                    let out = v.clone();
                    self.value = Option::Some(v);
                    self.written_at = now;
                    Result::Ok(out)
                },
                Result::Err(e) => Result::Err(e),
            }
        }
    }

    /// Adopt a value read back from the entry's file, stamped with the time
    /// it was originally written.
    pub fn restore(&mut self, value: T, written_at: u64)
        ensures
            final(self).spec_file_name() == old(self).spec_file_name(),
            final(self).spec_fresh_duration() == old(self).spec_fresh_duration(),
            final(self).stored() == Option::Some(value),
            final(self).spec_written_at() == written_at,
    {
        self.value = Option::Some(value);
        self.written_at = written_at;
    }

    /// The file name this entry is persisted under.
    pub fn file_name(&self) -> (r: &String)
        ensures
            r@ == self.spec_file_name(),
    {
        &self.file_name
    }

    /// The wall-clock second at which the held value was written.
    pub fn written_at(&self) -> (r: u64)
        ensures
            r == self.spec_written_at(),
    {
        self.written_at
    }

    /// A reference to the held value, if the entry has been populated.
    pub fn stored_ref(&self) -> (r: Option<&T>)
        ensures
            r is Some <==> self.stored() is Some,
            r is Some ==> *r->0 == self.stored()->0,
    {
        self.value.as_ref()
    }
}

/// Builds a `CacheManager` bound to a file name, with an optional freshness
/// duration.
pub struct CacheManagerBuilder {
    file_name: String,
    fresh_duration: Option<u64>,
}

impl CacheManagerBuilder {
    /// The file name the built entry will be persisted under.
    pub closed spec fn spec_file_name(self) -> Seq<char> {
        self.file_name@
    }

    /// The freshness duration the built entry will use.
    pub closed spec fn spec_fresh_duration(self) -> Option<u64> {
        self.fresh_duration
    }

    pub fn new(file_name: String) -> (r: Self)
        ensures
            r.spec_file_name() == file_name@,
            r.spec_fresh_duration() is None,
    {
        CacheManagerBuilder { file_name, fresh_duration: Option::None }
    }

    pub fn with_fresh_duration(self, fresh_duration: Option<u64>) -> (r: Self)
        ensures
            r.spec_file_name() == self.spec_file_name(),
            r.spec_fresh_duration() == fresh_duration,
    {
        CacheManagerBuilder { file_name: self.file_name, fresh_duration }
    }

    /// Build an unpopulated entry.
    pub fn build<T>(self) -> (r: CacheManager<T>)
        ensures
            r.spec_file_name() == self.spec_file_name(),
            r.spec_fresh_duration() == self.spec_fresh_duration(),
            r.stored() is None,
    {
        CacheManager {
            file_name: self.file_name,
            fresh_duration: self.fresh_duration,
            value: Option::None,
            written_at: 0,
        }
    }
}

/// A lazy per-key registry: a mapping from string key to `CacheManager<T>`,
/// creating one entry per distinct key on first access and never a second
/// one for the same key.  Entries for distinct keys are independent: an
/// operation on one key leaves every other key's entry untouched.
pub struct CacheGroup<T> {
    entries: Vec<(String, CacheManager<T>)>,
}

impl<T> CacheGroup<T> {
    /// First entry whose key reads as `key`, scanning front to back.
    pub closed spec fn lookup_in(s: Seq<(String, CacheManager<T>)>, key: Seq<char>) -> Option<
        CacheManager<T>,
    >
        decreases s.len(),
    {
        if s.len() == 0 {
            Option::None
        } else if s[0].0@ == key {
            Option::Some(s[0].1)
        } else {
            Self::lookup_in(s.drop_first(), key)
        }
    }

    /// The entry registered under `key`, if any.
    pub closed spec fn lookup(self, key: Seq<char>) -> Option<CacheManager<T>> {
        Self::lookup_in(self.entries@, key)
    }

    pub open spec fn contains(self, key: Seq<char>) -> bool {
        self.lookup(key) is Some
    }

    /// An empty registry.
    pub fn new() -> (r: Self)
        ensures
            forall|k: Seq<char>| r.lookup(k) is None,
    {
        CacheGroup { entries: Vec::new() }
    }

    proof fn lemma_lookup_at(s: Seq<(String, CacheManager<T>)>, key: Seq<char>, i: int)
        requires
            0 <= i < s.len(),
            s[i].0@ == key,
            forall|j: int| 0 <= j < i ==> s[j].0@ != key,
        ensures
            Self::lookup_in(s, key) == Option::Some(s[i].1),
        decreases i,
    {
        if i > 0 {
            Self::lemma_lookup_at(s.drop_first(), key, i - 1);
        }
    }

    proof fn lemma_lookup_absent(s: Seq<(String, CacheManager<T>)>, key: Seq<char>)
        requires
            forall|j: int| 0 <= j < s.len() ==> s[j].0@ != key,
        ensures
            Self::lookup_in(s, key) is None,
        decreases s.len(),
    {
        if s.len() > 0 {
            Self::lemma_lookup_absent(s.drop_first(), key);
        }
    }

    proof fn lemma_lookup_same(
        s: Seq<(String, CacheManager<T>)>,
        s2: Seq<(String, CacheManager<T>)>,
        k2: Seq<char>,
    )
        requires
            s.len() == s2.len(),
            forall|j: int| 0 <= j < s.len() ==> #[trigger] s2[j].0@ == s[j].0@,
            forall|j: int| 0 <= j < s.len() && s[j].0@ == k2 ==> s2[j] == s[j],
        ensures
            Self::lookup_in(s2, k2) == Self::lookup_in(s, k2),
        decreases s.len(),
    {
        if s.len() > 0 {
            if s[0].0@ == k2 {
                assert(s2[0] == s[0]);
            } else {
                Self::lemma_lookup_same(s.drop_first(), s2.drop_first(), k2);
            }
        }
    }

    proof fn lemma_lookup_push(
        s: Seq<(String, CacheManager<T>)>,
        e: (String, CacheManager<T>),
        k: Seq<char>,
    )
        ensures
            Self::lookup_in(s.push(e), k) == if Self::lookup_in(s, k) is Some {
                Self::lookup_in(s, k)
            } else if e.0@ == k {
                Option::Some(e.1)
            } else {
                Option::None::<CacheManager<T>>
            },
        decreases s.len(),
    {
        if s.len() == 0 {
            assert(s.push(e)[0] == e);
            assert(s.push(e).drop_first() =~= s);
        } else {
            assert(s.push(e)[0] == s[0]);
            if s[0].0@ != k {
                assert(s.push(e).drop_first() =~= s.drop_first().push(e));
                Self::lemma_lookup_push(s.drop_first(), e, k);
            }
        }
    }

    fn find_index(&self, key: &String) -> (r: Option<usize>)
        ensures
            match r {
                Option::Some(i) => {
                    &&& i < self.entries@.len()
                    &&& self.entries@[i as int].0@ == key@
                    &&& forall|j: int| 0 <= j < i ==> self.entries@[j].0@ != key@
                },
                Option::None => forall|j: int|
                    0 <= j < self.entries@.len() ==> self.entries@[j].0@ != key@,
            },
    {
        let mut i: usize = 0;
        while i < self.entries.len()
            invariant
                i <= self.entries@.len(),
                forall|j: int| 0 <= j < i ==> self.entries@[j].0@ != key@,
            decreases self.entries@.len() - i,
        {
            if self.entries[i].0 == *key {
                return Option::Some(i);
            }
            i = i + 1;
        }
        Option::None
    }

    /// Create the entry for `key` if it is absent, bound to `file_name` and
    /// `fresh_duration`; an existing entry is returned untouched, and no
    /// other key's entry is affected.
    pub fn get_or_create(&mut self, key: &String, file_name: String, fresh_duration: Option<u64>)
        ensures
            final(self).contains(key@),
            old(self).contains(key@) ==> *final(self) == *old(self),
            !old(self).contains(key@) ==> {
                let m = final(self).lookup(key@)->0;
                &&& m.stored() is None
                &&& m.spec_file_name() == file_name@
                &&& m.spec_fresh_duration() == fresh_duration
            },
            forall|k2: Seq<char>| k2 != key@ ==> final(self).lookup(k2) == old(self).lookup(k2),
    {
        match self.find_index(key) {
            Option::Some(i) => {
                proof {
                    Self::lemma_lookup_at(self.entries@, key@, i as int);
                }
            },
            Option::None => {
                proof {
                    Self::lemma_lookup_absent(self.entries@, key@);
                }
                let m = CacheManagerBuilder::new(file_name).with_fresh_duration(
                    fresh_duration,
                ).build();
                self.entries.push((key.clone(), m));
                proof {
                    let e = self.entries@.last();
                    Self::lemma_lookup_push(old(self).entries@, e, key@);
                    assert forall|k2: Seq<char>| k2 != key@ implies Self::lookup_in(
                        self.entries@,
                        k2,
                    ) == Self::lookup_in(old(self).entries@, k2) by {
                        Self::lemma_lookup_push(old(self).entries@, e, k2);
                    }
                }
            },
        }
    }

    /// `get_or_try_init` on the entry registered under `key`: the cached
    /// value while fresh, otherwise one run of `compute`, kept only on
    /// success.  Entries of other keys are untouched.
    pub fn get_or_try_init<E, F: FnOnce() -> Result<T, E>>(
        &mut self,
        key: &String,
        now: u64,
        compute: F,
    ) -> (r: Result<T, E>) where T: Clone
        requires
            old(self).contains(key@),
            call_requires(compute, ()),
        ensures
            final(self).contains(key@),
            forall|k2: Seq<char>| k2 != key@ ==> final(self).lookup(k2) == old(self).lookup(k2),
            ({
                let m0 = old(self).lookup(key@)->0;
                let m1 = final(self).lookup(key@)->0;
                &&& m1.spec_file_name() == m0.spec_file_name()
                &&& m1.spec_fresh_duration() == m0.spec_fresh_duration()
                &&& (m0.is_fresh(now) ==> {
                    &&& m1 == m0
                    &&& r is Ok
                    &&& cloned::<T>(m0.stored()->0, r->Ok_0)
                })
                &&& (!m0.is_fresh(now) ==> exists|res: Result<T, E>|
                    {
                        &&& #[trigger] call_ensures(compute, (), res)
                        &&& match res {
                            Result::Ok(v) => {
                                &&& m1.stored() == Option::Some(v)
                                &&& m1.spec_written_at() == now
                                &&& r is Ok
                                &&& cloned::<T>(v, r->Ok_0)
                            },
                            Result::Err(e) => {
                                &&& m1 == m0
                                &&& r is Err
                                &&& r->Err_0 == e
                            },
                        }
                    })
            }),
    {
        let i = match self.find_index(key) {
            Option::Some(i) => i,
            Option::None => {
                proof {
                    Self::lemma_lookup_absent(self.entries@, key@);
                }
                unreached()
            },
        };
        proof {
            Self::lemma_lookup_at(self.entries@, key@, i as int);
        }
        let (k, mut m) = self.entries.remove(i);
        let out = m.get_or_try_init(now, compute);
        self.entries.insert(i, (k, m));
        proof {
            assert(self.entries@ =~= old(self).entries@.update(i as int, self.entries@[i as int]));
            Self::lemma_lookup_at(self.entries@, key@, i as int);
            assert forall|k2: Seq<char>| k2 != key@ implies Self::lookup_in(self.entries@, k2)
                == Self::lookup_in(old(self).entries@, k2) by {
                Self::lemma_lookup_same(old(self).entries@, self.entries@, k2);
            }
        }
        out
    }

    /// Adopt a value read back from the file of the entry registered
    /// under `key`, stamped with the time it was originally written.
    /// Entries of other keys are untouched.
    pub fn restore(&mut self, key: &String, value: T, written_at: u64)
        requires
            old(self).contains(key@),
        ensures
            final(self).contains(key@),
            forall|k2: Seq<char>| k2 != key@ ==> final(self).lookup(k2) == old(self).lookup(k2),
            ({
                let m0 = old(self).lookup(key@)->0;
                let m1 = final(self).lookup(key@)->0;
                &&& m1.spec_file_name() == m0.spec_file_name()
                &&& m1.spec_fresh_duration() == m0.spec_fresh_duration()
                &&& m1.stored() == Option::Some(value)
                &&& m1.spec_written_at() == written_at
            }),
    {
        let i = match self.find_index(key) {
            Option::Some(i) => i,
            Option::None => {
                proof {
                    Self::lemma_lookup_absent(self.entries@, key@);
                }
                unreached()
            },
        };
        proof {
            Self::lemma_lookup_at(self.entries@, key@, i as int);
        }
        let (k, mut m) = self.entries.remove(i);
        m.restore(value, written_at);
        self.entries.insert(i, (k, m));
        proof {
            assert(self.entries@ =~= old(self).entries@.update(i as int, self.entries@[i as int]));
            Self::lemma_lookup_at(self.entries@, key@, i as int);
            assert forall|k2: Seq<char>| k2 != key@ implies Self::lookup_in(self.entries@, k2)
                == Self::lookup_in(old(self).entries@, k2) by {
                Self::lemma_lookup_same(old(self).entries@, self.entries@, k2);
            }
        }
    }

    /// A reference to the entry registered under `key`, if any.
    pub fn get(&self, key: &String) -> (r: Option<&CacheManager<T>>)
        ensures
            match r {
                Option::Some(m) => self.lookup(key@) == Option::Some(*m),
                Option::None => self.lookup(key@) is None,
            },
    {
        match self.find_index(key) {
            Option::Some(i) => {
                proof {
                    Self::lemma_lookup_at(self.entries@, key@, i as int);
                }
                Option::Some(&self.entries[i].1)
            },
            Option::None => {
                proof {
                    Self::lemma_lookup_absent(self.entries@, key@);
                }
                Option::None
            },
        }
    }
}

} // verus!
