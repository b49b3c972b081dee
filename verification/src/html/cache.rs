//! A timed page cache: URL to page text with the time it was fetched.
//! Lookups are exact about when a cached page is served and when a caller
//! must fetch anew.

use vstd::prelude::*;

use crate::html::ParseError;

verus! {

/// One cached page.
pub struct CacheEntry {
    /// The URL the page was fetched from.
    pub url: String,
    /// The page text.
    pub html: String,
    /// When the page was fetched, in seconds of the caller's clock.
    pub timestamp: u64,
}

/// The page cache: entries and the staleness window in seconds.
pub struct Cache {
    pub entries: Vec<CacheEntry>,
    pub refresh_after: u64,
}

/// The page and fetch time stored for `key`: the first entry with that URL,
/// or `None` where no entry has it.
pub open spec fn spec_find_entry(es: Seq<CacheEntry>, key: Seq<char>) -> Option<(Seq<char>, u64)>
    decreases es.len(),
{
    if es.len() == 0 {
        None
    } else if es[0].url@ == key {
        Some((es[0].html@, es[0].timestamp))
    } else {
        spec_find_entry(es.drop_first(), key)
    }
}

impl Cache {
    /// What a lookup yields: the stored page, unless a reload was asked for
    /// and the entry has aged at least `refresh_after` seconds, or no entry
    /// exists.
    pub open spec fn spec_get(self, key: Seq<char>, reload: bool, now: u64) -> Option<Seq<char>> {
        match spec_find_entry(self.entries@, key) {
            None => None,
            Some(p) => if reload && now >= p.1 && now - p.1 >= self.refresh_after {
                None
            } else {
                Some(p.0)
            },
        }
    }

    /// An empty cache whose entries go stale `refresh_after` seconds after
    /// they are stored.
    pub fn new(refresh_after: u64) -> (r: Cache)
        ensures
            r.entries@.len() == 0,
            r.refresh_after == refresh_after,
    {
        Cache { entries: Vec::new(), refresh_after }
    }

    /// Looks `key` up.  Yields the entry exactly when `spec_get` yields its
    /// page: always on a plain lookup, and on a reload only while the entry
    /// is younger than the staleness window.
    pub fn get(&self, key: &str, reload: bool, now: u64) -> (r: Option<&CacheEntry>)
        ensures
            match r {
                Some(e) => self.spec_get(key@, reload, now) == Some(e.html@) && spec_find_entry(
                    self.entries@,
                    key@,
                ) == Some((e.html@, e.timestamp)),
                None => self.spec_get(key@, reload, now) is None,
            },
    {
        let k: String = key.to_owned();
        let n = self.entries.len();
        let mut i: usize = 0;
        assert(self.entries@.skip(0) =~= self.entries@);
        while i < n
            invariant
                n == self.entries@.len(),
                i <= n,
                k@ == key@,
                spec_find_entry(self.entries@, key@) == spec_find_entry(
                    self.entries@.skip(i as int),
                    key@,
                ),
            decreases n - i,
        {
            proof {
                assert(self.entries@.skip(i as int)[0] == self.entries@[i as int]);
                assert(self.entries@.skip(i as int).drop_first() =~= self.entries@.skip(i + 1));
            }
            let e = &self.entries[i];
            if e.url == k {
                if reload && now >= e.timestamp && now - e.timestamp >= self.refresh_after {
                    return None;
                }
                return Some(e);
            }
            i += 1;
        }
        assert(self.entries@.skip(i as int) =~= Seq::<CacheEntry>::empty());
        None
    }

    /// Stores `value` for `key` with fetch time `now`: the entry for `key`
    /// is overwritten in place where one exists, else a fresh entry is
    /// appended, so overwrite-on-refetch is the only growth of storage.
    /// Afterwards a lookup of `key` meets this page and time; every other
    /// key reads as before; the entry count grows by one exactly where
    /// `key` was absent.
    pub fn insert(&mut self, key: &str, value: &String, now: u64)
        ensures
            final(self).refresh_after == old(self).refresh_after,
            spec_find_entry(final(self).entries@, key@) == Some((value@, now)),
            forall|k: Seq<char>|
                k != key@ ==> #[trigger] spec_find_entry(final(self).entries@, k)
                    == spec_find_entry(old(self).entries@, k),
            final(self).entries@.len() == old(self).entries@.len() + (
            match spec_find_entry(old(self).entries@, key@) {
                None => 1int,
                Some(_) => 0int,
            }),
    {
        let k: String = key.to_owned();
        let n = self.entries.len();
        let mut i: usize = 0;
        while i < n
            invariant
                *self == *old(self),
                n == self.entries@.len(),
                i <= n,
                k@ == key@,
                forall|j: int| 0 <= j < i ==> (#[trigger] self.entries@[j]).url@ != key@,
            decreases n - i,
        {
            if self.entries[i].url == k {
                proof {
                    lemma_find_entry_first(self.entries@, i as int, key@);
                }
                let e2 = CacheEntry { url: k, html: value.clone(), timestamp: now };
                let ghost e2v = e2;
                self.entries[i] = e2;
                proof {
                    assert forall|kk: Seq<char>| kk != key@ implies #[trigger] spec_find_entry(
                        self.entries@,
                        kk,
                    ) == spec_find_entry(old(self).entries@, kk) by {
                        lemma_find_entry_update(old(self).entries@, i as int, e2v, kk);
                    }
                    lemma_find_entry_update(old(self).entries@, i as int, e2v, key@);
                }
                return ;
            }
            i += 1;
        }
        proof {
            lemma_find_entry_absent(self.entries@, key@);
        }
        let e = CacheEntry { url: k, html: value.clone(), timestamp: now };
        let ghost ev = e;
        self.entries.push(e);
        proof {
            assert forall|kk: Seq<char>| kk != key@ implies #[trigger] spec_find_entry(
                self.entries@,
                kk,
            ) == spec_find_entry(old(self).entries@, kk) by {
                lemma_find_entry_push(old(self).entries@, ev, kk);
            }
            lemma_find_entry_push(old(self).entries@, ev, key@);
        }
    }
}

/// What a lookup finds after appending `e`: unchanged where it already
/// found something; otherwise `e` itself, where its URL is the key.
proof fn lemma_find_entry_push(es: Seq<CacheEntry>, e: CacheEntry, k: Seq<char>)
    ensures
        spec_find_entry(es.push(e), k) == (match spec_find_entry(es, k) {
            Some(p) => Some(p),
            None => if e.url@ == k {
                Some((e.html@, e.timestamp))
            } else {
                None::<(Seq<char>, u64)>
            },
        }),
    decreases es.len(),
{
    let pushed = es.push(e);
    assert(pushed.len() == es.len() + 1);
    if es.len() == 0 {
        assert(pushed[0] == e);
        assert(pushed.drop_first() =~= Seq::<CacheEntry>::empty());
        assert(spec_find_entry(pushed.drop_first(), k) is None);
    } else {
        assert(pushed[0] == es[0]);
        assert(pushed.drop_first() =~= es.drop_first().push(e));
        lemma_find_entry_push(es.drop_first(), e, k);
        assert(spec_find_entry(pushed.drop_first(), k) == spec_find_entry(
            es.drop_first().push(e),
            k,
        ));
    }
}

/// What a lookup finds after replacing the first entry for a URL in place:
/// the fresh entry under that URL, and the old answer under every other key.
proof fn lemma_find_entry_update(es: Seq<CacheEntry>, i: int, e2: CacheEntry, k: Seq<char>)
    requires
        0 <= i < es.len(),
        es[i].url@ == e2.url@,
        forall|j: int| 0 <= j < i ==> (#[trigger] es[j]).url@ != e2.url@,
    ensures
        spec_find_entry(es.update(i, e2), e2.url@) == Some((e2.html@, e2.timestamp)),
        k != e2.url@ ==> spec_find_entry(es.update(i, e2), k) == spec_find_entry(es, k),
    decreases i,
{
    let es2 = es.update(i, e2);
    if i == 0 {
        assert(es2[0] == e2);
        assert(es2.drop_first() =~= es.drop_first());
    } else {
        assert(es2[0] == es[0]);
        assert(es[0].url@ != e2.url@);
        assert(es2.drop_first() =~= es.drop_first().update(i - 1, e2));
        assert forall|j: int| 0 <= j < i - 1 implies (#[trigger] es.drop_first()[j]).url@
            != e2.url@ by {
            assert(es.drop_first()[j] == es[j + 1]);
        }
        lemma_find_entry_update(es.drop_first(), i - 1, e2, k);
    }
}

/// A lookup of a key no entry carries finds nothing.
proof fn lemma_find_entry_absent(es: Seq<CacheEntry>, k: Seq<char>)
    requires
        forall|j: int| 0 <= j < es.len() ==> (#[trigger] es[j]).url@ != k,
    ensures
        spec_find_entry(es, k) is None,
    decreases es.len(),
{
    if es.len() > 0 {
        let tail = es.drop_first();
        assert forall|j: int| 0 <= j < tail.len() implies (#[trigger] tail[j]).url@ != k by {
            assert(tail[j] == es[j + 1]);
        }
        lemma_find_entry_absent(tail, k);
    }
}

/// The first entry for a key is what a lookup finds.
proof fn lemma_find_entry_first(es: Seq<CacheEntry>, i: int, k: Seq<char>)
    requires
        0 <= i < es.len(),
        es[i].url@ == k,
        forall|j: int| 0 <= j < i ==> (#[trigger] es[j]).url@ != k,
    ensures
        spec_find_entry(es, k) == Some((es[i].html@, es[i].timestamp)),
    decreases i,
{
    if i > 0 {
        assert(es[0].url@ != k);
        assert forall|j: int| 0 <= j < i - 1 implies (#[trigger] es.drop_first()[j]).url@ != k by {
            assert(es.drop_first()[j] == es[j + 1]);
        }
        assert(es.drop_first()[i - 1] == es[i]);
        lemma_find_entry_first(es.drop_first(), i - 1, k);
    }
}

/// Serves `url` from the cache, or calls `render_fn` once to fetch the page
/// and stores what it returns.  On a hit the cache is untouched and the
/// renderer is never called; on a miss the renderer's outcome decides: a
/// page is stored under `url` with fetch time `now` and returned, an error
/// is passed through with the cache untouched.
pub fn get_or_fetch<F: FnOnce(&str) -> Result<String, ParseError>>(
    cache: &mut Cache,
    url: &str,
    render_fn: F,
    reload: bool,
    now: u64,
) -> (r: Result<String, ParseError>)
    requires
        call_requires(render_fn, (url,)),
    ensures
        match old(cache).spec_get(url@, reload, now) {
            Some(content) => *final(cache) == *old(cache) && (r matches Ok(s) && s@ == content),
            None => exists|fr: Result<String, ParseError>|
                {
                    &&& #[trigger] call_ensures(render_fn, (url,), fr)
                    &&& match fr {
                        Ok(c) => r matches Ok(s) && s@ == c@ && final(cache).refresh_after == old(
                            cache,
                        ).refresh_after && spec_find_entry(final(cache).entries@, url@) == Some(
                            (c@, now),
                        ) && (forall|k: Seq<char>|
                            k != url@ ==> #[trigger] spec_find_entry(final(cache).entries@, k)
                                == spec_find_entry(old(cache).entries@, k)),
                        Err(e) => r matches Err(e2) && e2 == e && *final(cache) == *old(cache),
                    }
                },
        },
{
    match cache.get(url, reload, now) {
        Some(entry) => Ok(entry.html.clone()),
        None => match render_fn(url) {
            Ok(content) => {
                cache.insert(url, &content, now);
                Ok(content)
            },
            Err(e) => Err(e),
        },
    }
}

/// After a page is stored, a plain lookup serves it at any later time: two
/// plain `get_or_fetch` calls in sequence fetch at most once, since the
/// second finds what the first stored.
pub proof fn lemma_cache_hit_after_insert(
    c: Cache,
    url: Seq<char>,
    content: Seq<char>,
    stored: u64,
    later: u64,
)
    requires
        spec_find_entry(c.entries@, url) == Some((content, stored)),
    ensures
        c.spec_get(url, false, later) == Some(content),
{
}

/// Once the staleness window has elapsed, a reloading lookup refuses the
/// stored page, so `get_or_fetch` with reload calls the renderer again.
pub proof fn lemma_cache_stale_refetch(
    c: Cache,
    url: Seq<char>,
    content: Seq<char>,
    stored: u64,
    later: u64,
)
    requires
        spec_find_entry(c.entries@, url) == Some((content, stored)),
        later >= stored,
        later - stored >= c.refresh_after,
    ensures
        c.spec_get(url, true, later) is None,
{
}

/// Owns the page cache that all page retrievals share.
pub struct HtmlParser {
    pub cache: Cache,
}

impl HtmlParser {
    /// A parser with an empty cache whose entries go stale after
    /// `refresh_after` seconds.
    pub fn new(refresh_after: u64) -> (r: Option<HtmlParser>)
        ensures
            r matches Some(h) && h.cache.entries@.len() == 0 && h.cache.refresh_after
                == refresh_after,
    {
        Some(HtmlParser { cache: Cache::new(refresh_after) })
    }
}

} // verus!
