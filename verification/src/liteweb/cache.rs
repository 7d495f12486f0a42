//! The cache of rendered pages: at most `CACHE_SIZE` pages, least recently used first to
//! go, each served for `CACHE_TTL_MS` after it was rendered.

use vstd::prelude::*;
use crate::protocol::Response;
use super::{CACHE_SIZE, CACHE_TTL_MS};
use std::collections::hash_map::RandomState;

verus! {

/// A rendered page and when it was rendered, in milliseconds of a monotonic clock.
#[derive(Debug, Clone)]
pub struct CachedPage {
    pub response: Response,
    pub cached_at_ms: u64,
}

#[verifier::external_type_specification]
#[verifier::external_body]
#[verifier::reject_recursive_types(K)]
#[verifier::reject_recursive_types(V)]
#[verifier::reject_recursive_types(S)]
pub struct ExLruCache<K, V, S>(lru::LruCache<K, V, S>);

/// The keys of a cache and the pages stored under them, most recently used first.
pub type EntriesView = Seq<(Seq<char>, CachedPage)>;

/// What an `lru::LruCache` of pages holds: each key with the page stored under it, most
/// recently used first.
pub uninterp spec fn lru_entries(c: lru::LruCache<String, CachedPage, RandomState>) -> EntriesView;

/// The capacity an `lru::LruCache` of pages was made with.
pub uninterp spec fn lru_capacity(c: lru::LruCache<String, CachedPage, RandomState>) -> nat;

/// No key occurs twice.
pub open spec fn keys_distinct(es: EntriesView) -> bool {
    forall|i: int, j: int| 0 <= i < es.len() && 0 <= j < es.len() && i != j ==> es[i].0 != es[j].0
}

/// `k` is a key of the entries.
pub open spec fn holds_key(es: EntriesView, k: Seq<char>) -> bool {
    exists|i: int| 0 <= i < es.len() && es[i].0 == k
}

/// The page stored under `k`.
pub open spec fn page_of(es: EntriesView, k: Seq<char>) -> CachedPage {
    es[choose|i: int| 0 <= i < es.len() && es[i].0 == k].1
}

/// The time stored with `k`.
pub open spec fn time_of(es: EntriesView, k: Seq<char>) -> u64 {
    page_of(es, k).cached_at_ms
}

/// The entries without key `k`, in their order.
pub open spec fn without_key(es: EntriesView, k: Seq<char>) -> EntriesView {
    es.filter(key_differs(k))
}

/// An entry whose key is not `k`.
pub open spec fn key_differs(k: Seq<char>) -> spec_fn((Seq<char>, CachedPage)) -> bool {
    |e: (Seq<char>, CachedPage)| e.0 != k
}

/// A well-formed cache: distinct keys, no more than its capacity.
pub open spec fn cache_ok(es: EntriesView, cap: nat) -> bool {
    keys_distinct(es) && es.len() <= cap
}

/// A new `lru::LruCache` (`LruCache::with_hasher`, with std's `RandomState`) of capacity
/// `cap`, empty.
#[verifier::external_body]
fn lru_new(cap: usize) -> (c: lru::LruCache<String, CachedPage, RandomState>)
    requires
        cap > 0,
    ensures
        lru_entries(c) == Seq::<(Seq<char>, CachedPage)>::empty(),
        lru_capacity(c) == cap,
{
    lru::LruCache::with_hasher(std::num::NonZeroUsize::new(cap).unwrap(), RandomState::new())
}

/// `LruCache::get`: the page stored under `key`, if any, cloned; the key becomes the most
/// recently used. The page is copied by its derived `Clone`, which copies each field, so
/// the contract claims that the copy equals the stored page; it also claims that the call
/// does not unwind.
#[verifier::external_body]
fn lru_get(c: &mut lru::LruCache<String, CachedPage, RandomState>, key: &str) -> (r: Option<CachedPage>)
    requires
        cache_ok(lru_entries(*old(c)), lru_capacity(*old(c))),
    ensures
        lru_capacity(*final(c)) == lru_capacity(*old(c)),
        match r {
            None => !holds_key(lru_entries(*old(c)), key@) && lru_entries(*final(c)) == lru_entries(
                *old(c),
            ),
            Some(p) => holds_key(lru_entries(*old(c)), key@) && p == page_of(
                lru_entries(*old(c)),
                key@,
            ) && lru_entries(*final(c)) == seq![(key@, p)] + without_key(
                lru_entries(*old(c)),
                key@,
            ),
        },
    no_unwind
{
    c.get(key).cloned()
}

/// `LruCache::pop`: removes the page stored under `key`, if any. The contract also claims
/// that the call does not unwind.
#[verifier::external_body]
fn lru_pop(c: &mut lru::LruCache<String, CachedPage, RandomState>, key: &str)
    requires
        cache_ok(lru_entries(*old(c)), lru_capacity(*old(c))),
    ensures
        lru_capacity(*final(c)) == lru_capacity(*old(c)),
        lru_entries(*final(c)) == without_key(lru_entries(*old(c)), key@),
    no_unwind
{
    c.pop(key);
}

/// `LruCache::put`: stores `page` under `key` as the most recently used entry, replacing
/// the page stored under it; a new key in a full cache evicts the least recently used.
/// The contract also claims that the call does not unwind.
#[verifier::external_body]
fn lru_put(c: &mut lru::LruCache<String, CachedPage, RandomState>, key: String, page: CachedPage)
    requires
        cache_ok(lru_entries(*old(c)), lru_capacity(*old(c))),
    ensures
        lru_capacity(*final(c)) == lru_capacity(*old(c)),
        lru_entries(*final(c)) == seq![(key@, page)] + if holds_key(
            lru_entries(*old(c)),
            key@,
        ) {
            without_key(lru_entries(*old(c)), key@)
        } else if lru_entries(*old(c)).len() == lru_capacity(*old(c)) {
            lru_entries(*old(c)).drop_last()
        } else {
            lru_entries(*old(c))
        },
    no_unwind
{
    c.put(key, page);
}

/// The cache of rendered pages.
pub struct PageCache {
    pages: lru::LruCache<String, CachedPage, RandomState>,
}

impl PageCache {
    /// The keys and pages held, most recently used first.
    pub closed spec fn entries(&self) -> EntriesView {
        lru_entries(self.pages)
    }

    /// How many pages the cache holds at most.
    pub closed spec fn capacity(&self) -> nat {
        lru_capacity(self.pages)
    }

    /// A well-formed cache: distinct keys, a positive capacity, no more entries than it.
    pub open spec fn wf(&self) -> bool {
        cache_ok(self.entries(), self.capacity()) && self.capacity() > 0
    }

    #[verifier::type_invariant]
    spec fn inv(self) -> bool {
        cache_ok(lru_entries(self.pages), lru_capacity(self.pages)) && lru_capacity(self.pages) > 0
    }

    /// An empty cache of `CACHE_SIZE` pages.
    pub fn new() -> (c: PageCache)
        ensures
            c.wf(),
            c.entries() == Seq::<(Seq<char>, CachedPage)>::empty(),
            c.capacity() == CACHE_SIZE,
            c.capacity() == 200,
    {
        PageCache { pages: lru_new(CACHE_SIZE) }
    }

    /// The response cached for `url` if it was rendered less than `CACHE_TTL_MS` ago (it
    /// then becomes the most recently used); an expired page is dropped.
    pub fn get_fresh(&mut self, url: &str, now_ms: u64) -> (r: Option<Response>)
        ensures
            final(self).wf(),
            final(self).capacity() == old(self).capacity(),
            !holds_key(old(self).entries(), url@) ==> r is None && final(self).entries()
                == old(self).entries(),
            holds_key(old(self).entries(), url@) && fresh(time_of(old(self).entries(), url@), now_ms)
                ==> r == Some(page_of(old(self).entries(), url@).response) && final(self).entries()
                == seq![(url@, page_of(old(self).entries(), url@))] + without_key(
                old(self).entries(),
                url@,
            ),
            holds_key(old(self).entries(), url@) && !fresh(time_of(old(self).entries(), url@), now_ms)
                ==> r is None && final(self).entries() == without_key(old(self).entries(), url@),
    {
        proof {
            use_type_invariant(&*self);
        }
        let ghost before = self.entries();
        proof {
            lemma_move_to_front_ok(before, url@, self.capacity());
        }
        match lru_get(&mut self.pages, url) {
            Some(page) => {
                if now_ms < page.cached_at_ms || now_ms - page.cached_at_ms < CACHE_TTL_MS {
                    Some(page.response)
                } else {
                    let ghost moved = self.entries();
                    proof {
                        lemma_without_key_ok(moved, url@, self.capacity());
                        lemma_pop_after_move(before, url@, page);
                    }
                    lru_pop(&mut self.pages, url);
                    None
                }
            },
            None => None,
        }
    }

    /// Caches `response` for `url`, rendered at `now_ms`.
    pub fn put(&mut self, url: &str, response: Response, now_ms: u64)
        ensures
            final(self).wf(),
            final(self).capacity() == old(self).capacity(),
            final(self).entries() == after_put(
                old(self).entries(),
                url@,
                (CachedPage { response, cached_at_ms: now_ms }),
                old(self).capacity(),
            ),
    {
        proof {
            use_type_invariant(&*self);
        }
        let ghost before = self.entries();
        proof {
            lemma_put_ok(before, url@, CachedPage { response, cached_at_ms: now_ms }, self.capacity());
        }
        lru_put(&mut self.pages, url.to_owned(), CachedPage { response, cached_at_ms: now_ms });
    }
}

/// The entries after putting page `p` under `k`: `k` first, its earlier entry gone; a
/// new key in a full cache evicts the least recently used entry.
pub open spec fn after_put(es: EntriesView, k: Seq<char>, p: CachedPage, cap: nat) -> EntriesView {
    seq![(k, p)] + if holds_key(es, k) {
        without_key(es, k)
    } else if es.len() == cap {
        es.drop_last()
    } else {
        es
    }
}

/// Law: a read gives back what was written: right after a page is cached under `k`, `k`
/// is held with exactly that page, its response and the time it was cached at, so
/// `get_fresh` returns that response until `CACHE_TTL_MS` has passed.
pub proof fn lemma_put_then_held(es: EntriesView, k: Seq<char>, p: CachedPage, cap: nat)
    requires
        cache_ok(es, cap),
        cap > 0,
    ensures
        holds_key(after_put(es, k, p, cap), k),
        page_of(after_put(es, k, p, cap), k) == p,
        page_of(after_put(es, k, p, cap), k).response == p.response,
        time_of(after_put(es, k, p, cap), k) == p.cached_at_ms,
{
    lemma_put_ok(es, k, p, cap);
    let es2 = after_put(es, k, p, cap);
    assert(es2[0].0 == k);
    let i = choose|i: int| 0 <= i < es2.len() && es2[i].0 == k;
    assert(i == 0);
}

/// Law: a cached page is served for five minutes after it was rendered and no longer (a
/// clock that went back counts as no time passed).
pub proof fn lemma_pages_are_served_for_five_minutes(cached_at_ms: u64, now_ms: u64)
    ensures
        fresh(cached_at_ms, now_ms) <==> (now_ms < cached_at_ms || now_ms - cached_at_ms
            < 300_000),
{
}

/// A page rendered at `cached_at_ms` is still served at `now_ms`: less than
/// `CACHE_TTL_MS` has passed (a clock that went back counts as no time passed).
pub open spec fn fresh(cached_at_ms: u64, now_ms: u64) -> bool {
    now_ms < cached_at_ms || now_ms - cached_at_ms < CACHE_TTL_MS
}

proof fn lemma_without_key_facts(es: EntriesView, k: Seq<char>)
    requires
        keys_distinct(es),
    ensures
        keys_distinct(without_key(es, k)),
        !holds_key(without_key(es, k), k),
        without_key(es, k).len() <= es.len(),
        holds_key(es, k) ==> without_key(es, k).len() < es.len(),
    decreases es.len(),
{
    reveal_with_fuel(Seq::filter, 1);
    if es.len() > 0 {
        let init = es.drop_last();
        assert(keys_distinct(init));
        lemma_without_key_facts(init, k);
        assert(es.filter(key_differs(k)) == if es.last().0 != k {
            init.filter(key_differs(k)).push(es.last())
        } else {
            init.filter(key_differs(k))
        });
        let w = without_key(init, k);
        if es.last().0 != k {
            assert forall|i: int, j: int|
                0 <= i < w.len() + 1 && 0 <= j < w.len() + 1 && i != j implies w.push(
                es.last(),
            )[i].0 != w.push(es.last())[j].0 by {
                if i == w.len() || j == w.len() {
                    let other = if i == w.len() {
                        j
                    } else {
                        i
                    };
                    assert(w.contains(w[other]));
                    init.lemma_filter_contains_rev(key_differs(k), w[other]);
                    let q = choose|q: int| 0 <= q < init.len() && init[q] == w[other];
                    assert(es[q].0 != es[es.len() - 1].0);
                }
            }
        }
        if holds_key(es, k) {
            if es.last().0 != k {
                let i = choose|i: int| 0 <= i < es.len() && es[i].0 == k;
                assert(init[i].0 == k);
            }
        }
    }
}

proof fn lemma_move_to_front_ok(es: EntriesView, k: Seq<char>, cap: nat)
    requires
        cache_ok(es, cap),
    ensures
        holds_key(es, k) ==> forall|p: CachedPage| #[trigger] cache_ok(seq![(k, p)] + without_key(es, k), cap),
{
    lemma_without_key_facts(es, k);
    let w = without_key(es, k);
    assert forall|p: CachedPage| holds_key(es, k) implies #[trigger] cache_ok(seq![(k, p)] + w, cap) by {
        let n = seq![(k, p)] + w;
        assert forall|i: int, j: int| 0 <= i < n.len() && 0 <= j < n.len() && i != j implies n[i].0
            != n[j].0 by {
            if i == 0 {
                assert(n[j] == w[j - 1]);
            } else if j == 0 {
                assert(n[i] == w[i - 1]);
            } else {
                assert(n[i] == w[i - 1] && n[j] == w[j - 1]);
            }
        }
    }
}

proof fn lemma_without_key_ok(es: EntriesView, k: Seq<char>, cap: nat)
    requires
        cache_ok(es, cap),
    ensures
        cache_ok(without_key(es, k), cap),
{
    lemma_without_key_facts(es, k);
}

proof fn lemma_pop_after_move(es: EntriesView, k: Seq<char>, p: CachedPage)
    requires
        keys_distinct(es),
    ensures
        without_key(seq![(k, p)] + without_key(es, k), k) == without_key(es, k),
{
    reveal_with_fuel(Seq::filter, 1);
    lemma_without_key_facts(es, k);
    let w = without_key(es, k);
    w.lemma_filter_prepend((k, p), key_differs(k));
    lemma_filter_absent_is_identity(w, k);
    assert(Seq::<(Seq<char>, CachedPage)>::empty() + w == w);
}

proof fn lemma_filter_absent_is_identity(es: EntriesView, k: Seq<char>)
    requires
        !holds_key(es, k),
    ensures
        without_key(es, k) == es,
    decreases es.len(),
{
    reveal_with_fuel(Seq::filter, 1);
    if es.len() > 0 {
        let init = es.drop_last();
        assert(!holds_key(init, k)) by {
            if holds_key(init, k) {
                let i = choose|i: int| 0 <= i < init.len() && init[i].0 == k;
                assert(es[i].0 == k);
            }
        }
        lemma_filter_absent_is_identity(init, k);
        assert(es.last().0 != k);
        assert(init.push(es.last()) == es);
    }
}

proof fn lemma_put_ok(es: EntriesView, k: Seq<char>, p: CachedPage, cap: nat)
    requires
        cache_ok(es, cap),
        cap > 0,
    ensures
        cache_ok(after_put(es, k, p, cap), cap),
{
    if holds_key(es, k) {
        lemma_move_to_front_ok(es, k, cap);
    } else {
        let rest = if es.len() == cap {
            es.drop_last()
        } else {
            es
        };
        let n = seq![(k, p)] + rest;
        assert forall|i: int, j: int| 0 <= i < n.len() && 0 <= j < n.len() && i != j implies n[i].0
            != n[j].0 by {
            if i == 0 && j > 0 {
                assert(n[j] == es[j - 1]);
            } else if j == 0 && i > 0 {
                assert(n[i] == es[i - 1]);
            } else if i > 0 && j > 0 {
                assert(n[i] == es[i - 1] && n[j] == es[j - 1]);
            }
        }
    }
}

} // verus!
