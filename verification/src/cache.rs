//! Response cache with expiry, entity tags and least-recently-used eviction,
//! and a three-state circuit breaker for relay requests.

use vstd::prelude::*;
use crate::infrastructure::clock::clock_millis;
use crate::keyed::StrTable;

verus! {

/// `a + b`, stopping at `u64::MAX`.
pub open spec fn add_capped(a: u64, b: u64) -> u64 {
    if a + b <= u64::MAX { (a + b) as u64 } else { u64::MAX }
}

/// A cached value with its entity tag and times (milliseconds).
#[derive(Debug)]
pub struct CacheEntry<T> {
    pub value: T,
    pub etag: Option<String>,
    pub expires_at: u64,
    pub last_accessed: u64,
}

impl<T> CacheEntry<T> {
    /// An entry created at `now` that lives `ttl_ms` milliseconds.
    pub fn new_at(value: T, etag: Option<String>, ttl_ms: u64, now: u64) -> (entry: CacheEntry<T>)
        ensures
            entry.value == value,
            entry.etag == etag,
            entry.expires_at == add_capped(now, ttl_ms),
            entry.last_accessed == now,
    {
        CacheEntry { value, etag, expires_at: now.saturating_add(ttl_ms), last_accessed: now }
    }

    /// An entry created now that lives `ttl_ms` milliseconds.
    pub fn new(value: T, etag: Option<String>, ttl_ms: u64) -> (entry: CacheEntry<T>)
        ensures
            entry.value == value,
            entry.etag == etag,
            entry.expires_at == add_capped(entry.last_accessed, ttl_ms),
    {
        Self::new_at(value, etag, ttl_ms, clock_millis())
    }

    /// Whether the entry has expired at `now`.
    pub open spec fn expired_at(&self, now: u64) -> bool {
        now > self.expires_at
    }

    /// Whether the entry has expired at time `now`.
    pub fn is_expired_at(&self, now: u64) -> (expired: bool)
        ensures
            expired == self.expired_at(now),
    {
        now > self.expires_at
    }

    /// Whether the entry has expired now.
    pub fn is_expired(&self) -> (expired: bool)
        ensures
            exists|now: u64| expired == #[trigger] self.expired_at(now),
    {
        let now = clock_millis();
        let expired = self.is_expired_at(now);
        assert(expired == self.expired_at(now));
        expired
    }

    /// Marks the entry used at `now`.
    pub fn touch_at(&mut self, now: u64)
        ensures
            final(self).last_accessed == now,
            final(self).value == old(self).value,
            final(self).etag == old(self).etag,
            final(self).expires_at == old(self).expires_at,
    {
        self.last_accessed = now;
    }

    /// Marks the entry used now.
    pub fn touch(&mut self)
        ensures
            final(self).value == old(self).value,
            final(self).etag == old(self).etag,
            final(self).expires_at == old(self).expires_at,
    {
        self.touch_at(clock_millis());
    }
}

/// Hit and miss counts and the size of a cache.
#[derive(Debug, Clone, Copy, PartialEq, Eq, Structural)]
pub struct CacheStats {
    pub size: usize,
    pub capacity: usize,
    pub hits: u64,
    pub misses: u64,
}

/// `order` without `key`.
pub open spec fn remove_key(order: Seq<Seq<char>>, key: Seq<char>) -> Seq<Seq<char>> {
    if order.contains(key) { order.remove(order.index_of(key)) } else { order }
}

/// `key` moved to the most recent end of `order`.
pub open spec fn bump(order: Seq<Seq<char>>, key: Seq<char>) -> Seq<Seq<char>> {
    remove_key(order, key).push(key)
}

/// Removing a key keeps the order free of duplicates and drops it from
/// the key set.
pub proof fn lemma_remove_key(order: Seq<Seq<char>>, key: Seq<char>)
    requires
        order.no_duplicates(),
    ensures
        remove_key(order, key).no_duplicates(),
        remove_key(order, key).to_set() == order.to_set().remove(key),
        !remove_key(order, key).contains(key),
{
    if order.contains(key) {
        let i = order.index_of(key);
        let r = order.remove(i);
        assert forall|a: int, b: int| 0 <= a < r.len() && 0 <= b < r.len() && a != b implies r[a] != r[b] by {
            let oa = if a < i { a } else { a + 1 };
            let ob = if b < i { b } else { b + 1 };
            assert(r[a] == order[oa] && r[b] == order[ob]);
        }
        assert forall|k: Seq<char>| r.contains(k) <==> (order.contains(k) && k != key) by {
            if r.contains(k) {
                let w = choose|w: int| 0 <= w < r.len() && r[w] == k;
                let ow = if w < i { w } else { w + 1 };
                assert(order[ow] == k && ow != i);
            }
            if order.contains(k) && k != key {
                let w = choose|w: int| 0 <= w < order.len() && order[w] == k;
                assert(w != i);
                let nw = if w < i { w } else { w - 1 };
                assert(r[nw] == k);
            }
        }
        assert(r.to_set() =~= order.to_set().remove(key));
    } else {
        assert(order.to_set() =~= order.to_set().remove(key));
    }
}

/// Moving a key to the recent end keeps the order free of duplicates and
/// adds it to the key set.
pub proof fn lemma_bump(order: Seq<Seq<char>>, key: Seq<char>)
    requires
        order.no_duplicates(),
    ensures
        bump(order, key).no_duplicates(),
        bump(order, key).to_set() == order.to_set().insert(key),
        bump(order, key).last() == key,
{
    lemma_remove_key(order, key);
    let r = remove_key(order, key);
    let b = r.push(key);
    assert forall|x: int, y: int| 0 <= x < b.len() && 0 <= y < b.len() && x != y implies b[x] != b[y] by {
        if x < r.len() && y < r.len() {
            assert(b[x] == r[x] && b[y] == r[y]);
        } else if x == r.len() {
            assert(b[y] == r[y]);
            assert(!r.contains(key));
        } else {
            assert(b[x] == r[x]);
            assert(!r.contains(key));
        }
    }
    assert forall|k: Seq<char>| b.contains(k) <==> (r.contains(k) || k == key) by {
        if b.contains(k) {
            let w = choose|w: int| 0 <= w < b.len() && b[w] == k;
            if w < r.len() {
                assert(r[w] == k);
            }
        }
        if r.contains(k) {
            let w = choose|w: int| 0 <= w < r.len() && r[w] == k;
            assert(b[w] == k);
        }
        if k == key {
            assert(b[r.len() as int] == k);
        }
    }
    assert(b.to_set() =~= order.to_set().insert(key));
}

/// Position of `key` in `order`.
fn order_position(order: &Vec<String>, key: &str) -> (position: Option<usize>)
    ensures
        match position {
            Some(i) => i < order@.len() && order@[i as int]@ == key@,
            None => !order_view(order@).contains(key@),
        },
{
    let wanted = key.to_owned();
    let mut i: usize = 0;
    while i < order.len()
        invariant
            i <= order@.len(),
            wanted@ == key@,
            forall|j: int| 0 <= j < i ==> #[trigger] order@[j]@ != key@,
        decreases order@.len() - i,
    {
        if order[i] == wanted {
            return Some(i);
        }
        i = i + 1;
    }
    proof {
        if order_view(order@).contains(key@) {
            let w = choose|w: int| 0 <= w < order_view(order@).len() && order_view(order@)[w] == key@;
            assert(order@[w]@ == key@);
        }
    }
    None
}

/// Takes `key` out of `order`.
fn drop_key(order: &mut Vec<String>, key: &str)
    requires
        order_view(old(order)@).no_duplicates(),
    ensures
        order_view(final(order)@) == remove_key(order_view(old(order)@), key@),
{
    let ghost before = order_view(order@);
    match order_position(order, key) {
        Some(i) => {
            proof {
                assert(before[i as int] == key@);
                assert(before.contains(key@));
                let j = before.index_of(key@);
                assert(before[j] == key@);
                assert(j == i);
            }
            let _ = order.remove(i);
            assert(order_view(order@) =~= before.remove(i as int));
        },
        None => {},
    }
}

/// Cache with expiry, entity tags and eviction of the least recently used
/// entry once `max_size` entries are held.
#[derive(Debug)]
pub struct LruCache<T> {
    cache: StrTable<CacheEntry<T>>,
    lru_order: Vec<String>,
    max_size: usize,
    default_ttl_ms: u64,
    hits: u64,
    misses: u64,
}

/// The keys of `order`, as character sequences.
pub open spec fn order_view(order: Seq<String>) -> Seq<Seq<char>> {
    order.map_values(|k: String| k@)
}

/// Storing `value` under `key` at `now`, living `ttl_ms`, in the cache
/// `before`, which becomes `after`: when the cache is full the least
/// recently used entry is dropped first, and the key becomes the most
/// recently used.
pub open spec fn insert_step<T>(
    before: LruCache<T>,
    after: LruCache<T>,
    key: Seq<char>,
    value: T,
    etag: Option<String>,
    ttl_ms: u64,
    now: u64,
) -> bool {
    let full = before.spec_entries().dom().len() >= before.spec_max_size() && before.spec_order().len() > 0;
    let entries = if full { before.spec_entries().remove(before.spec_order()[0]) } else { before.spec_entries() };
    let order = if full { before.spec_order().drop_first() } else { before.spec_order() };
    &&& after.spec_entries() == entries.insert(key, CacheEntry { value, etag, expires_at: add_capped(now, ttl_ms), last_accessed: now })
    &&& after.spec_order() == bump(order, key)
    &&& after.spec_max_size() == before.spec_max_size()
    &&& after.spec_default_ttl() == before.spec_default_ttl()
    &&& after.spec_hits() == before.spec_hits()
    &&& after.spec_misses() == before.spec_misses()
}

/// Looking `key` up at `now` in the cache `before`, which becomes `after`:
/// a fresh entry is marked used, becomes the most recently used and counts
/// a hit; an expired one is dropped and counts a miss; a missing key
/// counts nothing.
pub open spec fn get_step<T: Clone>(before: LruCache<T>, after: LruCache<T>, key: Seq<char>, now: u64, found: Option<(T, Option<String>)>) -> bool {
    &&& after.spec_max_size() == before.spec_max_size()
    &&& after.spec_default_ttl() == before.spec_default_ttl()
    &&& !before.spec_entries().dom().contains(key) ==> found is None
        && after.spec_entries() == before.spec_entries()
        && after.spec_order() == before.spec_order()
        && after.spec_hits() == before.spec_hits()
        && after.spec_misses() == before.spec_misses()
    &&& before.spec_entries().dom().contains(key) && before.spec_entries()[key].expired_at(now) ==> found is None
        && after.spec_entries() == before.spec_entries().remove(key)
        && after.spec_order() == remove_key(before.spec_order(), key)
        && after.spec_hits() == before.spec_hits()
        && after.spec_misses() == next_count(before.spec_misses())
    &&& before.spec_entries().dom().contains(key) && !before.spec_entries()[key].expired_at(now) ==> {
        let entry = before.spec_entries()[key];
        &&& found matches Some(pair) && cloned(entry.value, pair.0) && pair.1 == entry.etag
        &&& after.spec_entries() == before.spec_entries().insert(key, CacheEntry { last_accessed: now, ..entry })
        &&& after.spec_order() == bump(before.spec_order(), key)
        &&& after.spec_hits() == next_count(before.spec_hits())
        &&& after.spec_misses() == before.spec_misses()
    }
}

/// Reading the entity tag of `key` at `now` in the cache `before`, which
/// becomes `after`: an expired entry is dropped; nothing is counted.
pub open spec fn etag_step<T>(before: LruCache<T>, after: LruCache<T>, key: Seq<char>, now: u64, etag: Option<String>) -> bool {
    &&& after.spec_hits() == before.spec_hits()
    &&& after.spec_misses() == before.spec_misses()
    &&& after.spec_max_size() == before.spec_max_size()
    &&& !before.spec_entries().dom().contains(key) ==> etag is None
        && after.spec_entries() == before.spec_entries()
        && after.spec_order() == before.spec_order()
    &&& before.spec_entries().dom().contains(key) && before.spec_entries()[key].expired_at(now) ==> etag is None
        && after.spec_entries() == before.spec_entries().remove(key)
        && after.spec_order() == remove_key(before.spec_order(), key)
    &&& before.spec_entries().dom().contains(key) && !before.spec_entries()[key].expired_at(now) ==>
        etag == before.spec_entries()[key].etag
        && after.spec_entries() == before.spec_entries()
        && after.spec_order() == before.spec_order()
}

/// Dropping at `now` the entries of the cache `before` that have expired,
/// which gives `after`.
pub open spec fn clear_step<T>(before: LruCache<T>, after: LruCache<T>, now: u64) -> bool {
    &&& after.spec_entries() == before.spec_entries().restrict(
        before.spec_entries().dom().filter(|k: Seq<char>| !before.spec_entries()[k].expired_at(now)),
    )
    &&& after.spec_hits() == before.spec_hits()
    &&& after.spec_misses() == before.spec_misses()
    &&& after.spec_max_size() == before.spec_max_size()
}

impl<T> LruCache<T> {
    /// The recency order lists each cached key exactly once.
    pub closed spec fn wf(&self) -> bool {
        let order = order_view(self.lru_order@);
        &&& order.no_duplicates()
        &&& self.cache@.dom() == order.to_set()
    }

    /// Cached entries by key.
    pub closed spec fn spec_entries(&self) -> Map<Seq<char>, CacheEntry<T>> {
        self.cache@
    }

    /// Keys from least to most recently used.
    pub closed spec fn spec_order(&self) -> Seq<Seq<char>> {
        order_view(self.lru_order@)
    }

    pub closed spec fn spec_max_size(&self) -> usize {
        self.max_size
    }

    pub closed spec fn spec_default_ttl(&self) -> u64 {
        self.default_ttl_ms
    }

    pub closed spec fn spec_hits(&self) -> u64 {
        self.hits
    }

    pub closed spec fn spec_misses(&self) -> u64 {
        self.misses
    }

    /// An empty cache holding up to `max_size` entries that live
    /// `default_ttl_ms` milliseconds unless told otherwise.
    pub fn new(max_size: usize, default_ttl_ms: u64) -> (cache: LruCache<T>)
        ensures
            cache.spec_entries() == Map::<Seq<char>, CacheEntry<T>>::empty(),
            cache.spec_order() == Seq::<Seq<char>>::empty(),
            cache.spec_max_size() == max_size,
            cache.spec_default_ttl() == default_ttl_ms,
            cache.spec_hits() == 0,
            cache.spec_misses() == 0,
            cache.wf(),
    {
        let cache = LruCache {
            cache: StrTable::new(),
            lru_order: Vec::new(),
            max_size,
            default_ttl_ms,
            hits: 0,
            misses: 0,
        };
        assert(order_view(cache.lru_order@) =~= Seq::<Seq<char>>::empty());
        assert(order_view(cache.lru_order@).to_set() =~= Set::<Seq<char>>::empty());
        cache
    }

    /// The cache is well formed; its size is the length of its order.
    proof fn lemma_size(&self)
        requires
            self.wf(),
        ensures
            self.spec_entries().dom().finite(),
            self.spec_entries().dom().len() == self.spec_order().len(),
    {
        self.spec_order().unique_seq_to_set();
        vstd::seq_lib::seq_to_set_is_finite(self.spec_order());
    }

    /// Takes `key` out of the cache and of the recency order.
    fn remove_entry(&mut self, key: &str) -> (removed: Option<CacheEntry<T>>)
        requires
            old(self).wf(),
        ensures
            final(self).wf(),
            removed.is_some() == old(self).spec_entries().dom().contains(key@),
            removed.is_some() ==> removed.unwrap() == old(self).spec_entries()[key@],
            final(self).spec_entries() == old(self).spec_entries().remove(key@),
            final(self).spec_order() == remove_key(old(self).spec_order(), key@),
            final(self).spec_max_size() == old(self).spec_max_size(),
            final(self).spec_default_ttl() == old(self).spec_default_ttl(),
            final(self).spec_hits() == old(self).spec_hits(),
            final(self).spec_misses() == old(self).spec_misses(),
    {
        proof { lemma_remove_key(self.spec_order(), key@); }
        let removed = self.cache.remove(key);
        drop_key(&mut self.lru_order, key);
        removed
    }

    /// Removes `key`, giving back its value.
    pub fn remove(&mut self, key: &str) -> (removed: Option<T>)
        requires
            old(self).wf(),
        ensures
            final(self).wf(),
            removed.is_some() == old(self).spec_entries().dom().contains(key@),
            removed.is_some() ==> removed.unwrap() == old(self).spec_entries()[key@].value,
            final(self).spec_entries() == old(self).spec_entries().remove(key@),
            final(self).spec_order() == remove_key(old(self).spec_order(), key@),
            final(self).spec_hits() == old(self).spec_hits(),
            final(self).spec_misses() == old(self).spec_misses(),
            final(self).spec_max_size() == old(self).spec_max_size(),
            final(self).spec_default_ttl() == old(self).spec_default_ttl(),
    {
        match self.remove_entry(key) {
            Some(entry) => Some(entry.value),
            None => None,
        }
    }

    /// Drops the least recently used entry, if any.
    fn evict_lru(&mut self)
        requires
            old(self).wf(),
        ensures
            final(self).wf(),
            old(self).spec_order().len() == 0 ==> final(self).spec_entries() == old(self).spec_entries()
                && final(self).spec_order() == old(self).spec_order(),
            old(self).spec_order().len() > 0 ==> final(self).spec_entries() == old(self).spec_entries().remove(old(self).spec_order()[0])
                && final(self).spec_order() == old(self).spec_order().drop_first(),
            final(self).spec_max_size() == old(self).spec_max_size(),
            final(self).spec_default_ttl() == old(self).spec_default_ttl(),
            final(self).spec_hits() == old(self).spec_hits(),
            final(self).spec_misses() == old(self).spec_misses(),
    {
        if self.lru_order.len() == 0 {
            return;
        }
        let ghost before = self.spec_order();
        let oldest = self.lru_order.remove(0);
        proof {
            assert(order_view(self.lru_order@) =~= before.drop_first());
            assert(before[0] == oldest@);
            assert(before.drop_first() =~= before.remove(0));
            assert(before.contains(oldest@));
            let j = before.index_of(oldest@);
            assert(j == 0);
            lemma_remove_key(before, oldest@);
        }
        let _ = self.cache.remove(oldest.as_str());
    }

    /// Stores `value` under `key` at time `now`, living `ttl_ms`
    /// milliseconds. When the cache already holds `max_size` entries, the
    /// least recently used one is dropped first. The key becomes the most
    /// recently used.
    pub fn insert_with_ttl_at(&mut self, key: String, value: T, etag: Option<String>, ttl_ms: u64, now: u64)
        requires
            old(self).wf(),
        ensures
            final(self).wf(),
            insert_step(*old(self), *final(self), key@, value, etag, ttl_ms, now),
    {
        proof { self.lemma_size(); }
        let entry = CacheEntry::new_at(value, etag, ttl_ms, now);
        if self.cache.len() >= self.max_size {
            self.evict_lru();
        }
        let ghost order = self.spec_order();
        proof { lemma_bump(order, key@); }
        let k = key.clone();
        drop_key(&mut self.lru_order, key.as_str());
        self.lru_order.push(k);
        assert(order_view(self.lru_order@) =~= bump(order, key@));
        self.cache.insert(key, entry);
    }

    /// Stores `value` under `key` now, living `ttl_ms` milliseconds.
    pub fn insert_with_ttl(&mut self, key: String, value: T, etag: Option<String>, ttl_ms: u64)
        requires
            old(self).wf(),
        ensures
            final(self).wf(),
            final(self).spec_entries().dom().contains(key@),
            final(self).spec_entries()[key@].value == value,
            final(self).spec_entries()[key@].etag == etag,
            final(self).spec_order().last() == key@,
            final(self).spec_max_size() == old(self).spec_max_size(),
            exists|now: u64| #[trigger] insert_step(*old(self), *final(self), key@, value, etag, ttl_ms, now),
    {
        let now = clock_millis();
        let ghost k = key@;
        self.insert_with_ttl_at(key, value, etag, ttl_ms, now);
        assert(insert_step(*old(self), *self, k, value, etag, ttl_ms, now));
        proof {
            let full = old(self).spec_entries().dom().len() >= old(self).spec_max_size() && old(self).spec_order().len() > 0;
            let order = if full { old(self).spec_order().drop_first() } else { old(self).spec_order() };
            lemma_bump(order, key@);
            lemma_bump(remove_key(order, key@), key@);
        }
    }

    /// Stores `value` under `key` at time `now` with the default lifetime.
    pub fn insert_at(&mut self, key: String, value: T, etag: Option<String>, now: u64)
        requires
            old(self).wf(),
        ensures
            final(self).wf(),
            final(self).spec_entries().dom().contains(key@),
            final(self).spec_entries()[key@] == (CacheEntry {
                value,
                etag,
                expires_at: add_capped(now, old(self).spec_default_ttl()),
                last_accessed: now,
            }),
            final(self).spec_order().last() == key@,
            final(self).spec_max_size() == old(self).spec_max_size(),
            final(self).spec_hits() == old(self).spec_hits(),
            final(self).spec_misses() == old(self).spec_misses(),
            insert_step(*old(self), *final(self), key@, value, etag, old(self).spec_default_ttl(), now),
    {
        let ttl = self.default_ttl_ms;
        self.insert_with_ttl_at(key, value, etag, ttl, now);
        proof { lemma_bump(remove_key(old(self).spec_order(), key@), key@); }
    }

    /// Stores `value` under `key` now with the default lifetime.
    pub fn insert(&mut self, key: String, value: T, etag: Option<String>)
        requires
            old(self).wf(),
        ensures
            final(self).wf(),
            final(self).spec_entries().dom().contains(key@),
            final(self).spec_entries()[key@].value == value,
            final(self).spec_entries()[key@].etag == etag,
            exists|now: u64| #[trigger] insert_step(*old(self), *final(self), key@, value, etag, old(self).spec_default_ttl(), now),
    {
        let now = clock_millis();
        let ghost k = key@;
        self.insert_at(key, value, etag, now);
        assert(insert_step(*old(self), *self, k, value, etag, old(self).spec_default_ttl(), now));
    }

    /// Number of cached entries, hits, misses and capacity.
    pub fn stats(&self) -> (stats: CacheStats)
        requires
            self.wf(),
        ensures
            stats.size == self.spec_entries().dom().len(),
            stats.capacity == self.spec_max_size(),
            stats.hits == self.spec_hits(),
            stats.misses == self.spec_misses(),
    {
        proof { self.lemma_size(); }
        CacheStats { size: self.cache.len(), capacity: self.max_size, hits: self.hits, misses: self.misses }
    }
}

/// A counter after one more event, wrapping to zero past `u64::MAX`.
pub open spec fn next_count(n: u64) -> u64 {
    if n < u64::MAX { (n + 1) as u64 } else { 0 }
}

/// A copy of an optional entity tag.
fn copy_etag(etag: &Option<String>) -> (copy: Option<String>)
    ensures
        copy == *etag,
{
    match etag {
        Some(tag) => Some(tag.clone()),
        None => None,
    }
}

impl<T: Clone> LruCache<T> {
    /// Looks `key` up at time `now`. A fresh entry is marked used, becomes
    /// the most recently used and counts a hit; an expired one is dropped
    /// and counts a miss; a missing key counts nothing.
    pub fn get_at(&mut self, key: &str, now: u64) -> (found: Option<(T, Option<String>)>)
        requires
            old(self).wf(),
        ensures
            final(self).wf(),
            get_step(*old(self), *final(self), key@, now, found),
    {
        let expired = match self.cache.get(key) {
            None => return None,
            Some(entry) => entry.is_expired_at(now),
        };
        if expired {
            let _ = self.remove_entry(key);
            self.misses = if self.misses < u64::MAX { self.misses + 1 } else { 0 };
            return None;
        }
        let ghost order = self.spec_order();
        proof { lemma_bump(order, key@); }
        let entry = match self.cache.remove(key) {
            Some(entry) => entry,
            None => return None,
        };
        let mut entry = entry;
        entry.touch_at(now);
        let value = entry.value.clone();
        let etag = copy_etag(&entry.etag);
        self.cache.insert(key.to_owned(), entry);
        drop_key(&mut self.lru_order, key);
        self.lru_order.push(key.to_owned());
        assert(order_view(self.lru_order@) =~= bump(order, key@));
        proof {
            assert(self.cache@ =~= old(self).cache@.insert(key@, CacheEntry { last_accessed: now, ..old(self).cache@[key@] }));
        }
        self.hits = if self.hits < u64::MAX { self.hits + 1 } else { 0 };
        Some((value, etag))
    }

    /// Looks `key` up now.
    pub fn get(&mut self, key: &str) -> (found: Option<(T, Option<String>)>)
        requires
            old(self).wf(),
        ensures
            final(self).wf(),
            !old(self).spec_entries().dom().contains(key@) ==> found is None,
            found matches Some(pair) ==> old(self).spec_entries().dom().contains(key@)
                && cloned(old(self).spec_entries()[key@].value, pair.0)
                && pair.1 == old(self).spec_entries()[key@].etag,
            exists|now: u64| #[trigger] get_step(*old(self), *final(self), key@, now, found),
    {
        let now = clock_millis();
        let found = self.get_at(key, now);
        assert(get_step(*old(self), *self, key@, now, found));
        found
    }

    /// The entity tag stored with `key` at time `now`; an expired entry is
    /// dropped. Neither hits nor misses are counted.
    pub fn get_etag_at(&mut self, key: &str, now: u64) -> (etag: Option<String>)
        requires
            old(self).wf(),
        ensures
            final(self).wf(),
            etag_step(*old(self), *final(self), key@, now, etag),
    {
        let expired = match self.cache.get(key) {
            None => return None,
            Some(entry) => entry.is_expired_at(now),
        };
        if expired {
            let _ = self.remove_entry(key);
            return None;
        }
        match self.cache.get(key) {
            Some(entry) => copy_etag(&entry.etag),
            None => None,
        }
    }

    /// The entity tag stored with `key` now; an expired entry is dropped.
    pub fn get_etag(&mut self, key: &str) -> (etag: Option<String>)
        requires
            old(self).wf(),
        ensures
            final(self).wf(),
            !old(self).spec_entries().dom().contains(key@) ==> etag is None,
            etag matches Some(t) ==> old(self).spec_entries().dom().contains(key@)
                && old(self).spec_entries()[key@].etag == Some(t),
            exists|now: u64| #[trigger] etag_step(*old(self), *final(self), key@, now, etag),
    {
        let now = clock_millis();
        let etag = self.get_etag_at(key, now);
        assert(etag_step(*old(self), *self, key@, now, etag));
        etag
    }

    /// Drops every entry expired now.
    pub fn clear_expired(&mut self)
        requires
            old(self).wf(),
        ensures
            final(self).wf(),
            final(self).spec_entries().dom().subset_of(old(self).spec_entries().dom()),
            forall|k: Seq<char>| #[trigger] final(self).spec_entries().dom().contains(k) ==> final(self).spec_entries()[k] == old(self).spec_entries()[k],
            exists|now: u64| #[trigger] clear_step(*old(self), *final(self), now),
    {
        let now = clock_millis();
        self.clear_expired_at(now);
        assert(clear_step(*old(self), *self, now));
    }

    /// Drops every entry expired at time `now`.
    pub fn clear_expired_at(&mut self, now: u64)
        requires
            old(self).wf(),
        ensures
            final(self).wf(),
            clear_step(*old(self), *final(self), now),
    {
        let keys = self.cache.keys();
        let ghost start = self.spec_entries();
        let mut i: usize = 0;
        while i < keys.len()
            invariant
                i <= keys@.len(),
                self.wf(),
                self.spec_hits() == old(self).spec_hits(),
                self.spec_misses() == old(self).spec_misses(),
                self.spec_max_size() == old(self).spec_max_size(),
                start == old(self).spec_entries(),
                forall|j: int| 0 <= j < keys@.len() ==> start.dom().contains(#[trigger] keys@[j]@),
                forall|k: Seq<char>| #[trigger] start.dom().contains(k) ==> exists|j: int| 0 <= j < keys@.len() && #[trigger] keys@[j]@ == k,
                forall|a: int, b: int| 0 <= a < keys@.len() && 0 <= b < keys@.len() && a != b ==> #[trigger] keys@[a]@ != #[trigger] keys@[b]@,
                forall|k: Seq<char>| #[trigger] self.spec_entries().dom().contains(k) ==> start.dom().contains(k) && self.spec_entries()[k] == start[k],
                forall|j: int| 0 <= j < i ==> (#[trigger] self.spec_entries().dom().contains(keys@[j]@) <==> !start[keys@[j]@].expired_at(now)),
                forall|j: int| i <= j < keys@.len() ==> #[trigger] self.spec_entries().dom().contains(keys@[j]@),
            decreases keys@.len() - i,
        {
            let expired = match self.cache.get(keys[i].as_str()) {
                Some(entry) => entry.is_expired_at(now),
                None => false,
            };
            if expired {
                let _ = self.remove_entry(keys[i].as_str());
            }
            i = i + 1;
        }
        proof {
            let target = start.restrict(start.dom().filter(|k: Seq<char>| !start[k].expired_at(now)));
            assert forall|k: Seq<char>| self.spec_entries().dom().contains(k) <==> target.dom().contains(k) by {
                if start.dom().contains(k) {
                    let j = choose|j: int| 0 <= j < keys@.len() && #[trigger] keys@[j]@ == k;
                    assert(self.spec_entries().dom().contains(keys@[j]@) <==> !start[keys@[j]@].expired_at(now));
                }
            }
            assert(self.spec_entries() =~= target);
        }
    }
}

/// A value stored at `written_at` with lifetime `ttl_ms` is read back,
/// with its entity tag, at any time up to the end of its lifetime, and is
/// gone once that has passed; other keys are untouched by the write.
pub proof fn law_cache_read_after_write<T>(
    entries: Map<Seq<char>, CacheEntry<T>>,
    key: Seq<char>,
    value: T,
    etag: Option<String>,
    ttl_ms: u64,
    written_at: u64,
    now: u64,
    other: Seq<char>,
)
    ensures
        ({
            let after = entries.insert(key, CacheEntry { value, etag, expires_at: add_capped(written_at, ttl_ms), last_accessed: written_at });
            &&& after.dom().contains(key)
            &&& after[key].value == value
            &&& after[key].etag == etag
            &&& (after[key].expired_at(now) <==> now > add_capped(written_at, ttl_ms))
            &&& (other != key ==> (after.dom().contains(other) == entries.dom().contains(other)))
            &&& (other != key && entries.dom().contains(other) ==> after[other] == entries[other])
        }),
{
}

/// States of the relay request circuit breaker.
#[derive(Debug, Clone, Copy, PartialEq, Eq, Structural)]
pub enum CircuitState {
    Closed,
    Open,
    HalfOpen,
}

/// Circuit breaker that lets a limited number of test requests through
/// after its recovery timeout, closing again once enough of them succeed.
/// Times are milliseconds.
#[derive(Debug)]
pub struct CircuitBreaker {
    pub state: CircuitState,
    pub failure_count: usize,
    pub last_failure_time: Option<u64>,
    pub failure_threshold: usize,
    pub recovery_timeout_ms: u64,
    pub half_open_success_threshold: usize,
    pub half_open_attempts: usize,
}

/// `n + 1`, wrapping to zero past `usize::MAX`.
pub open spec fn wrapping_inc(n: usize) -> usize {
    if n < usize::MAX { (n + 1) as usize } else { 0 }
}

/// Asking at `now` whether a request may go, on the breaker `before`,
/// which becomes `after`: a closed breaker allows it; an open one allows
/// it and turns half-open once the recovery timeout has passed since the
/// last failure; a half-open one counts the attempt and allows it while
/// under the success threshold.
pub open spec fn proceed_step(before: CircuitBreaker, after: CircuitBreaker, now: u64, allowed: bool) -> bool {
    &&& after.failure_count == before.failure_count
    &&& after.last_failure_time == before.last_failure_time
    &&& after.failure_threshold == before.failure_threshold
    &&& after.recovery_timeout_ms == before.recovery_timeout_ms
    &&& after.half_open_success_threshold == before.half_open_success_threshold
    &&& match before.state {
        CircuitState::Closed => allowed && after.state == CircuitState::Closed
            && after.half_open_attempts == before.half_open_attempts,
        CircuitState::Open => if before.last_failure_time matches Some(t) && now > t + before.recovery_timeout_ms {
            allowed && after.state == CircuitState::HalfOpen && after.half_open_attempts == 0
        } else {
            !allowed && after.state == CircuitState::Open
                && after.half_open_attempts == before.half_open_attempts
        },
        CircuitState::HalfOpen => allowed == (before.half_open_attempts < before.half_open_success_threshold)
            && after.state == CircuitState::HalfOpen
            && after.half_open_attempts == wrapping_inc(before.half_open_attempts),
    }
}

/// Recording a failure at `now` on the breaker `before`, which becomes
/// `after`: a closed breaker opens once the failure count reaches the
/// threshold; a half-open one opens at once.
pub open spec fn failure_step_at(before: CircuitBreaker, after: CircuitBreaker, now: u64) -> bool {
    &&& after.failure_count == wrapping_inc(before.failure_count)
    &&& after.last_failure_time == Some(now)
    &&& after.failure_threshold == before.failure_threshold
    &&& after.recovery_timeout_ms == before.recovery_timeout_ms
    &&& after.half_open_success_threshold == before.half_open_success_threshold
    &&& match before.state {
        CircuitState::Closed => after.state == if wrapping_inc(before.failure_count) >= before.failure_threshold {
            CircuitState::Open
        } else {
            CircuitState::Closed
        } && after.half_open_attempts == before.half_open_attempts,
        CircuitState::HalfOpen => after.state == CircuitState::Open && after.half_open_attempts == 0,
        CircuitState::Open => after.state == CircuitState::Open
            && after.half_open_attempts == before.half_open_attempts,
    }
}

impl CircuitBreaker {
    /// A closed breaker.
    pub fn new(failure_threshold: usize, recovery_timeout_ms: u64, half_open_success_threshold: usize) -> (breaker: CircuitBreaker)
        ensures
            breaker.state == CircuitState::Closed,
            breaker.failure_count == 0,
            breaker.last_failure_time is None,
            breaker.failure_threshold == failure_threshold,
            breaker.recovery_timeout_ms == recovery_timeout_ms,
            breaker.half_open_success_threshold == half_open_success_threshold,
            breaker.half_open_attempts == 0,
    {
        CircuitBreaker {
            state: CircuitState::Closed,
            failure_count: 0,
            last_failure_time: None,
            failure_threshold,
            recovery_timeout_ms,
            half_open_success_threshold,
            half_open_attempts: 0,
        }
    }

    /// Whether a request may go out at time `now`. An open breaker past its
    /// recovery timeout turns half open and lets the request through; a
    /// half-open one counts the attempt and allows it while under the
    /// success threshold.
    pub fn can_proceed_at(&mut self, now: u64) -> (allowed: bool)
        ensures
            proceed_step(*old(self), *final(self), now, allowed),
    {
        match self.state {
            CircuitState::Closed => true,
            CircuitState::Open => {
                match self.last_failure_time {
                    Some(t) => {
                        if now > t && now - t > self.recovery_timeout_ms {
                            self.state = CircuitState::HalfOpen;
                            self.half_open_attempts = 0;
                            true
                        } else {
                            false
                        }
                    },
                    None => false,
                }
            },
            CircuitState::HalfOpen => {
                let attempts = self.half_open_attempts;
                self.half_open_attempts = if attempts < usize::MAX { attempts + 1 } else { 0 };
                attempts < self.half_open_success_threshold
            },
        }
    }

    /// `can_proceed_at` at the current time.
    pub fn can_proceed(&mut self) -> (allowed: bool)
        ensures
            exists|now: u64| #[trigger] proceed_step(*old(self), *final(self), now, allowed),
    {
        let now = clock_millis();
        let allowed = self.can_proceed_at(now);
        assert(proceed_step(*old(self), *self, now, allowed));
        allowed
    }

    /// Records a success: a half-open breaker closes once its attempts reach
    /// the success threshold; a closed one forgets its failures.
    pub fn record_success(&mut self)
        ensures
            final(self).last_failure_time == old(self).last_failure_time,
            final(self).failure_threshold == old(self).failure_threshold,
            final(self).recovery_timeout_ms == old(self).recovery_timeout_ms,
            final(self).half_open_success_threshold == old(self).half_open_success_threshold,
            match old(self).state {
                CircuitState::HalfOpen => if old(self).half_open_attempts >= old(self).half_open_success_threshold {
                    final(self).state == CircuitState::Closed && final(self).failure_count == 0 && final(self).half_open_attempts == 0
                } else {
                    final(self).state == CircuitState::HalfOpen && final(self).failure_count == old(self).failure_count
                        && final(self).half_open_attempts == old(self).half_open_attempts
                },
                CircuitState::Closed => final(self).state == CircuitState::Closed && final(self).failure_count == 0
                    && final(self).half_open_attempts == old(self).half_open_attempts,
                CircuitState::Open => final(self).state == CircuitState::Open && final(self).failure_count == old(self).failure_count
                    && final(self).half_open_attempts == old(self).half_open_attempts,
            },
    {
        match self.state {
            CircuitState::HalfOpen => {
                if self.half_open_attempts >= self.half_open_success_threshold {
                    self.state = CircuitState::Closed;
                    self.failure_count = 0;
                    self.half_open_attempts = 0;
                }
            },
            CircuitState::Closed => {
                self.failure_count = 0;
            },
            CircuitState::Open => {},
        }
    }

    /// Records a failure at time `now`: a closed breaker opens once the
    /// failure count reaches the threshold; a half-open one opens at once.
    pub fn record_failure_at(&mut self, now: u64)
        ensures
            failure_step_at(*old(self), *final(self), now),
    {
        let failures = if self.failure_count < usize::MAX { self.failure_count + 1 } else { 0 };
        self.failure_count = failures;
        self.last_failure_time = Some(now);
        match self.state {
            CircuitState::Closed => {
                if failures >= self.failure_threshold {
                    self.state = CircuitState::Open;
                }
            },
            CircuitState::HalfOpen => {
                self.state = CircuitState::Open;
                self.half_open_attempts = 0;
            },
            CircuitState::Open => {},
        }
    }

    /// `record_failure_at` at the current time.
    pub fn record_failure(&mut self)
        ensures
            exists|now: u64| #[trigger] failure_step_at(*old(self), *final(self), now),
    {
        let now = clock_millis();
        self.record_failure_at(now);
        assert(failure_step_at(*old(self), *self, now));
    }

    /// The current state.
    pub fn state(&self) -> (state: CircuitState)
        ensures
            state == self.state,
    {
        self.state
    }

    /// Back to closed with no failures and no attempts.
    pub fn reset(&mut self)
        ensures
            final(self).state == CircuitState::Closed,
            final(self).failure_count == 0,
            final(self).last_failure_time is None,
            final(self).half_open_attempts == 0,
            final(self).failure_threshold == old(self).failure_threshold,
            final(self).recovery_timeout_ms == old(self).recovery_timeout_ms,
            final(self).half_open_success_threshold == old(self).half_open_success_threshold,
    {
        self.state = CircuitState::Closed;
        self.failure_count = 0;
        self.last_failure_time = None;
        self.half_open_attempts = 0;
    }
}

} // verus!
