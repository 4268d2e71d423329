//! LRU eviction cache with capacity limits, hit/miss tracking.
use vstd::prelude::*;
use crate::lru::entry::CacheEntry;

verus! {

/// The entries of `s` that have not expired at `now_ms`, in their original order.
pub open spec fn live_entries<V: Clone>(s: Seq<CacheEntry<V>>, now_ms: u64) -> Seq<CacheEntry<V>>
    decreases s.len(),
{
    if s.len() == 0 {
        s
    } else {
        let rest = live_entries(s.drop_last(), now_ms);
        if s.last().spec_is_expired(now_ms) {
            rest
        } else {
            rest.push(s.last())
        }
    }
}

/// No two entries of `s` share a key.
pub open spec fn keys_unique<V: Clone>(s: Seq<CacheEntry<V>>) -> bool {
    forall|i: int, j: int|
        0 <= i < s.len() && 0 <= j < s.len() && i != j ==> s[i].spec_key() != s[j].spec_key()
}

/// Some entry of `s` has key `k`.
pub open spec fn has_key<V: Clone>(s: Seq<CacheEntry<V>>, k: Seq<char>) -> bool {
    exists|i: int| 0 <= i < s.len() && s[i].spec_key() == k
}

/// The position of the entry with key `k` in `s` (meaningful when `has_key(s, k)`).
pub open spec fn key_pos<V: Clone>(s: Seq<CacheEntry<V>>, k: Seq<char>) -> int {
    choose|i: int| 0 <= i < s.len() && s[i].spec_key() == k
}

proof fn lemma_live_subset<V: Clone>(s: Seq<CacheEntry<V>>, now_ms: u64)
    ensures
        live_entries(s, now_ms).len() <= s.len(),
        forall|i: int|
            0 <= i < live_entries(s, now_ms).len() ==> exists|j: int|
                0 <= j < s.len() && s[j] == #[trigger] live_entries(s, now_ms)[i],
        forall|i: int|
            0 <= i < live_entries(s, now_ms).len() ==> !(
            #[trigger] live_entries(s, now_ms)[i]).spec_is_expired(now_ms),
    decreases s.len(),
{
    if s.len() > 0 {
        lemma_live_subset(s.drop_last(), now_ms);
        let rest = live_entries(s.drop_last(), now_ms);
        assert forall|i: int| 0 <= i < rest.len() implies exists|j: int|
            0 <= j < s.len() && s[j] == #[trigger] rest[i] by {
            let j = choose|j: int| 0 <= j < s.drop_last().len() && s.drop_last()[j] == rest[i];
            assert(s[j] == rest[i]);
        }
        if !s.last().spec_is_expired(now_ms) {
            let l = rest.push(s.last());
            assert forall|i: int| 0 <= i < l.len() implies exists|j: int|
                0 <= j < s.len() && s[j] == #[trigger] l[i] by {
                if i == rest.len() {
                    assert(s[s.len() - 1] == l[i]);
                } else {
                    assert(l[i] == rest[i]);
                }
            }
        }
    }
}

proof fn lemma_live_unique<V: Clone>(s: Seq<CacheEntry<V>>, now_ms: u64)
    requires
        keys_unique(s),
    ensures
        keys_unique(live_entries(s, now_ms)),
    decreases s.len(),
{
    if s.len() > 0 {
        let t = s.drop_last();
        assert(keys_unique(t));
        lemma_live_unique(t, now_ms);
        lemma_live_subset(t, now_ms);
        let rest = live_entries(t, now_ms);
        if !s.last().spec_is_expired(now_ms) {
            let l = rest.push(s.last());
            assert forall|i: int, j: int|
                0 <= i < l.len() && 0 <= j < l.len() && i != j implies l[i].spec_key()
                != l[j].spec_key() by {
                if i == rest.len() {
                    let k = choose|k: int| 0 <= k < t.len() && t[k] == #[trigger] rest[j];
                    assert(s[k] == l[j]);
                } else if j == rest.len() {
                    let k = choose|k: int| 0 <= k < t.len() && t[k] == #[trigger] rest[i];
                    assert(s[k] == l[i]);
                } else {
                    assert(l[i] == rest[i] && l[j] == rest[j]);
                }
            }
        }
    }
}

proof fn lemma_unique_remove<V: Clone>(s: Seq<CacheEntry<V>>, p: int)
    requires
        keys_unique(s),
        0 <= p < s.len(),
    ensures
        keys_unique(s.remove(p)),
        !has_key(s.remove(p), s[p].spec_key()),
{
    let r = s.remove(p);
    assert forall|i: int, j: int|
        0 <= i < r.len() && 0 <= j < r.len() && i != j implies r[i].spec_key()
        != r[j].spec_key() by {
        let a = if i < p { i } else { i + 1 };
        let b = if j < p { j } else { j + 1 };
        assert(r[i] == s[a] && r[j] == s[b]);
    }
    if has_key(r, s[p].spec_key()) {
        let i = choose|i: int| 0 <= i < r.len() && r[i].spec_key() == s[p].spec_key();
        let a = if i < p { i } else { i + 1 };
        assert(r[i] == s[a]);
    }
}

proof fn lemma_unique_push<V: Clone>(s: Seq<CacheEntry<V>>, e: CacheEntry<V>)
    requires
        keys_unique(s),
        !has_key(s, e.spec_key()),
    ensures
        keys_unique(s.push(e)),
{
    let r = s.push(e);
    assert forall|i: int, j: int|
        0 <= i < r.len() && 0 <= j < r.len() && i != j implies r[i].spec_key()
        != r[j].spec_key() by {
        if i == s.len() {
            assert(r[j] == s[j]);
        } else if j == s.len() {
            assert(r[i] == s[i]);
        } else {
            assert(r[i] == s[i] && r[j] == s[j]);
        }
    }
}

/// An LRU cache that evicts the least recently used entries when at capacity.
pub struct LruCache<V: Clone> {
    entries: Vec<CacheEntry<V>>,
    capacity: usize,
    default_ttl_ms: Option<u64>,
    hits: u64,
    misses: u64,
    evictions: u64,
    total_inserts: u64,
}

impl<V: Clone> LruCache<V> {
    #[verifier::type_invariant]
    spec fn inv(self) -> bool {
        &&& keys_unique(self.entries@)
        &&& self.capacity == 0 || self.entries@.len() <= self.capacity
    }

    /// What every cache guarantees: no key occurs twice, and a cache of positive
    /// capacity holds at most that many entries.
    pub open spec fn well_formed(&self) -> bool {
        &&& keys_unique(self.spec_entries())
        &&& self.spec_capacity() == 0 || self.spec_entries().len() <= self.spec_capacity()
    }

    /// The entries from least recently used (front) to most recently used (back).
    pub closed spec fn spec_entries(&self) -> Seq<CacheEntry<V>> {
        self.entries@
    }

    /// Maximum number of entries before LRU eviction (0 means unbounded).
    pub closed spec fn spec_capacity(&self) -> usize {
        self.capacity
    }

    /// TTL given to new entries.
    pub closed spec fn spec_default_ttl(&self) -> Option<u64> {
        self.default_ttl_ms
    }

    /// Hit counter.
    pub closed spec fn spec_hits(&self) -> u64 {
        self.hits
    }

    /// Miss counter.
    pub closed spec fn spec_misses(&self) -> u64 {
        self.misses
    }

    /// Eviction counter (LRU and TTL).
    pub closed spec fn spec_evictions(&self) -> u64 {
        self.evictions
    }

    /// Insert counter.
    pub closed spec fn spec_total_inserts(&self) -> u64 {
        self.total_inserts
    }

    /// Create a new, empty LRU cache with the given capacity.
    pub fn new(capacity: usize, default_ttl_ms: Option<u64>) -> (c: Self)
        ensures
            c.well_formed(),
            c.spec_entries().len() == 0,
            c.spec_capacity() == capacity,
            c.spec_default_ttl() == default_ttl_ms,
            c.spec_hits() == 0,
            c.spec_misses() == 0,
            c.spec_evictions() == 0,
            c.spec_total_inserts() == 0,
    {
        LruCache {
            entries: Vec::new(),
            capacity,
            default_ttl_ms,
            hits: 0,
            misses: 0,
            evictions: 0,
            total_inserts: 0,
        }
    }

    fn find(entries: &Vec<CacheEntry<V>>, key: &String) -> (pos: Option<usize>)
        requires
            keys_unique(entries@),
        ensures
            match pos {
                Some(p) => p < entries@.len() && entries@[p as int].spec_key() == key@ && p
                    == key_pos(entries@, key@) && has_key(entries@, key@),
                None => !has_key(entries@, key@),
            },
    {
        let mut i: usize = 0;
        while i < entries.len()
            invariant
                i <= entries@.len(),
                keys_unique(entries@),
                forall|j: int| 0 <= j < i ==> entries@[j].spec_key() != key@,
            decreases entries@.len() - i,
        {
            let k = entries[i].key_string();
            if k == *key {
                proof {
                    let q = key_pos(entries@, key@);
                    assert(entries@[i as int].spec_key() == key@);
                    assert(0 <= q < entries@.len() && entries@[q].spec_key() == key@);
                    assert(q == i);
                }
                return Some(i);
            }
            i = i + 1;
        }
        None
    }

    /// Evict all expired entries; the order of the rest is kept.
    pub fn evict_expired(&mut self, now_ms: u64)
        ensures
            final(self).well_formed(),
            final(self).spec_entries() == live_entries(old(self).spec_entries(), now_ms),
            final(self).spec_evictions() == old(self).spec_evictions().saturating_add(
                (old(self).spec_entries().len() - final(self).spec_entries().len()) as u64,
            ),
            final(self).spec_hits() == old(self).spec_hits(),
            final(self).spec_misses() == old(self).spec_misses(),
            final(self).spec_total_inserts() == old(self).spec_total_inserts(),
            final(self).spec_capacity() == old(self).spec_capacity(),
            final(self).spec_default_ttl() == old(self).spec_default_ttl(),
    {
        proof {
            use_type_invariant(&*self);
        }
        let mut entries: Vec<CacheEntry<V>> = Vec::new();
        std::mem::swap(&mut entries, &mut self.entries);
        let ghost s = entries@;
        let before = entries.len();
        let mut i: usize = 0;
        let ghost mut j: int = 0;
        proof {
            assert(s.take(0) =~= Seq::<CacheEntry<V>>::empty());
            assert(entries@ =~= live_entries(s.take(0), now_ms) + s.skip(0));
        }
        while i < entries.len()
            invariant
                0 <= j <= s.len(),
                entries@ == live_entries(s.take(j), now_ms) + s.skip(j),
                i == live_entries(s.take(j), now_ms).len(),
                before == s.len(),
            decreases entries@.len() - i,
        {
            proof {
                assert(j < s.len());
                assert(entries@[i as int] == s[j]);
                assert(s.take(j + 1).drop_last() =~= s.take(j));
                assert(s.take(j + 1).last() == s[j]);
            }
            if entries[i].is_expired(now_ms) {
                let _gone = entries.remove(i);
                proof {
                    assert(entries@ =~= live_entries(s.take(j + 1), now_ms) + s.skip(j + 1));
                    j = j + 1;
                }
            } else {
                proof {
                    assert(live_entries(s.take(j + 1), now_ms) == live_entries(
                        s.take(j),
                        now_ms,
                    ).push(s[j]));
                    assert(entries@ =~= live_entries(s.take(j + 1), now_ms) + s.skip(j + 1));
                    j = j + 1;
                }
                i = i + 1;
            }
        }
        proof {
            assert(j == s.len());
            assert(s.take(j) =~= s);
            assert(entries@ =~= live_entries(s, now_ms));
            lemma_live_unique(s, now_ms);
            lemma_live_subset(s, now_ms);
        }
        let removed = before - entries.len();
        self.entries = entries;
        self.evictions = self.evictions.saturating_add(removed as u64);
    }

    /// Get a value by key, marking it as most recently used.
    /// Expired entries are evicted first; a hit moves the entry to the back.
    pub fn get(&mut self, key: &str, now_ms: u64) -> (r: Option<V>)
        ensures
            final(self).well_formed(),
            ({
                let l = live_entries(old(self).spec_entries(), now_ms);
                let removed = (old(self).spec_entries().len() - l.len()) as u64;
                &&& final(self).spec_evictions() == old(self).spec_evictions().saturating_add(
                    removed,
                )
                &&& final(self).spec_total_inserts() == old(self).spec_total_inserts()
                &&& final(self).spec_capacity() == old(self).spec_capacity()
                &&& final(self).spec_default_ttl() == old(self).spec_default_ttl()
                &&& if has_key(l, key@) {
                    let p = key_pos(l, key@);
                    &&& final(self).spec_entries() == l.remove(p).push(
                        l[p].spec_touched(now_ms),
                    )
                    &&& r is Some && cloned(l[p].spec_value(), r->0)
                    &&& final(self).spec_hits() == old(self).spec_hits().saturating_add(1)
                    &&& final(self).spec_misses() == old(self).spec_misses()
                } else {
                    &&& final(self).spec_entries() == l
                    &&& r is None
                    &&& final(self).spec_hits() == old(self).spec_hits()
                    &&& final(self).spec_misses() == old(self).spec_misses().saturating_add(1)
                }
            }),
    {
        self.evict_expired(now_ms);
        proof {
            use_type_invariant(&*self);
        }
        let k = key.to_owned();
        match Self::find(&self.entries, &k) {
            Some(pos) => {
                let mut entries: Vec<CacheEntry<V>> = Vec::new();
                std::mem::swap(&mut entries, &mut self.entries);
                let ghost l = entries@;
                proof {
                    lemma_unique_remove(l, pos as int);
                }
                let mut entry = entries.remove(pos);
                entry.touch(now_ms);
                let value = entry.value().clone();
                proof {
                    lemma_unique_push(entries@, entry);
                }
                entries.push(entry);
                self.entries = entries;
                self.hits = self.hits.saturating_add(1);
                Some(value)
            },
            None => {
                self.misses = self.misses.saturating_add(1);
                None
            },
        }
    }

    /// Insert or update a key-value pair.
    /// Returns the evicted entry's key if an LRU eviction occurred.
    pub fn put(&mut self, key: &str, value: V, now_ms: u64) -> (evicted: Option<String>)
        ensures
            final(self).well_formed(),
            keys_unique(final(self).spec_entries()),
            final(self).spec_entries().len() > 0,
            final(self).spec_entries().last().spec_key() == key@,
            final(self).spec_entries().last().spec_value() == value,
            old(self).spec_default_ttl() != Some(0u64) || has_key(
                live_entries(old(self).spec_entries(), now_ms),
                key@,
            ) ==> !final(self).spec_entries().last().spec_is_expired(now_ms),
            ({
                let l = live_entries(old(self).spec_entries(), now_ms);
                let removed = (old(self).spec_entries().len() - l.len()) as u64;
                let ev = old(self).spec_evictions().saturating_add(removed);
                &&& final(self).spec_total_inserts() == old(self).spec_total_inserts().saturating_add(1)
                &&& final(self).spec_hits() == old(self).spec_hits()
                &&& final(self).spec_misses() == old(self).spec_misses()
                &&& final(self).spec_capacity() == old(self).spec_capacity()
                &&& final(self).spec_default_ttl() == old(self).spec_default_ttl()
                &&& if has_key(l, key@) {
                    let p = key_pos(l, key@);
                    &&& final(self).spec_entries() == l.remove(p).push(
                        l[p].spec_with_value(value).spec_touched(now_ms),
                    )
                    &&& evicted is None
                    &&& final(self).spec_evictions() == ev
                } else {
                    let full = l.len() >= old(self).spec_capacity() && old(self).spec_capacity() > 0;
                    let kept = if full { l.drop_first() } else { l };
                    let e = final(self).spec_entries().last();
                    &&& final(self).spec_entries() == kept.push(e)
                    &&& e.spec_key() == key@
                    &&& e.spec_value() == value
                    &&& e.spec_created() == now_ms
                    &&& e.spec_last_access() == now_ms
                    &&& e.spec_access_count() == 0
                    &&& e.spec_ttl() == old(self).spec_default_ttl()
                    &&& if full {
                        &&& evicted is Some && evicted->0@ == l[0].spec_key()
                        &&& final(self).spec_evictions() == ev.saturating_add(1)
                    } else {
                        &&& evicted is None
                        &&& final(self).spec_evictions() == ev
                    }
                }
            }),
    {
        self.evict_expired(now_ms);
        proof {
            use_type_invariant(&*self);
        }
        let k = key.to_owned();
        match Self::find(&self.entries, &k) {
            Some(pos) => {
                let mut entries: Vec<CacheEntry<V>> = Vec::new();
                std::mem::swap(&mut entries, &mut self.entries);
                let ghost l = entries@;
                proof {
                    lemma_unique_remove(l, pos as int);
                    lemma_live_subset(old(self).spec_entries(), now_ms);
                    assert(!l[pos as int].spec_is_expired(now_ms));
                    l[pos as int].lemma_updates_keep_identity(now_ms, value);
                    l[pos as int].spec_with_value(value).lemma_updates_keep_identity(now_ms, value);
                }
                let mut entry = entries.remove(pos);
                entry.set_value(value);
                entry.touch(now_ms);
                proof {
                    lemma_unique_push(entries@, entry);
                }
                entries.push(entry);
                self.entries = entries;
                self.total_inserts = self.total_inserts.saturating_add(1);
                return None;
            },
            None => {},
        }
        let mut entries: Vec<CacheEntry<V>> = Vec::new();
        std::mem::swap(&mut entries, &mut self.entries);
        let ghost l = entries@;
        let evicted_key = if entries.len() >= self.capacity && self.capacity > 0 {
            proof {
                lemma_unique_remove(l, 0);
                assert(l.remove(0) =~= l.drop_first());
            }
            let evicted = entries.remove(0);
            self.evictions = self.evictions.saturating_add(1);
            Some(evicted.key_string())
        } else {
            None
        };
        let entry = CacheEntry::new(k, value, now_ms, self.default_ttl_ms);
        proof {
            if has_key(entries@, key@) {
                let i = choose|i: int|
                    0 <= i < entries@.len() && entries@[i].spec_key() == key@;
                if l.len() >= self.capacity && self.capacity > 0 {
                    assert(entries@[i] == l[i + 1]);
                } else {
                    assert(entries@[i] == l[i]);
                }
            }
            lemma_unique_push(entries@, entry);
        }
        entries.push(entry);
        self.entries = entries;
        self.total_inserts = self.total_inserts.saturating_add(1);
        evicted_key
    }

    /// Remove a key from the cache; returns whether it was present.
    pub fn remove(&mut self, key: &str) -> (found: bool)
        ensures
            final(self).well_formed(),
            found == has_key(old(self).spec_entries(), key@),
            found ==> final(self).spec_entries() == old(self).spec_entries().remove(
                key_pos(old(self).spec_entries(), key@),
            ),
            !found ==> final(self).spec_entries() == old(self).spec_entries(),
            final(self).spec_hits() == old(self).spec_hits(),
            final(self).spec_misses() == old(self).spec_misses(),
            final(self).spec_evictions() == old(self).spec_evictions(),
            final(self).spec_total_inserts() == old(self).spec_total_inserts(),
            final(self).spec_capacity() == old(self).spec_capacity(),
            final(self).spec_default_ttl() == old(self).spec_default_ttl(),
    {
        proof {
            use_type_invariant(&*self);
        }
        let k = key.to_owned();
        match Self::find(&self.entries, &k) {
            Some(pos) => {
                let mut entries: Vec<CacheEntry<V>> = Vec::new();
                std::mem::swap(&mut entries, &mut self.entries);
                proof {
                    lemma_unique_remove(entries@, pos as int);
                }
                let _gone = entries.remove(pos);
                self.entries = entries;
                true
            },
            None => false,
        }
    }

    /// Check if a live entry has the key, without updating access order.
    pub fn contains(&self, key: &str, now_ms: u64) -> (b: bool)
        ensures
            self.well_formed(),
            b == exists|i: int|
                0 <= i < self.spec_entries().len() && self.spec_entries()[i].spec_key() == key@
                    && !self.spec_entries()[i].spec_is_expired(now_ms),
    {
        proof {
            use_type_invariant(self);
        }
        let k = key.to_owned();
        let mut i: usize = 0;
        while i < self.entries.len()
            invariant
                i <= self.entries@.len(),
                self.well_formed(),
                k@ == key@,
                forall|j: int|
                    0 <= j < i ==> !(self.entries@[j].spec_key() == k@
                        && !self.entries@[j].spec_is_expired(now_ms)),
            decreases self.entries@.len() - i,
        {
            let ek = self.entries[i].key_string();
            if ek == k && !self.entries[i].is_expired(now_ms) {
                assert(self.spec_entries()[i as int].spec_key() == key@);
                return true;
            }
            i = i + 1;
        }
        false
    }

    /// Current number of entries; a cache of positive capacity never holds more.
    pub fn len(&self) -> (n: usize)
        ensures
            self.well_formed(),
            n == self.spec_entries().len(),
            self.spec_capacity() > 0 ==> n <= self.spec_capacity(),
    {
        proof {
            use_type_invariant(self);
        }
        self.entries.len()
    }

    /// Whether the cache is empty.
    pub fn is_empty(&self) -> (b: bool)
        ensures
            self.well_formed(),
            b == (self.spec_entries().len() == 0),
    {
        proof {
            use_type_invariant(self);
        }
        self.entries.len() == 0
    }

    /// Cache capacity.
    pub fn capacity(&self) -> (c: usize)
        ensures
            c == self.spec_capacity(),
    {
        self.capacity
    }

    /// Total cache hits.
    pub fn hits(&self) -> (h: u64)
        ensures
            h == self.spec_hits(),
    {
        self.hits
    }

    /// Total cache misses.
    pub fn misses(&self) -> (m: u64)
        ensures
            m == self.spec_misses(),
    {
        self.misses
    }

    /// Total evictions (LRU + TTL).
    pub fn evictions(&self) -> (e: u64)
        ensures
            e == self.spec_evictions(),
    {
        self.evictions
    }

    /// Total inserts.
    pub fn total_inserts(&self) -> (t: u64)
        ensures
            t == self.spec_total_inserts(),
    {
        self.total_inserts
    }

    /// Clear the cache and reset all counters; capacity and TTL are kept.
    pub fn clear(&mut self)
        ensures
            final(self).well_formed(),
            final(self).spec_entries().len() == 0,
            final(self).spec_hits() == 0,
            final(self).spec_misses() == 0,
            final(self).spec_evictions() == 0,
            final(self).spec_total_inserts() == 0,
            final(self).spec_capacity() == old(self).spec_capacity(),
            final(self).spec_default_ttl() == old(self).spec_default_ttl(),
    {
        self.entries = Vec::new();
        self.hits = 0;
        self.misses = 0;
        self.evictions = 0;
        self.total_inserts = 0;
    }

    /// Keys in order from LRU (oldest) to MRU (newest).
    pub fn keys(&self) -> (ks: Vec<String>)
        ensures
            self.well_formed(),
            ks@.len() == self.spec_entries().len(),
            forall|i: int| 0 <= i < ks@.len() ==> ks@[i]@ == self.spec_entries()[i].spec_key(),
    {
        proof {
            use_type_invariant(self);
        }
        let mut ks: Vec<String> = Vec::new();
        let mut i: usize = 0;
        while i < self.entries.len()
            invariant
                i <= self.entries@.len(),
                ks@.len() == i,
                forall|j: int| 0 <= j < i ==> ks@[j]@ == self.entries@[j].spec_key(),
            decreases self.entries@.len() - i,
        {
            ks.push(self.entries[i].key_string());
            i = i + 1;
        }
        ks
    }
}

/// A read right after a write gives back what was written: when the most recently used
/// entry (the last one, where `put` leaves the written key) is live at `now_ms`, the live
/// entries at `now_ms` hold its key with its value, so `get` at that time returns it.
pub proof fn law_get_after_put<V: Clone>(s: Seq<CacheEntry<V>>, now_ms: u64)
    requires
        keys_unique(s),
        s.len() > 0,
        !s.last().spec_is_expired(now_ms),
    ensures
        has_key(live_entries(s, now_ms), s.last().spec_key()),
        live_entries(s, now_ms)[key_pos(live_entries(s, now_ms), s.last().spec_key())].spec_value()
            == s.last().spec_value(),
{
    let l = live_entries(s, now_ms);
    let k = s.last().spec_key();
    lemma_live_unique(s, now_ms);
    assert(l == live_entries(s.drop_last(), now_ms).push(s.last()));
    assert(l[l.len() - 1] == s.last());
    assert(has_key(l, k));
    let p = key_pos(l, k);
    assert(p == l.len() - 1);
}

/// An entry whose time-to-live has run out since its creation is not among the live
/// entries, so `get` at that time misses its key, however recently it was read.
pub proof fn law_expired_entry_misses<V: Clone>(s: Seq<CacheEntry<V>>, i: int, now_ms: u64)
    requires
        keys_unique(s),
        0 <= i < s.len(),
        s[i].spec_ttl() is Some,
        now_ms >= s[i].spec_created() + s[i].spec_ttl()->0,
    ensures
        !has_key(live_entries(s, now_ms), s[i].spec_key()),
{
    let l = live_entries(s, now_ms);
    let k = s[i].spec_key();
    s[i].law_expiry_counts_from_creation(now_ms);
    lemma_live_subset(s, now_ms);
    if has_key(l, k) {
        let j = choose|j: int| 0 <= j < l.len() && l[j].spec_key() == k;
        let jj = choose|jj: int| 0 <= jj < s.len() && s[jj] == l[j];
        assert(!l[j].spec_is_expired(now_ms));
        assert(jj == i);
    }
}

} // verus!
