//! Cache entry with value, timestamps, and TTL support.
use vstd::prelude::*;

verus! {

/// A cache entry holding a value with metadata.
pub struct CacheEntry<V: Clone> {
    key: String,
    value: V,
    created_ms: u64,
    last_access_ms: u64,
    /// Number of recorded accesses (saturates at `u64::MAX`).
    pub access_count: u64,
    ttl_ms: Option<u64>,
}

/// Whether an entry created at `created_ms` with time-to-live `ttl_ms` has expired at `now_ms`.
pub open spec fn spec_expired(created_ms: u64, ttl_ms: Option<u64>, now_ms: u64) -> bool {
    match ttl_ms {
        Some(ttl) => now_ms.saturating_sub(created_ms) >= ttl,
        None => false,
    }
}

impl<V: Clone> CacheEntry<V> {
    /// The entry's key.
    pub closed spec fn spec_key(&self) -> Seq<char> {
        self.key@
    }

    /// The entry's value.
    pub closed spec fn spec_value(&self) -> V {
        self.value
    }

    /// Number of recorded accesses.
    pub closed spec fn spec_access_count(&self) -> u64 {
        self.access_count
    }

    /// Creation timestamp.
    pub closed spec fn spec_created(&self) -> u64 {
        self.created_ms
    }

    /// Last access timestamp.
    pub closed spec fn spec_last_access(&self) -> u64 {
        self.last_access_ms
    }

    /// Time-to-live setting.
    pub closed spec fn spec_ttl(&self) -> Option<u64> {
        self.ttl_ms
    }

    /// The entry after an access at `now_ms`.
    pub closed spec fn spec_touched(self, now_ms: u64) -> Self {
        CacheEntry {
            last_access_ms: now_ms,
            access_count: self.access_count.saturating_add(1),
            ..self
        }
    }

    /// The entry with its value replaced.
    pub closed spec fn spec_with_value(self, value: V) -> Self {
        CacheEntry { value, ..self }
    }

    /// Touching and replacing the value keep the key, creation time and TTL.
    pub proof fn lemma_updates_keep_identity(self, now_ms: u64, value: V)
        ensures
            self.spec_touched(now_ms).spec_key() == self.spec_key(),
            self.spec_touched(now_ms).spec_created() == self.spec_created(),
            self.spec_touched(now_ms).spec_ttl() == self.spec_ttl(),
            self.spec_touched(now_ms).spec_value() == self.spec_value(),
            self.spec_touched(now_ms).spec_last_access() == now_ms,
            self.spec_touched(now_ms).spec_access_count() == self.spec_access_count().saturating_add(1),
            self.spec_with_value(value).spec_key() == self.spec_key(),
            self.spec_with_value(value).spec_created() == self.spec_created(),
            self.spec_with_value(value).spec_ttl() == self.spec_ttl(),
            self.spec_with_value(value).spec_value() == value,
            self.spec_with_value(value).spec_last_access() == self.spec_last_access(),
            self.spec_with_value(value).spec_access_count() == self.spec_access_count(),
    {
    }

    /// Whether the entry has expired at `now_ms`.
    pub open spec fn spec_is_expired(&self, now_ms: u64) -> bool {
        spec_expired(self.spec_created(), self.spec_ttl(), now_ms)
    }

    /// An entry with a time-to-live `t` has expired at `now_ms` exactly when at least `t`
    /// milliseconds have passed since it was created (a clock reading before the creation
    /// counts as no time passed); an entry without one never expires. Its last access
    /// plays no part.
    pub proof fn law_expiry_counts_from_creation(self, now_ms: u64)
        ensures
            self.spec_is_expired(now_ms) <==> match self.spec_ttl() {
                Some(t) => if now_ms >= self.spec_created() {
                    now_ms - self.spec_created() >= t
                } else {
                    t == 0
                },
                None => false,
            },
    {
    }

    /// Reading an entry, or replacing its value, does not change when it expires: at
    /// every time the updated entry has expired exactly when the original has.
    pub proof fn law_access_keeps_expiry(self, access_ms: u64, value: V, now_ms: u64)
        ensures
            self.spec_touched(access_ms).spec_is_expired(now_ms) == self.spec_is_expired(now_ms),
            self.spec_with_value(value).spec_is_expired(now_ms) == self.spec_is_expired(now_ms),
    {
    }

    /// Create a new cache entry; it has not been accessed yet.
    pub fn new(key: String, value: V, now_ms: u64, ttl_ms: Option<u64>) -> (e: Self)
        ensures
            e.spec_key() == key@,
            e.spec_value() == value,
            e.spec_created() == now_ms,
            e.spec_last_access() == now_ms,
            e.spec_access_count() == 0,
            e.spec_ttl() == ttl_ms,
    {
        CacheEntry { key, value, created_ms: now_ms, last_access_ms: now_ms, access_count: 0, ttl_ms }
    }

    /// Get the key.
    pub fn key(&self) -> (k: &str)
        ensures
            k@ == self.spec_key(),
    {
        self.key.as_str()
    }

    /// Get the key as an owned string.
    pub fn key_string(&self) -> (k: String)
        ensures
            k@ == self.spec_key(),
    {
        self.key.clone()
    }

    /// Get the value.
    pub fn value(&self) -> (v: &V)
        ensures
            *v == self.spec_value(),
    {
        &self.value
    }

    /// Update the value; all metadata is kept.
    pub fn set_value(&mut self, value: V)
        ensures
            *final(self) == old(self).spec_with_value(value),
            final(self).spec_value() == value,
            final(self).spec_key() == old(self).spec_key(),
            final(self).spec_created() == old(self).spec_created(),
            final(self).spec_last_access() == old(self).spec_last_access(),
            final(self).spec_access_count() == old(self).spec_access_count(),
            final(self).spec_ttl() == old(self).spec_ttl(),
    {
        self.value = value;
    }

    /// Record an access at `now_ms`.
    pub fn touch(&mut self, now_ms: u64)
        ensures
            *final(self) == old(self).spec_touched(now_ms),
            final(self).spec_last_access() == now_ms,
            final(self).spec_access_count() == old(self).spec_access_count().saturating_add(1),
            final(self).spec_value() == old(self).spec_value(),
            final(self).spec_key() == old(self).spec_key(),
            final(self).spec_created() == old(self).spec_created(),
            final(self).spec_ttl() == old(self).spec_ttl(),
    {
        self.last_access_ms = now_ms;
        self.access_count = self.access_count.saturating_add(1);
    }

    /// Check if the entry has expired: at least `ttl` ms have passed since creation.
    pub fn is_expired(&self, now_ms: u64) -> (b: bool)
        ensures
            b == self.spec_is_expired(now_ms),
    {
        match self.ttl_ms {
            Some(ttl) => now_ms.saturating_sub(self.created_ms) >= ttl,
            None => false,
        }
    }

    /// Time since creation in milliseconds (0 if `now_ms` is earlier).
    pub fn age_ms(&self, now_ms: u64) -> (a: u64)
        ensures
            a == now_ms.saturating_sub(self.spec_created()),
    {
        now_ms.saturating_sub(self.created_ms)
    }

    /// Time since last access in milliseconds (0 if `now_ms` is earlier).
    pub fn idle_ms(&self, now_ms: u64) -> (a: u64)
        ensures
            a == now_ms.saturating_sub(self.spec_last_access()),
    {
        now_ms.saturating_sub(self.last_access_ms)
    }

    /// Total access count.
    pub fn access_count(&self) -> (c: u64)
        ensures
            c == self.spec_access_count(),
    {
        self.access_count
    }

    /// Creation timestamp.
    pub fn created_ms(&self) -> (c: u64)
        ensures
            c == self.spec_created(),
    {
        self.created_ms
    }

    /// Last access timestamp.
    pub fn last_access_ms(&self) -> (c: u64)
        ensures
            c == self.spec_last_access(),
    {
        self.last_access_ms
    }

    /// TTL setting.
    pub fn ttl_ms(&self) -> (t: Option<u64>)
        ensures
            t == self.spec_ttl(),
    {
        self.ttl_ms
    }

    /// Remaining TTL (None if no TTL set); 0 once expired.
    pub fn remaining_ttl_ms(&self, now_ms: u64) -> (r: Option<u64>)
        ensures
            r == match self.spec_ttl() {
                Some(ttl) => Some(ttl.saturating_sub(now_ms.saturating_sub(self.spec_created()))),
                None => None,
            },
    {
        match self.ttl_ms {
            Some(ttl) => {
                let elapsed = now_ms.saturating_sub(self.created_ms);
                Some(ttl.saturating_sub(elapsed))
            },
            None => None,
        }
    }
}

} // verus!
