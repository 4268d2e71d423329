use gane::lru::cache::LruCache;
use gane::lru::entry::CacheEntry;

#[test]
fn test_new_cache() {
    let c: LruCache<u32> = LruCache::new(5, None);
    assert_eq!(c.capacity(), 5);
    assert!(c.is_empty());
    assert_eq!(c.len(), 0);
}

#[test]
fn test_put_and_get() {
    let mut c = LruCache::new(5, None);
    c.put("a", 1, 1000);
    assert_eq!(c.get("a", 1000), Some(1));
    assert_eq!(c.hits(), 1);
}

#[test]
fn test_miss() {
    let mut c: LruCache<u32> = LruCache::new(5, None);
    assert_eq!(c.get("missing", 1000), None);
    assert_eq!(c.misses(), 1);
}

#[test]
fn test_lru_eviction() {
    let mut c = LruCache::new(3, None);
    c.put("a", 1, 100);
    c.put("b", 2, 200);
    c.put("c", 3, 300);
    let evicted = c.put("d", 4, 400);
    assert_eq!(evicted, Some("a".to_string()));
    assert_eq!(c.get("a", 500), None);
    assert_eq!(c.get("d", 500), Some(4));
    assert_eq!(c.evictions(), 1);
}

#[test]
fn test_access_promotes_to_mru() {
    let mut c = LruCache::new(3, None);
    c.put("a", 1, 100);
    c.put("b", 2, 200);
    c.put("c", 3, 300);
    c.get("a", 350);
    let evicted = c.put("d", 4, 400);
    assert_eq!(evicted, Some("b".to_string()));
    assert!(c.contains("a", 400));
}

#[test]
fn test_ttl_eviction() {
    let mut c = LruCache::new(5, Some(2000));
    c.put("a", 1, 1000);
    c.put("b", 2, 2000);
    assert!(c.contains("a", 2000));
    assert!(!c.contains("a", 3000));
    c.evict_expired(3000);
    assert_eq!(c.len(), 1);
}

#[test]
fn test_update_existing() {
    let mut c = LruCache::new(5, None);
    c.put("a", 1, 100);
    c.put("a", 2, 200);
    assert_eq!(c.get("a", 300), Some(2));
    assert_eq!(c.len(), 1);
    assert_eq!(c.total_inserts(), 2);
}

#[test]
fn cache_test_remove() {
    let mut c = LruCache::new(5, None);
    c.put("a", 1, 100);
    assert!(c.remove("a"));
    assert!(!c.remove("a"));
    assert!(c.is_empty());
}

#[test]
fn cache_test_clear() {
    let mut c = LruCache::new(5, None);
    c.put("a", 1, 100);
    c.put("b", 2, 200);
    c.get("a", 300);
    c.clear();
    assert!(c.is_empty());
    assert_eq!(c.hits(), 0);
    assert_eq!(c.misses(), 0);
}

#[test]
fn test_keys_order() {
    let mut c = LruCache::new(5, None);
    c.put("x", 1, 100);
    c.put("y", 2, 200);
    c.put("z", 3, 300);
    c.get("x", 350);
    let keys = c.keys();
    assert_eq!(keys, vec!["y", "z", "x"]);
}

#[test]
fn ttl_expiry_counts_as_eviction_and_miss() {
    let mut c = LruCache::new(2, Some(100));
    c.put("a", 1, 0);
    assert_eq!(c.get("a", 100), None);
    assert_eq!(c.evictions(), 1);
    assert_eq!(c.misses(), 1);
    assert!(c.is_empty());
}

#[test]
fn zero_capacity_never_evicts() {
    let mut c = LruCache::new(0, None);
    assert_eq!(c.put("a", 1, 0), None);
    assert_eq!(c.put("b", 2, 0), None);
    assert_eq!(c.len(), 2);
}

#[test]
fn test_new_entry() {
    let e = CacheEntry::new("k1".into(), 42u32, 1000, Some(5000));
    assert_eq!(e.key(), "k1");
    assert_eq!(*e.value(), 42);
    assert_eq!(e.created_ms(), 1000);
    assert_eq!(e.access_count(), 0);
}

#[test]
fn test_touch_updates_access() {
    let mut e = CacheEntry::new("k".into(), 1u32, 1000, None);
    e.touch(2000);
    assert_eq!(e.access_count(), 1);
    assert_eq!(e.last_access_ms(), 2000);
    e.touch(3000);
    assert_eq!(e.access_count(), 2);
}

#[test]
fn test_expiry_with_ttl() {
    let e = CacheEntry::new("k".into(), 1u32, 1000, Some(3000));
    assert!(!e.is_expired(2000));
    assert!(!e.is_expired(3999));
    assert!(e.is_expired(4000));
    assert!(e.is_expired(5000));
}

#[test]
fn test_no_ttl_never_expires() {
    let e = CacheEntry::new("k".into(), 1u32, 1000, None);
    assert!(!e.is_expired(u64::MAX));
}

#[test]
fn test_age_and_idle() {
    let mut e = CacheEntry::new("k".into(), 1u32, 1000, None);
    e.touch(3000);
    assert_eq!(e.age_ms(5000), 4000);
    assert_eq!(e.idle_ms(5000), 2000);
}

#[test]
fn test_remaining_ttl() {
    let e = CacheEntry::new("k".into(), 1u32, 1000, Some(5000));
    assert_eq!(e.remaining_ttl_ms(2000), Some(4000));
    assert_eq!(e.remaining_ttl_ms(6000), Some(0));
}

#[test]
fn test_set_value() {
    let mut e = CacheEntry::new("k".into(), 10u32, 1000, None);
    e.set_value(20);
    assert_eq!(*e.value(), 20);
}

#[test]
fn test_saturating_access_count() {
    let mut e = CacheEntry::new("k".into(), 1u32, 0, None);
    e.access_count = u64::MAX - 1;
    e.touch(1);
    assert_eq!(e.access_count(), u64::MAX);
    e.touch(2);
    assert_eq!(e.access_count(), u64::MAX);
}

#[test]
fn entry_ttl_and_age_before_creation() {
    let e = CacheEntry::new("k".into(), 1u32, 1000, Some(10));
    assert_eq!(e.ttl_ms(), Some(10));
    assert_eq!(e.age_ms(500), 0);
    assert_eq!(e.remaining_ttl_ms(500), Some(10));
}
