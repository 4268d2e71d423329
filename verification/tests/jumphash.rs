use gane::jumphash::{jump_hash, JumpHasher};

#[test]
fn test_jump_hash_deterministic() {
    let a = jump_hash(42, 10);
    let b = jump_hash(42, 10);
    assert_eq!(a, b);
}

#[test]
fn test_jump_hash_range() {
    for key in 0..1000 {
        let bucket = jump_hash(key, 10);
        assert!(bucket < 10);
    }
}

#[test]
fn test_jump_hash_single_bucket() {
    for key in 0..100 {
        assert_eq!(jump_hash(key, 1), 0);
    }
}

#[test]
fn test_jump_hash_zero_buckets() {
    assert_eq!(jump_hash(42, 0), 0);
}

#[test]
fn test_hasher_new() {
    let h = JumpHasher::new(10);
    assert_eq!(h.num_buckets(), 10);
}

#[test]
fn test_hasher_hash_key() {
    let h = JumpHasher::new(10);
    let bucket = h.hash_key(&"test");
    assert!(bucket < 10);
}

#[test]
fn test_hasher_resize() {
    let mut h = JumpHasher::new(10);
    h.resize(20);
    assert_eq!(h.num_buckets(), 20);
}

#[test]
fn test_distribution_uniformity() {
    let h = JumpHasher::new(4);
    let dist = h.distribution(10000);
    for &count in &dist {
        assert!(count > 1000, "bucket count {} too low", count);
        assert!(count < 4000, "bucket count {} too high", count);
    }
}

#[test]
fn test_hasher_min_buckets() {
    let h = JumpHasher::new(0);
    assert_eq!(h.num_buckets(), 1);
}

#[test]
fn test_monotonicity() {
    let mut moved_to_new = 0;
    let mut moved_elsewhere = 0;
    for key in 0..10000_u64 {
        let old = jump_hash(key, 10);
        let new = jump_hash(key, 11);
        if old != new {
            if new == 10 {
                moved_to_new += 1;
            } else {
                moved_elsewhere += 1;
            }
        }
    }
    assert_eq!(moved_elsewhere, 0, "keys moved to wrong bucket");
    assert!(moved_to_new > 0, "no keys moved to new bucket");
}

#[test]
fn adversarial_zero_buckets() {
    assert_eq!(jump_hash(42, 0), 0);
}

#[test]
fn adversarial_single_bucket() {
    for k in 0..1000 {
        assert_eq!(jump_hash(k, 1), 0);
    }
}

#[test]
fn adversarial_max_key() {
    let bucket = jump_hash(u64::MAX, 10);
    assert!(bucket < 10);
}

#[test]
fn adversarial_large_bucket_count() {
    let bucket = jump_hash(42, u32::MAX);
    assert!(bucket < u32::MAX);
}

#[test]
fn adversarial_distribution() {
    let h = JumpHasher::new(8);
    let dist = h.distribution(80000);
    for &count in &dist {
        assert!(count > 5000, "bucket count {} too low", count);
        assert!(count < 15000, "bucket count {} too high", count);
    }
}

#[test]
fn adversarial_resize_min() {
    let mut h = JumpHasher::new(10);
    h.resize(0);
    assert_eq!(h.num_buckets(), 1);
}

#[test]
fn adversarial_monotonicity_property() {
    for key in 0..5000_u64 {
        let old = jump_hash(key, 5);
        let new = jump_hash(key, 6);
        if old != new {
            assert_eq!(new, 5, "key {} moved from {} to {} instead of 5", key, old, new);
        }
    }
}

#[test]
fn adversarial_deterministic() {
    let h = JumpHasher::new(100);
    let b1 = h.hash_key(&"test_key");
    let b2 = h.hash_key(&"test_key");
    assert_eq!(b1, b2);
}

#[test]
fn jump_hash_known_values() {
    // key 0 with two buckets: first candidate after bucket 0 is 2^31 / ((1 >> 33) + 1) = 2^31.
    assert_eq!(jump_hash(0, 2), 0);
    let h = JumpHasher::new(3);
    let dist = h.distribution(3);
    assert_eq!(dist.iter().sum::<u64>(), 3);
}
