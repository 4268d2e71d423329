use gane::prioritymap::PriorityMap;

#[test]
fn pmap_test_new() {
    let pm = PriorityMap::new();
    assert!(pm.is_empty());
    assert_eq!(pm.len(), 0);
}

#[test]
fn test_insert() {
    let mut pm = PriorityMap::new();
    assert!(pm.insert("a", 10));
    assert_eq!(pm.len(), 1);
    assert!(pm.contains("a"));
}

#[test]
fn test_insert_update() {
    let mut pm = PriorityMap::new();
    pm.insert("a", 10);
    assert!(!pm.insert("a", 5));
    assert_eq!(pm.get("a"), Some(5));
}

#[test]
fn test_pop_min() {
    let mut pm = PriorityMap::new();
    pm.insert("c", 30);
    pm.insert("a", 10);
    pm.insert("b", 20);
    let (key, pri) = pm.pop_min().unwrap();
    assert_eq!(key, "a");
    assert_eq!(pri, 10);
}

#[test]
fn test_pop_min_order() {
    let mut pm = PriorityMap::new();
    pm.insert("c", 3);
    pm.insert("a", 1);
    pm.insert("b", 2);
    assert_eq!(pm.pop_min().unwrap().0, "a");
    assert_eq!(pm.pop_min().unwrap().0, "b");
    assert_eq!(pm.pop_min().unwrap().0, "c");
    assert!(pm.pop_min().is_none());
}

#[test]
fn test_peek_min() {
    let mut pm = PriorityMap::new();
    pm.insert("b", 20);
    pm.insert("a", 10);
    let (key, pri) = pm.peek_min().unwrap();
    assert_eq!(key, "a");
    assert_eq!(pri, 10);
    assert_eq!(pm.len(), 2);
}

#[test]
fn test_get() {
    let mut pm = PriorityMap::new();
    pm.insert("x", 42);
    assert_eq!(pm.get("x"), Some(42));
    assert_eq!(pm.get("y"), None);
}

#[test]
fn pmap_test_remove() {
    let mut pm = PriorityMap::new();
    pm.insert("a", 10);
    pm.insert("b", 20);
    assert_eq!(pm.remove("a"), Some(10));
    assert!(!pm.contains("a"));
    assert_eq!(pm.len(), 1);
}

#[test]
fn test_remove_nonexistent() {
    let mut pm = PriorityMap::new();
    assert_eq!(pm.remove("x"), None);
}

#[test]
fn test_decrease_priority() {
    let mut pm = PriorityMap::new();
    pm.insert("a", 10);
    assert!(pm.decrease_priority("a", 5));
    assert_eq!(pm.get("a"), Some(5));
    assert!(!pm.decrease_priority("a", 20));
    assert_eq!(pm.get("a"), Some(5));
}

#[test]
fn test_sorted_keys() {
    let mut pm = PriorityMap::new();
    pm.insert("c", 30);
    pm.insert("a", 10);
    pm.insert("b", 20);
    let sorted = pm.sorted_keys();
    assert_eq!(sorted[0].0, "a");
    assert_eq!(sorted[1].0, "b");
    assert_eq!(sorted[2].0, "c");
}

#[test]
fn pmap_test_clear() {
    let mut pm = PriorityMap::new();
    pm.insert("a", 1);
    pm.insert("b", 2);
    pm.clear();
    assert!(pm.is_empty());
}

#[test]
fn pmap_test_default() {
    let pm = PriorityMap::default();
    assert!(pm.is_empty());
}

#[test]
fn test_negative_priorities() {
    let mut pm = PriorityMap::new();
    pm.insert("a", -10);
    pm.insert("b", -5);
    pm.insert("c", 0);
    assert_eq!(pm.pop_min().unwrap(), ("a".to_string(), -10));
}

#[test]
fn test_same_priority() {
    let mut pm = PriorityMap::new();
    pm.insert("a", 1);
    pm.insert("b", 1);
    pm.insert("c", 1);
    assert_eq!(pm.len(), 3);
    pm.pop_min();
    assert_eq!(pm.len(), 2);
}

#[test]
fn test_ops_counter() {
    let mut pm = PriorityMap::new();
    pm.insert("a", 1);
    pm.insert("b", 2);
    pm.pop_min();
    assert_eq!(pm.total_ops(), 3);
}

#[test]
fn test_update_maintains_heap() {
    let mut pm = PriorityMap::new();
    pm.insert("a", 100);
    pm.insert("b", 50);
    pm.insert("c", 75);
    pm.insert("a", 1);
    assert_eq!(pm.peek_min().unwrap().0, "a");
}

#[test]
fn test_remove_min_then_insert() {
    let mut pm = PriorityMap::new();
    pm.insert("a", 1);
    pm.insert("b", 2);
    pm.pop_min();
    pm.insert("c", 0);
    assert_eq!(pm.peek_min().unwrap().0, "c");
}

#[test]
fn pops_come_out_in_priority_order() {
    let mut pm = PriorityMap::new();
    let prios = [50i64, -3, 17, 8, 8, 99, 0, -40, 23, 5, 61, 2];
    for (i, p) in prios.iter().enumerate() {
        pm.insert(&format!("k{}", i), *p);
    }
    pm.remove("k3");
    pm.insert("k5", -100);
    pm.decrease_priority("k0", 1);
    let mut last = i64::MIN;
    let mut n = 0;
    while let Some((_, p)) = pm.pop_min() {
        assert!(p >= last);
        last = p;
        n += 1;
    }
    assert_eq!(n, 11);
    assert_eq!(pm.total_ops(), 12 + 1 + 1 + 11);
}

#[test]
fn peek_then_pop_agree_on_ties() {
    let mut m = PriorityMap::new();
    m.insert("x", 5);
    m.insert("y", 5);
    m.insert("z", 5);
    let peeked = m.peek_min().map(|(k, p)| (k.to_string(), p));
    assert_eq!(m.pop_min(), peeked);
    assert_eq!(m.len(), 2);
}
