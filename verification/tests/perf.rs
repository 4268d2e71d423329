use gane::perf::lazy::{LazyLoadManager, LazyResource, LoadPriority, LoadState, ResourceType};
use gane::perf::memory::{MemoryBudget, MemoryManager, MemoryPressure, ObjectPool};
use gane::perf::profiler::Span;

#[test]
fn test_lazy_resource_creation() {
    let res = LazyResource::new("tile_0_0", ResourceType::MapTile).with_priority(LoadPriority::High);
    assert_eq!(res.state, LoadState::Unloaded);
    assert_eq!(res.priority, LoadPriority::High);
}

#[test]
fn test_dependencies_met() {
    let res = LazyResource::new("route_data", ResourceType::RouteData).with_dependency("map_data");
    assert!(!res.dependencies_met(&[]));
    assert!(res.dependencies_met(&["map_data".to_string()]));
}

#[test]
fn test_load_manager_basic() {
    let mut mgr = LazyLoadManager::new(4, 1024 * 1024);
    mgr.register(LazyResource::new("tile_a", ResourceType::MapTile));
    assert!(mgr.request_load("tile_a"));
    assert_eq!(mgr.state("tile_a"), Some(LoadState::Queued));
    mgr.mark_loaded("tile_a", 1024);
    assert_eq!(mgr.state("tile_a"), Some(LoadState::Loaded));
    assert_eq!(mgr.memory_used(), 1024);
}

#[test]
fn test_load_manager_evict() {
    let mut mgr = LazyLoadManager::new(4, 2048);
    mgr.register(LazyResource::new("tile_a", ResourceType::MapTile));
    mgr.request_load("tile_a");
    mgr.mark_loaded("tile_a", 1024);
    let freed = mgr.evict("tile_a");
    assert_eq!(freed, 1024);
    assert_eq!(mgr.memory_used(), 0);
    assert_eq!(mgr.state("tile_a"), Some(LoadState::Evicted));
}

#[test]
fn test_load_manager_failed() {
    let mut mgr = LazyLoadManager::new(4, 1024);
    mgr.register(LazyResource::new("bad_tile", ResourceType::MapTile));
    mgr.request_load("bad_tile");
    mgr.mark_failed("bad_tile");
    assert_eq!(mgr.state("bad_tile"), Some(LoadState::Failed));
}

#[test]
fn test_next_batch_respects_concurrency() {
    let mut mgr = LazyLoadManager::new(2, 1024 * 1024);
    for i in 0..5 {
        let id = format!("tile_{}", i);
        mgr.register(LazyResource::new(&id, ResourceType::MapTile));
        mgr.request_load(&id);
    }
    let batch1 = mgr.next_batch();
    assert_eq!(batch1.len(), 2);
    let batch2 = mgr.next_batch();
    assert_eq!(batch2.len(), 0);
    mgr.mark_loaded(&batch1[0], 100);
    let batch3 = mgr.next_batch();
    assert_eq!(batch3.len(), 1);
}

#[test]
fn test_next_batch_respects_dependencies() {
    let mut mgr = LazyLoadManager::new(4, 1024 * 1024);
    mgr.register(LazyResource::new("base", ResourceType::ConfigData));
    mgr.register(LazyResource::new("dependent", ResourceType::RouteData).with_dependency("base"));
    mgr.request_load("base");
    mgr.request_load("dependent");
    let batch = mgr.next_batch();
    assert!(!batch.contains(&"dependent".to_string()));
}

#[test]
fn test_prefetch_by_type() {
    let mut mgr = LazyLoadManager::new(4, 1024 * 1024);
    mgr.register(LazyResource::new("tile_1", ResourceType::MapTile));
    mgr.register(LazyResource::new("tile_2", ResourceType::MapTile));
    mgr.register(LazyResource::new("route", ResourceType::RouteData));
    let count = mgr.prefetch_by_type(ResourceType::MapTile);
    assert_eq!(count, 2);
    assert_eq!(mgr.state("tile_1"), Some(LoadState::Queued));
    assert_eq!(mgr.state("route"), Some(LoadState::Unloaded));
}

#[test]
fn test_over_budget() {
    let mut mgr = LazyLoadManager::new(4, 100);
    mgr.register(LazyResource::new("big", ResourceType::MapTile));
    mgr.request_load("big");
    mgr.mark_loaded("big", 200);
    assert!(mgr.over_budget());
}

#[test]
fn test_reload_evicted() {
    let mut mgr = LazyLoadManager::new(4, 1024);
    mgr.register(LazyResource::new("tile", ResourceType::MapTile));
    mgr.request_load("tile");
    mgr.mark_loaded("tile", 100);
    mgr.evict("tile");
    assert_eq!(mgr.state("tile"), Some(LoadState::Evicted));
    assert!(mgr.request_load("tile"));
    assert_eq!(mgr.state("tile"), Some(LoadState::Queued));
}

#[test]
fn lazy_batch_follows_dependencies_once_loaded() {
    let mut mgr = LazyLoadManager::new(4, 1024);
    mgr.register(LazyResource::new("base", ResourceType::ConfigData));
    mgr.register(LazyResource::new("dep", ResourceType::RouteData).with_dependency("base"));
    assert!(mgr.request_load("base"));
    assert!(mgr.request_load("dep"));
    assert!(!mgr.request_load("dep"));
    assert_eq!(mgr.next_batch(), vec!["base".to_string()]);
    assert_eq!(mgr.state("base"), Some(LoadState::Loading));
    mgr.mark_loaded("base", 10);
    assert_eq!(mgr.next_batch(), vec!["dep".to_string()]);
    assert_eq!(mgr.loaded_count(), 1);
    assert_eq!(mgr.resource_count(), 2);
    assert_eq!(mgr.evict("dep"), 0);
}

#[test]
fn test_memory_budget_basic() {
    let mut budget = MemoryBudget::new("tiles", 1024);
    assert!(budget.allocate(512));
    assert_eq!(budget.used_bytes, 512);
    assert_eq!(budget.remaining(), 512);
}

#[test]
fn test_memory_budget_exceed() {
    let mut budget = MemoryBudget::new("tiles", 100);
    assert!(budget.allocate(50));
    assert!(!budget.allocate(60));
    assert_eq!(budget.used_bytes, 50);
}

#[test]
fn test_memory_budget_free() {
    let mut budget = MemoryBudget::new("tiles", 1024);
    budget.allocate(512);
    budget.free(256);
    assert_eq!(budget.used_bytes, 256);
}

#[test]
fn test_memory_budget_peak() {
    let mut budget = MemoryBudget::new("tiles", 1024);
    budget.allocate(800);
    budget.free(400);
    budget.allocate(200);
    assert_eq!(budget.peak_bytes, 800);
}

#[test]
fn test_memory_pressure_levels() {
    let mut budget = MemoryBudget::new("test", 100);
    budget.allocate(50);
    assert_eq!(budget.pressure(), MemoryPressure::Normal);
    budget.allocate(21);
    assert_eq!(budget.pressure(), MemoryPressure::Warning);
    budget.allocate(15);
    assert_eq!(budget.pressure(), MemoryPressure::Critical);
    budget.allocate(10);
    assert_eq!(budget.pressure(), MemoryPressure::Emergency);
}

#[test]
fn memory_pressure_thresholds_are_inclusive() {
    let mut budget = MemoryBudget::new("t", 100);
    budget.allocate(70);
    assert_eq!(budget.pressure(), MemoryPressure::Warning);
    budget.allocate(15);
    assert_eq!(budget.pressure(), MemoryPressure::Critical);
    budget.allocate(10);
    assert_eq!(budget.pressure(), MemoryPressure::Emergency);
    let empty = MemoryBudget::new("e", 0);
    assert_eq!(empty.pressure(), MemoryPressure::Normal);
    assert_eq!(empty.remaining(), 0);
}

#[test]
fn test_memory_manager_basic() {
    let mut mgr = MemoryManager::new(10000);
    mgr.register_budget("tiles", 5000);
    mgr.register_budget("routes", 3000);
    assert!(mgr.allocate("tiles", 2000));
    assert!(mgr.allocate("routes", 1000));
    assert_eq!(mgr.total_used(), 3000);
}

#[test]
fn test_memory_manager_global_limit() {
    let mut mgr = MemoryManager::new(100);
    mgr.register_budget("a", 80);
    mgr.register_budget("b", 80);
    assert!(mgr.allocate("a", 60));
    assert!(!mgr.allocate("b", 60));
}

#[test]
fn test_memory_manager_unknown_subsystem() {
    let mut mgr = MemoryManager::new(1000);
    assert!(!mgr.allocate("unknown", 100));
}

#[test]
fn test_memory_manager_free() {
    let mut mgr = MemoryManager::new(1000);
    mgr.register_budget("tiles", 500);
    mgr.allocate("tiles", 300);
    mgr.free("tiles", 100);
    assert_eq!(mgr.total_used(), 200);
}

#[test]
fn test_memory_manager_pressure() {
    let mut mgr = MemoryManager::new(10000);
    mgr.register_budget("tiles", 100);
    mgr.allocate("tiles", 96);
    assert_eq!(mgr.overall_pressure(), MemoryPressure::Emergency);
}

#[test]
fn test_memory_snapshot() {
    let mut mgr = MemoryManager::new(1000);
    mgr.register_budget("tiles", 500);
    mgr.allocate("tiles", 200);
    let snap = mgr.snapshot();
    assert_eq!(snap.total_budget, 1000);
    assert_eq!(snap.total_used, 200);
    assert_eq!(snap.total_remaining, 800);
    assert_eq!(snap.subsystems.len(), 1);
}

#[test]
fn memory_manager_reregister_resets_budget() {
    let mut mgr = MemoryManager::new(1000);
    mgr.register_budget("tiles", 500);
    assert!(mgr.allocate("tiles", 400));
    mgr.register_budget("tiles", 300);
    assert_eq!(mgr.subsystem_count(), 1);
    assert_eq!(mgr.total_used(), 0);
    let info = mgr.budget_info("tiles").unwrap();
    assert_eq!(info.budget_bytes, 300);
    assert_eq!(info.used_bytes, 0);
    assert!(mgr.budget_info("none").is_none());
    assert_eq!(mgr.global_remaining(), 1000);
    assert_eq!(mgr.overall_pressure(), MemoryPressure::Normal);
}

#[test]
fn test_span_metadata() {
    let span = Span::start("routing", "navigation").with_metadata("waypoints", "5");
    assert_eq!(span.metadata.get("waypoints"), Some(&"5".to_string()));
}

#[test]
fn span_end_stops_running() {
    let mut span = Span::start("op", "test");
    assert!(span.is_running());
    span.end();
    assert!(!span.is_running());
    let _ = span.elapsed();
}

#[test]
fn test_object_pool_checkout_checkin() {
    let mut pool: ObjectPool<Vec<u8>, _> = ObjectPool::new(3, Vec::new);
    assert_eq!(pool.available(), 3);

    let obj = pool.checkout();
    assert_eq!(pool.available(), 2);

    pool.checkin(obj);
    assert_eq!(pool.available(), 3);
}

#[test]
fn test_object_pool_factory_when_empty() {
    let mut pool: ObjectPool<Vec<u8>, _> = ObjectPool::new(1, Vec::new);
    let _a = pool.checkout();
    let _b = pool.checkout(); // Pool empty, uses factory
    assert_eq!(pool.available(), 0);
    assert_eq!(pool.total_checkouts(), 2);
}

#[test]
fn test_object_pool_capacity_limit() {
    let mut pool: ObjectPool<u32, _> = ObjectPool::new(2, || 0);
    let _a = pool.checkout();
    let _b = pool.checkout();
    pool.checkin(1);
    pool.checkin(2);
    pool.checkin(3); // Exceeds capacity, should be dropped
    assert_eq!(pool.available(), 2);
}

#[test]
fn object_pool_hands_out_last_returned_first() {
    let mut pool: ObjectPool<u32, _> = ObjectPool::new(0, || 7);
    assert_eq!(pool.available(), 0);
    assert_eq!(pool.checkout(), 7);
    pool.checkin(1);
    assert_eq!(pool.available(), 0);
    let mut pool: ObjectPool<u32, _> = ObjectPool::new(2, || 5);
    assert_eq!(pool.checkout(), 5);
    pool.checkin(9);
    assert_eq!(pool.checkout(), 9);
    assert_eq!(pool.total_checkouts(), 2);
    assert_eq!(pool.total_returns(), 1);
}
