use gane::offline::sync_engine::{ConflictStrategy, SyncEngine, SyncOperationType, SyncStatus};
use gane::types::EntityId;

#[test]
fn enqueue_and_count() {
    let mut engine = SyncEngine::new(ConflictStrategy::LastWriteWins);
    assert_eq!(engine.pending_count(), 0);
    engine.queue_operation(SyncOperationType::Create, "MapTile".into(), EntityId::new(), "{}".into());
    assert_eq!(engine.pending_count(), 1);
}

#[test]
fn offline_does_not_process() {
    let mut engine = SyncEngine::new(ConflictStrategy::LastWriteWins);
    engine.queue_operation(SyncOperationType::Create, "MapTile".into(), EntityId::new(), "{}".into());
    let result = engine.process_next();
    assert!(result.is_none());
    assert_eq!(engine.pending_count(), 1);
}

#[test]
fn online_processes_operations() {
    let mut engine = SyncEngine::new(ConflictStrategy::LastWriteWins);
    engine.set_online(true);
    engine.queue_operation(SyncOperationType::Create, "MapTile".into(), EntityId::new(), "{}".into());
    engine.queue_operation(SyncOperationType::Update, "MapTile".into(), EntityId::new(), "{}".into());
    let results = engine.flush();
    assert_eq!(results.len(), 2);
    assert_eq!(engine.pending_count(), 0);
    assert_eq!(engine.total_synced(), 2);
    assert!(results.iter().all(|op| op.status == SyncStatus::Completed));
}

#[test]
fn conflict_recording() {
    let mut engine = SyncEngine::new(ConflictStrategy::LocalWins);
    let record = engine.record_conflict(
        EntityId::new(),
        "RoadSegment".into(),
        EntityId::new(),
        "v1".into(),
        "v2".into(),
    );
    assert_eq!(record.resolution, ConflictStrategy::LocalWins);
    assert_eq!(engine.total_conflicts(), 1);
    assert_eq!(engine.conflicts().len(), 1);
}

#[test]
fn fifo_ordering() {
    let mut engine = SyncEngine::new(ConflictStrategy::LastWriteWins);
    engine.set_online(true);
    let id1 = EntityId::new();
    let id2 = EntityId::new();
    engine.queue_operation(SyncOperationType::Create, "A".into(), id1, "{}".into());
    engine.queue_operation(SyncOperationType::Create, "B".into(), id2, "{}".into());
    let first = engine.process_next().unwrap();
    assert_eq!(first.entity_id, id1);
    let second = engine.process_next().unwrap();
    assert_eq!(second.entity_id, id2);
}

#[test]
fn offline_flush_keeps_queue_and_strategy_changes() {
    let mut engine = SyncEngine::new(ConflictStrategy::Manual);
    engine.queue_operation(SyncOperationType::Delete, "A".into(), EntityId::from_u128(7), "{}".into());
    assert!(engine.flush().is_empty());
    assert_eq!(engine.pending_count(), 1);
    assert!(!engine.is_online());
    engine.set_conflict_strategy(ConflictStrategy::ServerWins);
    assert_eq!(engine.conflict_strategy(), ConflictStrategy::ServerWins);
    engine.set_online(true);
    let done = engine.flush();
    assert_eq!(done.len(), 1);
    assert_eq!(done[0].entity_id.as_u128(), 7);
    assert!(engine.process_next().is_none());
}

#[test]
fn fresh_ids_are_version_four() {
    let id = EntityId::new();
    assert_eq!((id.as_u128() >> 76) & 0xf, 4);
    assert_ne!(EntityId::new(), id);
}
