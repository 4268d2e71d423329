//! Sync engine: deterministic offline-to-online synchronisation. Operations queue up while
//! the device is offline and are synced first-in, first-out once it is online.
use vstd::prelude::*;
use std::collections::VecDeque;
use crate::types::{now_millis, EntityId};

verus! {

/// Type of sync operation.
#[derive(Debug, Clone, Copy, PartialEq, Eq, Structural)]
pub enum SyncOperationType {
    Create,
    Update,
    Delete,
}

/// Status of a sync operation.
#[derive(Debug, Clone, Copy, PartialEq, Eq, Structural)]
pub enum SyncStatus {
    Pending,
    InProgress,
    Completed,
    Failed,
    Conflict,
}

/// Conflict resolution strategy.
#[derive(Debug, Clone, Copy, PartialEq, Eq, Structural)]
pub enum ConflictStrategy {
    /// Local changes win.
    LocalWins,
    /// Server changes win.
    ServerWins,
    /// Most recent change wins.
    LastWriteWins,
    /// Queue for manual resolution.
    Manual,
}

/// A queued operation waiting to be synced.
#[derive(Debug, Clone)]
pub struct SyncOperation {
    pub id: EntityId,
    pub operation_type: SyncOperationType,
    pub entity_type: String,
    pub entity_id: EntityId,
    pub payload: String,
    /// Creation time, in milliseconds since the Unix epoch.
    pub created_at_ms: i64,
    pub retry_count: u32,
    pub status: SyncStatus,
}

/// Conflict record for audit.
#[derive(Debug, Clone)]
pub struct ConflictRecord {
    pub id: EntityId,
    pub operation_id: EntityId,
    pub entity_type: String,
    pub entity_id: EntityId,
    pub local_version: String,
    pub server_version: String,
    pub resolution: ConflictStrategy,
    /// Resolution time, in milliseconds since the Unix epoch.
    pub resolved_at_ms: i64,
}

/// The operations a flush hands back: the queued ones, in queue order, completed.
pub open spec fn completed_ops(q: Seq<SyncOperation>) -> Seq<SyncOperation> {
    q.map_values(|op: SyncOperation| SyncOperation { status: SyncStatus::Completed, ..op })
}

/// Deterministic synchronisation engine.
pub struct SyncEngine {
    queue: VecDeque<SyncOperation>,
    conflict_strategy: ConflictStrategy,
    _max_retries: u32,
    conflicts: Vec<ConflictRecord>,
    is_online: bool,
    total_synced: u64,
    total_conflicts: u64,
}

impl SyncEngine {
    /// The pending operations, oldest first.
    pub closed spec fn spec_queue(&self) -> Seq<SyncOperation> {
        self.queue@
    }

    /// The recorded conflicts, in order.
    pub closed spec fn spec_conflicts(&self) -> Seq<ConflictRecord> {
        self.conflicts@
    }

    /// Whether the device is online.
    pub closed spec fn spec_online(&self) -> bool {
        self.is_online
    }

    /// The conflict resolution strategy.
    pub closed spec fn spec_strategy(&self) -> ConflictStrategy {
        self.conflict_strategy
    }

    /// Operations synced so far.
    pub closed spec fn spec_synced(&self) -> u64 {
        self.total_synced
    }

    /// Conflicts recorded so far.
    pub closed spec fn spec_total_conflicts(&self) -> u64 {
        self.total_conflicts
    }

    /// A new, offline engine with an empty queue.
    pub fn new(conflict_strategy: ConflictStrategy) -> (e: Self)
        ensures
            e.spec_queue().len() == 0,
            e.spec_conflicts().len() == 0,
            !e.spec_online(),
            e.spec_strategy() == conflict_strategy,
            e.spec_synced() == 0,
            e.spec_total_conflicts() == 0,
    {
        SyncEngine {
            queue: VecDeque::new(),
            conflict_strategy,
            _max_retries: 3,
            conflicts: Vec::new(),
            is_online: false,
            total_synced: 0,
            total_conflicts: 0,
        }
    }

    /// Append an operation to the queue.
    pub fn enqueue(&mut self, op: SyncOperation)
        ensures
            final(self).spec_queue() == old(self).spec_queue().push(op),
            final(self).spec_conflicts() == old(self).spec_conflicts(),
            final(self).spec_online() == old(self).spec_online(),
            final(self).spec_strategy() == old(self).spec_strategy(),
            final(self).spec_synced() == old(self).spec_synced(),
            final(self).spec_total_conflicts() == old(self).spec_total_conflicts(),
    {
        self.queue.push_back(op);
    }

    /// Create a pending operation with a fresh id and the current time, and queue it.
    pub fn queue_operation(
        &mut self,
        op_type: SyncOperationType,
        entity_type: String,
        entity_id: EntityId,
        payload: String,
    )
        ensures
            final(self).spec_queue().len() == old(self).spec_queue().len() + 1,
            final(self).spec_queue().drop_last() == old(self).spec_queue(),
            ({
                let op = final(self).spec_queue().last();
                &&& op.operation_type == op_type
                &&& op.entity_type == entity_type
                &&& op.entity_id == entity_id
                &&& op.payload == payload
                &&& op.retry_count == 0
                &&& op.status == SyncStatus::Pending
            }),
            final(self).spec_conflicts() == old(self).spec_conflicts(),
            final(self).spec_online() == old(self).spec_online(),
            final(self).spec_strategy() == old(self).spec_strategy(),
            final(self).spec_synced() == old(self).spec_synced(),
            final(self).spec_total_conflicts() == old(self).spec_total_conflicts(),
    {
        let op = SyncOperation {
            id: EntityId::new(),
            operation_type: op_type,
            entity_type,
            entity_id,
            payload,
            created_at_ms: now_millis(),
            retry_count: 0,
            status: SyncStatus::Pending,
        };
        self.enqueue(op);
        assert(self.spec_queue().drop_last() =~= old(self).spec_queue());
    }

    /// Sync the oldest pending operation and return it, completed. Nothing happens while
    /// offline or when the queue is empty.
    pub fn process_next(&mut self) -> (r: Option<SyncOperation>)
        requires
            old(self).spec_online() && old(self).spec_queue().len() > 0 ==> old(self).spec_synced()
                < u64::MAX,
        ensures
            !old(self).spec_online() || old(self).spec_queue().len() == 0 ==> r is None && final(self).spec_queue() == old(self).spec_queue() && final(self).spec_synced() == old(
                self,
            ).spec_synced(),
            old(self).spec_online() && old(self).spec_queue().len() > 0 ==> r == Some(
                SyncOperation { status: SyncStatus::Completed, ..old(self).spec_queue()[0] },
            ) && final(self).spec_queue() == old(self).spec_queue().drop_first() && final(self).spec_synced() == old(self).spec_synced() + 1,
            final(self).spec_conflicts() == old(self).spec_conflicts(),
            final(self).spec_online() == old(self).spec_online(),
            final(self).spec_strategy() == old(self).spec_strategy(),
            final(self).spec_total_conflicts() == old(self).spec_total_conflicts(),
    {
        if !self.is_online {
            return None;
        }
        let mut op = match self.queue.pop_front() {
            Some(op) => op,
            None => {
                return None;
            },
        };
        op.status = SyncStatus::InProgress;
        op.status = SyncStatus::Completed;
        self.total_synced = self.total_synced + 1;
        Some(op)
    }

    /// Sync every pending operation (while online) and return them in queue order.
    pub fn flush(&mut self) -> (r: Vec<SyncOperation>)
        requires
            old(self).spec_online() ==> old(self).spec_synced() + old(self).spec_queue().len()
                <= u64::MAX,
        ensures
            old(self).spec_online() ==> r@ == completed_ops(old(self).spec_queue()) && final(self).spec_queue().len() == 0 && final(self).spec_synced() == old(self).spec_synced()
                + old(self).spec_queue().len(),
            !old(self).spec_online() ==> r@.len() == 0 && final(self).spec_queue() == old(
                self,
            ).spec_queue() && final(self).spec_synced() == old(self).spec_synced(),
            final(self).spec_conflicts() == old(self).spec_conflicts(),
            final(self).spec_online() == old(self).spec_online(),
            final(self).spec_strategy() == old(self).spec_strategy(),
            final(self).spec_total_conflicts() == old(self).spec_total_conflicts(),
    {
        let ghost q0 = self.spec_queue();
        let mut results: Vec<SyncOperation> = Vec::new();
        loop
            invariant
                self.spec_online() == old(self).spec_online(),
                self.spec_conflicts() == old(self).spec_conflicts(),
                self.spec_strategy() == old(self).spec_strategy(),
                self.spec_total_conflicts() == old(self).spec_total_conflicts(),
                q0 == old(self).spec_queue(),
                !self.spec_online() ==> results@.len() == 0 && self.spec_queue() == q0
                    && self.spec_synced() == old(self).spec_synced(),
                self.spec_online() ==> results@.len() + self.spec_queue().len() == q0.len()
                    && self.spec_queue() == q0.skip(results@.len() as int) && results@
                    == completed_ops(q0.take(results@.len() as int)) && self.spec_synced()
                    == old(self).spec_synced() + results@.len() && old(self).spec_synced()
                    + q0.len() <= u64::MAX,
            ensures
                self.spec_online() == old(self).spec_online(),
                self.spec_conflicts() == old(self).spec_conflicts(),
                self.spec_strategy() == old(self).spec_strategy(),
                self.spec_total_conflicts() == old(self).spec_total_conflicts(),
                !self.spec_online() ==> results@.len() == 0 && self.spec_queue() == q0
                    && self.spec_synced() == old(self).spec_synced(),
                self.spec_online() ==> self.spec_queue().len() == 0 && results@ == completed_ops(
                    q0,
                ) && self.spec_synced() == old(self).spec_synced() + q0.len(),
            decreases self.spec_queue().len(),
        {
            let ghost k = results@.len() as int;
            let ghost before = self.spec_queue();
            match self.process_next() {
                Some(op) => {
                    proof {
                        assert(before[0] == q0[k]);
                        assert(q0.skip(k + 1) =~= before.drop_first());
                        assert(completed_ops(q0.take(k + 1)) =~= completed_ops(q0.take(k)).push(
                            op,
                        ));
                    }
                    results.push(op);
                },
                None => {
                    proof {
                        if self.spec_online() {
                            assert(q0.take(k) =~= q0);
                        }
                    }
                    break;
                },
            }
        }
        results
    }

    /// Record a conflict, resolved with the current strategy, and return the record.
    pub fn record_conflict(
        &mut self,
        operation_id: EntityId,
        entity_type: String,
        entity_id: EntityId,
        local_version: String,
        server_version: String,
    ) -> (record: ConflictRecord)
        requires
            old(self).spec_total_conflicts() < u64::MAX,
        ensures
            record.operation_id == operation_id,
            record.entity_type == entity_type,
            record.entity_id == entity_id,
            record.local_version == local_version,
            record.server_version == server_version,
            record.resolution == old(self).spec_strategy(),
            final(self).spec_conflicts().len() == old(self).spec_conflicts().len() + 1,
            final(self).spec_conflicts().drop_last() == old(self).spec_conflicts(),
            final(self).spec_conflicts().last().operation_id == operation_id,
            final(self).spec_conflicts().last().entity_id == entity_id,
            final(self).spec_conflicts().last().resolution == old(self).spec_strategy(),
            final(self).spec_total_conflicts() == old(self).spec_total_conflicts() + 1,
            final(self).spec_queue() == old(self).spec_queue(),
            final(self).spec_online() == old(self).spec_online(),
            final(self).spec_strategy() == old(self).spec_strategy(),
            final(self).spec_synced() == old(self).spec_synced(),
    {
        self.total_conflicts = self.total_conflicts + 1;
        let record = ConflictRecord {
            id: EntityId::new(),
            operation_id,
            entity_type,
            entity_id,
            local_version,
            server_version,
            resolution: self.conflict_strategy,
            resolved_at_ms: now_millis(),
        };
        let copy = ConflictRecord {
            id: record.id,
            operation_id: record.operation_id,
            entity_type: record.entity_type.clone(),
            entity_id: record.entity_id,
            local_version: record.local_version.clone(),
            server_version: record.server_version.clone(),
            resolution: record.resolution,
            resolved_at_ms: record.resolved_at_ms,
        };
        self.conflicts.push(copy);
        assert(self.spec_conflicts().drop_last() =~= old(self).spec_conflicts());
        record
    }

    /// Set the online status.
    pub fn set_online(&mut self, online: bool)
        ensures
            final(self).spec_online() == online,
            final(self).spec_queue() == old(self).spec_queue(),
            final(self).spec_conflicts() == old(self).spec_conflicts(),
            final(self).spec_strategy() == old(self).spec_strategy(),
            final(self).spec_synced() == old(self).spec_synced(),
            final(self).spec_total_conflicts() == old(self).spec_total_conflicts(),
    {
        self.is_online = online;
    }

    /// Whether the device is online.
    pub fn is_online(&self) -> (b: bool)
        ensures
            b == self.spec_online(),
    {
        self.is_online
    }

    /// Number of pending operations.
    pub fn pending_count(&self) -> (n: usize)
        ensures
            n == self.spec_queue().len(),
    {
        self.queue.len()
    }

    /// Total operations synced.
    pub fn total_synced(&self) -> (n: u64)
        ensures
            n == self.spec_synced(),
    {
        self.total_synced
    }

    /// Total conflicts encountered.
    pub fn total_conflicts(&self) -> (n: u64)
        ensures
            n == self.spec_total_conflicts(),
    {
        self.total_conflicts
    }

    /// The conflict history.
    pub fn conflicts(&self) -> (r: &[ConflictRecord])
        ensures
            r@ == self.spec_conflicts(),
    {
        self.conflicts.as_slice()
    }

    /// The conflict resolution strategy.
    pub fn conflict_strategy(&self) -> (s: ConflictStrategy)
        ensures
            s == self.spec_strategy(),
    {
        self.conflict_strategy
    }

    /// Set the conflict resolution strategy.
    pub fn set_conflict_strategy(&mut self, strategy: ConflictStrategy)
        ensures
            final(self).spec_strategy() == strategy,
            final(self).spec_queue() == old(self).spec_queue(),
            final(self).spec_conflicts() == old(self).spec_conflicts(),
            final(self).spec_online() == old(self).spec_online(),
            final(self).spec_synced() == old(self).spec_synced(),
            final(self).spec_total_conflicts() == old(self).spec_total_conflicts(),
    {
        self.conflict_strategy = strategy;
    }
}

/// Synchronisation is first-in, first-out: syncing two queued operations one after the
/// other hands them back in the order they were queued.
pub proof fn law_fifo(q: Seq<SyncOperation>)
    requires
        q.len() >= 2,
    ensures
        q.drop_first()[0] == q[1],
        completed_ops(q)[0].entity_id == q[0].entity_id,
        completed_ops(q)[1].entity_id == q[1].entity_id,
{
}

} // verus!
