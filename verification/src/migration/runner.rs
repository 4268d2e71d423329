//! Migration runner — executes and manages migration plans.
use vstd::prelude::*;
use crate::migration::plan::{MigrationPlan, MigrationStep, StepStatus};
use crate::migration::version::{SchemaVersion, VersionTracker};

verus! {

/// Result of running a migration plan.
#[derive(Debug, Clone, PartialEq, Eq)]
pub enum RunResult {
    /// All steps completed successfully.
    Success,
    /// A step failed at the given index.
    Failed { step_index: usize, step_name: String },
    /// Plan was empty — nothing to do.
    Empty,
}

impl RunResult {
    /// Whether the migration succeeded.
    pub fn is_success(&self) -> (b: bool)
        ensures
            b == (*self is Success),
    {
        match self {
            RunResult::Success => true,
            _ => false,
        }
    }
}

/// The index of the step at which a run stops: the failing step, or `n` when none fails.
pub open spec fn stop_index(n: int, fail_at: Option<usize>) -> int {
    match fail_at {
        Some(f) => if f < n { f as int } else { n },
        None => n,
    }
}

/// The duration recorded for step `i`: `durations[i]`, or 0 past its end.
pub open spec fn step_duration(durations: Seq<u64>, i: int) -> u64 {
    if i < durations.len() { durations[i] } else { 0 }
}

/// The steps after a run that stopped at index `k`: the steps before `k` completed with
/// their durations, step `k` (if any) failed, the rest untouched.
pub open spec fn executed_steps(s: Seq<MigrationStep>, durations: Seq<u64>, k: int) -> Seq<
    MigrationStep,
> {
    Seq::new(
        s.len(),
        |i: int|
            if i < k {
                MigrationStep {
                    status: StepStatus::Completed,
                    duration_ms: Some(step_duration(durations, i)),
                    ..s[i]
                }
            } else if i == k {
                MigrationStep { status: StepStatus::Failed, ..s[i] }
            } else {
                s[i]
            },
    )
}

/// The target versions of the first `k` steps.
pub open spec fn step_targets(s: Seq<MigrationStep>, k: int) -> Seq<SchemaVersion> {
    Seq::new(k as nat, |i: int| s[i].target_version)
}

/// Whether rollback undoes a step: it completed and is reversible.
pub open spec fn undoable(s: MigrationStep) -> bool {
    s.status == StepStatus::Completed && s.reversible
}

/// The step after rollback.
pub open spec fn rolled_back(s: MigrationStep) -> MigrationStep {
    if undoable(s) {
        MigrationStep { status: StepStatus::RolledBack, ..s }
    } else {
        s
    }
}

/// Number of steps of `s` that rollback undoes.
pub open spec fn undoable_count(s: Seq<MigrationStep>) -> nat
    decreases s.len(),
{
    if s.len() == 0 {
        0
    } else {
        (if undoable(s[0]) {
            1nat
        } else {
            0nat
        }) + undoable_count(s.drop_first())
    }
}

proof fn lemma_undoable_bound(s: Seq<MigrationStep>)
    ensures
        undoable_count(s) <= s.len(),
    decreases s.len(),
{
    if s.len() > 0 {
        lemma_undoable_bound(s.drop_first());
    }
}

/// Simulates running a migration plan by advancing step statuses.
pub struct MigrationRunner {
    version_tracker: VersionTracker,
    plans_executed: u64,
    steps_executed: u64,
    steps_failed: u64,
}

impl MigrationRunner {
    /// The versions the runner has moved through; the last one is current.
    pub closed spec fn spec_history(&self) -> Seq<SchemaVersion> {
        self.version_tracker.spec_history()
    }

    /// Plans executed (empty plans are not counted).
    pub closed spec fn spec_plans_executed(&self) -> u64 {
        self.plans_executed
    }

    /// Steps completed.
    pub closed spec fn spec_steps_executed(&self) -> u64 {
        self.steps_executed
    }

    /// Steps failed.
    pub closed spec fn spec_steps_failed(&self) -> u64 {
        self.steps_failed
    }

    /// Create a new runner starting at the given version.
    pub fn new(initial_version: SchemaVersion) -> (r: Self)
        ensures
            r.spec_history() == seq![initial_version],
            r.spec_plans_executed() == 0,
            r.spec_steps_executed() == 0,
            r.spec_steps_failed() == 0,
    {
        MigrationRunner {
            version_tracker: VersionTracker::new(initial_version),
            plans_executed: 0,
            steps_executed: 0,
            steps_failed: 0,
        }
    }

    /// Get the current schema version.
    pub fn current_version(&self) -> (v: &SchemaVersion)
        ensures
            *v == self.spec_history().last(),
    {
        self.version_tracker.current()
    }

    /// Execute a plan, simulating each step with the provided durations (0 where none is
    /// given). If `fail_at` is `Some(index)`, the step at that index fails and the run stops.
    /// Each completed step advances the schema version to its target.
    pub fn execute(
        &mut self,
        plan: &mut MigrationPlan,
        step_durations_ms: &[u64],
        fail_at: Option<usize>,
    ) -> (r: RunResult)
        requires
            old(self).spec_plans_executed() < u64::MAX,
            old(self).spec_steps_failed() < u64::MAX,
            old(self).spec_steps_executed() + old(plan).spec_steps().len() <= u64::MAX,
        ensures
            final(plan).spec_name() == old(plan).spec_name(),
            final(plan).spec_versions() == old(plan).spec_versions(),
            ({
                let s = old(plan).spec_steps();
                let n = s.len() as int;
                let k = stop_index(n, fail_at);
                if n == 0 {
                    &&& r == RunResult::Empty
                    &&& final(plan).spec_steps() == s
                    &&& final(self).spec_history() == old(self).spec_history()
                    &&& final(self).spec_plans_executed() == old(self).spec_plans_executed()
                    &&& final(self).spec_steps_executed() == old(self).spec_steps_executed()
                    &&& final(self).spec_steps_failed() == old(self).spec_steps_failed()
                } else {
                    &&& final(plan).spec_steps() == executed_steps(s, step_durations_ms@, k)
                    &&& final(self).spec_history() == old(self).spec_history() + step_targets(s, k)
                    &&& final(self).spec_plans_executed() == old(self).spec_plans_executed() + 1
                    &&& final(self).spec_steps_executed() == old(self).spec_steps_executed() + k
                    &&& final(self).spec_steps_failed() == old(self).spec_steps_failed() + (if k
                        < n {
                        1int
                    } else {
                        0int
                    })
                    &&& r == (if k < n {
                        RunResult::Failed { step_index: k as usize, step_name: s[k].name }
                    } else {
                        RunResult::Success
                    })
                }
            }),
    {
        let n = plan.step_count();
        if n == 0 {
            return RunResult::Empty;
        }
        self.plans_executed = self.plans_executed + 1;
        let ghost s = plan.spec_steps();
        let ghost h0 = self.spec_history();
        let ghost ds = step_durations_ms@;
        let mut i: usize = 0;
        while i < n
            invariant
                n == s.len(),
                0 <= i <= n,
                plan.spec_steps() == executed_steps(s, ds, i as int).take(i as int) + s.skip(
                    i as int,
                ),
                plan.spec_name() == old(plan).spec_name(),
                plan.spec_versions() == old(plan).spec_versions(),
                self.spec_history() == h0 + step_targets(s, i as int),
                h0 == old(self).spec_history(),
                s == old(plan).spec_steps(),
                self.steps_executed == old(self).spec_steps_executed() + i,
                self.steps_failed == old(self).spec_steps_failed(),
                self.plans_executed == old(self).spec_plans_executed() + 1,
                old(self).spec_steps_executed() + n <= u64::MAX,
                old(self).spec_steps_failed() < u64::MAX,
                ds == step_durations_ms@,
                i <= stop_index(n as int, fail_at),
            decreases n - i,
        {
            let step = plan.step_mut(i).unwrap();
            step.mark_running();
            let fails = match fail_at {
                Some(f) => f == i,
                None => false,
            };
            if fails {
                step.mark_failed();
                let name = step.name.clone();
                self.steps_failed = self.steps_failed + 1;
                proof {
                    assert(stop_index(n as int, fail_at) == i);
                    assert(plan.spec_steps() =~= executed_steps(s, ds, i as int));
                }
                return RunResult::Failed { step_index: i, step_name: name };
            }
            let duration = if i < step_durations_ms.len() {
                step_durations_ms[i]
            } else {
                0
            };
            step.mark_completed(duration);
            let target = step.target_version;
            self.steps_executed = self.steps_executed + 1;
            self.version_tracker.advance(target);
            proof {
                assert(plan.spec_steps() =~= executed_steps(s, ds, i + 1).take(i + 1) + s.skip(
                    i + 1,
                ));
                assert(self.spec_history() =~= h0 + step_targets(s, i + 1));
            }
            i = i + 1;
        }
        proof {
            assert(stop_index(n as int, fail_at) == n);
            assert(plan.spec_steps() =~= executed_steps(s, ds, n as int));
        }
        RunResult::Success
    }

    /// Roll back all completed, reversible steps (last step first) and return how many
    /// were rolled back. If any was, the schema version returns to the initial one.
    pub fn rollback(&mut self, plan: &mut MigrationPlan) -> (count: usize)
        ensures
            count == undoable_count(old(plan).spec_steps()),
            final(plan).spec_steps() == old(plan).spec_steps().map_values(
                |st: MigrationStep| rolled_back(st),
            ),
            final(plan).spec_name() == old(plan).spec_name(),
            final(plan).spec_versions() == old(plan).spec_versions(),
            count > 0 ==> final(self).spec_history() == old(self).spec_history().take(1),
            count == 0 ==> final(self).spec_history() == old(self).spec_history(),
            final(self).spec_plans_executed() == old(self).spec_plans_executed(),
            final(self).spec_steps_executed() == old(self).spec_steps_executed(),
            final(self).spec_steps_failed() == old(self).spec_steps_failed(),
    {
        let ghost s = plan.spec_steps();
        let n = plan.step_count();
        let mut count: usize = 0;
        let mut i: usize = n;
        proof {
            assert(s.subrange(n as int, n as int) =~= Seq::<MigrationStep>::empty());
        }
        while i > 0
            invariant
                n == s.len(),
                0 <= i <= n,
                plan.spec_name() == old(plan).spec_name(),
                plan.spec_versions() == old(plan).spec_versions(),
                plan.spec_steps() == s.take(i as int) + s.skip(i as int).map_values(
                    |st: MigrationStep| rolled_back(st),
                ),
                count == undoable_count(s.subrange(i as int, n as int)),
                count <= n - i,
            decreases i,
        {
            let j = i - 1;
            proof {
                assert(s.subrange(j as int, n as int).drop_first() =~= s.subrange(
                    i as int,
                    n as int,
                ));
                assert(s.subrange(j as int, n as int)[0] == s[j as int]);
            }
            let step = plan.step_mut(j).unwrap();
            if step.status == StepStatus::Completed && step.reversible {
                step.mark_rolled_back();
                count = count + 1;
            }
            proof {
                assert(plan.spec_steps() =~= s.take(j as int) + s.skip(j as int).map_values(
                    |st: MigrationStep| rolled_back(st),
                ));
            }
            i = j;
        }
        proof {
            assert(plan.spec_steps() =~= s.map_values(|st: MigrationStep| rolled_back(st)));
            assert(s.subrange(0, n as int) =~= s);
        }
        if count > 0 {
            self.version_tracker.rollback_to(0);
        }
        count
    }

    /// Total plans executed.
    pub fn plans_executed(&self) -> (c: u64)
        ensures
            c == self.spec_plans_executed(),
    {
        self.plans_executed
    }

    /// Total steps executed successfully.
    pub fn steps_executed(&self) -> (c: u64)
        ensures
            c == self.spec_steps_executed(),
    {
        self.steps_executed
    }

    /// Total steps failed.
    pub fn steps_failed(&self) -> (c: u64)
        ensures
            c == self.spec_steps_failed(),
    {
        self.steps_failed
    }

    /// Version history length.
    pub fn version_history_len(&self) -> (n: usize)
        ensures
            n == self.spec_history().len(),
    {
        self.version_tracker.history_len()
    }
}

/// Counting the undoable steps of a list whose first `k` steps are undoable and the rest
/// are not gives `k`.
proof fn lemma_undoable_count_prefix(t: Seq<MigrationStep>, k: int)
    requires
        0 <= k <= t.len(),
        forall|i: int| 0 <= i < k ==> undoable(#[trigger] t[i]),
        forall|i: int| k <= i < t.len() ==> !undoable(#[trigger] t[i]),
    ensures
        undoable_count(t) == k,
    decreases t.len(),
{
    if t.len() > 0 {
        let r = t.drop_first();
        if k > 0 {
            assert(undoable(t[0]));
            assert forall|i: int| 0 <= i < k - 1 implies undoable(#[trigger] r[i]) by {
                assert(r[i] == t[i + 1]);
            }
            assert forall|i: int| k - 1 <= i < r.len() implies !undoable(#[trigger] r[i]) by {
                assert(r[i] == t[i + 1]);
            }
            lemma_undoable_count_prefix(r, k - 1);
        } else {
            assert(!undoable(t[0]));
            assert forall|i: int| 0 <= i < r.len() implies !undoable(#[trigger] r[i]) by {
                assert(r[i] == t[i + 1]);
            }
            lemma_undoable_count_prefix(r, 0);
        }
    }
}

/// Rollback undoes exactly what a run did: on a fresh plan of reversible steps, after a
/// run that stopped at index `k` (the failing step, or the end), rollback undoes `k`
/// steps, those the run completed, and leaves the failed and the untouched ones as they
/// were.
pub proof fn law_rollback_undoes_run(s: Seq<MigrationStep>, durations: Seq<u64>, k: int)
    requires
        0 <= k <= s.len(),
        forall|i: int| 0 <= i < s.len() ==> (#[trigger] s[i]).status == StepStatus::Pending
            && s[i].reversible,
    ensures
        undoable_count(executed_steps(s, durations, k)) == k,
        forall|i: int|
            0 <= i < s.len() ==> #[trigger] rolled_back(executed_steps(s, durations, k)[i])
                == if i < k {
                MigrationStep {
                    status: StepStatus::RolledBack,
                    duration_ms: Some(step_duration(durations, i)),
                    ..s[i]
                }
            } else if i == k {
                MigrationStep { status: StepStatus::Failed, ..s[i] }
            } else {
                s[i]
            },
{
    let t = executed_steps(s, durations, k);
    assert forall|i: int| 0 <= i < k implies undoable(#[trigger] t[i]) by {}
    assert forall|i: int| k <= i < t.len() implies !undoable(#[trigger] t[i]) by {}
    lemma_undoable_count_prefix(t, k);
}

/// Advancing and then rolling back to the previous position restores the history.
pub proof fn law_rollback_after_advance(history: Seq<SchemaVersion>, v: SchemaVersion)
    requires
        history.len() >= 1,
    ensures
        history.push(v).take(history.len() as int) == history,
        history.push(v).last() == v,
{
    assert(history.push(v).take(history.len() as int) =~= history);
}

} // verus!
