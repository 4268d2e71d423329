//! Migration plan — defines a sequence of migration steps.
use vstd::prelude::*;
use crate::migration::version::SchemaVersion;

verus! {

/// Status of a migration step.
#[derive(Debug, Clone, Copy, PartialEq, Eq, Structural)]
pub enum StepStatus {
    /// Not yet executed.
    Pending,
    /// Currently running.
    Running,
    /// Completed successfully.
    Completed,
    /// Failed with error.
    Failed,
    /// Rolled back after failure.
    RolledBack,
}

impl StepStatus {
    /// Display name.
    pub fn as_str(&self) -> (s: &'static str)
        ensures
            s@ == match *self {
                StepStatus::Pending => "pending"@,
                StepStatus::Running => "running"@,
                StepStatus::Completed => "completed"@,
                StepStatus::Failed => "failed"@,
                StepStatus::RolledBack => "rolled_back"@,
            },
    {
        match self {
            StepStatus::Pending => "pending",
            StepStatus::Running => "running",
            StepStatus::Completed => "completed",
            StepStatus::Failed => "failed",
            StepStatus::RolledBack => "rolled_back",
        }
    }

    /// Whether the step has finished (completed, failed or rolled back).
    pub fn is_terminal(&self) -> (b: bool)
        ensures
            b == (*self == StepStatus::Completed || *self == StepStatus::Failed || *self
                == StepStatus::RolledBack),
    {
        match self {
            StepStatus::Completed | StepStatus::Failed | StepStatus::RolledBack => true,
            _ => false,
        }
    }
}

/// A single migration step.
#[derive(Debug, Clone)]
pub struct MigrationStep {
    /// Step name.
    pub name: String,
    /// Description of what this step does.
    pub description: String,
    /// Target version after this step.
    pub target_version: SchemaVersion,
    /// Whether this step is reversible.
    pub reversible: bool,
    /// Current status.
    pub status: StepStatus,
    /// Duration in milliseconds (set after execution).
    pub duration_ms: Option<u64>,
}

impl MigrationStep {
    /// Create a new, pending, reversible migration step.
    pub fn new(name: &str, description: &str, target_version: SchemaVersion) -> (s: Self)
        ensures
            s.name@ == name@,
            s.description@ == description@,
            s.target_version == target_version,
            s.reversible,
            s.status == StepStatus::Pending,
            s.duration_ms is None,
    {
        MigrationStep {
            name: name.to_owned(),
            description: description.to_owned(),
            target_version,
            reversible: true,
            status: StepStatus::Pending,
            duration_ms: None,
        }
    }

    /// Mark as irreversible.
    pub fn irreversible(self) -> (s: Self)
        ensures
            s == (MigrationStep { reversible: false, ..self }),
    {
        let mut s = self;
        s.reversible = false;
        s
    }

    /// Mark step as running.
    pub fn mark_running(&mut self)
        ensures
            *final(self) == (MigrationStep { status: StepStatus::Running, ..*old(self) }),
    {
        self.status = StepStatus::Running;
    }

    /// Mark step as completed with its duration.
    pub fn mark_completed(&mut self, duration_ms: u64)
        ensures
            *final(self) == (MigrationStep {
                status: StepStatus::Completed,
                duration_ms: Some(duration_ms),
                ..*old(self)
            }),
    {
        self.status = StepStatus::Completed;
        self.duration_ms = Some(duration_ms);
    }

    /// Mark step as failed.
    pub fn mark_failed(&mut self)
        ensures
            *final(self) == (MigrationStep { status: StepStatus::Failed, ..*old(self) }),
    {
        self.status = StepStatus::Failed;
    }

    /// Mark step as rolled back.
    pub fn mark_rolled_back(&mut self)
        ensures
            *final(self) == (MigrationStep { status: StepStatus::RolledBack, ..*old(self) }),
    {
        self.status = StepStatus::RolledBack;
    }
}

/// Number of steps of `s` with status `st`.
pub open spec fn count_status(s: Seq<MigrationStep>, st: StepStatus) -> nat
    decreases s.len(),
{
    if s.len() == 0 {
        0
    } else {
        count_status(s.drop_last(), st) + if s.last().status == st {
            1nat
        } else {
            0nat
        }
    }
}

/// Sum of the recorded durations of the steps of `s`.
pub open spec fn duration_sum(s: Seq<MigrationStep>) -> nat
    decreases s.len(),
{
    if s.len() == 0 {
        0
    } else {
        duration_sum(s.drop_last()) + match s.last().duration_ms {
            Some(d) => d as nat,
            None => 0nat,
        }
    }
}

proof fn lemma_count_bound(s: Seq<MigrationStep>, st: StepStatus)
    ensures
        count_status(s, st) <= s.len(),
    decreases s.len(),
{
    if s.len() > 0 {
        lemma_count_bound(s.drop_last(), st);
    }
}

proof fn lemma_duration_prefix(s: Seq<MigrationStep>, i: int)
    requires
        0 <= i <= s.len(),
    ensures
        duration_sum(s.take(i)) <= duration_sum(s),
    decreases s.len() - i,
{
    if i < s.len() {
        lemma_duration_prefix(s, i + 1);
        assert(s.take(i + 1).drop_last() =~= s.take(i));
    } else {
        assert(s.take(i) =~= s);
    }
}

/// A migration plan consisting of ordered steps.
pub struct MigrationPlan {
    /// Plan name.
    pub name: String,
    /// Source version.
    pub from_version: SchemaVersion,
    /// Target version.
    pub to_version: SchemaVersion,
    steps: Vec<MigrationStep>,
}

impl MigrationPlan {
    /// The plan's name.
    pub closed spec fn spec_name(&self) -> Seq<char> {
        self.name@
    }

    /// The source and target versions.
    pub closed spec fn spec_versions(&self) -> (SchemaVersion, SchemaVersion) {
        (self.from_version, self.to_version)
    }

    /// The steps, in order.
    pub closed spec fn spec_steps(&self) -> Seq<MigrationStep> {
        self.steps@
    }

    /// Create a new migration plan without steps.
    pub fn new(name: &str, from: SchemaVersion, to: SchemaVersion) -> (p: Self)
        ensures
            p.spec_name() == name@,
            p.spec_versions() == (from, to),
            p.spec_steps().len() == 0,
    {
        MigrationPlan { name: name.to_owned(), from_version: from, to_version: to, steps: Vec::new() }
    }

    /// Add a step to the end of the plan.
    pub fn add_step(&mut self, step: MigrationStep)
        ensures
            final(self).spec_steps() == old(self).spec_steps().push(step),
            final(self).spec_name() == old(self).spec_name(),
            final(self).spec_versions() == old(self).spec_versions(),
    {
        self.steps.push(step);
    }

    /// Get all steps.
    pub fn steps(&self) -> (s: &[MigrationStep])
        ensures
            s@ == self.spec_steps(),
    {
        self.steps.as_slice()
    }

    /// Get a mutable step by index (None past the end).
    pub fn step_mut(&mut self, index: usize) -> (r: Option<&mut MigrationStep>)
        ensures
            final(self).spec_name() == old(self).spec_name(),
            final(self).spec_versions() == old(self).spec_versions(),
            index < old(self).spec_steps().len() ==> r is Some && *r->0 == old(
                self,
            ).spec_steps()[index as int] && final(self).spec_steps() == old(
                self,
            ).spec_steps().update(index as int, *final(r->0)),
            index >= old(self).spec_steps().len() ==> r is None && final(self).spec_steps()
                == old(self).spec_steps(),
    {
        if index < self.steps.len() {
            Some(&mut self.steps[index])
        } else {
            None
        }
    }

    /// Number of steps.
    pub fn step_count(&self) -> (n: usize)
        ensures
            n == self.spec_steps().len(),
    {
        self.steps.len()
    }

    fn count(&self, st: StepStatus) -> (n: usize)
        ensures
            n == count_status(self.spec_steps(), st),
    {
        let mut n: usize = 0;
        let mut i: usize = 0;
        while i < self.steps.len()
            invariant
                i <= self.steps@.len(),
                n == count_status(self.steps@.take(i as int), st),
            decreases self.steps@.len() - i,
        {
            proof {
                assert(self.steps@.take(i + 1).drop_last() =~= self.steps@.take(i as int));
                lemma_count_bound(self.steps@.take(i as int), st);
            }
            if self.steps[i].status == st {
                n = n + 1;
            }
            i = i + 1;
        }
        proof {
            assert(self.steps@.take(i as int) =~= self.steps@);
        }
        n
    }

    /// Number of completed steps.
    pub fn completed_count(&self) -> (n: usize)
        ensures
            n == count_status(self.spec_steps(), StepStatus::Completed),
    {
        self.count(StepStatus::Completed)
    }

    /// Number of pending steps.
    pub fn pending_count(&self) -> (n: usize)
        ensures
            n == count_status(self.spec_steps(), StepStatus::Pending),
    {
        self.count(StepStatus::Pending)
    }

    /// Whether the plan has steps and all of them are completed.
    pub fn is_complete(&self) -> (b: bool)
        ensures
            b == (self.spec_steps().len() > 0 && forall|i: int|
                0 <= i < self.spec_steps().len() ==> self.spec_steps()[i].status
                    == StepStatus::Completed),
    {
        if self.steps.len() == 0 {
            return false;
        }
        let mut i: usize = 0;
        while i < self.steps.len()
            invariant
                i <= self.steps@.len(),
                forall|j: int| 0 <= j < i ==> self.steps@[j].status == StepStatus::Completed,
            decreases self.steps@.len() - i,
        {
            if self.steps[i].status != StepStatus::Completed {
                return false;
            }
            i = i + 1;
        }
        true
    }

    /// Whether any step has failed.
    pub fn has_failures(&self) -> (b: bool)
        ensures
            b == exists|i: int|
                0 <= i < self.spec_steps().len() && self.spec_steps()[i].status
                    == StepStatus::Failed,
    {
        let mut i: usize = 0;
        while i < self.steps.len()
            invariant
                i <= self.steps@.len(),
                forall|j: int| 0 <= j < i ==> self.steps@[j].status != StepStatus::Failed,
            decreases self.steps@.len() - i,
        {
            if self.steps[i].status == StepStatus::Failed {
                return true;
            }
            i = i + 1;
        }
        false
    }

    /// Total duration of all steps that recorded one.
    pub fn total_duration_ms(&self) -> (t: u64)
        requires
            duration_sum(self.spec_steps()) <= u64::MAX,
        ensures
            t == duration_sum(self.spec_steps()),
    {
        let mut t: u64 = 0;
        let mut i: usize = 0;
        while i < self.steps.len()
            invariant
                i <= self.steps@.len(),
                t == duration_sum(self.steps@.take(i as int)),
                duration_sum(self.steps@) <= u64::MAX,
            decreases self.steps@.len() - i,
        {
            proof {
                assert(self.steps@.take(i + 1).drop_last() =~= self.steps@.take(i as int));
                lemma_duration_prefix(self.steps@, i + 1);
            }
            match self.steps[i].duration_ms {
                Some(d) => {
                    t = t + d;
                },
                None => {},
            }
            i = i + 1;
        }
        proof {
            assert(self.steps@.take(i as int) =~= self.steps@);
        }
        t
    }
}

} // verus!
