//! Batch processing: bulk jobs with progress and checkpoints, and their scheduler.
use vstd::prelude::*;
use crate::text::str_eq;

verus! {

/// Batch job status.
#[derive(Debug, Clone, Copy, PartialEq, Eq, Structural)]
pub enum BatchStatus {
    /// Job is pending execution.
    Pending,
    /// Job is currently running.
    Running,
    /// Job completed successfully.
    Completed,
    /// Job failed.
    Failed,
    /// Job was cancelled.
    Cancelled,
}

/// Whether a status is final.
pub open spec fn status_terminal(s: BatchStatus) -> bool {
    s is Completed || s is Failed || s is Cancelled
}

/// A batch processing job.
#[derive(Debug, Clone)]
pub struct BatchJob {
    /// Job identifier.
    pub id: String,
    /// Job description.
    pub description: String,
    /// Current status.
    pub status: BatchStatus,
    /// Total records to process.
    pub total_records: u64,
    /// Records processed so far.
    pub processed_records: u64,
    /// Records that failed processing.
    pub failed_records: u64,
    /// Start time (epoch millis), None if not started.
    pub started_at_ms: Option<u64>,
    /// End time (epoch millis), None if not finished.
    pub finished_at_ms: Option<u64>,
    /// Last checkpoint position.
    pub checkpoint: Option<u64>,
    /// Error message if failed.
    pub error: Option<String>,
}

/// The run time of a job: from its start to its end (or to its start while unfinished),
/// and none before it starts.
pub open spec fn job_duration(j: BatchJob) -> Option<u64> {
    match j.started_at_ms {
        Some(start) => {
            let end = match j.finished_at_ms {
                Some(e) => e,
                None => start,
            };
            Some(end.saturating_sub(start))
        },
        None => None,
    }
}

impl BatchJob {
    /// Create a new, pending batch job.
    pub fn new(id: &str, description: &str, total_records: u64) -> (j: Self)
        ensures
            j.id@ == id@,
            j.description@ == description@,
            j.status == BatchStatus::Pending,
            j.total_records == total_records,
            j.processed_records == 0,
            j.failed_records == 0,
            j.started_at_ms is None,
            j.finished_at_ms is None,
            j.checkpoint is None,
            j.error is None,
    {
        BatchJob {
            id: id.to_owned(),
            description: description.to_owned(),
            status: BatchStatus::Pending,
            total_records,
            processed_records: 0,
            failed_records: 0,
            started_at_ms: None,
            finished_at_ms: None,
            checkpoint: None,
            error: None,
        }
    }

    /// Start the job.
    pub fn start(&mut self, timestamp_ms: u64)
        ensures
            *final(self) == (BatchJob {
                status: BatchStatus::Running,
                started_at_ms: Some(timestamp_ms),
                ..*old(self)
            }),
    {
        self.status = BatchStatus::Running;
        self.started_at_ms = Some(timestamp_ms);
    }

    /// Record progress: more records processed, some of them failed.
    pub fn record_progress(&mut self, processed: u64, failed: u64)
        requires
            old(self).processed_records + processed <= u64::MAX,
            old(self).failed_records + failed <= u64::MAX,
        ensures
            *final(self) == (BatchJob {
                processed_records: (old(self).processed_records + processed) as u64,
                failed_records: (old(self).failed_records + failed) as u64,
                ..*old(self)
            }),
    {
        self.processed_records = self.processed_records + processed;
        self.failed_records = self.failed_records + failed;
    }

    /// Set a checkpoint.
    pub fn set_checkpoint(&mut self, position: u64)
        ensures
            *final(self) == (BatchJob { checkpoint: Some(position), ..*old(self) }),
    {
        self.checkpoint = Some(position);
    }

    /// Mark the job as completed.
    pub fn complete(&mut self, timestamp_ms: u64)
        ensures
            *final(self) == (BatchJob {
                status: BatchStatus::Completed,
                finished_at_ms: Some(timestamp_ms),
                ..*old(self)
            }),
    {
        self.status = BatchStatus::Completed;
        self.finished_at_ms = Some(timestamp_ms);
    }

    /// Mark the job as failed, with an error message.
    pub fn fail(&mut self, error: &str, timestamp_ms: u64)
        ensures
            final(self).status == BatchStatus::Failed,
            final(self).error is Some && final(self).error->0@ == error@,
            final(self).finished_at_ms == Some(timestamp_ms),
            final(self).id == old(self).id,
            final(self).description == old(self).description,
            final(self).total_records == old(self).total_records,
            final(self).processed_records == old(self).processed_records,
            final(self).failed_records == old(self).failed_records,
            final(self).started_at_ms == old(self).started_at_ms,
            final(self).checkpoint == old(self).checkpoint,
    {
        self.status = BatchStatus::Failed;
        self.error = Some(error.to_owned());
        self.finished_at_ms = Some(timestamp_ms);
    }

    /// Cancel the job.
    pub fn cancel(&mut self, timestamp_ms: u64)
        ensures
            *final(self) == (BatchJob {
                status: BatchStatus::Cancelled,
                finished_at_ms: Some(timestamp_ms),
                ..*old(self)
            }),
    {
        self.status = BatchStatus::Cancelled;
        self.finished_at_ms = Some(timestamp_ms);
    }

    /// Processing duration in millis, if started.
    pub fn duration_ms(&self) -> (d: Option<u64>)
        ensures
            d == job_duration(*self),
    {
        let start = match self.started_at_ms {
            Some(s) => s,
            None => {
                return None;
            },
        };
        let end = match self.finished_at_ms {
            Some(e) => e,
            None => start,
        };
        Some(end.saturating_sub(start))
    }

    /// Whether the job is in a terminal state.
    pub fn is_terminal(&self) -> (b: bool)
        ensures
            b == status_terminal(self.status),
    {
        match self.status {
            BatchStatus::Completed | BatchStatus::Failed | BatchStatus::Cancelled => true,
            _ => false,
        }
    }
}

/// The predicate "the job has status `s`".
pub open spec fn job_status_is(s: BatchStatus) -> spec_fn(BatchJob) -> bool {
    |j: BatchJob| j.status == s
}

/// The predicate "the entry's job is not terminal".
pub open spec fn entry_live() -> spec_fn((Seq<char>, BatchJob)) -> bool {
    |e: (Seq<char>, BatchJob)| !status_terminal(e.1.status)
}

/// No key occurs twice.
pub open spec fn job_keys_distinct(keys: Seq<Seq<char>>) -> bool {
    forall|a: int, b: int| 0 <= a < keys.len() && 0 <= b < keys.len() && a != b ==> keys[a] != keys[b]
}

/// `r` holds references to exactly the elements of `s`, in order.
pub open spec fn job_refs(r: Seq<&BatchJob>, s: Seq<BatchJob>) -> bool {
    r.len() == s.len() && forall|i: int| 0 <= i < s.len() ==> *r[i] == s[i]
}

/// Batch scheduler: the submitted jobs under their ids, and a bound on running jobs.
pub struct BatchScheduler {
    keys: Vec<String>,
    jobs: Vec<BatchJob>,
    max_concurrent: usize,
}

impl BatchScheduler {
    /// The job ids, in submission order.
    pub closed spec fn spec_keys(&self) -> Seq<Seq<char>> {
        self.keys@.map_values(|s: String| s@)
    }

    /// The jobs, aligned with `spec_keys`.
    pub closed spec fn spec_jobs(&self) -> Seq<BatchJob> {
        self.jobs@
    }

    /// The maximum number of concurrently running jobs.
    pub closed spec fn spec_max(&self) -> usize {
        self.max_concurrent
    }

    /// Id and job pairs, in submission order.
    pub open spec fn spec_entries(&self) -> Seq<(Seq<char>, BatchJob)> {
        Seq::new(self.spec_jobs().len(), |i: int| (self.spec_keys()[i], self.spec_jobs()[i]))
    }

    /// The position of a job id (meaningful when the id is present).
    pub open spec fn index_of(&self, id: Seq<char>) -> int {
        choose|i: int| 0 <= i < self.spec_keys().len() && self.spec_keys()[i] == id
    }

    /// Well-formedness: ids are distinct and every id has one job.
    pub open spec fn wf(&self) -> bool {
        &&& job_keys_distinct(self.spec_keys())
        &&& self.spec_keys().len() == self.spec_jobs().len()
    }

    /// Create a new batch scheduler.
    pub fn new(max_concurrent: usize) -> (s: Self)
        ensures
            s.wf(),
            s.spec_jobs().len() == 0,
            s.spec_max() == max_concurrent,
    {
        let s = BatchScheduler { keys: Vec::new(), jobs: Vec::new(), max_concurrent };
        assert(s.spec_keys() =~= Seq::<Seq<char>>::empty());
        s
    }

    fn find(&self, id: &str) -> (r: Option<usize>)
        requires
            self.wf(),
        ensures
            match r {
                Some(i) => i < self.spec_jobs().len() && self.spec_keys().contains(id@)
                    && self.index_of(id@) == i && self.spec_keys()[i as int] == id@,
                None => !self.spec_keys().contains(id@),
            },
    {
        let ghost ks = self.spec_keys();
        let mut i: usize = 0;
        while i < self.keys.len()
            invariant
                ks == self.spec_keys(),
                ks.len() == self.spec_jobs().len(),
                job_keys_distinct(ks),
                i <= ks.len(),
                forall|j: int| 0 <= j < i ==> ks[j] != id@,
            decreases ks.len() - i,
        {
            if str_eq(self.keys[i].as_str(), id) {
                proof {
                    assert(ks[i as int] == id@);
                    assert(self.index_of(id@) == i);
                }
                return Some(i);
            }
            i = i + 1;
        }
        None
    }

    /// Submit a new batch job under its id; fails when the id is taken.
    pub fn submit(&mut self, job: BatchJob) -> (r: Result<(), String>)
        requires
            old(self).wf(),
        ensures
            final(self).wf(),
            final(self).spec_max() == old(self).spec_max(),
            old(self).spec_keys().contains(job.id@) ==> r is Err && r->Err_0@ == "Job '"@
                + job.id@ + "' already exists"@ && final(self).spec_entries() == old(
                self,
            ).spec_entries(),
            !old(self).spec_keys().contains(job.id@) ==> r is Ok && final(self).spec_entries()
                == old(self).spec_entries().push((job.id@, job)),
    {
        if let Some(_) = self.find(job.id.as_str()) {
            let mut msg = "Job '".to_owned();
            msg.append(job.id.as_str());
            msg.append("' already exists");
            return Err(msg);
        }
        let ghost k0 = self.spec_keys();
        let ghost e0 = self.spec_entries();
        let id = job.id.clone();
        self.keys.push(id);
        self.jobs.push(job);
        proof {
            let ks = self.spec_keys();
            assert(ks =~= k0.push(job.id@));
            assert forall|a: int, b: int|
                0 <= a < ks.len() && 0 <= b < ks.len() && a != b implies ks[a] != ks[b] by {
                if a == ks.len() - 1 {
                    assert(ks[b] == k0[b]);
                } else if b == ks.len() - 1 {
                    assert(ks[a] == k0[a]);
                }
            }
            assert(self.spec_entries() =~= e0.push((job.id@, job)));
        }
        Ok(())
    }

    /// A job by id.
    pub fn get(&self, id: &str) -> (r: Option<&BatchJob>)
        requires
            self.wf(),
        ensures
            self.spec_keys().contains(id@) ==> r is Some && *r->0 == self.spec_jobs()[self.index_of(
                id@,
            )],
            !self.spec_keys().contains(id@) ==> r is None,
    {
        match self.find(id) {
            Some(i) => Some(&self.jobs[i]),
            None => None,
        }
    }

    /// A mutable reference to a job; its id under the scheduler stays as submitted.
    pub fn get_mut(&mut self, id: &str) -> (r: Option<&mut BatchJob>)
        requires
            old(self).wf(),
        ensures
            final(self).spec_keys() == old(self).spec_keys(),
            final(self).spec_max() == old(self).spec_max(),
            old(self).spec_keys().contains(id@) ==> ({
                let p = old(self).index_of(id@);
                r is Some && *r->0 == old(self).spec_jobs()[p] && final(self).spec_jobs() == old(
                    self,
                ).spec_jobs().update(p, *final(r->0))
            }),
            !old(self).spec_keys().contains(id@) ==> r is None && final(self).spec_jobs() == old(
                self,
            ).spec_jobs(),
    {
        match self.find(id) {
            Some(i) => Some(&mut self.jobs[i]),
            None => None,
        }
    }

    /// Number of running jobs.
    pub fn running_count(&self) -> (n: usize)
        ensures
            n == self.spec_jobs().filter(job_status_is(BatchStatus::Running)).len(),
    {
        let ghost s = self.jobs@;
        let ghost f = job_status_is(BatchStatus::Running);
        let mut count: usize = 0;
        let mut i: usize = 0;
        proof {
            reveal(Seq::filter);
            assert(s.take(0) =~= Seq::<BatchJob>::empty());
        }
        while i < self.jobs.len()
            invariant
                s == self.jobs@,
                f == job_status_is(BatchStatus::Running),
                i <= s.len(),
                count == s.take(i as int).filter(f).len(),
                count <= i,
            decreases s.len() - i,
        {
            proof {
                assert(s.take(i + 1) =~= s.take(i as int).push(s[i as int]));
                s.take(i as int).lemma_filter_push(s[i as int], f);
            }
            if self.jobs[i].status == BatchStatus::Running {
                count = count + 1;
            }
            i = i + 1;
        }
        proof {
            assert(s.take(i as int) =~= s);
        }
        count
    }

    /// Whether capacity allows starting another job.
    pub fn can_start(&self) -> (b: bool)
        ensures
            b == (self.spec_jobs().filter(job_status_is(BatchStatus::Running)).len()
                < self.spec_max()),
    {
        self.running_count() < self.max_concurrent
    }

    fn jobs_with_status(&self, status: BatchStatus) -> (r: Vec<&BatchJob>)
        ensures
            job_refs(r@, self.spec_jobs().filter(job_status_is(status))),
    {
        let ghost s = self.jobs@;
        let ghost f = job_status_is(status);
        let mut out: Vec<&BatchJob> = Vec::new();
        let mut i: usize = 0;
        proof {
            reveal(Seq::filter);
            assert(s.take(0) =~= Seq::<BatchJob>::empty());
        }
        while i < self.jobs.len()
            invariant
                s == self.jobs@,
                i <= s.len(),
                f == job_status_is(status),
                job_refs(out@, s.take(i as int).filter(f)),
            decreases s.len() - i,
        {
            proof {
                assert(s.take(i + 1) =~= s.take(i as int).push(s[i as int]));
                s.take(i as int).lemma_filter_push(s[i as int], f);
            }
            if self.jobs[i].status == status {
                out.push(&self.jobs[i]);
            }
            i = i + 1;
        }
        proof {
            assert(s.take(i as int) =~= s);
        }
        out
    }

    /// All pending jobs, in submission order.
    pub fn pending_jobs(&self) -> (r: Vec<&BatchJob>)
        ensures
            job_refs(r@, self.spec_jobs().filter(job_status_is(BatchStatus::Pending))),
    {
        self.jobs_with_status(BatchStatus::Pending)
    }

    /// All completed jobs, in submission order.
    pub fn completed_jobs(&self) -> (r: Vec<&BatchJob>)
        ensures
            job_refs(r@, self.spec_jobs().filter(job_status_is(BatchStatus::Completed))),
    {
        self.jobs_with_status(BatchStatus::Completed)
    }

    /// Remove all terminal jobs; returns how many were removed.
    pub fn prune_terminal(&mut self) -> (n: usize)
        requires
            old(self).wf(),
        ensures
            final(self).wf(),
            final(self).spec_max() == old(self).spec_max(),
            final(self).spec_entries() == old(self).spec_entries().filter(entry_live()),
            n == old(self).spec_jobs().len() - final(self).spec_jobs().len(),
    {
        let ghost e = self.spec_entries();
        let ghost f = entry_live();
        let before = self.jobs.len();
        let mut old_keys: Vec<String> = Vec::new();
        std::mem::swap(&mut old_keys, &mut self.keys);
        let mut old_jobs: Vec<BatchJob> = Vec::new();
        std::mem::swap(&mut old_jobs, &mut self.jobs);
        let ghost ks = old_keys@;
        let mut new_keys: Vec<String> = Vec::new();
        let mut new_jobs: Vec<BatchJob> = Vec::new();
        proof {
            reveal(Seq::filter);
            assert(e.take(0) =~= Seq::<(Seq<char>, BatchJob)>::empty());
            assert(new_keys@.map_values(|s: String| s@) =~= Seq::<Seq<char>>::empty());
        }
        let mut idx: usize = 0;
        for job in it: old_jobs
            invariant
                idx == it.index(),
                ks.len() == old_keys.len(),
                it.seq().len() == e.len(),
                ks.len() == e.len(),
                ks == old_keys@,
                forall|j: int| 0 <= j < e.len() ==> #[trigger] e[j] == (ks[j]@, it.seq()[j]),
                f == entry_live(),
                new_keys@.len() == new_jobs@.len(),
                Seq::new(new_jobs@.len(), |j: int| (new_keys@[j]@, new_jobs@[j])) == e.take(
                    it.index() as int,
                ).filter(f),
                new_jobs@.len() <= it.index(),
        {
            let ghost i = it.index() as int;
            proof {
                assert(e.take(i + 1) =~= e.take(i).push(e[i]));
                e.take(i).lemma_filter_push(e[i], f);
            }
            let ghost nk = new_keys@;
            let ghost nj = new_jobs@;
            if !job.is_terminal() {
                let k = old_keys[idx].clone();
                new_keys.push(k);
                new_jobs.push(job);
                proof {
                    assert(Seq::new(new_jobs@.len(), |j: int| (new_keys@[j]@, new_jobs@[j]))
                        =~= Seq::new(nj.len(), |j: int| (nk[j]@, nj[j])).push(e[i]));
                }
            }
            idx = idx + 1;
        }
        proof {
            assert(e.take(e.len() as int) =~= e);
        }
        let after = new_jobs.len();
        self.keys = new_keys;
        self.jobs = new_jobs;
        proof {
            let fe = e.filter(f);
            assert(self.spec_entries() =~= fe);
            let k0 = e.map_values(|x: (Seq<char>, BatchJob)| x.0);
            assert(job_keys_distinct(k0)) by {
                assert forall|a: int, b: int|
                    0 <= a < k0.len() && 0 <= b < k0.len() && a != b implies k0[a] != k0[b] by {
                    assert(k0[a] == old(self).spec_keys()[a]);
                    assert(k0[b] == old(self).spec_keys()[b]);
                }
            }
            lemma_filter_keys_distinct(e, f);
            let k1 = self.spec_keys();
            assert(k1 =~= fe.map_values(|x: (Seq<char>, BatchJob)| x.0));
        }
        before - after
    }

    /// Total job count.
    pub fn job_count(&self) -> (n: usize)
        ensures
            n == self.spec_jobs().len(),
    {
        self.jobs.len()
    }
}

/// Filtering a list whose first components are distinct keeps them distinct.
proof fn lemma_filter_keys_distinct(
    e: Seq<(Seq<char>, BatchJob)>,
    f: spec_fn((Seq<char>, BatchJob)) -> bool,
)
    requires
        job_keys_distinct(e.map_values(|x: (Seq<char>, BatchJob)| x.0)),
    ensures
        job_keys_distinct(e.filter(f).map_values(|x: (Seq<char>, BatchJob)| x.0)),
        forall|a: int| 0 <= a < e.filter(f).len() ==> e.contains(#[trigger] e.filter(f)[a]),
    decreases e.len(),
{
    reveal(Seq::filter);
    if e.len() > 0 {
        let p = e.drop_last();
        assert(p.map_values(|x: (Seq<char>, BatchJob)| x.0) =~= e.map_values(
            |x: (Seq<char>, BatchJob)| x.0,
        ).drop_last());
        lemma_filter_keys_distinct(p, f);
        let fp = p.filter(f);
        let fe = e.filter(f);
        assert forall|a: int| 0 <= a < fp.len() implies e.contains(#[trigger] fp[a]) by {
            let q = choose|q: int| 0 <= q < p.len() && p[q] == fp[a];
            assert(e[q] == p[q]);
        }
        if f(e.last()) {
            assert(fe =~= fp.push(e.last()));
            let km = fe.map_values(|x: (Seq<char>, BatchJob)| x.0);
            assert forall|a: int, b: int|
                0 <= a < km.len() && 0 <= b < km.len() && a != b implies km[a] != km[b] by {
                if a == km.len() - 1 || b == km.len() - 1 {
                    let o = if a == km.len() - 1 { b } else { a };
                    let q = choose|q: int| 0 <= q < p.len() && p[q] == fp[o];
                    let ek = e.map_values(|x: (Seq<char>, BatchJob)| x.0);
                    assert(ek[q] == p[q].0);
                    assert(ek[e.len() - 1] == e.last().0);
                } else {
                    let pk = fp.map_values(|x: (Seq<char>, BatchJob)| x.0);
                    assert(km[a] == pk[a] && km[b] == pk[b]);
                }
            }
            assert forall|a: int| 0 <= a < fe.len() implies e.contains(#[trigger] fe[a]) by {
                if a == fe.len() - 1 {
                    assert(e[e.len() - 1] == e.last());
                } else {
                    assert(fe[a] == fp[a]);
                }
            }
        } else {
            assert(fe =~= fp);
        }
    }
}

/// After pruning no terminal job is left: every entry that survives the filter is live.
pub proof fn law_prune_leaves_no_terminal(e: Seq<(Seq<char>, BatchJob)>)
    ensures
        forall|i: int|
            0 <= i < e.filter(entry_live()).len() ==> !status_terminal(
                #[trigger] e.filter(entry_live())[i].1.status,
            ),
{
    assert forall|i: int| 0 <= i < e.filter(entry_live()).len() implies !status_terminal(
        #[trigger] e.filter(entry_live())[i].1.status,
    ) by {
        e.lemma_filter_pred(entry_live(), i);
    }
}

} // verus!
