//! The archive round: which queued uploads it attempts, in what order, when
//! it stops, and how each outcome is counted and recorded.
use vstd::prelude::*;
use crate::text::str_eq;
use crate::upload::PendingUpload;

verus! {

/// Result of one archive round; failed tasks keep their error and wait for
/// their retry delay.
#[derive(Debug, Clone, Copy, PartialEq, Eq, Structural)]
pub struct ArchiveReport {
    pub uploaded: usize,
    pub verified: usize,
    pub failed: usize,
    /// Files the round actually attempted.
    pub processed: usize,
}

impl Default for ArchiveReport {
    fn default() -> (r: ArchiveReport)
        ensures
            r == (ArchiveReport { uploaded: 0, verified: 0, failed: 0, processed: 0 }),
    {
        ArchiveReport { uploaded: 0, verified: 0, failed: 0, processed: 0 }
    }
}

/// Progress callbacks of an archive round, for a user interface or a run log.
pub trait ArchiveProgressSink {
    /// A stage started or changed status.
    fn on_stage(&mut self, stage: &str, status: &str, message: Option<&str>) {
    }

    /// File progress: `done` handled out of `total` in the current batch.
    fn on_progress(&mut self, stage: &str, done: usize, total: usize, current: Option<&str>) {
    }

    /// A notable item (failed or missing).
    fn on_item(
        &mut self,
        stage: &str,
        task_id: Option<&str>,
        record_id: Option<&str>,
        name: &str,
        status: &str,
        error: Option<&str>,
        size: Option<u64>,
    ) {
    }
}

/// A sink that ignores every callback.
pub struct NoopProgressSink;

impl ArchiveProgressSink for NoopProgressSink {
}

/// What happened to one attempted task.
#[derive(Debug, Clone, Copy, PartialEq, Eq, Structural)]
pub enum ArchiveOutcome {
    /// Its local source is gone or does not match its hash.
    Missing,
    /// The object was uploaded and verified.
    Published,
    /// The object was already present remotely and verified.
    AlreadyPresent,
    /// Upload or verification failed; the task will be retried.
    Failed,
}

/// The upload task status an outcome leaves behind.
pub open spec fn outcome_status(o: ArchiveOutcome) -> Seq<char> {
    match o {
        ArchiveOutcome::Missing => crate::upload::missing(),
        ArchiveOutcome::Published => crate::upload::backed_up(),
        ArchiveOutcome::AlreadyPresent => crate::upload::backed_up(),
        ArchiveOutcome::Failed => crate::upload::retryable_failed(),
    }
}

/// The status text an outcome leaves on its upload task.
pub fn outcome_status_text(o: ArchiveOutcome) -> (r: &'static str)
    ensures
        r@ == outcome_status(o),
{
    proof {
        reveal_strlit("missing");
        reveal_strlit("backed_up");
        reveal_strlit("retryable_failed");
    }
    match o {
        ArchiveOutcome::Missing => "missing",
        ArchiveOutcome::Published => "backed_up",
        ArchiveOutcome::AlreadyPresent => "backed_up",
        ArchiveOutcome::Failed => "retryable_failed",
    }
}

/// Whether an outcome is written to the run's item log, and as what.
pub fn outcome_item_status(o: ArchiveOutcome) -> (r: Option<&'static str>)
    ensures
        r is Some <==> (o == ArchiveOutcome::Missing || o == ArchiveOutcome::Failed),
        o == ArchiveOutcome::Missing ==> r->0@ == crate::upload::missing(),
        o == ArchiveOutcome::Failed ==> r->0@ == "failed"@,
{
    proof { reveal_strlit("missing"); }
    match o {
        ArchiveOutcome::Missing => Some("missing"),
        ArchiveOutcome::Failed => Some("failed"),
        _ => None,
    }
}

/// One archive round in progress: its limit (0 for none), the tasks it has
/// attempted, and its running report.
pub struct ArchiveRun {
    pub limit: usize,
    pub attempted: Vec<String>,
    pub report: ArchiveReport,
}

/// The texts of a list of strings.
pub open spec fn id_texts(v: Seq<String>) -> Seq<Seq<char>> {
    v.map_values(|s: String| s@)
}

impl ArchiveRun {
    /// The report adds up: every handled task was either verified or failed,
    /// only verified tasks count as uploaded, and a limit is never exceeded.
    pub open spec fn wf(&self) -> bool {
        &&& self.report.verified + self.report.failed == self.report.processed
        &&& self.report.uploaded <= self.report.verified
        &&& (self.limit != 0 ==> self.report.processed <= self.limit)
    }

    /// A round with the given limit that has done nothing yet.
    pub fn new(limit: usize) -> (r: ArchiveRun)
        ensures
            r.wf(),
            r.limit == limit,
            r.attempted@.len() == 0,
            r.report == (ArchiveReport { uploaded: 0, verified: 0, failed: 0, processed: 0 }),
    {
        ArchiveRun {
            limit,
            attempted: Vec::new(),
            report: ArchiveReport { uploaded: 0, verified: 0, failed: 0, processed: 0 },
        }
    }

    /// Whether task `id` was attempted in this round already.
    pub fn was_attempted(&self, id: &str) -> (r: bool)
        ensures
            r == id_texts(self.attempted@).contains(id@),
    {
        let n = self.attempted.len();
        let mut i: usize = 0;
        while i < n
            invariant
                n == self.attempted@.len(),
                i <= n,
                forall|j: int| 0 <= j < i ==> self.attempted@[j]@ != id@,
            decreases n - i,
        {
            if str_eq(self.attempted[i].as_str(), id) {
                proof {
                    assert(id_texts(self.attempted@)[i as int] == id@);
                }
                return true;
            }
            i = i + 1;
        }
        proof {
            if id_texts(self.attempted@).contains(id@) {
                let j = choose|j: int| 0 <= j < n && id_texts(self.attempted@)[j] == id@;
                assert(self.attempted@[j]@ == id@);
            }
        }
        false
    }

    /// The tasks of a fresh batch that this round has not attempted yet, in
    /// order: a task that failed earlier in the round is not retried in it.
    pub fn fresh_tasks(&self, tasks: Vec<PendingUpload>) -> (r: Vec<PendingUpload>)
        ensures
            r@ == tasks@.filter(|t: PendingUpload| !id_texts(self.attempted@).contains(t.task_id@)),
    {
        let ghost keep = |t: PendingUpload| !id_texts(self.attempted@).contains(t.task_id@);
        let ghost all = tasks@;
        let mut out: Vec<PendingUpload> = Vec::new();
        let mut rest = tasks;
        let mut done: usize = 0;
        let ghost n = all.len();
        assert(rest.len() == n);
        proof {
            reveal(Seq::filter);
            assert(all.subrange(0, 0) =~= Seq::<PendingUpload>::empty());
            assert(rest@ =~= all.subrange(0, n as int));
        }
        while rest.len() > 0
            invariant
                n == all.len(),
                n <= usize::MAX,
                done + rest@.len() == n,
                rest@ =~= all.subrange(done as int, n as int),
                keep == (|t: PendingUpload| !id_texts(self.attempted@).contains(t.task_id@)),
                out@ == all.subrange(0, done as int).filter(keep),
            decreases rest@.len(),
        {
            let ghost old_rest = rest@;
            let t = rest.remove(0);
            proof {
                reveal(Seq::filter);
                assert(old_rest[0] == all[done as int]);
                assert(all.subrange(0, done + 1).drop_last() =~= all.subrange(0, done as int));
                assert(all.subrange(0, done + 1).last() == all[done as int]);
                assert(rest@ =~= all.subrange(done + 1, n as int));
            }
            if !self.was_attempted(t.task_id.as_str()) {
                out.push(t);
            }
            done = done + 1;
        }
        proof {
            assert(all.subrange(0, n as int) =~= all);
        }
        out
    }

    /// Whether the round must stop before its next task: a non-zero limit is
    /// reached.
    pub fn limit_reached(&self) -> (r: bool)
        ensures
            r == (self.limit != 0 && self.report.processed >= self.limit),
    {
        self.limit != 0 && self.report.processed >= self.limit
    }

    /// Marks task `id` as attempted in this round.
    pub fn mark_attempted(&mut self, id: &str)
        ensures
            id_texts(final(self).attempted@) == id_texts(old(self).attempted@).push(id@),
            final(self).report == old(self).report,
            final(self).limit == old(self).limit,
    {
        let ghost before = self.attempted@;
        self.attempted.push(String::from_str(id));
        proof {
            assert(id_texts(self.attempted@) =~= id_texts(before).push(id@));
        }
    }

    /// Progress to show when the next task starts: its position and the
    /// batch size, never below that position.
    pub fn next_progress(&self, batch_total: usize) -> (r: (usize, usize))
        requires
            self.report.processed < usize::MAX,
        ensures
            r.0 == self.report.processed + 1,
            r.1 == if batch_total < r.0 { r.0 as int } else { batch_total as int },
    {
        let done = self.report.processed + 1;
        (done, if batch_total < done { done } else { batch_total })
    }

    /// Counts the outcome of one handled task.
    pub fn record(&mut self, outcome: ArchiveOutcome)
        requires
            old(self).wf(),
            !(old(self).limit != 0 && old(self).report.processed >= old(self).limit),
            old(self).report.processed < usize::MAX,
        ensures
            final(self).wf(),
            final(self).limit == old(self).limit,
            final(self).attempted@ == old(self).attempted@,
            final(self).report.processed == old(self).report.processed + 1,
            final(self).report.uploaded == old(self).report.uploaded
                + if outcome == ArchiveOutcome::Published { 1int } else { 0 },
            final(self).report.verified == old(self).report.verified
                + if outcome == ArchiveOutcome::Published || outcome == ArchiveOutcome::AlreadyPresent { 1int } else { 0 },
            final(self).report.failed == old(self).report.failed
                + if outcome == ArchiveOutcome::Missing || outcome == ArchiveOutcome::Failed { 1int } else { 0 },
    {
        self.report.processed = self.report.processed + 1;
        match outcome {
            ArchiveOutcome::Published => {
                self.report.uploaded = self.report.uploaded + 1;
                self.report.verified = self.report.verified + 1;
            }
            ArchiveOutcome::AlreadyPresent => {
                self.report.verified = self.report.verified + 1;
            }
            ArchiveOutcome::Missing => {
                self.report.failed = self.report.failed + 1;
            }
            ArchiveOutcome::Failed => {
                self.report.failed = self.report.failed + 1;
            }
        }
    }
}

/// The closing line of an archive stage: uploaded, verified and failed counts.
pub fn archive_summary(report: &ArchiveReport) -> (r: String)
    ensures
        r@ == "上传 "@ + crate::text::decimal(report.uploaded as nat) + " · 校验 "@
            + crate::text::decimal(report.verified as nat) + " · 失败 "@
            + crate::text::decimal(report.failed as nat),
{
    let mut s = String::from_str("上传 ");
    crate::text::push_decimal(&mut s, report.uploaded as u64);
    s.append(" · 校验 ");
    crate::text::push_decimal(&mut s, report.verified as u64);
    s.append(" · 失败 ");
    crate::text::push_decimal(&mut s, report.failed as u64);
    s
}

} // verus!
