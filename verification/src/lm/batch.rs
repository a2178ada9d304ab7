//! The life cycle of a batch job: its status, its request counts and the
//! times at which it changed state.
//!
//! A batch is created `validating`, moves to `in_progress` when its worker
//! starts, counts each request as completed or failed, and ends `cancelled`
//! (when a cancel was asked for), `failed` (when nothing succeeded and
//! something failed) or `completed`.

use vstd::prelude::*;
use crate::lm::models::BatchRequestCounts;

verus! {

/// Where a batch job stands.
#[derive(PartialEq, Eq, Structural, Clone, Copy)]
pub enum BatchStatus {
    Validating,
    InProgress,
    Cancelling,
    Cancelled,
    Failed,
    Completed,
}

/// The wire name of a status.
pub open spec fn status_text(s: BatchStatus) -> Seq<char> {
    match s {
        BatchStatus::Validating => "validating"@,
        BatchStatus::InProgress => "in_progress"@,
        BatchStatus::Cancelling => "cancelling"@,
        BatchStatus::Cancelled => "cancelled"@,
        BatchStatus::Failed => "failed"@,
        BatchStatus::Completed => "completed"@,
    }
}

/// A status from which the batch never moves again.
pub open spec fn is_terminal(s: BatchStatus) -> bool {
    s == BatchStatus::Cancelled || s == BatchStatus::Failed || s == BatchStatus::Completed
}

impl BatchStatus {
    /// The wire name (`"validating"`, `"in_progress"`, ...).
    pub fn as_str(&self) -> (r: &'static str)
        ensures
            r@ == status_text(*self),
    {
        match self {
            BatchStatus::Validating => "validating",
            BatchStatus::InProgress => "in_progress",
            BatchStatus::Cancelling => "cancelling",
            BatchStatus::Cancelled => "cancelled",
            BatchStatus::Failed => "failed",
            BatchStatus::Completed => "completed",
        }
    }
}

/// The state of a batch job that its worker and its handlers change.
pub struct BatchProgress {
    pub status: BatchStatus,
    pub request_counts: BatchRequestCounts,
    pub created_at: u64,
    pub in_progress_at: Option<u64>,
    pub completed_at: Option<u64>,
    pub failed_at: Option<u64>,
    pub cancelled_at: Option<u64>,
}

/// No more requests were counted than the batch holds.
pub open spec fn counts_wf(c: BatchRequestCounts) -> bool {
    c.completed + c.failed <= c.total
}

/// The progress after a cancel request: a batch that is validating or in
/// progress becomes `cancelling`; any other is left as it is.
pub open spec fn after_cancel(p: BatchProgress) -> BatchProgress {
    if p.status == BatchStatus::InProgress || p.status == BatchStatus::Validating {
        BatchProgress { status: BatchStatus::Cancelling, ..p }
    } else {
        p
    }
}

/// The progress after one request was counted, as completed or as failed.
pub open spec fn after_record(p: BatchProgress, ok: bool) -> BatchProgress {
    let c = p.request_counts;
    BatchProgress {
        request_counts: if ok {
            BatchRequestCounts { completed: (c.completed + 1) as usize, ..c }
        } else {
            BatchRequestCounts { failed: (c.failed + 1) as usize, ..c }
        },
        ..p
    }
}

/// The status a batch ends in once its worker is done.
pub open spec fn final_status(p: BatchProgress) -> BatchStatus {
    if p.status == BatchStatus::Cancelling {
        BatchStatus::Cancelled
    } else if p.request_counts.failed > 0 && p.request_counts.completed == 0 {
        BatchStatus::Failed
    } else {
        BatchStatus::Completed
    }
}

/// The progress once the worker is done at time `now`: the final status, and
/// `now` as the time of that status.
pub open spec fn after_finish(p: BatchProgress, now: u64) -> BatchProgress {
    let s = final_status(p);
    BatchProgress {
        status: s,
        cancelled_at: if s == BatchStatus::Cancelled { Some(now) } else { p.cancelled_at },
        failed_at: if s == BatchStatus::Failed { Some(now) } else { p.failed_at },
        completed_at: if s == BatchStatus::Completed { Some(now) } else { p.completed_at },
        ..p
    }
}

impl BatchProgress {
    /// A batch of `total` requests, created at `created_at` and validating.
    pub fn new(total: usize, created_at: u64) -> (r: Self)
        ensures
            r.status == BatchStatus::Validating,
            r.request_counts == (BatchRequestCounts { total, completed: 0, failed: 0 }),
            r.created_at == created_at,
            r.in_progress_at is None,
            r.completed_at is None,
            r.failed_at is None,
            r.cancelled_at is None,
            counts_wf(r.request_counts),
    {
        BatchProgress {
            status: BatchStatus::Validating,
            request_counts: BatchRequestCounts { total, completed: 0, failed: 0 },
            created_at,
            in_progress_at: None,
            completed_at: None,
            failed_at: None,
            cancelled_at: None,
        }
    }

    /// The worker starts at time `now`: the batch is in progress from then on.
    pub fn start(&mut self, now: u64)
        ensures
            *final(self) == (BatchProgress {
                status: BatchStatus::InProgress,
                in_progress_at: Some(now),
                ..*old(self)
            }),
    {
        self.status = BatchStatus::InProgress;
        self.in_progress_at = Some(now);
    }

    /// A cancel was asked for: the worker takes no further request.
    pub fn stop_requested(&self) -> (r: bool)
        ensures
            r == (self.status == BatchStatus::Cancelling || self.status == BatchStatus::Cancelled),
    {
        match self.status {
            BatchStatus::Cancelling | BatchStatus::Cancelled => true,
            _ => false,
        }
    }

    /// The number of requests not yet counted.
    pub fn pending(&self) -> (r: usize)
        requires
            counts_wf(self.request_counts),
        ensures
            r == self.request_counts.total - self.request_counts.completed
                - self.request_counts.failed,
    {
        self.request_counts.total - self.request_counts.completed - self.request_counts.failed
    }

    /// One more request was answered (`ok`) or failed.
    pub fn record(&mut self, ok: bool)
        requires
            counts_wf(old(self).request_counts),
            old(self).request_counts.completed + old(self).request_counts.failed
                < old(self).request_counts.total,
        ensures
            *final(self) == after_record(*old(self), ok),
            counts_wf(final(self).request_counts),
    {
        if ok {
            self.request_counts.completed = self.request_counts.completed + 1;
        } else {
            self.request_counts.failed = self.request_counts.failed + 1;
        }
    }

    /// A cancel request: a validating or running batch becomes `cancelling`.
    pub fn cancel(&mut self)
        ensures
            *final(self) == after_cancel(*old(self)),
    {
        match self.status {
            BatchStatus::InProgress | BatchStatus::Validating => {
                self.status = BatchStatus::Cancelling;
            },
            _ => {},
        }
    }

    /// The worker is done at time `now`: the batch takes its final status.
    pub fn finish(&mut self, now: u64)
        ensures
            *final(self) == after_finish(*old(self), now),
            is_terminal(final(self).status),
    {
        let failed = self.request_counts.failed;
        let completed = self.request_counts.completed;
        if self.status == BatchStatus::Cancelling {
            self.status = BatchStatus::Cancelled;
            self.cancelled_at = Some(now);
        } else if failed > 0 && completed == 0 {
            self.status = BatchStatus::Failed;
            self.failed_at = Some(now);
        } else {
            self.status = BatchStatus::Completed;
            self.completed_at = Some(now);
        }
    }
}

/// A batch's progress together with the answers and errors of its counted
/// requests, in the order they were counted.
pub struct BatchLog<R> {
    pub progress: BatchProgress,
    pub results: Vec<R>,
    pub errors: Vec<R>,
}

/// The counts tell how many answers and errors the log holds, and no more
/// requests were counted than the batch has.
pub open spec fn log_wf<R>(l: BatchLog<R>) -> bool {
    &&& counts_wf(l.progress.request_counts)
    &&& l.progress.request_counts.completed == l.results@.len()
    &&& l.progress.request_counts.failed == l.errors@.len()
}

impl<R> BatchLog<R> {
    /// A batch of `total` requests created at `created_at`: validating, with
    /// nothing counted yet.
    pub fn new(total: usize, created_at: u64) -> (r: Self)
        ensures
            r.progress.status == BatchStatus::Validating,
            r.progress.request_counts == (BatchRequestCounts { total, completed: 0, failed: 0 }),
            r.progress.created_at == created_at,
            r.progress.in_progress_at is None,
            r.progress.completed_at is None,
            r.progress.failed_at is None,
            r.progress.cancelled_at is None,
            r.results@.len() == 0,
            r.errors@.len() == 0,
            log_wf(r),
    {
        BatchLog { progress: BatchProgress::new(total, created_at), results: Vec::new(), errors: Vec::new() }
    }

    /// Counts one more request, answered (`ok`, with its answer `entry`) or
    /// failed (with its error `entry`); refused, with nothing changed, when
    /// every request of the batch was already counted.
    pub fn record(&mut self, ok: bool, entry: R) -> (r: bool)
        requires
            log_wf(*old(self)),
        ensures
            log_wf(*final(self)),
            r == (old(self).progress.request_counts.completed + old(self).progress.request_counts.failed
                < old(self).progress.request_counts.total),
            r ==> final(self).progress == after_record(old(self).progress, ok),
            r && ok ==> final(self).results@ == old(self).results@.push(entry) && final(self).errors@
                == old(self).errors@,
            r && !ok ==> final(self).errors@ == old(self).errors@.push(entry) && final(self).results@
                == old(self).results@,
            !r ==> final(self).progress == old(self).progress && final(self).results@ == old(self).results@ && final(self).errors@ == old(self).errors@,
    {
        if self.progress.pending() == 0 {
            return false;
        }
        self.progress.record(ok);
        if ok {
            self.results.push(entry);
        } else {
            self.errors.push(entry);
        }
        true
    }
}

/// The refusal for a batch id that is not stored.
pub fn batch_not_found_message(id: &str) -> (r: String)
    ensures
        r@ == "No batch found with id '"@ + id@ + "'"@,
{
    crate::text::concat3("No batch found with id '", id, "'")
}

/// The progress after each of `oks` was counted in turn.
pub open spec fn after_records(p: BatchProgress, oks: Seq<bool>) -> BatchProgress
    decreases oks.len(),
{
    if oks.len() == 0 {
        p
    } else {
        after_records(after_record(p, oks[0]), oks.drop_first())
    }
}

proof fn lemma_records_count(p: BatchProgress, oks: Seq<bool>)
    requires
        p.request_counts.completed + p.request_counts.failed + oks.len() == p.request_counts.total,
    ensures
        after_records(p, oks).request_counts.completed + after_records(p, oks).request_counts.failed
            == p.request_counts.total,
        after_records(p, oks).request_counts.total == p.request_counts.total,
        after_records(p, oks).status == p.status,
        after_records(p, oks).request_counts.completed >= p.request_counts.completed,
        after_records(p, oks).request_counts.failed >= p.request_counts.failed,
        (exists|i: int| 0 <= i < oks.len() && oks[i]) ==> after_records(p, oks).request_counts.completed
            > p.request_counts.completed,
        (exists|i: int| 0 <= i < oks.len() && !oks[i]) ==> after_records(p, oks).request_counts.failed
            > p.request_counts.failed,
        (forall|i: int| 0 <= i < oks.len() ==> !oks[i]) ==> after_records(p, oks).request_counts.completed
            == p.request_counts.completed,
    decreases oks.len(),
{
    if oks.len() > 0 {
        let q = after_record(p, oks[0]);
        lemma_records_count(q, oks.drop_first());
        if forall|i: int| 0 <= i < oks.len() ==> !oks[i] {
            assert(!oks[0]);
            assert forall|i: int| 0 <= i < oks.drop_first().len() implies !oks.drop_first()[i] by {
                assert(oks.drop_first()[i] == oks[i + 1]);
            }
        }
        if exists|i: int| 0 <= i < oks.len() && oks[i] {
            let i = choose|i: int| 0 <= i < oks.len() && oks[i];
            if i > 0 {
                assert(oks.drop_first()[i - 1] == oks[i]);
            }
        }
        if exists|i: int| 0 <= i < oks.len() && !oks[i] {
            let i = choose|i: int| 0 <= i < oks.len() && !oks[i];
            if i > 0 {
                assert(oks.drop_first()[i - 1] == oks[i]);
            }
        }
    }
}

/// A batch of `oks.len()` requests that counts each of its requests once and
/// is not cancelled ends with every request counted, as completed or failed:
/// it ends `failed` when every request failed (and there was one), and
/// `completed` otherwise.
pub proof fn lemma_all_counted(p: BatchProgress, oks: Seq<bool>, now: u64)
    requires
        p.request_counts.total == oks.len(),
        p.request_counts.completed == 0,
        p.request_counts.failed == 0,
        p.status != BatchStatus::Cancelling,
    ensures
        after_records(p, oks).request_counts.completed + after_records(p, oks).request_counts.failed
            == oks.len(),
        after_finish(after_records(p, oks), now).status == BatchStatus::Failed <==> (oks.len() > 0
            && forall|i: int| 0 <= i < oks.len() ==> !oks[i]),
        after_finish(after_records(p, oks), now).status == BatchStatus::Completed <==> !(oks.len() > 0
            && forall|i: int| 0 <= i < oks.len() ==> !oks[i]),
{
    lemma_records_count(p, oks);
    if oks.len() > 0 && !(forall|i: int| 0 <= i < oks.len() ==> !oks[i]) {
        let i = choose|i: int| !(0 <= i < oks.len() ==> !oks[i]);
        assert(0 <= i < oks.len() && oks[i]);
    }
    if oks.len() > 0 && (forall|i: int| 0 <= i < oks.len() ==> !oks[i]) {
        assert(0 <= 0 < oks.len() && !oks[0]);
    }
}

/// Counting a request never counts more requests than the batch holds, and
/// leaves the status as it is.
pub proof fn lemma_record_keeps_bounds(p: BatchProgress, ok: bool)
    requires
        counts_wf(p.request_counts),
        p.request_counts.completed + p.request_counts.failed < p.request_counts.total,
    ensures
        counts_wf(after_record(p, ok).request_counts),
        after_record(p, ok).status == p.status,
        after_record(p, ok).request_counts.total == p.request_counts.total,
{
}

/// A batch that was cancelled while validating or running stops taking
/// requests, and ends `cancelled` whatever its requests gave.
pub proof fn lemma_cancel_ends_cancelled(p: BatchProgress, ok: bool, now: u64)
    requires
        p.status == BatchStatus::InProgress || p.status == BatchStatus::Validating,
    ensures
        after_cancel(p).status == BatchStatus::Cancelling,
        after_finish(after_cancel(p), now).status == BatchStatus::Cancelled,
        after_finish(after_record(after_cancel(p), ok), now).status == BatchStatus::Cancelled,
        after_cancel(p).request_counts == p.request_counts,
{
}

/// A cancel request changes nothing once the batch has ended.
pub proof fn lemma_cancel_after_end(p: BatchProgress)
    requires
        is_terminal(p.status),
    ensures
        after_cancel(p) == p,
{
}

/// A batch that was not cancelled ends `failed` exactly when some request
/// failed and none succeeded, and `completed` otherwise (an empty batch
/// completes).
pub proof fn lemma_outcome(p: BatchProgress, now: u64)
    requires
        p.status != BatchStatus::Cancelling,
    ensures
        after_finish(p, now).status == BatchStatus::Failed <==> (p.request_counts.failed > 0
            && p.request_counts.completed == 0),
        after_finish(p, now).status == BatchStatus::Completed <==> !(p.request_counts.failed > 0
            && p.request_counts.completed == 0),
{
}

} // verus!
