//! Fine-tuning jobs: their defaults and the life cycle of a job (pending,
//! running, then completed or failed).

use vstd::prelude::*;
use crate::text::owned;

verus! {

/// The fine-tuning method when none is given.
pub fn default_fine_tune_type() -> (r: String)
    ensures
        r@ == "lora"@,
{
    owned("lora")
}

/// Where adapters are written when no path is given.
pub fn default_adapter_path() -> (r: String)
    ensures
        r@ == "./adapters"@,
{
    owned("./adapters")
}

/// The integer settings of a training run, each defaulted when not given:
/// iterations 100, batch size 4, layers 16, sequence length 2048, a report
/// every 10 steps, an evaluation every 200, a save every 100, gradient
/// accumulation over 1 step.
pub struct TrainingSettings {
    pub iters: usize,
    pub batch_size: usize,
    pub num_layers: i32,
    pub max_seq_length: usize,
    pub steps_per_report: usize,
    pub steps_per_eval: usize,
    pub save_every: usize,
    pub grad_accumulation_steps: usize,
}

/// `o`'s value, else `d`.
pub open spec fn or_default<T>(o: Option<T>, d: T) -> T {
    match o {
        Some(v) => v,
        None => d,
    }
}

impl TrainingSettings {
    /// The settings of a request, defaults filled in.
    pub fn resolve(
        iters: Option<usize>,
        batch_size: Option<usize>,
        num_layers: Option<i32>,
        max_seq_length: Option<usize>,
        steps_per_report: Option<usize>,
        steps_per_eval: Option<usize>,
        save_every: Option<usize>,
        grad_accumulation_steps: Option<usize>,
    ) -> (r: Self)
        ensures
            r.iters == or_default(iters, 100),
            r.batch_size == or_default(batch_size, 4),
            r.num_layers == or_default(num_layers, 16),
            r.max_seq_length == or_default(max_seq_length, 2048),
            r.steps_per_report == or_default(steps_per_report, 10),
            r.steps_per_eval == or_default(steps_per_eval, 200),
            r.save_every == or_default(save_every, 100),
            r.grad_accumulation_steps == or_default(grad_accumulation_steps, 1),
    {
        TrainingSettings {
            iters: match iters {
                Some(v) => v,
                None => 100,
            },
            batch_size: match batch_size {
                Some(v) => v,
                None => 4,
            },
            num_layers: match num_layers {
                Some(v) => v,
                None => 16,
            },
            max_seq_length: match max_seq_length {
                Some(v) => v,
                None => 2048,
            },
            steps_per_report: match steps_per_report {
                Some(v) => v,
                None => 10,
            },
            steps_per_eval: match steps_per_eval {
                Some(v) => v,
                None => 200,
            },
            save_every: match save_every {
                Some(v) => v,
                None => 100,
            },
            grad_accumulation_steps: match grad_accumulation_steps {
                Some(v) => v,
                None => 1,
            },
        }
    }
}

/// Where a training job stands.
#[derive(PartialEq, Eq, Structural, Clone, Copy)]
pub enum TrainingStatus {
    Pending,
    Running,
    Completed,
    Failed,
}

/// The wire name of a status.
pub open spec fn training_status_text(s: TrainingStatus) -> Seq<char> {
    match s {
        TrainingStatus::Pending => "pending"@,
        TrainingStatus::Running => "running"@,
        TrainingStatus::Completed => "completed"@,
        TrainingStatus::Failed => "failed"@,
    }
}

impl TrainingStatus {
    /// The wire name (`"pending"`, `"running"`, ...).
    pub fn as_str(&self) -> (r: &'static str)
        ensures
            r@ == training_status_text(*self),
    {
        match self {
            TrainingStatus::Pending => "pending",
            TrainingStatus::Running => "running",
            TrainingStatus::Completed => "completed",
            TrainingStatus::Failed => "failed",
        }
    }
}

/// The state of a training job: status, times (Unix seconds) and error.
pub struct TrainingLifecycle {
    pub status: TrainingStatus,
    pub created_at: u64,
    pub started_at: Option<u64>,
    pub completed_at: Option<u64>,
    pub error: Option<String>,
}

/// A job has a completion time exactly when it ended, and an error exactly
/// when it failed.
pub open spec fn lifecycle_wf(j: TrainingLifecycle) -> bool {
    &&& (j.completed_at is Some <==> (j.status == TrainingStatus::Completed || j.status
        == TrainingStatus::Failed))
    &&& (j.error is Some <==> j.status == TrainingStatus::Failed)
    &&& (j.status != TrainingStatus::Pending ==> j.started_at is Some)
}

impl TrainingLifecycle {
    /// A job queued at `created_at`.
    pub fn queued(created_at: u64) -> (r: Self)
        ensures
            r.status == TrainingStatus::Pending,
            r.created_at == created_at,
            r.started_at is None,
            r.completed_at is None,
            r.error is None,
            lifecycle_wf(r),
    {
        TrainingLifecycle {
            status: TrainingStatus::Pending,
            created_at,
            started_at: None,
            completed_at: None,
            error: None,
        }
    }

    /// The worker picked the job up at `now`.
    pub fn start(&mut self, now: u64)
        requires
            old(self).status == TrainingStatus::Pending,
            lifecycle_wf(*old(self)),
        ensures
            final(self).status == TrainingStatus::Running,
            final(self).started_at == Some(now),
            final(self).created_at == old(self).created_at,
            final(self).completed_at is None,
            final(self).error is None,
            lifecycle_wf(*final(self)),
    {
        self.status = TrainingStatus::Running;
        self.started_at = Some(now);
    }

    /// Training finished at `now`: completed, or failed with `error`.
    pub fn finish(&mut self, now: u64, error: Option<String>)
        requires
            old(self).status == TrainingStatus::Running,
            lifecycle_wf(*old(self)),
        ensures
            final(self).status == (if error is Some {
                TrainingStatus::Failed
            } else {
                TrainingStatus::Completed
            }),
            final(self).completed_at == Some(now),
            final(self).error == error,
            final(self).started_at == old(self).started_at,
            final(self).created_at == old(self).created_at,
            lifecycle_wf(*final(self)),
    {
        self.status = if error.is_some() {
            TrainingStatus::Failed
        } else {
            TrainingStatus::Completed
        };
        self.completed_at = Some(now);
        self.error = error;
    }
}

// ── Event log ───────────────────────────────────────────────────────────────

/// The kinds of event a training job reports.
#[derive(PartialEq, Eq, Structural, Clone, Copy)]
pub enum TrainingEventKind {
    Progress,
    Done,
    Error,
}

/// The wire name of an event kind.
pub open spec fn event_kind_text(k: TrainingEventKind) -> Seq<char> {
    match k {
        TrainingEventKind::Progress => "progress"@,
        TrainingEventKind::Done => "done"@,
        TrainingEventKind::Error => "error"@,
    }
}

impl TrainingEventKind {
    /// The wire name (`"progress"`, `"done"` or `"error"`).
    pub fn as_str(&self) -> (r: &'static str)
        ensures
            r@ == event_kind_text(*self),
    {
        match self {
            TrainingEventKind::Progress => "progress",
            TrainingEventKind::Done => "done",
            TrainingEventKind::Error => "error",
        }
    }
}

/// One event of a training job: its kind, the adapter written (for `done`)
/// and a message.
pub struct TrainingEvent {
    pub kind: TrainingEventKind,
    pub adapter_path: Option<String>,
    pub message: String,
}

/// The message of a job that finished without error.
pub open spec fn done_message() -> Seq<char> {
    "Training complete"@
}

/// A training job: its life cycle and the events it reported, in order.
pub struct TrainingRun {
    pub lifecycle: TrainingLifecycle,
    pub events: Vec<TrainingEvent>,
}

/// The events before the last are all progress reports.
pub open spec fn progress_only(evs: Seq<TrainingEvent>) -> bool {
    forall|i: int| 0 <= i < evs.len() ==> (#[trigger] evs[i]).kind == TrainingEventKind::Progress
}

/// The log tells the job's story: nothing before it starts, progress while it
/// runs, and at the end one last event, `done` with the adapter path when it
/// completed, `error` with the error's text when it failed.
pub open spec fn run_wf(r: TrainingRun) -> bool {
    let evs = r.events@;
    let st = r.lifecycle.status;
    &&& lifecycle_wf(r.lifecycle)
    &&& (st == TrainingStatus::Pending ==> evs.len() == 0)
    &&& (st == TrainingStatus::Running ==> progress_only(evs))
    &&& (st == TrainingStatus::Completed ==> evs.len() > 0 && progress_only(evs.drop_last())
        && evs.last().kind == TrainingEventKind::Done && evs.last().adapter_path is Some)
    &&& (st == TrainingStatus::Failed ==> evs.len() > 0 && progress_only(evs.drop_last())
        && evs.last().kind == TrainingEventKind::Error && evs.last().adapter_path is None
        && (r.lifecycle.error matches Some(e) && evs.last().message@ == e@))
}

impl TrainingRun {
    /// A job queued at `created_at`, with no events.
    pub fn queued(created_at: u64) -> (r: Self)
        ensures
            r.lifecycle.status == TrainingStatus::Pending,
            r.lifecycle.created_at == created_at,
            r.lifecycle.started_at is None,
            r.lifecycle.completed_at is None,
            r.lifecycle.error is None,
            r.events@.len() == 0,
            run_wf(r),
    {
        TrainingRun { lifecycle: TrainingLifecycle::queued(created_at), events: Vec::new() }
    }

    /// The worker picks the job up at `now`: a pending job starts running; a
    /// job that already left `pending` is left as it is.
    pub fn start(&mut self, now: u64)
        requires
            run_wf(*old(self)),
        ensures
            run_wf(*final(self)),
            final(self).events@ == old(self).events@,
            old(self).lifecycle.status == TrainingStatus::Pending ==> {
                &&& final(self).lifecycle.status == TrainingStatus::Running
                &&& final(self).lifecycle.started_at == Some(now)
                &&& final(self).lifecycle.created_at == old(self).lifecycle.created_at
            },
            old(self).lifecycle.status != TrainingStatus::Pending ==> final(self).lifecycle
                == old(self).lifecycle,
    {
        if self.lifecycle.status == TrainingStatus::Pending {
            self.lifecycle.start(now);
        }
    }

    /// A progress report of a running job, added to its log.
    pub fn progress(&mut self, message: String)
        requires
            run_wf(*old(self)),
            old(self).lifecycle.status == TrainingStatus::Running,
        ensures
            run_wf(*final(self)),
            final(self).lifecycle == old(self).lifecycle,
            final(self).events@.len() == old(self).events@.len() + 1,
            final(self).events@.drop_last() == old(self).events@,
            final(self).events@.last().kind == TrainingEventKind::Progress,
            final(self).events@.last().adapter_path is None,
            final(self).events@.last().message@ == message@,
    {
        self.events.push(TrainingEvent { kind: TrainingEventKind::Progress, adapter_path: None, message });
        proof {
            assert(self.events@.drop_last() =~= old(self).events@);
        }
    }

    /// The training run ended at `now`, writing `adapter_path`, or with
    /// `error`: the job completes with a `done` event naming the adapter, or
    /// fails with an `error` event carrying the error's text, which the job
    /// keeps as its error.
    pub fn conclude(&mut self, now: u64, adapter_path: String, error: Option<String>)
        requires
            run_wf(*old(self)),
            old(self).lifecycle.status == TrainingStatus::Running,
        ensures
            run_wf(*final(self)),
            final(self).lifecycle.status == (if error is Some {
                TrainingStatus::Failed
            } else {
                TrainingStatus::Completed
            }),
            final(self).lifecycle.completed_at == Some(now),
            final(self).lifecycle.error == error,
            final(self).lifecycle.started_at == old(self).lifecycle.started_at,
            final(self).lifecycle.created_at == old(self).lifecycle.created_at,
            final(self).events@.len() == old(self).events@.len() + 1,
            final(self).events@.drop_last() == old(self).events@,
            match error {
                Some(e) => {
                    &&& final(self).events@.last().kind == TrainingEventKind::Error
                    &&& final(self).events@.last().adapter_path is None
                    &&& final(self).events@.last().message@ == e@
                },
                None => {
                    &&& final(self).events@.last().kind == TrainingEventKind::Done
                    &&& (final(self).events@.last().adapter_path matches Some(p) && p@ == adapter_path@)
                    &&& final(self).events@.last().message@ == done_message()
                },
            },
    {
        let ev = match &error {
            Some(e) => TrainingEvent { kind: TrainingEventKind::Error, adapter_path: None, message: owned(e.as_str()) },
            None => TrainingEvent {
                kind: TrainingEventKind::Done,
                adapter_path: Some(adapter_path),
                message: owned("Training complete"),
            },
        };
        self.events.push(ev);
        self.lifecycle.finish(now, error);
        proof {
            assert(self.events@.drop_last() =~= old(self).events@);
        }
    }
}

} // verus!
