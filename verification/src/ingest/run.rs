//! Run ingestion: fire-claim -> [`Run`], and the run lifecycle state machine.
//!
//! ```text
//! Pending --start--> Running --ok--> Succeeded
//!                       |
//!                       +--err--> Failed
//! Pending --skip--> Skipped(reason)
//! ```

use vstd::prelude::*;
use crate::error::IngestError;
use crate::model::{Run, RunStatus, SkipReason};
use crate::source::{SourceEvent, first_tag_value_spec, first_typed_value_spec};
use crate::text::{chars_of, parse_i64, parse_i64_spec, push_str, str_eq};
use crate::trusted::{debug_str, str_debug};

verus! {

/// The kind emitted by the workflow engine's durable fire-claim store.
pub const KIND_WORKFLOW_FIRE: u32 = 46001;

/// A normalized signal extracted from an observed event.
#[derive(Debug, Clone, PartialEq, Eq)]
pub enum RunSignal {
    /// Agent started executing (sets `started_at`).
    Started { at: i64 },
    /// Agent finished successfully.
    Succeeded { at: i64 },
    /// Agent failed; the error text is kept.
    Failed { at: i64, error: String },
    /// Run skipped because an input wasn't ready.
    Skipped { at: i64, reason: SkipReason },
}

/// The `Debug` rendering of a run status (`format!("{:?}", status)`).
pub open spec fn status_debug(st: RunStatus) -> Seq<char> {
    match st {
        RunStatus::Pending => "Pending"@,
        RunStatus::Running => "Running"@,
        RunStatus::Succeeded => "Succeeded"@,
        RunStatus::Failed => "Failed"@,
        RunStatus::Skipped(SkipReason::MissingInput(s)) => "Skipped(MissingInput("@ + str_debug(s@)
            + "))"@,
        RunStatus::Skipped(SkipReason::VersionMismatch(s)) => "Skipped(VersionMismatch("@
            + str_debug(s@) + "))"@,
    }
}

/// The state a signal moves a run to, named as in the error message.
pub open spec fn signal_target(sig: RunSignal) -> Seq<char> {
    match sig {
        RunSignal::Started { .. } => "Running"@,
        RunSignal::Succeeded { .. } => "Succeeded"@,
        RunSignal::Failed { .. } => "Failed"@,
        RunSignal::Skipped { .. } => "Skipped"@,
    }
}

/// Not yet finished: `Pending` or `Running`.
pub open spec fn is_open(st: RunStatus) -> bool {
    st is Pending || st is Running
}

/// The run a signal produces, or `None` when the state machine forbids it.
pub open spec fn transition_spec(run: Run, sig: RunSignal) -> Option<Run> {
    match sig {
        RunSignal::Started { at } => if is_open(run.status) {
            Some(Run { status: RunStatus::Running, started_at: Some(at), ..run })
        } else {
            None
        },
        RunSignal::Succeeded { at } => if is_open(run.status) {
            Some(
                Run {
                    status: RunStatus::Succeeded,
                    started_at: if run.started_at is None { Some(at) } else { run.started_at },
                    finished_at: Some(at),
                    ..run
                },
            )
        } else {
            None
        },
        RunSignal::Failed { at, error } => if is_open(run.status) {
            Some(
                Run {
                    status: RunStatus::Failed,
                    started_at: if run.started_at is None { Some(at) } else { run.started_at },
                    finished_at: Some(at),
                    error: Some(error),
                    ..run
                },
            )
        } else {
            None
        },
        RunSignal::Skipped { at, reason } => if run.status is Pending {
            Some(Run { status: RunStatus::Skipped(reason), finished_at: Some(at), ..run })
        } else {
            None
        },
    }
}

pub fn status_text(st: &RunStatus) -> (r: String)
    ensures
        r@ == status_debug(*st),
{
    match st {
        RunStatus::Pending => "Pending".to_owned(),
        RunStatus::Running => "Running".to_owned(),
        RunStatus::Succeeded => "Succeeded".to_owned(),
        RunStatus::Failed => "Failed".to_owned(),
        RunStatus::Skipped(SkipReason::MissingInput(s)) => {
            let mut r = "Skipped(MissingInput(".to_owned();
            push_str(&mut r, debug_str(s.as_str()).as_str());
            push_str(&mut r, "))");
            r
        },
        RunStatus::Skipped(SkipReason::VersionMismatch(s)) => {
            let mut r = "Skipped(VersionMismatch(".to_owned();
            push_str(&mut r, debug_str(s.as_str()).as_str());
            push_str(&mut r, "))");
            r
        },
    }
}

/// Build a fresh `Pending` run from a workflow fire-claim event with tags
/// `["d", run_id]`, `["schedule", schedule_id]`, `["scheduled_for", secs]`.
///
/// Errors: `UnexpectedKind` for another kind; `MissingTag` for an absent
/// tag; `InvalidTag` for a `scheduled_for` that is not a whole number.
pub fn run_from_fire_claim(event: &SourceEvent) -> (r: Result<Run, IngestError>)
    ensures
        event.kind != KIND_WORKFLOW_FIRE ==> (r matches Err(IngestError::UnexpectedKind { kind })
            && kind == event.kind),
        event.kind == KIND_WORKFLOW_FIRE ==> {
            let tags = event.tag_seqs();
            let d = first_tag_value_spec(tags, "d"@);
            let sched = first_tag_value_spec(tags, "schedule"@);
            let when = first_tag_value_spec(tags, "scheduled_for"@);
            let when_v = match when { Some(w) => parse_i64_spec(w), None => None };
            if d is None {
                (r matches Err(IngestError::MissingTag { tag }) && tag@ == "d"@)
            } else if sched is None {
                (r matches Err(IngestError::MissingTag { tag }) && tag@ == "schedule"@)
            } else if when is None {
                (r matches Err(IngestError::MissingTag { tag }) && tag@ == "scheduled_for"@)
            } else if when_v is None {
                (r matches Err(IngestError::InvalidTag { tag, reason }) && tag@ == "scheduled_for"@
                    && reason@ == "not a whole number of seconds"@)
            } else {
                (r matches Ok(run) && run.run_id@ == d->0 && run.schedule_id@ == sched->0
                    && run.scheduled_for == when_v->0 && run.started_at is None
                    && run.finished_at is None && run.status is Pending && run.error is None)
            }
        },
{
    if event.kind != KIND_WORKFLOW_FIRE {
        return Err(IngestError::UnexpectedKind { kind: event.kind });
    }
    let run_id = match event.first_tag_value("d") {
        Some(v) => v.to_owned(),
        None => return Err(IngestError::MissingTag { tag: "d" }),
    };
    let schedule_id = match event.first_tag_value("schedule") {
        Some(v) => v.to_owned(),
        None => return Err(IngestError::MissingTag { tag: "schedule" }),
    };
    let scheduled_for = match event.first_tag_value("scheduled_for") {
        Some(v) => match parse_i64(chars_of(v).as_slice()) {
            Some(n) => n,
            None => {
                return Err(
                    IngestError::InvalidTag {
                        tag: "scheduled_for",
                        reason: "not a whole number of seconds".to_owned(),
                    },
                )
            },
        },
        None => return Err(IngestError::MissingTag { tag: "scheduled_for" }),
    };
    Ok(
        Run {
            run_id,
            schedule_id,
            scheduled_for,
            started_at: None,
            finished_at: None,
            status: RunStatus::Pending,
            error: None,
        },
    )
}

/// Apply a [`RunSignal`] to a [`Run`], advancing its lifecycle. A transition
/// the state machine forbids is refused with `IllegalTransition` and leaves
/// the run unchanged.
pub fn transition(run: &mut Run, signal: RunSignal) -> (r: Result<(), IngestError>)
    ensures
        transition_spec(*old(run), signal) matches Some(next) ==> r is Ok && *final(run) == next,
        transition_spec(*old(run), signal) is None ==> {
            &&& *final(run) == *old(run)
            &&& r matches Err(IngestError::IllegalTransition { from, to })
            &&& from@ == status_debug(old(run).status)
            &&& to@ == signal_target(signal)
        },
{
    let from = status_text(&run.status);
    match signal {
        RunSignal::Started { at } => match run.status {
            RunStatus::Pending | RunStatus::Running => {
                run.status = RunStatus::Running;
                run.started_at = Some(at);
                Ok(())
            },
            _ => Err(IngestError::IllegalTransition { from, to: "Running".to_owned() }),
        },
        RunSignal::Succeeded { at } => match run.status {
            RunStatus::Pending | RunStatus::Running => {
                run.status = RunStatus::Succeeded;
                if run.started_at.is_none() {
                    run.started_at = Some(at);
                }
                run.finished_at = Some(at);
                Ok(())
            },
            _ => Err(IngestError::IllegalTransition { from, to: "Succeeded".to_owned() }),
        },
        RunSignal::Failed { at, error } => match run.status {
            RunStatus::Pending | RunStatus::Running => {
                run.status = RunStatus::Failed;
                if run.started_at.is_none() {
                    run.started_at = Some(at);
                }
                run.finished_at = Some(at);
                run.error = Some(error);
                Ok(())
            },
            _ => Err(IngestError::IllegalTransition { from, to: "Failed".to_owned() }),
        },
        RunSignal::Skipped { at, reason } => match run.status {
            RunStatus::Pending => {
                run.status = RunStatus::Skipped(reason);
                run.finished_at = Some(at);
                Ok(())
            },
            _ => Err(IngestError::IllegalTransition { from, to: "Skipped".to_owned() }),
        },
    }
}

/// The time a signal event carries: its typed `at` value when that parses
/// as an integer, `default_at` otherwise.
pub open spec fn signal_time(tags: Seq<Seq<Seq<char>>>, default_at: i64) -> i64 {
    match first_typed_value_spec(tags, "at"@) {
        Some(v) => match parse_i64_spec(v) {
            Some(n) => n,
            None => default_at,
        },
        None => default_at,
    }
}

/// The signal an event with these tags carries (see [`signal_from_event`]).
pub open spec fn signal_spec(r: Option<RunSignal>, tags: Seq<Seq<Seq<char>>>, default_at: i64) -> bool {
    let at = signal_time(tags, default_at);
    match first_typed_value_spec(tags, "status"@) {
        None => r is None,
        Some(st) => if st == "running"@ || st == "started"@ {
            r == Some(RunSignal::Started { at })
        } else if st == "succeeded"@ || st == "ok"@ || st == "success"@ {
            r == Some(RunSignal::Succeeded { at })
        } else if st == "failed"@ || st == "error"@ {
            &&& r matches Some(RunSignal::Failed { at: a, error })
            &&& a == at
            &&& error@ == (match first_typed_value_spec(tags, "error"@) {
                Some(e) => e,
                None => "agent error"@,
            })
        } else if st == "skipped"@ {
            &&& r matches Some(RunSignal::Skipped { at: a, reason })
            &&& a == at
            &&& match first_typed_value_spec(tags, "version_mismatch"@) {
                Some(v) => (reason matches SkipReason::VersionMismatch(x) && x@ == v),
                None => (reason matches SkipReason::MissingInput(x) && x@ == (match first_typed_value_spec(
                    tags,
                    "missing_input"@,
                ) {
                    Some(m) => m,
                    None => Seq::<char>::empty(),
                })),
            }
        } else {
            r is None
        },
    }
}

/// Best-effort extraction of a [`RunSignal`] from an agent output /
/// completion event, from its typed `status`, `at`, `error`,
/// `missing_input` and `version_mismatch` values.
///
/// Recognized statuses: `running`/`started`, `succeeded`/`ok`/`success`,
/// `failed`/`error`, `skipped`.
pub fn signal_from_event(event: &SourceEvent, default_at: i64) -> (r: Option<RunSignal>)
    ensures
        signal_spec(r, event.tag_seqs(), default_at),
{
    let status = match event.first_typed_value("status") {
        Some(s) => s,
        None => return None,
    };
    let at = signal_time_of(event, default_at);
    if str_eq(status, "running") || str_eq(status, "started") {
        Some(RunSignal::Started { at })
    } else if str_eq(status, "succeeded") || str_eq(status, "ok") || str_eq(status, "success") {
        Some(RunSignal::Succeeded { at })
    } else if str_eq(status, "failed") || str_eq(status, "error") {
        let error = failure_text(event);
        Some(RunSignal::Failed { at, error })
    } else if str_eq(status, "skipped") {
        let reason = skip_reason_of(event);
        Some(RunSignal::Skipped { at, reason })
    } else {
        None
    }
}

fn signal_time_of(event: &SourceEvent, default_at: i64) -> (at: i64)
    ensures
        at == signal_time(event.tag_seqs(), default_at),
{
    match event.first_typed_value("at") {
        Some(v) => match parse_i64(chars_of(v).as_slice()) {
            Some(n) => n,
            None => default_at,
        },
        None => default_at,
    }
}

fn failure_text(event: &SourceEvent) -> (e: String)
    ensures
        e@ == (match first_typed_value_spec(event.tag_seqs(), "error"@) {
            Some(e) => e,
            None => "agent error"@,
        }),
{
    match event.first_typed_value("error") {
        Some(e) => e.to_owned(),
        None => "agent error".to_owned(),
    }
}

fn skip_reason_of(event: &SourceEvent) -> (reason: SkipReason)
    ensures
        match first_typed_value_spec(event.tag_seqs(), "version_mismatch"@) {
            Some(v) => (reason matches SkipReason::VersionMismatch(x) && x@ == v),
            None => (reason matches SkipReason::MissingInput(x) && x@ == (match first_typed_value_spec(
                event.tag_seqs(),
                "missing_input"@,
            ) {
                Some(m) => m,
                None => Seq::<char>::empty(),
            })),
        },
{
    let schema = match event.first_typed_value("missing_input") {
        Some(m) => m.to_owned(),
        None => String::new(),
    };
    match event.first_typed_value("version_mismatch") {
        Some(v) => SkipReason::VersionMismatch(v.to_owned()),
        None => SkipReason::MissingInput(schema),
    }
}

/// Finished runs (`Succeeded`, `Failed`, `Skipped`) accept no further signal;
/// `Skipped` is reachable only from `Pending`; every accepted signal records
/// its time as `finished_at` (terminal signals) or `started_at` (start).
pub proof fn transition_laws(run: Run, sig: RunSignal)
    ensures
        !is_open(run.status) ==> transition_spec(run, sig) is None,
        sig is Skipped && transition_spec(run, sig) is Some ==> run.status is Pending,
        transition_spec(run, sig) matches Some(next) ==> match sig {
            RunSignal::Started { at } => next.status is Running && next.started_at == Some(at),
            RunSignal::Succeeded { at } => next.status is Succeeded && next.finished_at == Some(at)
                && next.started_at is Some,
            RunSignal::Failed { at, error } => next.status is Failed && next.finished_at == Some(at)
                && next.error == Some(error) && next.started_at is Some,
            RunSignal::Skipped { at, reason } => next.status == RunStatus::Skipped(reason)
                && next.finished_at == Some(at),
        },
        transition_spec(run, sig) matches Some(next) ==> next.run_id == run.run_id
            && next.schedule_id == run.schedule_id && next.scheduled_for == run.scheduled_for,
{
}

/// An unfinished (pending or running) run accepts every signal but a skip,
/// and a pending run accepts a skip: starting, succeeding and failing are
/// never refused before the run has finished. Succeeding or failing a run
/// that never started records the finishing time as its start.
pub proof fn open_runs_advance(run: Run, sig: RunSignal)
    ensures
        is_open(run.status) && !(sig is Skipped) ==> transition_spec(run, sig) is Some,
        run.status is Pending && sig is Skipped ==> transition_spec(run, sig) is Some,
        is_open(run.status) ==> match sig {
            RunSignal::Failed { at, error } => transition_spec(run, sig) == Some(
                Run {
                    status: RunStatus::Failed,
                    started_at: match run.started_at {
                        Some(t) => Some(t),
                        None => Some(at),
                    },
                    finished_at: Some(at),
                    error: Some(error),
                    ..run
                },
            ),
            RunSignal::Succeeded { at } => transition_spec(run, sig) == Some(
                Run {
                    status: RunStatus::Succeeded,
                    started_at: match run.started_at {
                        Some(t) => Some(t),
                        None => Some(at),
                    },
                    finished_at: Some(at),
                    ..run
                },
            ),
            RunSignal::Started { at } => transition_spec(run, sig) == Some(
                Run { status: RunStatus::Running, started_at: Some(at), ..run },
            ),
            RunSignal::Skipped { .. } => true,
        },
{
}

} // verus!
