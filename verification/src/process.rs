//! The decisions of child-process teardown, on plain values.
//!
//! The embedding program owns the process id and makes the kill and wait
//! calls; what to do after each poll — report, retry, escalate to a hard
//! kill, or give up — is decided here.

use vstd::prelude::*;
use crate::Error;

verus! {

/// What the child looked like at a non-blocking wait: still running, gone
/// with an exit code, ended by a signal, or something else (stopped or
/// traced).
#[derive(Debug, Clone, Copy, PartialEq, Eq, Structural)]
pub enum ChildStatus {
    StillAlive,
    Exited(i32),
    Signaled(i32),
    Other,
}

/// How sending a signal went, as the kernel reported it.
#[derive(Debug, Clone, Copy, PartialEq, Eq, Structural)]
pub enum SignalOutcome {
    /// The signal was delivered.
    Delivered,
    /// No such process: the child is already gone.
    NoSuchProcess,
    /// The kill call failed for another reason.
    Failed,
}

/// What the teardown loop does next.
#[derive(Debug, Clone, Copy, PartialEq, Eq, Structural)]
pub enum KillAction {
    /// The child is gone: report the status the wait returned.
    ReportStatus,
    /// The process had already disappeared: report a synthetic clean exit.
    ReportDisappeared,
    /// The kill call failed: give up with an error.
    Fail,
    /// The child still runs: sleep briefly and poll again.
    Retry,
    /// The child still runs and the kill timeout has elapsed: send a hard
    /// kill, then keep polling.
    Escalate,
}

/// One step of the teardown loop: after sending the signal and polling the
/// child, decide what to do.  A wait result of `None` means the wait itself
/// errored (the child was reaped elsewhere) and is treated as still-running.
pub fn next_kill_action(
    sig: SignalOutcome,
    status: Option<ChildStatus>,
    timeout_elapsed: bool,
) -> (r: KillAction)
    ensures
        sig is NoSuchProcess ==> r == KillAction::ReportDisappeared,
        sig is Failed ==> r == KillAction::Fail,
        sig is Delivered ==> r == (match status {
            Some(st) => if st is StillAlive {
                if timeout_elapsed {
                    KillAction::Escalate
                } else {
                    KillAction::Retry
                }
            } else {
                KillAction::ReportStatus
            },
            None => if timeout_elapsed {
                KillAction::Escalate
            } else {
                KillAction::Retry
            },
        }),
{
    match sig {
        SignalOutcome::NoSuchProcess => KillAction::ReportDisappeared,
        SignalOutcome::Failed => KillAction::Fail,
        SignalOutcome::Delivered => {
            let alive = match status {
                Some(st) => matches!(st, ChildStatus::StillAlive),
                None => true,
            };
            if !alive {
                KillAction::ReportStatus
            } else if timeout_elapsed {
                KillAction::Escalate
            } else {
                KillAction::Retry
            }
        },
    }
}

/// Whether a dropped process still needs a termination signal: only when the
/// last poll saw it alive.
pub fn needs_terminate(status: Option<ChildStatus>) -> (r: bool)
    ensures
        r == (status == Some(ChildStatus::StillAlive)),
{
    match status {
        Some(ChildStatus::StillAlive) => true,
        _ => false,
    }
}

/// Fill an end-of-stream error's empty exit-code field with the child's
/// rendered status, so the user sees why the stream ended.  Every other
/// error, and an already-filled field, passes through unchanged.
pub fn enrich_eof(e: Error, status: Option<String>) -> (r: Error)
    ensures
        match e {
            Error::EOF { expected, got, exit_code } => r == (Error::EOF {
                expected,
                got,
                exit_code: if exit_code is Some {
                    exit_code
                } else {
                    status
                },
            }),
            _ => r == e,
        },
{
    match e {
        Error::EOF { expected, got, exit_code } => {
            match exit_code {
                Some(x) => Error::EOF { expected, got, exit_code: Some(x) },
                None => Error::EOF { expected, got, exit_code: status },
            }
        },
        other => other,
    }
}

} // verus!
