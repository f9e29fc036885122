//! The action gateway: user-triggered process actions, decided against the
//! snapshot and interpreted from the provider's report.
//!
//! A termination is fire-and-forget: the library decides whether the request
//! is issuable at all (the pid must still have a row) and maps the
//! provider's report to a result; whether the process actually exited is
//! only observed on a later refresh, when its row disappears.  Every failure
//! is an ordinary error value for the UI to surface as a transient notice —
//! nothing here can take the view down.

use vstd::prelude::*;
use crate::model::{find_by_pid, has_pid, Snapshot};

verus! {

/// Why a process action did not take effect.
#[derive(Clone, Copy, PartialEq, Eq, Structural, Debug)]
pub enum ActionError {
    /// The pid has no row in the current snapshot, or the provider no
    /// longer found the process when the request reached it.
    NoSuchProcess,
    /// The provider refused to act on this process.
    PermissionDenied,
}

/// What the provider reported back for a termination request.
#[derive(Clone, Copy, PartialEq, Eq, Structural, Debug)]
pub enum KillOutcome {
    /// The termination signal was issued.
    Accepted,
    /// The process was already gone.
    NotFound,
    /// The OS denied the signal.
    Denied,
}

impl ActionError {
    /// A short notice for the UI.
    pub fn describe(&self) -> (r: &'static str)
        ensures
            *self is NoSuchProcess ==> r@ == "no such process"@,
            *self is PermissionDenied ==> r@ == "permission denied"@,
    {
        match self {
            ActionError::NoSuchProcess => "no such process",
            ActionError::PermissionDenied => "permission denied",
        }
    }
}

/// Decides a termination request against the current snapshot: `Ok` exactly
/// when the pid still has a row, so the caller may issue the provider call;
/// any other pid is answered with `NoSuchProcess`, never with a fault.
pub fn request_terminate(snapshot: &Snapshot, pid: u64) -> (r: Result<(), ActionError>)
    ensures
        r is Ok <==> has_pid(snapshot.processes@, pid),
        r is Err ==> r == Result::<(), ActionError>::Err(ActionError::NoSuchProcess),
{
    match find_by_pid(&snapshot.processes, pid) {
        Option::Some(i) => {
            proof {
                assert(snapshot.processes@[i as int].pid == pid);
            }
            Result::Ok(())
        },
        Option::None => Result::Err(ActionError::NoSuchProcess),
    }
}

/// Interprets what the provider reported for an issued termination:
/// `Accepted` is success, a vanished process is `NoSuchProcess`, a refusal
/// is `PermissionDenied`.  Total on every report — no report can fault.
pub fn interpret_kill_outcome(outcome: KillOutcome) -> (r: Result<(), ActionError>)
    ensures
        r == (match outcome {
            KillOutcome::Accepted => Result::<(), ActionError>::Ok(()),
            KillOutcome::NotFound => Result::<(), ActionError>::Err(ActionError::NoSuchProcess),
            KillOutcome::Denied => Result::<(), ActionError>::Err(ActionError::PermissionDenied),
        }),
{
    match outcome {
        KillOutcome::Accepted => Result::Ok(()),
        KillOutcome::NotFound => Result::Err(ActionError::NoSuchProcess),
        KillOutcome::Denied => Result::Err(ActionError::PermissionDenied),
    }
}

} // verus!
