//! The execution bridge's decisions. Running an installed binary means
//! leaving the alternate screen, blocking on the subprocess, and restoring
//! the terminal on every exit path; all of that happens outside. What is
//! decided here is what each outcome of that run means: the status text the
//! loop shows, and whether the run counts as a failure — never an escalated
//! error.

use vstd::prelude::*;
use vstd::string::StringExecFns;

use crate::types::AppError;

verus! {

/// What came of running an installed binary: the subprocess could not be
/// started (with the reported reason), or it ran and exited, cleanly or
/// not. Only the exit status is ever captured, never the output.
#[derive(Debug, Clone, PartialEq, Eq)]
pub enum RunOutcome {
    FailedToStart(String),
    Exited(bool),
}

/// The status text an execution outcome turns into.
pub fn execution_status(outcome: &RunOutcome) -> (s: String)
    ensures
        match outcome {
            RunOutcome::FailedToStart(e) => s@ == "Failed to run binary: "@ + e@,
            RunOutcome::Exited(ok) => {
                if *ok {
                    s@ == "Process exited successfully"@
                } else {
                    s@ == "Process exited with a failure status"@
                }
            },
        },
{
    match outcome {
        RunOutcome::FailedToStart(e) => {
            let mut s = String::from_str("Failed to run binary: ");
            s.append(e.as_str());
            s
        },
        RunOutcome::Exited(ok) => {
            if *ok {
                String::from_str("Process exited successfully")
            } else {
                String::from_str("Process exited with a failure status")
            }
        },
    }
}

/// How an execution outcome is classified: a clean exit succeeds; a failed
/// start or a nonzero exit is an `ExecutionFailure` carrying the status
/// text — reported, never escalated.
pub fn execution_result(outcome: &RunOutcome) -> (r: Result<(), AppError>)
    ensures
        (r is Ok) == (outcome matches RunOutcome::Exited(true)),
        r is Err ==> (r matches Err(e) && (e matches AppError::ExecutionFailure(t) && match outcome {
            RunOutcome::FailedToStart(x) => t@ == "Failed to run binary: "@ + x@,
            RunOutcome::Exited(_) => t@ == "Process exited with a failure status"@,
        })),
{
    match outcome {
        RunOutcome::Exited(true) => Ok(()),
        _ => Err(AppError::ExecutionFailure(execution_status(outcome))),
    }
}

} // verus!
