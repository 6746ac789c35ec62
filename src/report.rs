//! The record that one monitored run produces.
use vstd::prelude::*;

verus! {

/// How a monitored run ended.
#[derive(Clone, Copy, Debug, PartialEq, Eq, Structural)]
pub enum RunStatus {
    Success,
    Failed,
}

/// The status that an exit code gives: success for a zero code, failure for any other
/// code and for a termination without one (`None`, as for a child killed by a signal).
pub open spec fn status_of(exit_code: Option<i32>) -> RunStatus {
    if exit_code == Some(0i32) {
        RunStatus::Success
    } else {
        RunStatus::Failed
    }
}

impl RunStatus {
    pub fn from_exit_code(exit_code: Option<i32>) -> (r: RunStatus)
        ensures
            r == status_of(exit_code),
    {
        match exit_code {
            Some(0i32) => RunStatus::Success,
            _ => RunStatus::Failed,
        }
    }

    /// The status as it stands in a report: `"success"` or `"failed"`.
    pub fn as_str(&self) -> (r: &'static str)
        ensures
            *self == RunStatus::Success ==> r@ == "success"@,
            *self == RunStatus::Failed ==> r@ == "failed"@,
    {
        match self {
            RunStatus::Success => "success",
            RunStatus::Failed => "failed",
        }
    }
}

/// Wall time, peak resident memory and outcome of one run of a child process.
#[derive(Clone, Copy, Debug, PartialEq, Eq, Structural)]
pub struct PerformanceReport {
    /// Milliseconds from just before the launch to the moment the exit was seen.
    pub total_time_ms: u128,
    /// Largest memory sample of the run, in kB; 0 where none could be read.
    pub peak_memory_kb: u64,
    pub status: RunStatus,
}

} // verus!
