//! Plain data and decisions of the application shell.
//!
//! The shell runs two long-lived tasks — the HTTP server and the delivery
//! worker — and reports how each of them ended. The report line for each
//! outcome is decided here; emitting it is the shell's business.

use vstd::prelude::*;

verus! {

/// The base URL the application links back to itself with.
pub struct ApplicationBaseUrl(pub String);

/// How a long-lived task ended: it ran to completion, it returned an
/// error (carried as text), or the task itself failed to complete.
pub enum TaskOutcome {
    Completed,
    Failed(String),
    Panicked(String),
}

/// The report line for a task's end.
pub open spec fn report_exit_message(task_name: Seq<char>, outcome: TaskOutcome) -> Seq<char> {
    match outcome {
        TaskOutcome::Completed => task_name + " has exited"@,
        TaskOutcome::Failed(_) => task_name + " failed"@,
        TaskOutcome::Panicked(_) => task_name + "' task failed to complete"@,
    }
}

/// Builds the report line for how `task_name` ended.
pub fn report_exit(task_name: &str, outcome: &TaskOutcome) -> (r: String)
    ensures
        r@ == report_exit_message(task_name@, *outcome),
{
    let mut line = task_name.to_owned();
    match outcome {
        TaskOutcome::Completed => line.append(" has exited"),
        TaskOutcome::Failed(_) => line.append(" failed"),
        TaskOutcome::Panicked(_) => line.append("' task failed to complete"),
    }
    line
}

} // verus!
