//! Task lifecycle states and the outcomes of the registry's operations.

use vstd::prelude::*;

verus! {

/// Lifecycle state of a named task: `Pending -> Running -> {Completed, Failed, Stopped}`.
/// The three right-hand states are terminal.
#[derive(Clone, Copy, Debug, PartialEq, Eq, Structural)]
pub enum TaskState {
    Pending,
    Running,
    Completed,
    Failed,
    Stopped,
}

/// A terminal state is never left except by a fresh `start` for the same name.
pub open spec fn is_terminal(s: TaskState) -> bool {
    match s {
        TaskState::Completed => true,
        TaskState::Failed => true,
        TaskState::Stopped => true,
        TaskState::Pending => false,
        TaskState::Running => false,
    }
}

/// Result of `TaskManager::start`.
#[derive(Clone, Copy, Debug, PartialEq, Eq, Structural)]
pub enum StartOutcome {
    Started,
    AlreadyRunning,
}

/// Result of `TaskManager::stop_process`.
#[derive(Clone, Copy, Debug, PartialEq, Eq, Structural)]
pub enum StopOutcome {
    Stopped,
    NotFound,
    AlreadyStopped,
}

/// What a runner reports back to the registry when it exits.
#[derive(Clone, Copy, Debug, PartialEq, Eq, Structural)]
pub enum RunnerOutcome {
    Succeeded,
    Failed,
    Cancelled,
}

/// The terminal state a task reaches when its runner exits with `outcome`.
pub open spec fn outcome_state(outcome: RunnerOutcome) -> TaskState {
    match outcome {
        RunnerOutcome::Succeeded => TaskState::Completed,
        RunnerOutcome::Failed => TaskState::Failed,
        RunnerOutcome::Cancelled => TaskState::Stopped,
    }
}

/// Decides a runner's single completion report: cancellation preempts the
/// target's own result, a failed target is recorded as failed and never
/// retried, and everything else is a natural completion.
pub fn runner_report(cancelled: bool, work_failed: bool) -> (r: RunnerOutcome)
    ensures
        cancelled ==> r == RunnerOutcome::Cancelled,
        !cancelled && work_failed ==> r == RunnerOutcome::Failed,
        !cancelled && !work_failed ==> r == RunnerOutcome::Succeeded,
{
    if cancelled {
        RunnerOutcome::Cancelled
    } else if work_failed {
        RunnerOutcome::Failed
    } else {
        RunnerOutcome::Succeeded
    }
}

/// The display name of a state, as it appears in task listings.
pub open spec fn spec_state_name(s: TaskState) -> Seq<char> {
    match s {
        TaskState::Pending => "Pending"@,
        TaskState::Running => "Running"@,
        TaskState::Completed => "Completed"@,
        TaskState::Failed => "Failed"@,
        TaskState::Stopped => "Stopped"@,
    }
}

impl TaskState {
    /// Renders the state under its display name.
    pub fn name_string(&self) -> (r: String)
        ensures
            r@ == spec_state_name(*self),
    {
        match self {
            TaskState::Pending => "Pending".to_owned(),
            TaskState::Running => "Running".to_owned(),
            TaskState::Completed => "Completed".to_owned(),
            TaskState::Failed => "Failed".to_owned(),
            TaskState::Stopped => "Stopped".to_owned(),
        }
    }

    /// Whether the state is terminal.
    pub fn is_final(&self) -> (r: bool)
        ensures
            r == is_terminal(*self),
    {
        match self {
            TaskState::Completed => true,
            TaskState::Failed => true,
            TaskState::Stopped => true,
            TaskState::Pending => false,
            TaskState::Running => false,
        }
    }
}

} // verus!
