//! Decision logic behind the HTTP control surface: which status each
//! registry outcome maps to, and the response texts. The route handlers
//! themselves only dispatch to these.

use vstd::prelude::*;
use vstd::string::StringExecFns;
use crate::task::{StartOutcome, StopOutcome};

verus! {

/// Status of a start request: 404 when the target flow is missing, 409 when
/// the task is already running, 200 otherwise.
pub open spec fn spec_start_status(r: Option<StartOutcome>) -> u16 {
    match r {
        None => 404,
        Some(StartOutcome::Started) => 200,
        Some(StartOutcome::AlreadyRunning) => 409,
    }
}

/// Status of a stop request: 404 for an unknown name, 409 when the task is
/// already stopped, 200 otherwise.
pub open spec fn spec_stop_status(r: StopOutcome) -> u16 {
    match r {
        StopOutcome::Stopped => 200,
        StopOutcome::NotFound => 404,
        StopOutcome::AlreadyStopped => 409,
    }
}

/// Maps the outcome of a start request to its HTTP status; `None` stands
/// for a target flow the store does not know.
pub fn start_status(r: Option<StartOutcome>) -> (s: u16)
    ensures
        s == spec_start_status(r),
{
    match r {
        None => 404,
        Some(StartOutcome::Started) => 200,
        Some(StartOutcome::AlreadyRunning) => 409,
    }
}

/// Maps the outcome of a stop request to its HTTP status.
pub fn stop_status(r: StopOutcome) -> (s: u16)
    ensures
        s == spec_stop_status(r),
{
    match r {
        StopOutcome::Stopped => 200,
        StopOutcome::NotFound => 404,
        StopOutcome::AlreadyStopped => 409,
    }
}

/// The liveness probe's body.
pub fn healthy_message() -> (r: String)
    ensures
        r@ == "healthy"@,
{
    "healthy".to_owned()
}

/// Confirmation text for a task that was started.
pub fn started_message(name: &str) -> (r: String)
    ensures
        r@ == "Task '"@ + name@ + "' started successfully."@,
{
    let r = "Task '".to_owned().concat(name).concat("' started successfully.");
    r
}

/// Confirmation text for a task that was stopped.
pub fn stopped_message(name: &str) -> (r: String)
    ensures
        r@ == "Task '"@ + name@ + "' stopped successfully."@,
{
    let r = "Task '".to_owned().concat(name).concat("' stopped successfully.");
    r
}

/// Text for a stop request that found no task to stop.
pub fn stop_failure_message(name: &str) -> (r: String)
    ensures
        r@ == "Failed to stop task '"@ + name@ + "'."@,
{
    let r = "Failed to stop task '".to_owned().concat(name).concat("'.");
    r
}

} // verus!
