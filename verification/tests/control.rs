use trade_flow::control::{
    healthy_message, start_status, started_message, stop_failure_message, stop_status,
    stopped_message,
};
use trade_flow::task::{runner_report, RunnerOutcome, StartOutcome, StopOutcome, TaskState};

#[test]
fn runner_report_decides_single_outcome() {
    assert_eq!(runner_report(true, false), RunnerOutcome::Cancelled);
    assert_eq!(runner_report(true, true), RunnerOutcome::Cancelled);
    assert_eq!(runner_report(false, true), RunnerOutcome::Failed);
    assert_eq!(runner_report(false, false), RunnerOutcome::Succeeded);
}

#[test]
fn start_statuses_match_control_surface() {
    assert_eq!(start_status(Some(StartOutcome::Started)), 200);
    assert_eq!(start_status(Some(StartOutcome::AlreadyRunning)), 409);
    assert_eq!(start_status(None), 404);
}

#[test]
fn stop_statuses_match_control_surface() {
    assert_eq!(stop_status(StopOutcome::Stopped), 200);
    assert_eq!(stop_status(StopOutcome::NotFound), 404);
    assert_eq!(stop_status(StopOutcome::AlreadyStopped), 409);
}

#[test]
fn liveness_probe_body() {
    assert_eq!(healthy_message(), "healthy");
}

#[test]
fn confirmation_texts() {
    assert_eq!(started_message("alpha"), "Task 'alpha' started successfully.");
    assert_eq!(stopped_message("alpha"), "Task 'alpha' stopped successfully.");
    assert_eq!(stop_failure_message("alpha"), "Failed to stop task 'alpha'.");
}

#[test]
fn state_display_names() {
    assert_eq!(TaskState::Pending.name_string(), "Pending");
    assert_eq!(TaskState::Running.name_string(), "Running");
    assert_eq!(TaskState::Completed.name_string(), "Completed");
    assert_eq!(TaskState::Failed.name_string(), "Failed");
    assert_eq!(TaskState::Stopped.name_string(), "Stopped");
    assert!(!TaskState::Running.is_final());
    assert!(!TaskState::Pending.is_final());
    assert!(TaskState::Completed.is_final());
    assert!(TaskState::Failed.is_final());
    assert!(TaskState::Stopped.is_final());
}
