use trade_flow::registry::TaskManager;
use trade_flow::task::{RunnerOutcome, StartOutcome, StopOutcome, TaskState};

#[test]
fn start_twice_one_started() {
    let mut m = TaskManager::new();
    assert_eq!(m.start("alpha"), StartOutcome::Started);
    assert_eq!(m.start("alpha"), StartOutcome::AlreadyRunning);
}

#[test]
fn start_distinct_names_both_started() {
    let mut m = TaskManager::new();
    assert_eq!(m.start("alpha"), StartOutcome::Started);
    assert_eq!(m.start("beta"), StartOutcome::Started);
    assert_eq!(m.list_tasks().len(), 2);
}

#[test]
fn stop_unknown_not_found() {
    let mut m = TaskManager::new();
    assert_eq!(m.stop_process("nonexistent"), StopOutcome::NotFound);
}

#[test]
fn stop_running_then_again_already_stopped() {
    let mut m = TaskManager::new();
    assert_eq!(m.start("alpha"), StartOutcome::Started);
    assert_eq!(m.stop_process("alpha"), StopOutcome::Stopped);
    assert_eq!(m.stop_process("alpha"), StopOutcome::AlreadyStopped);
}

#[test]
fn stop_completed_already_stopped() {
    let mut m = TaskManager::new();
    assert_eq!(m.start("alpha"), StartOutcome::Started);
    m.on_completion("alpha", RunnerOutcome::Succeeded);
    assert_eq!(m.stop_process("alpha"), StopOutcome::AlreadyStopped);
    assert_eq!(m.state_of("alpha"), Some(TaskState::Completed));
}

#[test]
fn stopped_shows_in_list_until_restart() {
    let mut m = TaskManager::new();
    assert_eq!(m.start("alpha"), StartOutcome::Started);
    assert_eq!(m.stop_process("alpha"), StopOutcome::Stopped);
    let listed = m.list_tasks();
    assert_eq!(listed, vec![("alpha".to_string(), "Stopped".to_string())]);
    m.on_completion("alpha", RunnerOutcome::Cancelled);
    assert_eq!(
        m.list_tasks(),
        vec![("alpha".to_string(), "Stopped".to_string())]
    );
    assert_eq!(m.start("alpha"), StartOutcome::Started);
    assert_eq!(
        m.list_tasks(),
        vec![("alpha".to_string(), "Running".to_string())]
    );
}

#[test]
fn late_completion_never_regresses_stop() {
    let mut m = TaskManager::new();
    assert_eq!(m.start("alpha"), StartOutcome::Started);
    assert_eq!(m.stop_process("alpha"), StopOutcome::Stopped);
    m.on_completion("alpha", RunnerOutcome::Succeeded);
    assert_eq!(m.state_of("alpha"), Some(TaskState::Stopped));
}

#[test]
fn stop_after_completion_keeps_completion() {
    let mut m = TaskManager::new();
    assert_eq!(m.start("alpha"), StartOutcome::Started);
    m.on_completion("alpha", RunnerOutcome::Failed);
    assert_eq!(m.stop_process("alpha"), StopOutcome::AlreadyStopped);
    assert_eq!(m.state_of("alpha"), Some(TaskState::Failed));
}

#[test]
fn restart_after_failure() {
    let mut m = TaskManager::new();
    assert_eq!(m.start("alpha"), StartOutcome::Started);
    m.on_completion("alpha", RunnerOutcome::Failed);
    assert_eq!(m.start("alpha"), StartOutcome::Started);
    assert_eq!(m.state_of("alpha"), Some(TaskState::Running));
}

#[test]
fn completion_on_unknown_name_ignored() {
    let mut m = TaskManager::new();
    m.on_completion("alpha", RunnerOutcome::Succeeded);
    assert_eq!(m.state_of("alpha"), None);
    assert!(m.list_tasks().is_empty());
}

#[test]
fn empty_registry_lists_nothing() {
    let m = TaskManager::new();
    assert!(m.list_tasks().is_empty());
    assert_eq!(m.state_of("alpha"), None);
}

#[test]
fn list_keeps_registration_order() {
    let mut m = TaskManager::new();
    m.start("alpha");
    m.start("beta");
    m.start("gamma");
    m.on_completion("beta", RunnerOutcome::Succeeded);
    assert_eq!(
        m.list_tasks(),
        vec![
            ("alpha".to_string(), "Running".to_string()),
            ("beta".to_string(), "Completed".to_string()),
            ("gamma".to_string(), "Running".to_string()),
        ]
    );
}
