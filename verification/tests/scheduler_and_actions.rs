use taskmanager::action::{interpret_kill_outcome, request_terminate, ActionError, KillOutcome};
use taskmanager::enums::{AppViewState, EProcessesSort, EWindow};
use taskmanager::model::{ProcessRecord, Snapshot};
use taskmanager::scheduler::{maybe_refresh, DEFAULT_REFRESH_INTERVAL_MS};

fn record(pid: u64) -> ProcessRecord {
    ProcessRecord {
        pid,
        name: String::from("proc"),
        user_id: None,
        cpu_usage_raw: 0,
        memory_bytes: 0,
        disk_read_bytes: 0,
        disk_written_bytes: 0,
    }
}

fn snapshot(processes: Vec<ProcessRecord>) -> Snapshot {
    Snapshot {
        processes,
        logical_core_count: 1,
        global_cpu_usage: 0,
        used_memory_bytes: 0,
        total_memory_bytes: 0,
    }
}

#[test]
fn refresh_throttled_under_one_interval() {
    // interval of 1 s, last refresh at T: a tick at T+0.9 s does not refresh
    let t: u64 = 5_000;
    assert!(!maybe_refresh(t + 900, t, 1_000));
}

#[test]
fn refresh_due_at_exactly_one_interval() {
    let t: u64 = 5_000;
    assert!(maybe_refresh(t + 1_000, t, 1_000));
    assert!(maybe_refresh(t + 2_500, t, 1_000));
}

#[test]
fn refresh_immediate_cases() {
    assert!(maybe_refresh(0, 0, 0));
    assert!(!maybe_refresh(0, 0, 1));
    assert_eq!(DEFAULT_REFRESH_INTERVAL_MS, 1_000);
}

#[test]
fn terminate_unknown_pid_is_an_error_not_a_fault() {
    let s = snapshot(vec![record(1), record(2)]);
    assert_eq!(request_terminate(&s, 999), Err(ActionError::NoSuchProcess));
}

#[test]
fn terminate_known_pid_may_be_issued() {
    let s = snapshot(vec![record(1), record(2)]);
    assert_eq!(request_terminate(&s, 2), Ok(()));
}

#[test]
fn terminate_on_empty_snapshot() {
    let s = snapshot(vec![]);
    assert_eq!(request_terminate(&s, 1), Err(ActionError::NoSuchProcess));
}

#[test]
fn kill_outcomes_map_to_results() {
    assert_eq!(interpret_kill_outcome(KillOutcome::Accepted), Ok(()));
    assert_eq!(
        interpret_kill_outcome(KillOutcome::NotFound),
        Err(ActionError::NoSuchProcess)
    );
    assert_eq!(
        interpret_kill_outcome(KillOutcome::Denied),
        Err(ActionError::PermissionDenied)
    );
}

#[test]
fn action_errors_describe_themselves() {
    assert_eq!(ActionError::NoSuchProcess.describe(), "no such process");
    assert_eq!(ActionError::PermissionDenied.describe(), "permission denied");
}

#[test]
fn view_state_defaults() {
    let s = AppViewState::default();
    assert_eq!(s.current_window, EWindow::Processes);
    assert_eq!(s.processes_sort, EProcessesSort::Cpu);
}

#[test]
fn view_state_selection_events() {
    let mut s = AppViewState::default();
    s.select_tab(EWindow::Performance);
    assert_eq!(s.current_window, EWindow::Performance);
    assert_eq!(s.processes_sort, EProcessesSort::Cpu);
    s.select_sort(EProcessesSort::Disk);
    assert_eq!(s.processes_sort, EProcessesSort::Disk);
    assert_eq!(s.current_window, EWindow::Performance);
}
