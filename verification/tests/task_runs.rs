use sync_client::models::Task;
use sync_client::rc_value::RcValue;
use sync_client::task_run::{
    cancel_log_update, current_file_of, failure_log_update, job_outcome, next_run_action,
    outcome_log_update, running_log, scan_log_update, scan_summary, state_label, sync_job_request,
    CancelStep, JobOutcome, RunAction, RunEvent, RuntimeBoard, RuntimeEntry, TaskState,
};
use sync_client::models::NewSyncChange;

fn task(id: i64, direction: &str, enabled: bool, filters: Option<&str>) -> Task {
    Task {
        id,
        name: "t".to_string(),
        local_path: "/l".to_string(),
        remote_name: "r".to_string(),
        remote_path: "p".to_string(),
        direction: direction.to_string(),
        filters: filters.map(|f| f.to_string()),
        conflict_policy: "newer".to_string(),
        auto_sync: false,
        sync_interval: None,
        is_enabled: enabled,
        last_sync_at: None,
        created_at: String::new(),
        updated_at: String::new(),
    }
}

fn obj(members: Vec<(&str, RcValue)>) -> RcValue {
    RcValue::Object(members.into_iter().map(|(k, v)| (k.to_string(), v)).collect())
}

#[test]
fn state_labels() {
    assert_eq!(state_label(TaskState::Idle), "idle");
    assert_eq!(state_label(TaskState::Scanning), "scanning");
    assert_eq!(state_label(TaskState::Syncing), "syncing");
    assert_eq!(state_label(TaskState::Completed), "completed");
    assert_eq!(state_label(TaskState::Failed), "failed");
}

#[test]
fn run_admission() {
    let mut board = RuntimeBoard::new();
    assert_eq!(board.admit_run(&task(1, "upload", false, None)), Err("Task is disabled".to_string()));
    assert_eq!(board.admit_run(&task(1, "upload", true, None)), Ok(()));
    board.set(1, TaskState::Syncing, Some(4));
    assert_eq!(board.admit_run(&task(1, "upload", true, None)), Err("Task is already running".to_string()));
    board.set(1, TaskState::Scanning, None);
    assert_eq!(board.admit_run(&task(1, "upload", true, None)), Err("Task is already running".to_string()));
    for done in [TaskState::Completed, TaskState::Failed, TaskState::Idle] {
        board.set(1, done, None);
        assert_eq!(board.admit_run(&task(1, "upload", true, None)), Ok(()));
    }
    assert_eq!(board.get(1), Some(RuntimeEntry { status: TaskState::Idle, job_id: None }));
    assert_eq!(board.get(2), None);
}

#[test]
fn cancel_steps() {
    let mut board = RuntimeBoard::new();
    assert_eq!(board.cancel_step(5), CancelStep::Nothing);
    board.set(5, TaskState::Scanning, None);
    assert_eq!(board.cancel_step(5), CancelStep::Reset);
    board.set(5, TaskState::Syncing, Some(77));
    assert_eq!(board.cancel_step(5), CancelStep::StopJobThenReset(77));
}

#[test]
fn job_requests_by_direction() {
    let r = sync_job_request(&task(1, "upload", true, Some("- *.tmp")), &vec![]).unwrap();
    assert_eq!(r.endpoint, "sync/sync");
    assert_eq!(r.params.get("srcFs").unwrap().as_str().unwrap(), "/l");
    assert_eq!(r.params.get("dstFs").unwrap().as_str().unwrap(), "r:p");
    let f = r.params.get("filters").unwrap();
    assert_eq!(f.get("filter").unwrap().as_str().unwrap(), "- *.tmp");
    let r = sync_job_request(&task(1, "download", true, None), &vec![]).unwrap();
    assert_eq!(r.params.get("srcFs").unwrap().as_str().unwrap(), "r:p");
    assert!(r.params.get("filters").is_none());
    assert!(r.params.get("_filter").is_none());
    let r = sync_job_request(&task(1, "bisync", true, None), &vec![]).unwrap();
    assert_eq!(r.endpoint, "sync/bisync");
    assert_eq!(r.params.get("resync").unwrap().as_bool(), Some(false));
    assert_eq!(r.params.get("conflictResolve").unwrap().as_str().unwrap(), "newer");
    assert_eq!(sync_job_request(&task(1, "mirror", true, None), &vec![]).err(), Some("Invalid direction".to_string()));
}

#[test]
fn unfinished_job_has_no_outcome() {
    assert_eq!(job_outcome(&obj(vec![("finished", RcValue::Bool(false))])), None);
    assert_eq!(job_outcome(&obj(vec![])), None);
}

#[test]
fn finished_job_outcome_from_stats() {
    let status = obj(vec![
        ("finished", RcValue::Bool(true)),
        ("success", RcValue::Bool(true)),
        ("stats", obj(vec![
            ("totalTransfers", RcValue::Int(2)),
            ("totalBytes", RcValue::Int(300)),
            ("errors", RcValue::Int(1)),
        ])),
        ("transferred", RcValue::Array(vec![
            obj(vec![("name", RcValue::Str("a".to_string()))]),
            obj(vec![("name", RcValue::Str("b".to_string()))]),
            obj(vec![("name", RcValue::Str("c".to_string()))]),
        ])),
    ]);
    let o = job_outcome(&status).unwrap();
    assert_eq!(o, JobOutcome { success: true, total_files: 3, transferred_bytes: 300, error_count: 1 });
    assert_eq!(current_file_of(&status), Some("c".to_string()));
}

#[test]
fn finished_job_outcome_from_top_level() {
    let status = obj(vec![
        ("finished", RcValue::Bool(true)),
        ("transfers", RcValue::Int(99)),
        ("totalTransfers", RcValue::Int(5)),
        ("totalBytes", RcValue::Int(10)),
        ("totalErrorCount", RcValue::Int(2)),
    ]);
    let o = job_outcome(&status).unwrap();
    assert_eq!(o, JobOutcome { success: false, total_files: 5, transferred_bytes: 10, error_count: 2 });
    assert_eq!(current_file_of(&status), None);
}

#[test]
fn stats_fall_back_in_order() {
    let status = obj(vec![
        ("finished", RcValue::Bool(true)),
        ("success", RcValue::Bool(true)),
        ("totalTransfers", RcValue::Int(50)),
        ("stats", obj(vec![
            ("transfers", RcValue::Int(4)),
            ("bytes", RcValue::Int(8)),
            ("totalErrors", RcValue::Int(3)),
        ])),
    ]);
    let o = job_outcome(&status).unwrap();
    assert_eq!(o, JobOutcome { success: true, total_files: 4, transferred_bytes: 8, error_count: 3 });
}

#[test]
fn run_steps() {
    assert!(matches!(next_run_action(&RunEvent::Started(9)), RunAction::Poll(9)));
    match next_run_action(&RunEvent::StartFailed) {
        RunAction::Finish { state, log, touch_last_sync } => {
            assert_eq!(state, TaskState::Failed);
            assert_eq!(log.status, "failed");
            assert_eq!(log.error_count, 1);
            assert!(!touch_last_sync);
        }
        _ => panic!("a run whose job did not start ends"),
    }
    let running = obj(vec![("finished", RcValue::Bool(false))]);
    assert!(matches!(next_run_action(&RunEvent::Status(9, running)), RunAction::Poll(9)));
    let done = obj(vec![
        ("finished", RcValue::Bool(true)),
        ("success", RcValue::Bool(true)),
        ("totalTransfers", RcValue::Int(2)),
    ]);
    match next_run_action(&RunEvent::Status(9, done)) {
        RunAction::Finish { state, log, touch_last_sync } => {
            assert_eq!(state, TaskState::Completed);
            assert_eq!(log.status, "completed");
            assert_eq!((log.total_files, log.added_count, log.modified_count), (2, 2, 0));
            assert!(touch_last_sync);
        }
        _ => panic!("a finished job ends the run"),
    }
    match next_run_action(&RunEvent::StatusFailed) {
        RunAction::Finish { state, touch_last_sync, .. } => {
            assert_eq!(state, TaskState::Failed);
            assert!(!touch_last_sync);
        }
        _ => panic!("an unreadable status ends the run"),
    }
}

#[test]
fn log_updates() {
    let f = failure_log_update();
    assert_eq!((f.status.as_str(), f.total_files, f.error_count, f.log_path), ("failed", 0, 1, None));
    let o = outcome_log_update(&JobOutcome { success: false, total_files: 7, transferred_bytes: 70, error_count: 2 });
    assert_eq!(o.status, "failed");
    assert_eq!((o.total_files, o.transferred_bytes, o.added_count, o.deleted_count, o.error_count), (7, 70, 7, 0, 2));
    let s = scan_log_update(1, 2, 3, 4, 10);
    assert_eq!(s.status, "completed");
    assert_eq!((s.total_files, s.transferred_bytes, s.added_count, s.modified_count, s.deleted_count, s.error_count), (10, 0, 1, 6, 3, 0));
    let l = running_log(&task(3, "bisync", true, None), "2024-05-01T00:00:00Z".to_string());
    assert_eq!((l.task_id, l.direction.as_str(), l.status.as_str()), (3, "bisync", "running"));
}

fn rules_of(r: &sync_client::rc_api::RcRequest) -> Vec<String> {
    let f = r.params.get("_filter").unwrap();
    f.get("FilterRule")
        .unwrap()
        .as_array()
        .unwrap()
        .iter()
        .map(|v| v.as_str().unwrap().clone())
        .collect()
}

#[test]
fn deselected_changes_are_excluded_from_the_job() {
    let left_out = vec!["dir/a*b.txt".to_string(), "notes.md".to_string()];
    let r = sync_job_request(&task(1, "upload", true, Some("- *.tmp")), &left_out).unwrap();
    assert_eq!(r.endpoint, "sync/sync");
    assert_eq!(r.params.get("srcFs").unwrap().as_str().unwrap(), "/l");
    assert_eq!(r.params.get("filters").unwrap().get("filter").unwrap().as_str().unwrap(), "- *.tmp");
    assert_eq!(rules_of(&r), vec!["- /dir/a\\*b.txt".to_string(), "- /notes.md".to_string()]);
    let r = sync_job_request(&task(1, "bisync", true, None), &vec!["x[1].csv".to_string()]).unwrap();
    assert_eq!(r.endpoint, "sync/bisync");
    assert_eq!(r.params.get("conflictResolve").unwrap().as_str().unwrap(), "newer");
    assert_eq!(rules_of(&r), vec!["- /x\\[1\\].csv".to_string()]);
    let r = sync_job_request(&task(1, "download", true, None), &vec!["k".to_string()]).unwrap();
    assert_eq!(r.params.get("dstFs").unwrap().as_str().unwrap(), "/l");
    assert_eq!(rules_of(&r), vec!["- /k".to_string()]);
}

#[test]
fn a_run_is_cancelled_once_the_board_no_longer_waits_on_its_job() {
    let mut board = RuntimeBoard::new();
    assert!(board.run_cancelled(3, Some(8)));
    board.set(3, TaskState::Syncing, None);
    assert!(!board.run_cancelled(3, None));
    assert!(board.run_cancelled(3, Some(8)));
    board.set(3, TaskState::Syncing, Some(8));
    assert!(!board.run_cancelled(3, Some(8)));
    assert!(board.run_cancelled(3, Some(9)));
    assert_eq!(board.cancel_step(3), CancelStep::StopJobThenReset(8));
    board.reset(3);
    assert!(board.run_cancelled(3, Some(8)));
    assert_eq!(board.get(3), Some(RuntimeEntry { status: TaskState::Idle, job_id: None }));
}

#[test]
fn a_cancelled_run_ends_idle_and_is_logged_cancelled() {
    let c = cancel_log_update();
    assert_eq!((c.status.as_str(), c.total_files, c.transferred_bytes, c.error_count, c.log_path), ("cancelled", 0, 0, 0, None));
    match next_run_action(&RunEvent::Cancelled) {
        RunAction::Cancel { stop_job, log } => {
            assert_eq!(stop_job, None);
            assert_eq!(log.status, "cancelled");
            assert_eq!(log.error_count, 0);
        }
        _ => panic!("a cancelled run ends"),
    }
}

#[test]
fn a_cancel_ends_the_run_it_interrupts() {
    let running = || obj(vec![("finished", RcValue::Bool(false))]);
    let done = || obj(vec![("finished", RcValue::Bool(true)), ("success", RcValue::Bool(true))]);
    let mut board = RuntimeBoard::new();
    board.set(6, TaskState::Syncing, None);
    assert!(matches!(board.run_step(6, &RunEvent::Started(40)), RunAction::Poll(40)));
    board.set(6, TaskState::Syncing, Some(40));
    assert!(matches!(board.run_step(6, &RunEvent::Status(40, running())), RunAction::Poll(40)));
    assert_eq!(board.cancel_step(6), CancelStep::StopJobThenReset(40));
    board.reset(6);
    for status in [running(), done()] {
        match board.run_step(6, &RunEvent::Status(40, status)) {
            RunAction::Cancel { stop_job, log } => {
                assert_eq!(stop_job, None);
                assert_eq!(log.status, "cancelled");
            }
            _ => panic!("a cancelled run ends cancelled"),
        }
    }
    match board.run_step(6, &RunEvent::Started(41)) {
        RunAction::Cancel { stop_job, log } => {
            assert_eq!(stop_job, Some(41));
            assert_eq!(log.status, "cancelled");
        }
        _ => panic!("a job started after the cancel is stopped"),
    }
    assert_eq!(board.get(6), Some(RuntimeEntry { status: TaskState::Idle, job_id: None }));
    assert!(matches!(board.run_step(6, &RunEvent::StartFailed), RunAction::Finish { state: TaskState::Failed, .. }));
}

fn change(path: &str, kind: &str) -> NewSyncChange {
    NewSyncChange {
        log_id: 4,
        file_path: path.to_string(),
        change_type: kind.to_string(),
        side: None,
        local_size: None,
        remote_size: None,
        local_modtime: None,
        remote_modtime: None,
    }
}

#[test]
fn scan_log_counts_the_changes_found() {
    let changes = vec![
        change("a", "added"),
        change("b", "modified"),
        change("c", "conflict"),
        change("d", "deleted"),
        change("e", "added"),
        change("f", "conflict"),
    ];
    let s = scan_summary(&changes);
    assert_eq!(s.status, "completed");
    assert_eq!(
        (s.total_files, s.transferred_bytes, s.added_count, s.modified_count, s.deleted_count, s.error_count),
        (6, 0, 2, 3, 1, 0)
    );
    let e = scan_summary(&vec![]);
    assert_eq!((e.total_files, e.added_count, e.modified_count, e.deleted_count), (0, 0, 0, 0));
}
