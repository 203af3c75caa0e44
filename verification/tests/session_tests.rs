use orchay::session::SessionControl;
use orchay::watch::{ChangeKind, LoopDecision, RawChangeEvent, RecvOutcome, WbsChangedPayload};
use orchay::watch::{debounce_events, loop_step, process_batch};

fn event(path: &str, at: u64) -> RawChangeEvent {
    RawChangeEvent { path: String::from(path), kind: ChangeKind::Any, observed_at: at }
}

#[test]
fn start_twice_returns_true_then_false() {
    let mut s = SessionControl::new();
    assert_eq!(s.start(), true);
    assert_eq!(s.start(), false);
    s.setup_complete();
    assert_eq!(s.start(), false);
}

#[test]
fn stop_without_session_is_a_no_op() {
    let mut s = SessionControl::new();
    assert_eq!(s.stop(), false);
    assert_eq!(s.stop_requested(), false);
    assert_eq!(s.status(), false);
}

#[test]
fn stop_after_exit_is_a_no_op() {
    let mut s = SessionControl::new();
    assert_eq!(s.start(), true);
    s.setup_complete();
    assert_eq!(s.stop(), true);
    s.worker_exited();
    assert_eq!(s.stop(), false);
    assert_eq!(s.stop_requested(), false);
}

#[test]
fn shutdown_is_observed_at_next_poll() {
    let mut s = SessionControl::new();
    assert_eq!(s.start(), true);
    s.setup_complete();
    assert_eq!(s.status(), true);
    assert_eq!(s.stop(), true);
    assert_eq!(s.stop_requested(), true);
    let d = loop_step(s.stop_requested(), RecvOutcome::TimedOut, "/r");
    assert!(matches!(d, LoopDecision::Exit));
    s.worker_exited();
    assert_eq!(s.status(), false);
}

#[test]
fn setup_failure_never_reports_alive() {
    let mut s = SessionControl::new();
    assert_eq!(s.status(), false);
    assert_eq!(s.start(), true);
    assert_eq!(s.status(), false);
    s.setup_failed();
    assert_eq!(s.status(), false);
    // a fresh start is possible afterwards
    assert_eq!(s.start(), true);
}

#[test]
fn disconnect_exits_the_loop() {
    let d = loop_step(false, RecvOutcome::Disconnected, "/r");
    assert!(matches!(d, LoopDecision::Exit));
}

#[test]
fn quiet_poll_and_recoverable_error_continue() {
    match loop_step(false, RecvOutcome::TimedOut, "/r") {
        LoopDecision::Continue(n) => assert_eq!(n.len(), 0),
        LoopDecision::Exit => panic!("quiet poll must not exit"),
    }
    match loop_step(false, RecvOutcome::RecvError, "/r") {
        LoopDecision::Continue(n) => assert_eq!(n.len(), 0),
        LoopDecision::Exit => panic!("recoverable error must not exit"),
    }
}

#[test]
fn burst_of_three_writes_yields_one_notification() {
    let events = vec![
        event("/r/projA/wbs.yaml", 0),
        event("/r/projA/wbs.yaml", 100),
        event("/r/projA/wbs.yaml", 200),
    ];
    let batches = debounce_events(&events, 300);
    assert_eq!(batches.len(), 1);
    assert_eq!(batches[0].len(), 1);
    let notifications = process_batch(&batches[0], "/r", "2024-01-01T00:00:00+00:00");
    assert_eq!(notifications.len(), 1);
    assert_eq!(notifications[0].project_id, "projA");
    assert_eq!(notifications[0].path, "/r/projA/wbs.yaml");
    assert_eq!(notifications[0].timestamp, "2024-01-01T00:00:00+00:00");
}

#[test]
fn quiet_gap_opens_a_new_batch() {
    let events = vec![
        event("/r/projA/wbs.yaml", 0),
        event("/r/projA/wbs.yaml", 100),
        event("/r/projA/wbs.yaml", 400),
    ];
    let batches = debounce_events(&events, 300);
    assert_eq!(batches.len(), 2);
    assert_eq!(batches[0].len(), 1);
    assert_eq!(batches[1].len(), 1);
}

#[test]
fn distinct_paths_share_a_batch() {
    let events = vec![
        event("/r/projA/wbs.yaml", 0),
        event("/r/projB/wbs.yaml", 50),
    ];
    let batches = debounce_events(&events, 300);
    assert_eq!(batches.len(), 1);
    assert_eq!(batches[0].len(), 2);
    let notifications = process_batch(&batches[0], "/r", "t");
    assert_eq!(notifications.len(), 2);
    assert_eq!(notifications[0].project_id, "projA");
    assert_eq!(notifications[1].project_id, "projB");
}

#[test]
fn unrelated_and_unresolved_paths_are_suppressed() {
    let batch = vec![
        event("/r/projA/notes.txt", 0),
        event("/r/wbs.yaml", 1),
        event("/elsewhere/projA/wbs.yaml", 2),
    ];
    let notifications = process_batch(&batch, "/r", "t");
    assert_eq!(notifications.len(), 0);
}

#[test]
fn continuous_changes_are_not_notified() {
    let batch = vec![RawChangeEvent {
        path: String::from("/r/projA/wbs.yaml"),
        kind: ChangeKind::Continuous,
        observed_at: 0,
    }];
    let notifications = process_batch(&batch, "/r", "t");
    assert_eq!(notifications.len(), 0);
}

#[test]
fn end_to_end_session_scenario() {
    let mut s = SessionControl::new();
    assert_eq!(s.start(), true);
    s.setup_complete();
    assert_eq!(s.status(), true);

    let events = vec![event("/root/.orchay/projects/projA/wbs.yaml", 10)];
    let batches = debounce_events(&events, 300);
    assert_eq!(batches.len(), 1);

    let d = loop_step(s.stop_requested(), RecvOutcome::Batch(batches.into_iter().next().unwrap()), "/root/.orchay/projects");
    let notifications: Vec<WbsChangedPayload> = match d {
        LoopDecision::Continue(n) => n,
        LoopDecision::Exit => panic!("a batch must not exit the loop"),
    };
    assert_eq!(notifications.len(), 1);
    assert_eq!(notifications[0].project_id, "projA");
    assert_eq!(notifications[0].path, "/root/.orchay/projects/projA/wbs.yaml");
    // the stamp is a real RFC 3339 wall-clock time
    assert!(chrono::DateTime::parse_from_rfc3339(&notifications[0].timestamp).is_ok());

    assert_eq!(s.stop(), true);
    let d = loop_step(s.stop_requested(), RecvOutcome::TimedOut, "/root/.orchay/projects");
    assert!(matches!(d, LoopDecision::Exit));
    s.worker_exited();
    assert_eq!(s.status(), false);
}

#[test]
fn extract_project_id_resolves_first_component() {
    let r = orchay::paths::extract_project_id("/r/projA/wbs.yaml", "/r");
    assert_eq!(r, Some(String::from("projA")));
    let r = orchay::paths::extract_project_id("/r/projA/deep/wbs.yaml", "/r");
    assert_eq!(r, Some(String::from("projA")));
}

#[test]
fn extract_project_id_rejects_depth_zero_and_outside_paths() {
    assert_eq!(orchay::paths::extract_project_id("/r/wbs.yaml", "/r"), None);
    assert_eq!(orchay::paths::extract_project_id("/r", "/r"), None);
    assert_eq!(orchay::paths::extract_project_id("/other/projA/wbs.yaml", "/r"), None);
    assert_eq!(orchay::paths::extract_project_id("/r//wbs.yaml", "/r"), None);
}
