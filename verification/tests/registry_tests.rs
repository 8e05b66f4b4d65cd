use xcbridge::registry::BuildStatus;
use xcbridge::registry::Registry;

fn s(text: &str) -> String {
    text.to_string()
}

#[test]
fn appended_lines_are_observed_in_order() {
    let mut reg = Registry::new();
    let id = s("job-1");
    reg.create_build(&id);
    reg.append_build_log(&id, s("first"));
    reg.append_build_log(&id, s("second"));
    reg.append_build_log(&id, s("third"));
    match reg.get_build(&id) {
        Some(BuildStatus::Running { logs }) => {
            assert_eq!(logs, vec![s("first"), s("second"), s("third")]);
        }
        other => panic!("expected a running record, got {:?}", other.is_some()),
    }
}

#[test]
fn appends_after_finalization_are_dropped() {
    let mut reg = Registry::new();
    let id = s("job-1");
    reg.create_build(&id);
    reg.append_build_log(&id, s("kept"));
    reg.complete_build(&id, vec![s("out")]);
    reg.append_build_log(&id, s("late"));
    match reg.get_build(&id) {
        Some(BuildStatus::Success { logs, artifacts }) => {
            assert_eq!(logs, vec![s("kept")]);
            assert_eq!(artifacts, vec![s("out")]);
        }
        _ => panic!("expected a successful record"),
    }
}

#[test]
fn appends_to_unknown_or_absent_ids_do_nothing() {
    let mut reg = Registry::new();
    reg.append_build_log(&s("ghost"), s("line"));
    assert!(reg.get_build(&s("ghost")).is_none());
}

#[test]
fn terminal_transitions_are_no_ops_on_terminal_records() {
    let mut reg = Registry::new();
    let id = s("job-1");
    reg.create_build(&id);
    reg.append_build_log(&id, s("log"));
    reg.complete_build(&id, vec![s("first-artifacts")]);
    // A second completion, a failure and a cancellation must all leave the
    // record exactly as the first transition wrote it.
    reg.complete_build(&id, vec![s("other")]);
    reg.fail_build(&id, s("boom"), Some(1));
    assert!(!reg.cancel_build(&id));
    match reg.get_build(&id) {
        Some(BuildStatus::Success { logs, artifacts }) => {
            assert_eq!(logs, vec![s("log")]);
            assert_eq!(artifacts, vec![s("first-artifacts")]);
        }
        _ => panic!("expected the first terminal state to stand"),
    }
}

#[test]
fn cancel_only_succeeds_while_running() {
    let mut reg = Registry::new();
    let id = s("job-1");
    reg.create_build(&id);
    assert!(reg.cancel_build(&id));
    assert!(!reg.cancel_build(&id));
    assert!(!reg.cancel_build(&s("unknown")));
    assert!(matches!(reg.get_build(&id), Some(BuildStatus::Cancelled)));
}

#[test]
fn cancelled_records_expose_no_logs() {
    let mut reg = Registry::new();
    let id = s("job-1");
    reg.create_build(&id);
    reg.append_build_log(&id, s("line"));
    assert!(reg.cancel_build(&id));
    let st = reg.get_build(&id).unwrap();
    assert!(st.is_complete());
    assert!(st.logs().is_empty());
}

#[test]
fn failed_records_carry_error_and_exit_code() {
    let mut reg = Registry::new();
    let id = s("job-1");
    reg.create_build(&id);
    reg.append_build_log(&id, s("line"));
    reg.fail_build(&id, s("error: bad"), Some(65));
    match reg.get_build(&id) {
        Some(BuildStatus::Failed { logs, error, exit_code }) => {
            assert_eq!(logs, vec![s("line")]);
            assert_eq!(error, s("error: bad"));
            assert_eq!(exit_code, Some(65));
        }
        _ => panic!("expected a failed record"),
    }
}

#[test]
fn reclaim_keeps_running_and_evicts_oldest_terminals() {
    let mut reg = Registry::new();
    for (id, finish) in [
        ("t1", true),
        ("r1", false),
        ("t2", true),
        ("t3", true),
        ("r2", false),
    ] {
        let id = s(id);
        reg.create_build(&id);
        if finish {
            reg.complete_build(&id, vec![]);
        }
    }
    reg.cleanup_old_builds(1);
    // The running records survive.
    assert!(matches!(reg.get_build(&s("r1")), Some(BuildStatus::Running { .. })));
    assert!(matches!(reg.get_build(&s("r2")), Some(BuildStatus::Running { .. })));
    // Only the newest terminal record survives; the two oldest are gone.
    assert!(reg.get_build(&s("t1")).is_none());
    assert!(reg.get_build(&s("t2")).is_none());
    assert!(matches!(reg.get_build(&s("t3")), Some(BuildStatus::Success { .. })));
}

#[test]
fn reclaim_within_ceiling_changes_nothing() {
    let mut reg = Registry::new();
    reg.create_build(&s("a"));
    reg.complete_build(&s("a"), vec![]);
    reg.create_build(&s("b"));
    reg.cleanup_old_builds(5);
    assert!(reg.get_build(&s("a")).is_some());
    assert!(reg.get_build(&s("b")).is_some());
}

#[test]
fn reclaim_to_zero_evicts_every_terminal() {
    let mut reg = Registry::new();
    reg.create_build(&s("a"));
    reg.complete_build(&s("a"), vec![]);
    reg.create_build(&s("b"));
    assert!(reg.cancel_build(&s("b")));
    reg.create_build(&s("c"));
    reg.cleanup_old_builds(0);
    assert!(reg.get_build(&s("a")).is_none());
    assert!(reg.get_build(&s("b")).is_none());
    assert!(matches!(reg.get_build(&s("c")), Some(BuildStatus::Running { .. })));
}

#[test]
fn status_helpers_report_terminality_and_logs() {
    let running = BuildStatus::Running { logs: vec![s("a")] };
    assert!(!running.is_complete());
    assert_eq!(running.logs(), vec![s("a")]);

    let success = BuildStatus::Success { logs: vec![s("a"), s("b")], artifacts: vec![] };
    assert!(success.is_complete());
    assert_eq!(success.logs(), vec![s("a"), s("b")]);

    let failed = BuildStatus::Failed { logs: vec![s("x")], error: s("e"), exit_code: None };
    assert!(failed.is_complete());
    assert_eq!(failed.logs(), vec![s("x")]);

    assert!(BuildStatus::Cancelled.is_complete());
    assert!(BuildStatus::Cancelled.logs().is_empty());
}
