use xcbridge::observer::observe_poll;
use xcbridge::observer::status_name;
use xcbridge::registry::BuildStatus;

fn s(text: &str) -> String {
    text.to_string()
}

#[test]
fn lines_are_delivered_exactly_once_across_cycles() {
    // First cycle: two lines have arrived.
    let snap1 = Some(BuildStatus::Running { logs: vec![s("a"), s("b")] });
    let step1 = observe_poll(&snap1, 0);
    assert_eq!(step1.lines, vec![s("a"), s("b")]);
    assert_eq!(step1.next_cursor, 2);
    assert!(step1.complete.is_none());
    assert!(!step1.ended);

    // Nothing new: the cycle delivers nothing and does not end.
    let step2 = observe_poll(&snap1, step1.next_cursor);
    assert!(step2.lines.is_empty());
    assert_eq!(step2.next_cursor, 2);
    assert!(!step2.ended);

    // A burst of lines and completion: only the new lines are delivered,
    // with exactly one completion event.
    let snap3 = Some(BuildStatus::Success {
        logs: vec![s("a"), s("b"), s("c"), s("d")],
        artifacts: vec![],
    });
    let step3 = observe_poll(&snap3, step2.next_cursor);
    assert_eq!(step3.lines, vec![s("c"), s("d")]);
    assert_eq!(step3.next_cursor, 4);
    assert_eq!(step3.complete, Some(s("success")));
    assert!(step3.ended);
}

#[test]
fn unknown_job_ends_the_stream_with_no_events() {
    let step = observe_poll(&None, 0);
    assert!(step.lines.is_empty());
    assert!(step.complete.is_none());
    assert!(step.ended);
}

#[test]
fn failed_job_completes_the_stream_with_its_status() {
    let snap = Some(BuildStatus::Failed {
        logs: vec![s("x")],
        error: s("error: boom"),
        exit_code: Some(65),
    });
    let step = observe_poll(&snap, 0);
    assert_eq!(step.lines, vec![s("x")]);
    assert_eq!(step.complete, Some(s("failed")));
    assert!(step.ended);
}

#[test]
fn cancellation_truncates_without_replaying() {
    // The observer had already seen three lines; cancellation discarded
    // the logs, so the cursor lies beyond the snapshot's log length and
    // nothing further is delivered.
    let snap = Some(BuildStatus::Cancelled);
    let step = observe_poll(&snap, 3);
    assert!(step.lines.is_empty());
    assert_eq!(step.next_cursor, 0);
    assert_eq!(step.complete, Some(s("cancelled")));
    assert!(step.ended);
}

#[test]
fn status_names_cover_every_state() {
    assert_eq!(status_name(&BuildStatus::Running { logs: vec![] }), s("running"));
    assert_eq!(
        status_name(&BuildStatus::Success { logs: vec![], artifacts: vec![] }),
        s("success")
    );
    assert_eq!(
        status_name(&BuildStatus::Failed { logs: vec![], error: s("e"), exit_code: None }),
        s("failed")
    );
    assert_eq!(status_name(&BuildStatus::Cancelled), s("cancelled"));
}
