use niles::wait::{scan_from, select_wake, select_wake_with_offset, read_ack_cursor, ack_cursor_text};
use niles::wake::{
    is_actionable_wake, is_closed_wake, manager_worker_contract_examples,
    worker_contract_examples, WakeKind,
};

#[test]
fn parses_case_sensitive_wake_kind_prefixes() {
    assert_eq!(WakeKind::parse_line("done: shipped"), Some(WakeKind::Done));
    assert_eq!(
        WakeKind::parse_line("needs-decision: choose"),
        Some(WakeKind::NeedsDecision)
    );
    assert_eq!(
        WakeKind::parse_line("working: launch"),
        Some(WakeKind::Working)
    );
    assert_eq!(WakeKind::parse_line("Done: shipped"), None);
    assert_eq!(WakeKind::parse_line("done shipped"), None);
    assert_eq!(WakeKind::parse_line("done : shipped"), None);
}

#[test]
fn classifies_actionable_and_terminal_lines() {
    assert!(is_actionable_wake("done: shipped"));
    assert!(is_actionable_wake("closed: auth-fix"));
    assert!(!is_actionable_wake("working: launch"));
    assert!(!is_actionable_wake("note: launch"));
    assert!(is_closed_wake("closed: auth-fix"));
    assert!(!is_closed_wake("failed: auth-fix"));
}

#[test]
fn formats_wake_lines() {
    assert_eq!(niles::wake::line(WakeKind::Closed, "auth-fix"), "closed: auth-fix");
}

#[test]
fn renders_contract_echo_examples() {
    assert_eq!(
        worker_contract_examples("/tmp/status.log"),
        "echo \"done: short result\" >> /tmp/status.log\n\
echo \"blocked: blocker summary\" >> /tmp/status.log\n\
echo \"needs-decision: decision needed\" >> /tmp/status.log\n\
echo \"failed: failure summary\" >> /tmp/status.log"
    );
}

#[test]
fn a_kind_prints_back_as_it_parses() {
    for kind in [
        WakeKind::Done,
        WakeKind::Failed,
        WakeKind::Blocked,
        WakeKind::NeedsDecision,
        WakeKind::Closed,
        WakeKind::Working,
    ] {
        assert_eq!(WakeKind::parse(kind.as_str()), Some(kind));
        assert_eq!(WakeKind::parse_line(&niles::wake::line(kind, "x")), Some(kind));
    }
    assert!(!WakeKind::Working.is_actionable());
    assert!(WakeKind::Closed.is_terminal());
}

#[test]
fn the_manager_examples_name_the_target() {
    let text = manager_worker_contract_examples("$STATUS");
    assert!(text.contains(">> $STATUS"));
}

#[test]
fn selects_first_actionable_wake() {
    let lines = vec![
        "working: still running".to_owned(),
        "done: ready".to_owned(),
        "failed: later".to_owned(),
    ];

    assert_eq!(select_wake(&lines).as_deref(), Some("done: ready"));
}

#[test]
fn the_scanner_moves_past_what_it_hands_over() {
    let lines = vec![
        "working: a".to_owned(),
        "done: one".to_owned(),
        "working: b".to_owned(),
        "failed: two".to_owned(),
    ];
    assert_eq!(select_wake_with_offset(&lines), Some((1, "done: one".to_owned())));
    let (cursor, first) = scan_from(0, &lines);
    assert_eq!((cursor, first.as_deref()), (2, Some("done: one")));
    let (cursor, second) = scan_from(cursor, &lines);
    assert_eq!((cursor, second.as_deref()), (4, Some("failed: two")));
    let (cursor, third) = scan_from(cursor, &lines);
    assert_eq!((cursor, third), (4, None));
    assert_eq!(scan_from(99, &lines), (4, None));
}

#[test]
fn an_ack_cursor_is_read_capped_and_written_back() {
    assert_eq!(read_ack_cursor(None, 5, "s.ack"), Ok(0));
    assert_eq!(read_ack_cursor(Some(" 3\n"), 5, "s.ack"), Ok(3));
    assert_eq!(read_ack_cursor(Some("9"), 5, "s.ack"), Ok(5));
    assert_eq!(
        read_ack_cursor(Some("x"), 5, "s.ack"),
        Err("invalid ack cursor in s.ack: invalid digit found in string".to_owned())
    );
    assert_eq!(
        read_ack_cursor(Some(""), 5, "s.ack"),
        Err("invalid ack cursor in s.ack: cannot parse integer from empty string".to_owned())
    );
    assert_eq!(ack_cursor_text(12), "12\n");
}
