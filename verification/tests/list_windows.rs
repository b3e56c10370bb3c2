use niles::tmux::list_windows::{parse, parse_line, LIST_WINDOWS_FORMAT};

#[test]
fn parses_typed_tmux_fields() {
    let output = b"0\tniles\t1\t12345\tzsh\t0\n1\tniles-manager\t0\t23456\tagent\t1\n".to_vec();

    let snapshots = parse(&output).unwrap();

    assert_eq!(snapshots.len(), 2);
    assert_eq!(snapshots[0].name, "niles");
    assert!(snapshots[0].active);
    assert_eq!(snapshots[0].pane_pid, Some(12345));
    assert_eq!(snapshots[0].pane_current_command.as_deref(), Some("zsh"));
    assert!(!snapshots[0].pane_dead);
    assert_eq!(snapshots[1].name, "niles-manager");
    assert!(snapshots[1].pane_dead);
}

#[test]
fn rejects_malformed_field_count() {
    let err = parse(&b"0\tniles\t1\n".to_vec()).unwrap_err();

    assert!(err.to_string().contains("expected 6 fields"));
}

#[test]
fn rejects_malformed_typed_fields() {
    let err = parse(&b"0\tniles\tmaybe\t123\tzsh\t0\n".to_vec()).unwrap_err();

    assert!(err.to_string().contains("window active"));
}

#[test]
fn the_format_asks_for_the_six_fields_in_order() {
    assert_eq!(niles::tmux::list_windows::format(), LIST_WINDOWS_FORMAT);
    assert_eq!(LIST_WINDOWS_FORMAT.split('\t').count(), 6);
}

#[test]
fn an_empty_pid_and_command_read_as_absent() {
    let row = parse_line(1, "3\tbuild\t0\t\t\t0").unwrap();
    assert_eq!(row.index, 3);
    assert_eq!(row.pane_pid, None);
    assert_eq!(row.pane_current_command, None);
    assert!(!row.active);
}
