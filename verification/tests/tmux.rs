use niles::tmux::target::SessionName;
use niles::tmux::{
    capture_start, collect_args, current_session, ensure_window_available, format_capture,
    new_window_args, new_window_session_target, send_line_literal_args, send_line_submit_args,
    session_name_from_stdout, window_name_taken, CommandOutput, SEND_LINE_SUBMIT_KEY,
};

#[test]
fn collect_args_owns_argument_strings() {
    assert_eq!(
        collect_args(&["send-keys", "-t", "niles:step", SEND_LINE_SUBMIT_KEY]),
        ["send-keys", "-t", "niles:step", SEND_LINE_SUBMIT_KEY].map(str::to_owned)
    );
}

#[test]
fn send_line_literal_args_preserve_multiline_message_as_one_argument() {
    assert_eq!(
        send_line_literal_args("niles:step", "line 1\nline 2"),
        ["send-keys", "-t", "niles:step", "-l", "line 1\nline 2"]
    );
}

#[test]
fn send_line_submit_args_use_discrete_control_m() {
    assert_eq!(
        send_line_submit_args("niles:step"),
        ["send-keys", "-t", "niles:step", SEND_LINE_SUBMIT_KEY]
    );
}

#[test]
fn format_capture_trims_tmux_padding_and_restores_single_newline() {
    assert_eq!(format_capture(&b"line 1\nline 2\n\n\n".to_vec()), "line 1\nline 2\n");
    assert_eq!(format_capture(&b"\n\n".to_vec()), "");
}

#[test]
fn capture_start_uses_full_history_for_zero_lines() {
    assert_eq!(capture_start(0), "-");
    assert_eq!(capture_start(2000), "-2000");
}

#[test]
fn window_name_taken_matches_exact_window_names() {
    let output = b"niles-run\nniles-run-extra\n".to_vec();

    assert!(window_name_taken(&output, "niles-run"));
    assert!(!window_name_taken(&output, "run"));
}

#[test]
fn session_name_from_stdout_trims_and_ignores_empty_output() {
    assert_eq!(
        session_name_from_stdout(&b"niles\n".to_vec()),
        Some("niles".to_owned())
    );
    assert_eq!(session_name_from_stdout(&b" \n".to_vec()), None);
}

#[test]
fn new_window_args_target_session_with_trailing_colon() {
    let session = SessionName::new("niles".to_owned()).unwrap();
    let session_target = new_window_session_target(&session);
    let args = new_window_args(
        &session_target,
        "niles-auth-fix",
        "/tmp/workspace",
        "sh launch.sh",
    );

    assert_eq!(
        args,
        [
            "new-window",
            "-d",
            "-t",
            "=niles:",
            "-n",
            "niles-auth-fix",
            "-c",
            "/tmp/workspace",
            "sh launch.sh"
        ]
    );
}

#[test]
fn a_taken_window_name_is_refused_and_a_failed_listing_reports_stderr() {
    let session = SessionName::new("niles".to_owned()).unwrap();
    let taken = CommandOutput {
        success: true,
        stdout: b"niles-run\nother\n".to_vec(),
        stderr: Vec::new(),
    };
    assert_eq!(
        ensure_window_available(&session, "niles-run", &taken).unwrap_err(),
        "tmux window niles:niles-run already exists"
    );
    assert!(ensure_window_available(&session, "niles", &taken).is_ok());

    let failed = CommandOutput {
        success: false,
        stdout: Vec::new(),
        stderr: b"  no server running\n".to_vec(),
    };
    assert_eq!(
        ensure_window_available(&session, "niles-run", &failed).unwrap_err(),
        "tmux list-windows failed for session niles: no server running"
    );
}

#[test]
fn outside_tmux_there_is_no_current_session() {
    assert!(current_session(false, Some("niles".to_owned()))
        .unwrap_err()
        .starts_with("niles must run inside tmux."));
    assert_eq!(
        current_session(true, None).unwrap_err(),
        "failed to determine the current tmux session name"
    );
    assert_eq!(
        current_session(true, Some("work".to_owned())).unwrap().as_str(),
        "work"
    );
}
