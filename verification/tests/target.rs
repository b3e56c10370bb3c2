use niles::tmux::target::{
    exact, parse_tagged_windows, recorded_window_state, recover_missing_target, target_state,
    window_presence, PaneTarget, RecordedWindowState, SessionName, TargetState, WindowPresence,
    WindowTarget,
};
use niles::tmux::CommandOutput;

#[test]
fn recorded_session_names_stay_permissive() {
    // Workers already running inside a dotted session recorded that name;
    // tightening `new` would strand them.
    assert!(SessionName::new("my.proj".to_owned()).is_ok());
}

#[test]
fn target_arg_anchors_both_components() {
    let target = WindowTarget::parse("niles:niles-auth").unwrap();

    assert_eq!(target.target_arg(), "=niles:=niles-auth");
}

#[test]
fn the_stored_form_stays_free_of_target_syntax() {
    let target = WindowTarget::parse("niles:niles-auth").unwrap();

    assert_eq!(target.render(), "niles:niles-auth");
    assert_eq!(
        WindowTarget::parse(&target.render()).unwrap().render(),
        "niles:niles-auth"
    );
}

#[test]
fn parses_valid_window_target() {
    let target = WindowTarget::parse("aquila:niles-auth-fix").unwrap();

    assert_eq!(target.session().as_str(), "aquila");
    assert_eq!(target.window(), "niles-auth-fix");
    assert_eq!(target.render(), "aquila:niles-auth-fix");
}

#[test]
fn rejects_missing_target_separator() {
    let err = WindowTarget::parse("niles-auth-fix").unwrap_err();

    assert!(err.to_string().contains("session:window"));
}

#[test]
fn rejects_empty_session() {
    let err = WindowTarget::parse(":niles-auth-fix").unwrap_err();

    assert!(err.to_string().contains("session name cannot be empty"));
}

#[test]
fn rejects_empty_window() {
    let err = WindowTarget::parse("aquila:").unwrap_err();

    assert!(err.contains("window name cannot be empty"));
}

#[test]
fn parses_tagged_window_rows() {
    let rows = parse_tagged_windows(
        &b"home:niles-auth\t/Users/j/code/niles\tauth\t0\nother:niles-docs\t\t\t0\n".to_vec(),
    )
    .unwrap();

    assert_eq!(rows.len(), 2);
    assert_eq!(rows[0].target.render(), "home:niles-auth");
    assert_eq!(rows[0].project.as_deref(), Some("/Users/j/code/niles"));
    assert_eq!(rows[0].worker_id.as_deref(), Some("auth"));
    assert_eq!(rows[1].project, None);
    assert_eq!(rows[1].worker_id, None);
}

#[test]
fn a_dead_pane_is_present_but_not_live() {
    assert_eq!(
        window_presence(&b"niles-run\t0\n".to_vec(), "niles-run"),
        WindowPresence::Live
    );
    assert_eq!(
        window_presence(&b"niles-run\t1\n".to_vec(), "niles-run"),
        WindowPresence::PaneExited
    );
    assert_eq!(
        window_presence(&b"niles-run\t0\n".to_vec(), "run"),
        WindowPresence::Absent
    );
}

#[test]
fn dead_panes_are_not_recovery_candidates() {
    let rows = parse_tagged_windows(
        &b"home:niles-auth\t/repo\tauth\t1\nhome:niles-docs\t/repo\tdocs\t0\n".to_vec(),
    )
    .unwrap();

    assert_eq!(rows.len(), 1);
    assert_eq!(rows[0].worker_id.as_deref(), Some("docs"));
}

#[test]
fn exact_pins_a_name() {
    assert_eq!(exact("niles"), "=niles");
}

#[test]
fn a_pane_id_is_trimmed_and_must_not_be_empty() {
    assert_eq!(PaneTarget::pane(" %3 ").unwrap().as_str(), "%3");
    assert_eq!(
        PaneTarget::pane("  ").unwrap_err(),
        "tmux pane id cannot be empty"
    );
    let target = WindowTarget::parse("niles:work").unwrap();
    assert_eq!(PaneTarget::window(&target).as_str(), "=niles:=work");
}

#[test]
fn a_tagged_window_is_recovered_by_identity() {
    let recorded = WindowTarget::parse("old:niles-auth").unwrap();
    let rows = parse_tagged_windows(
        &b"home:niles-auth\t/repo\tauth\t0\nhome:niles-docs\t/repo\tdocs\t0\n".to_vec(),
    )
    .unwrap();
    let state = recover_missing_target(Ok(rows), &recorded, "/repo", "auth", true);
    assert_eq!(state.text(), "orphan-recovered:home:niles-auth");
}

#[test]
fn two_tagged_windows_are_reported_not_guessed_at() {
    let recorded = WindowTarget::parse("old:niles-auth").unwrap();
    let rows = parse_tagged_windows(
        &b"a:niles-auth\t/repo\tauth\t0\nb:niles-auth\t/repo\tauth\t0\n".to_vec(),
    )
    .unwrap();
    let state = recover_missing_target(Ok(rows), &recorded, "/repo", "auth", false);
    assert_eq!(
        state.text(),
        "unknown:multiple tmux windows carry worker tags: a:niles-auth, b:niles-auth"
    );
}

#[test]
fn an_untagged_window_of_the_recorded_name_is_only_a_candidate() {
    let recorded = WindowTarget::parse("old:niles-auth").unwrap();
    let rows = parse_tagged_windows(&b"new:niles-auth\t\t\t0\n".to_vec()).unwrap();
    let state = recover_missing_target(Ok(rows), &recorded, "/repo", "auth", false);
    assert_eq!(state.text(), "orphan-legacy-candidate:new:niles-auth");
}

#[test]
fn nothing_to_recover_is_gone_or_dead_by_the_session() {
    let recorded = WindowTarget::parse("old:niles-auth").unwrap();
    let gone = recover_missing_target(Ok(Vec::new()), &recorded, "/repo", "auth", true);
    assert_eq!(gone, TargetState::OrphanGone);
    let dead = recover_missing_target(Ok(Vec::new()), &recorded, "/repo", "auth", false);
    assert_eq!(dead, TargetState::WindowDead);
    let failed = recover_missing_target(
        Err("tmux failed".to_owned()),
        &recorded,
        "/repo",
        "auth",
        false,
    );
    assert_eq!(failed.text(), "unknown:tmux failed");
}

#[test]
fn a_missing_session_is_told_apart_from_other_failures() {
    let recorded = WindowTarget::parse("niles:work").unwrap();
    let missing = Ok(CommandOutput {
        success: false,
        stdout: Vec::new(),
        stderr: b"can't find session: niles\n".to_vec(),
    });
    assert_eq!(
        recorded_window_state(&missing, &recorded),
        RecordedWindowState::SessionMissing
    );
    let other = Ok(CommandOutput {
        success: false,
        stdout: Vec::new(),
        stderr: b"server exited\n".to_vec(),
    });
    assert_eq!(
        recorded_window_state(&other, &recorded),
        RecordedWindowState::Unknown {
            error: "tmux list-windows failed for session niles: server exited".to_owned()
        }
    );
    let listed = Ok(CommandOutput {
        success: true,
        stdout: b"work\t1\n".to_vec(),
        stderr: Vec::new(),
    });
    let state = recorded_window_state(&listed, &recorded);
    assert_eq!(state, RecordedWindowState::PaneExited);
    assert_eq!(target_state(state), Ok(TargetState::PaneExited));
    assert_eq!(target_state(RecordedWindowState::SessionMissing), Err(true));
    assert_eq!(target_state(RecordedWindowState::WindowMissing), Err(false));
}
