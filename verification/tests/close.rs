use niles::close::{group_close_result, group_rows, CloseAction, CloseEvent, ClosePhase, WorkerClose};
use niles::worker::WorkerCloseOutcome;

fn outcome(id: &str) -> WorkerCloseOutcome {
    WorkerCloseOutcome {
        id: id.to_owned(),
        archive_dir: format!("/w/.niles/worker/archive/{id}-20240101T000000000000000Z"),
        pane_path: None,
        pane_error: None,
        window_name: format!("niles-{id}"),
        window_error: None,
    }
}

fn expect_action(action: &CloseAction) -> &'static str {
    match action {
        CloseAction::AppendSentinel(_) => "append",
        CloseAction::CapturePane => "capture",
        CloseAction::CloseWindow => "window",
        CloseAction::Archive => "archive",
        CloseAction::Unregister => "unregister",
        CloseAction::Finish(_) => "finish",
    }
}

#[test]
fn a_close_appends_the_sentinel_first() {
    let (state, action) = WorkerClose::start("auth-fix".to_owned(), "niles-auth-fix".to_owned());
    assert_eq!(state.phase, ClosePhase::Sentinel);
    match action {
        CloseAction::AppendSentinel(line) => assert_eq!(line, "closed: auth-fix"),
        other => panic!("expected the sentinel, got {}", expect_action(&other)),
    }
}

#[test]
fn a_window_that_cannot_be_closed_still_archives_and_unregisters() {
    let (state, _) = WorkerClose::start("auth-fix".to_owned(), "niles-auth-fix".to_owned());
    let (state, action) = state.step(CloseEvent::SentinelAppended(Ok(())));
    assert_eq!(expect_action(&action), "capture");
    let (state, action) = state.step(CloseEvent::PaneCaptured(Ok(true)));
    assert_eq!(expect_action(&action), "window");
    let (state, action) = state.step(CloseEvent::WindowClosed(Err("can't find window".to_owned())));
    assert_eq!(expect_action(&action), "archive");
    let dir = "/w/.niles/worker/archive/auth-fix-20240101T000000000000000Z".to_owned();
    let (state, action) = state.step(CloseEvent::Archived(Ok(dir.clone())));
    assert_eq!(expect_action(&action), "unregister");
    let (state, action) = state.step(CloseEvent::Unregistered(Ok(())));
    assert_eq!(state.phase, ClosePhase::Finished);
    match action {
        CloseAction::Finish(Ok(o)) => {
            assert_eq!(o.id, "auth-fix");
            assert_eq!(o.archive_dir, dir);
            assert_eq!(o.window_error.as_deref(), Some("can't find window"));
            assert_eq!(o.pane_path.as_deref(), Some(format!("{dir}/final-pane.txt").as_str()));
            let lines = niles::worker::single_close_lines(&o);
            assert_eq!(lines[0], format!("pane: {dir}/final-pane.txt"));
            assert_eq!(lines[1], "window niles-auth-fix not closed: can't find window");
            assert_eq!(lines.last().map(String::as_str), Some("closed: auth-fix"));
        }
        other => panic!("expected a finished close, got {}", expect_action(&other)),
    }
}

#[test]
fn a_pane_that_cannot_be_captured_is_reported_not_fatal() {
    let (state, _) = WorkerClose::start("w".to_owned(), "niles-w".to_owned());
    let (state, _) = state.step(CloseEvent::SentinelAppended(Ok(())));
    let (state, _) = state.step(CloseEvent::PaneCaptured(Err("no pane".to_owned())));
    let (state, _) = state.step(CloseEvent::WindowClosed(Ok(())));
    let (state, _) = state.step(CloseEvent::Archived(Ok("/a/w-1".to_owned())));
    let (_, action) = state.step(CloseEvent::Unregistered(Ok(())));
    match action {
        CloseAction::Finish(Ok(o)) => {
            assert_eq!(o.pane_error.as_deref(), Some("no pane"));
            assert_eq!(o.pane_path, None);
            assert_eq!(o.window_error, None);
        }
        other => panic!("expected a finished close, got {}", expect_action(&other)),
    }
}

#[test]
fn a_failed_sentinel_or_archive_stops_the_close() {
    let (state, _) = WorkerClose::start("w".to_owned(), "niles-w".to_owned());
    let (state, action) = state.step(CloseEvent::SentinelAppended(Err("read-only".to_owned())));
    assert_eq!(state.phase, ClosePhase::Finished);
    assert!(matches!(action, CloseAction::Finish(Err(ref e)) if e == "read-only"));

    let (state, _) = WorkerClose::start("w".to_owned(), "niles-w".to_owned());
    let (state, _) = state.step(CloseEvent::SentinelAppended(Ok(())));
    let (state, _) = state.step(CloseEvent::PaneCaptured(Ok(false)));
    let (state, _) = state.step(CloseEvent::WindowClosed(Ok(())));
    let (state, action) = state.step(CloseEvent::Archived(Err("rename failed".to_owned())));
    assert_eq!(state.phase, ClosePhase::Finished);
    assert!(matches!(action, CloseAction::Finish(Err(ref e)) if e == "rename failed"));
    assert!(!state.accepts(&CloseEvent::Unregistered(Ok(()))));
}

#[test]
fn a_group_close_fails_naming_selection_failures_then_close_failures() {
    let selection = vec![("zeta".to_owned(), "bad meta".to_owned())];
    let closed = vec![
        ("alpha".to_owned(), Ok(outcome("alpha"))),
        ("beta".to_owned(), Err("no such window".to_owned())),
        ("gamma".to_owned(), Ok(outcome("gamma"))),
    ];
    assert_eq!(
        group_close_result("--task wave", &selection, &closed),
        Err("worker-close --task wave failed for 2 worker(s): zeta, beta".to_owned())
    );
}

#[test]
fn a_group_close_succeeds_only_when_nothing_failed() {
    let closed = vec![("alpha".to_owned(), Ok(outcome("alpha")))];
    assert_eq!(group_close_result("--all", &Vec::new(), &closed), Ok(()));
    assert_eq!(group_close_result("--all", &Vec::new(), &Vec::new()), Ok(()));
    assert_eq!(
        group_close_result("--all", &vec![("a".to_owned(), "x".to_owned())], &Vec::new()),
        Err("worker-close --all failed for 1 worker(s): a".to_owned())
    );
}

#[test]
fn group_rows_report_each_worker() {
    let (out, err) = group_rows("beta", &Err("no such window".to_owned()));
    assert_eq!(out, vec!["  beta,failed,-".to_owned()]);
    assert_eq!(err.as_deref(), Some("worker beta close failed: no such window"));
    let mut o = outcome("alpha");
    o.window_error = Some("gone".to_owned());
    let (out, err) = group_rows("alpha", &Ok(o));
    assert_eq!(
        out,
        vec![
            "  alpha,closed,/w/.niles/worker/archive/alpha-20240101T000000000000000Z".to_owned(),
            "  alpha,window-not-closed,gone".to_owned(),
        ]
    );
    assert_eq!(err, None);
}
