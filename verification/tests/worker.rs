use niles::worker::{spawn_plan, spawn_recovery, SpawnAction, SpawnRecovery};
use niles::tmux::target::RecordedWindowState;
use niles::time::UtcTime;
use niles::wake::WakeKind;
use niles::worker::{
    append_text, archived_report_note, close_group_result, group_header, group_success_lines,
    join_message, last_status_line, missing_report_message, no_live_worker_message, pane_label,
    report, resolve_peek_target, resolve_send_target, run_step_target, single_close_lines,
    spawn_request, step_window, validate_id, validate_task_label, worker_age, worker_close,
    worker_row, workers_header, CloseRequest, PaneRequest, WorkerCloseOutcome,
};

#[test]
fn closed_sentinel_starts_on_its_own_line() {
    let sentinel = niles::wake::line(WakeKind::Closed, "auth-fix");
    let log = "working: close requested";
    let appended = append_text(log.as_bytes().last().copied(), &sentinel);
    assert_eq!(
        format!("{log}{appended}"),
        "working: close requested\nclosed: auth-fix\n"
    );
    assert_eq!(append_text(Some(b'\n'), "x"), "x\n");
    assert_eq!(append_text(None, "x"), "x\n");
}

#[test]
fn worker_ids_are_plain_names() {
    assert!(validate_id("auth-fix_2").is_ok());
    assert_eq!(validate_id("").unwrap_err(), "worker id cannot be empty");
    assert_eq!(
        validate_id("archive").unwrap_err(),
        "worker id 'archive' is reserved for closed worker archives"
    );
    assert_eq!(
        validate_task_label("a b").unwrap_err(),
        "task label may only contain ASCII letters, numbers, '-' and '_'"
    );
}

#[test]
fn worker_close_takes_exactly_one_selector() {
    assert_eq!(
        worker_close(Some("a".to_owned()), None, false),
        Ok(CloseRequest::One("a".to_owned()))
    );
    assert_eq!(
        worker_close(None, Some("t".to_owned()), false),
        Ok(CloseRequest::Task("t".to_owned()))
    );
    assert_eq!(worker_close(None, None, true), Ok(CloseRequest::All));
    assert_eq!(
        worker_close(Some("a".to_owned()), None, true),
        Err("use a worker id, --task <label>, or --all".to_owned())
    );
    assert!(worker_close(None, None, false).is_err());
}

fn outcome(pane_error: Option<&str>, window_error: Option<&str>) -> WorkerCloseOutcome {
    WorkerCloseOutcome {
        id: "auth".to_owned(),
        archive_dir: "/w/archive/auth-1".to_owned(),
        pane_path: Some("/w/archive/auth-1/final-pane.txt".to_owned()),
        pane_error: pane_error.map(str::to_owned),
        window_name: "niles-auth".to_owned(),
        window_error: window_error.map(str::to_owned),
    }
}

#[test]
fn closing_one_worker_reports_each_step() {
    let lines = single_close_lines(&outcome(None, None));
    assert_eq!(
        lines,
        vec![
            "pane: /w/archive/auth-1/final-pane.txt".to_owned(),
            "closed window: niles-auth".to_owned(),
            "archive: /w/archive/auth-1".to_owned(),
            "closed: auth".to_owned(),
        ]
    );
    let troubled = single_close_lines(&outcome(Some("no pane"), Some("gone")));
    assert!(troubled.contains(&"pane not captured for worker auth: no pane".to_owned()));
    assert!(troubled.contains(&"window niles-auth not closed: gone".to_owned()));
}

#[test]
fn closing_a_group_lists_rows_and_fails_as_a_whole() {
    assert_eq!(
        group_success_lines(&outcome(None, None)),
        vec!["  auth,closed,/w/archive/auth-1".to_owned()]
    );
    assert!(group_header(2).contains('2'));
    assert!(close_group_result("task ship", &Vec::new()).is_ok());
    let err = close_group_result("task ship", &vec!["a".to_owned(), "b".to_owned()]).unwrap_err();
    assert!(err.contains("a, b"), "{err}");
}

#[test]
fn a_report_comes_from_the_live_worker_then_its_archive() {
    let live = report("auth", Some("/w/auth".to_owned()), Some("/a/auth".to_owned())).unwrap();
    assert_eq!(live.path, "/w/auth/report.md");
    assert_eq!(live.archive_dir, None);
    let archived = report("auth", None, Some("/a/auth".to_owned())).unwrap();
    assert_eq!(archived.path, "/a/auth/report.md");
    assert_eq!(archived.archive_dir.as_deref(), Some("/a/auth"));
    assert_eq!(
        report("auth", None, None).err().unwrap(),
        "no report found for worker 'auth': no live worker or archive found"
    );
    assert_eq!(
        report("", None, None).err().unwrap(),
        "worker id cannot be empty"
    );
    assert_eq!(
        archived_report_note("/a/auth/report.md", "/a/auth"),
        "serving archived report from /a/auth/report.md (archive: /a/auth)"
    );
    assert!(missing_report_message("auth", "/w/auth/report.md", Some("/w/auth/final-pane.txt"))
        .ends_with("final pane snapshot is available at /w/auth/final-pane.txt"));
    assert!(missing_report_message("auth", "/w/auth/report.md", None)
        .ends_with("workers should write substantial deliverables to report.md"));
}

#[test]
fn a_worker_that_is_not_live_points_at_its_archive() {
    assert_eq!(
        no_live_worker_message("auth", Ok(Some("/a/auth-1".to_owned()))),
        "no live worker 'auth'; latest archive: /a/auth-1"
    );
    assert_eq!(no_live_worker_message("auth", Ok(None)), "no live worker 'auth'");
    assert_eq!(
        no_live_worker_message("auth", Err("denied".to_owned())),
        "no live worker 'auth'; failed to inspect archives: denied"
    );
}

#[test]
fn ages_are_the_largest_whole_unit() {
    let now = UtcTime::from_secs(100_000);
    let ago = |s: i64| Some(UtcTime::from_secs(100_000 - s));
    assert_eq!(worker_age(ago(59), None, now), "59s");
    assert_eq!(worker_age(ago(60), None, now), "1m");
    assert_eq!(worker_age(None, ago(7200), now), "2h");
    assert_eq!(worker_age(ago(90_000), None, now), "1d");
    assert_eq!(worker_age(None, None, now), "0s");
    assert_eq!(worker_age(Some(UtcTime::from_secs(200_000)), None, now), "0s");
}

#[test]
fn the_last_status_is_the_last_non_blank_line() {
    assert_eq!(
        last_status_line("working: a\ndone: b\n\n  \n").as_deref(),
        Some("done: b")
    );
    assert_eq!(last_status_line(" \n"), None);
    assert_eq!(
        workers_header(3),
        "workers[3]{id,agent,task,age,wake,window,last_status}:"
    );
    assert_eq!(
        worker_row("auth", "codex", None, "5m", true, "live", Some("done: ok")),
        "  auth,codex,-,5m,pending,live,done: ok"
    );
    assert_eq!(
        worker_row("rev", "hermes", Some("auth"), "2h", false, "agent-exited", None),
        "  rev,hermes,auth,2h,-,agent-exited,-"
    );
}

#[test]
fn a_pane_is_a_worker_or_a_run_step() {
    assert_eq!(
        run_step_target(Some("r1".to_owned()), Some(2)),
        Ok(PaneRequest::RunStep {
            run: "r1".to_owned(),
            index: 2
        })
    );
    assert_eq!(
        run_step_target(Some("r1".to_owned()), Some(0)),
        Err("step index must be >= 1".to_owned())
    );
    assert_eq!(
        run_step_target(None, Some(1)),
        Err("run-step target requires --run <id>".to_owned())
    );
    assert_eq!(
        resolve_peek_target(Some("auth".to_owned()), None, None),
        Ok(PaneRequest::Worker("auth".to_owned()))
    );
    assert_eq!(
        resolve_peek_target(Some("auth".to_owned()), Some("r".to_owned()), None),
        Err("use either a worker id or --run <id> --index <N>, not both".to_owned())
    );
    assert_eq!(
        resolve_peek_target(None, None, None),
        Err("peek requires a worker id or --run <id> --index <N>".to_owned())
    );
    assert_eq!(
        pane_label(&PaneRequest::RunStep {
            run: "r1".to_owned(),
            index: 3
        }),
        "r1 step 3"
    );
}

#[test]
fn send_takes_a_target_then_its_words() {
    let (target, words) = resolve_send_target(
        None,
        None,
        vec!["auth".to_owned(), "fix".to_owned(), "it".to_owned()],
    )
    .unwrap();
    assert_eq!(target, PaneRequest::Worker("auth".to_owned()));
    assert_eq!(join_message(&words), "fix it");
    assert_eq!(
        resolve_send_target(None, None, vec!["auth".to_owned()]).err(),
        Some("send requires a message".to_owned())
    );
    assert_eq!(
        resolve_send_target(None, None, Vec::new()).err(),
        Some("send requires a worker id or --run <id> --index <N>".to_owned())
    );
}

#[test]
fn a_run_step_window_is_found_by_index() {
    let steps = vec![(1, Some("niles:step-1".to_owned())), (2, None)];
    assert_eq!(step_window("r1", 1, &steps), Ok("niles:step-1".to_owned()));
    assert_eq!(
        step_window("r1", 2, &steps),
        Err("step 2 in run r1 has no recorded window".to_owned())
    );
    assert_eq!(
        step_window("r1", 9, &steps),
        Err("step 9 not found in run r1".to_owned())
    );
}

#[test]
fn spawn_needs_a_brief_or_task_text() {
    assert!(spawn_request("auth", Some("ship"), false, 2).is_ok());
    assert_eq!(
        spawn_request("auth", None, false, 0),
        Err("spawn requires either --brief or task text".to_owned())
    );
    assert_eq!(
        spawn_request("auth", Some("bad label"), true, 0),
        Err("task label may only contain ASCII letters, numbers, '-' and '_'".to_owned())
    );
}

fn archive(path: &str, name: &str) -> (String, String) {
    (path.to_owned(), name.to_owned())
}

#[test]
fn the_newest_archive_of_a_worker_wins_and_prefix_siblings_are_skipped() {
    let dirs = vec![
        archive("/a/auth-20240102T030405000000001Z", "auth-20240102T030405000000001Z"),
        archive("/a/auth-20240102T030405000000002Z", "auth-20240102T030405000000002Z"),
        archive("/a/auth-20230101T000000000000000Z", "auth-20230101T000000000000000Z"),
        archive("/a/auth-fix-20250101T000000000000000Z", "auth-fix-20250101T000000000000000Z"),
        archive("/a/other-20260101T000000000000000Z", "other-20260101T000000000000000Z"),
        archive("/a/auth-notes", "auth-notes"),
    ];
    assert_eq!(
        niles::worker::latest_archive("auth", &dirs),
        Some("/a/auth-20240102T030405000000002Z".to_owned())
    );
    assert_eq!(
        niles::worker::latest_archive("auth-fix", &dirs),
        Some("/a/auth-fix-20250101T000000000000000Z".to_owned())
    );
    assert_eq!(niles::worker::latest_archive("missing", &dirs), None);
}

#[test]
fn archives_made_at_the_same_instant_order_by_path() {
    let dirs = vec![
        archive("/b/auth-20240101T000000000000000Z", "auth-20240101T000000000000000Z"),
        archive("/a/auth-20240101T000000000000000Z", "auth-20240101T000000000000000Z"),
    ];
    assert_eq!(
        niles::worker::latest_archive("auth", &dirs),
        Some("/b/auth-20240101T000000000000000Z".to_owned())
    );
}

#[test]
fn a_task_selects_its_labelled_workers_and_reports_unreadable_ones() {
    let metas = vec![
        ("a".to_owned(), Ok(Some("fix".to_owned()))),
        ("b".to_owned(), Ok(Some("other".to_owned()))),
        ("c".to_owned(), Err("failed to parse c/meta.json".to_owned())),
        ("d".to_owned(), Ok(None)),
        ("e".to_owned(), Ok(Some("fix".to_owned()))),
    ];
    let (ids, failures) = niles::worker::select_by_task("fix", &metas);
    assert_eq!(ids, vec!["a".to_owned(), "e".to_owned()]);
    assert_eq!(
        failures,
        vec![("c".to_owned(), "failed to parse c/meta.json".to_owned())]
    );
}

#[test]
fn closing_all_workers_names_each_live_worker_once_in_order() {
    let found = vec![
        "beta".to_owned(),
        "alpha".to_owned(),
        "beta".to_owned(),
        "Zed".to_owned(),
        "alpha".to_owned(),
    ];
    assert_eq!(
        niles::worker::close_all_worker_ids(&found),
        vec!["Zed".to_owned(), "alpha".to_owned(), "beta".to_owned()]
    );
    assert!(niles::worker::close_all_worker_ids(&Vec::new()).is_empty());
}

#[test]
fn a_wake_is_pending_until_a_wait_collects_it() {
    let log = b"working: a\ndone: first\nworking: b\n".to_vec();
    assert!(niles::worker::wake_pending(&log, 0));
    assert!(!niles::worker::wake_pending(&log, 23));
    assert!(!niles::worker::wake_pending(&b"working: a\ndone: part".to_vec(), 0));
    assert!(niles::worker::wake_pending(&log, 500));
    assert!(!niles::worker::wake_pending(&Vec::new(), 0));
}

#[test]
fn window_health_names_live_exited_and_dead_windows() {
    assert_eq!(niles::worker::window_health(RecordedWindowState::Live), "live");
    assert_eq!(niles::worker::window_health(RecordedWindowState::PaneExited), "agent-exited");
    assert_eq!(niles::worker::window_health(RecordedWindowState::WindowMissing), "window-dead");
    assert_eq!(niles::worker::window_health(RecordedWindowState::SessionMissing), "window-dead");
    assert_eq!(
        niles::worker::window_health(RecordedWindowState::Unknown {
            error: "tmux exploded".to_owned()
        }),
        "unknown:tmux exploded"
    );
}

#[test]
fn a_spawned_worker_prints_the_tier_it_runs_at() {
    assert_eq!(
        niles::worker::worker_tier_lines(Some("codex"), Some("gpt-5.5"), Some("xhigh")),
        vec!["agent_family: codex", "model: gpt-5.5", "effort: xhigh"]
    );
    assert_eq!(
        niles::worker::worker_tier_lines(Some("hermes"), Some("tencent/hy3"), None),
        vec!["agent_family: hermes", "model: tencent/hy3"]
    );
    assert!(niles::worker::worker_tier_lines(None, None, None).is_empty());
}

#[test]
fn a_spawn_prints_where_the_worker_runs_and_how_to_reach_it() {
    assert_eq!(
        niles::worker::spawn_summary_lines(
            "auth-impl",
            "niles-auth-impl",
            "codex:gpt-5.5:xhigh",
            (Some("codex"), Some("gpt-5.5"), Some("xhigh")),
            Some("auth"),
            "/w/.niles/worker/auth-impl/brief.md",
        ),
        vec![
            "spawned: auth-impl",
            "window: niles-auth-impl",
            "agent: codex:gpt-5.5:xhigh",
            "agent_family: codex",
            "model: gpt-5.5",
            "effort: xhigh",
            "task: auth",
            "brief: /w/.niles/worker/auth-impl/brief.md",
            "peek: niles peek auth-impl",
            "report: niles report auth-impl",
            "send: niles send auth-impl <message>",
            "close: niles close auth-impl",
            "close_task: niles close --task auth",
            "workers: niles workers",
        ]
    );
    let plain = niles::worker::spawn_summary_lines("w", "niles-w", "local", (None, None, None), None, "/b.md");
    assert_eq!(plain.len(), 9);
    assert_eq!(plain[3], "brief: /b.md");
    assert_eq!(plain[8], "workers: niles workers");
}

#[test]
fn a_live_id_is_refused_and_a_failed_launch_says_what_was_cleaned_up() {
    assert_eq!(
        niles::worker::spawn_collision("auth", true),
        Err("worker id 'auth' already exists".to_owned())
    );
    assert_eq!(niles::worker::spawn_collision("auth", false), Ok(()));
    assert_eq!(
        niles::worker::failed_launch_context("auth", "/w/.niles/worker/auth", Ok(())),
        "failed to launch worker auth; cleaned up partial worker at /w/.niles/worker/auth"
    );
    assert_eq!(
        niles::worker::failed_launch_context(
            "auth",
            "/w/.niles/worker/auth",
            Err("permission denied".to_owned())
        ),
        "failed to launch worker auth; additionally failed to clean up partial worker at \
         /w/.niles/worker/auth: permission denied"
    );
}

#[test]
fn created_at_reads_as_rfc3339() {
    assert_eq!(
        niles::worker::created_at_of(Some("2026-07-06T00:00:00Z")),
        Some(UtcTime::from_secs(1_783_296_000))
    );
    assert_eq!(niles::worker::created_at_of(Some("yesterday")), None);
    assert_eq!(niles::worker::created_at_of(None), None);
}

const OUTSIDE_TMUX: &str = "niles must run inside tmux. Start one with `tmux new -s niles`, or attach an existing session, then rerun.";

#[test]
fn spawn_plan_lists_every_step_in_order() {
    assert_eq!(
        spawn_plan("auth", Some("wave1"), false, 3, true, false, false),
        Ok(vec![SpawnAction::CreateDir, SpawnAction::WriteBrief, SpawnAction::CreateStatusLog, SpawnAction::RegisterLocation, SpawnAction::LaunchWindow, SpawnAction::WriteMeta])
    );
    assert_eq!(
        spawn_plan("auth", None, true, 0, true, false, true),
        Ok(vec![SpawnAction::ArchiveStale, SpawnAction::CreateDir, SpawnAction::CreateStatusLog, SpawnAction::RegisterLocation, SpawnAction::LaunchWindow, SpawnAction::WriteMeta])
    );
}

#[test]
fn spawn_outside_tmux_is_refused_before_anything_is_written() {
    assert_eq!(
        spawn_plan("auth", None, false, 2, false, false, true),
        Err(OUTSIDE_TMUX.to_owned())
    );
    // Argument refusals come first, even outside tmux.
    assert_eq!(
        spawn_plan("auth", None, false, 0, false, false, false),
        Err("spawn requires either --brief or task text".to_owned())
    );
    assert_eq!(
        spawn_plan("archive", None, true, 0, false, false, false),
        Err("worker id 'archive' is reserved for closed worker archives".to_owned())
    );
}

#[test]
fn spawn_over_a_live_worker_is_refused() {
    assert_eq!(
        spawn_plan("auth", None, true, 0, true, true, true),
        Err("worker id 'auth' already exists".to_owned())
    );
}

#[test]
fn a_failed_launch_is_cleaned_up_before_the_spawn_fails() {
    let dir = "/w/.niles/worker/auth";
    assert_eq!(
        spawn_recovery("auth", dir, SpawnAction::LaunchWindow, "no server".to_owned(), None),
        SpawnRecovery::Then(SpawnAction::Cleanup)
    );
    assert_eq!(
        spawn_recovery("auth", dir, SpawnAction::LaunchWindow, "no server".to_owned(), Some(Ok(()))),
        SpawnRecovery::Fail(
            "failed to launch worker auth; cleaned up partial worker at /w/.niles/worker/auth: no server"
                .to_owned()
        )
    );
    assert_eq!(
        spawn_recovery(
            "auth",
            dir,
            SpawnAction::LaunchWindow,
            "no server".to_owned(),
            Some(Err("busy".to_owned()))
        ),
        SpawnRecovery::Fail(
            "failed to launch worker auth; additionally failed to clean up partial worker at /w/.niles/worker/auth: busy: no server"
                .to_owned()
        )
    );
    assert_eq!(
        spawn_recovery("auth", dir, SpawnAction::CreateDir, "denied".to_owned(), None),
        SpawnRecovery::Fail("denied".to_owned())
    );
}

#[test]
fn a_worker_window_is_named_after_its_id() {
    assert_eq!(niles::worker::worker_window_name("auth-fix"), "niles-auth-fix");
}
