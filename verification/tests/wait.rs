use niles::wait::{
    dedup, detail, field, quoted, render, resolve_request, task_worker_ids, timeout_subject,
    wake_output_exec, WaitExit, WaitOutcome, WaitRequest, WaitScan, EXIT_TIMEOUT, EXIT_WAKE,
    EXIT_WORKER_CLOSED, MAX_LINE_BYTES,
};

#[test]
fn control_characters_are_escaped_and_long_lines_capped() {
    assert_eq!(render("done: a\tb\n"), "done: a\\tb\\n");
    assert_eq!(render("\u{1b}[2J"), "\\u{1b}[2J");
    let long = "x".repeat(5000);
    let shown = render(&long);
    assert!(shown.ends_with("... (truncated)"));
    assert_eq!(shown.len(), MAX_LINE_BYTES as usize + "... (truncated)".len());
    // A multi-byte character is never cut in half.
    let wide = "é".repeat(3000);
    let shown = render(&wide);
    assert!(shown.ends_with("... (truncated)"));
    assert!(shown.len() - "... (truncated)".len() <= MAX_LINE_BYTES as usize);
}

#[test]
fn fields_are_quoted_only_when_they_need_it() {
    assert_eq!(field("auth"), "auth");
    assert_eq!(field(""), "''");
    assert_eq!(field("a b"), "'a b'");
    assert_eq!(field("it's"), "'it'\\''s'");
    assert_eq!(quoted("x"), "'x'");
    assert_eq!(detail("say \"hi\"\n"), "\"say \\\"hi\\\"\\n\"");
}

#[test]
fn a_wake_prints_its_line_and_exits_zero() {
    let exit = WaitExit::from_outcome(
        WaitOutcome::Wake {
            id: "auth".to_owned(),
            line: "done: ok".to_owned(),
        },
        false,
    );
    assert_eq!(exit.code, EXIT_WAKE);
    assert_eq!(exit.stdout.as_deref(), Some("done: ok"));
    assert_eq!(exit.stderr, None);
    assert_eq!(wake_output_exec("auth", "done: ok".to_owned(), true), "auth: done: ok");
}

#[test]
fn a_closed_worker_exits_ten_and_says_so_on_stderr() {
    let exit = WaitExit::from_outcome(
        WaitOutcome::Closed {
            id: "auth".to_owned(),
            status: "/w/auth/status.log".to_owned(),
            line: "closed: auth".to_owned(),
        },
        true,
    );
    assert_eq!(exit.code, EXIT_WORKER_CLOSED);
    assert_eq!(exit.stdout.as_deref(), Some("auth: closed: auth"));
    assert_eq!(
        exit.stderr.as_deref(),
        Some("wait: worker-closed worker=auth status=/w/auth/status.log detail=\"worker 'auth' closed\"")
    );
}

#[test]
fn a_gone_window_is_a_failure_line() {
    let exit = WaitExit::from_outcome(
        WaitOutcome::WindowGone {
            id: "auth".to_owned(),
            status: "/s".to_owned(),
        },
        false,
    );
    assert_eq!(exit.code, EXIT_WORKER_CLOSED);
    assert_eq!(
        exit.stdout.as_deref(),
        Some("failed: worker 'auth' exited without reporting; its window is gone")
    );
    assert!(exit.stderr.unwrap().starts_with("wait: window-gone worker=auth status=/s detail="));
}

#[test]
fn a_timeout_prints_nothing_to_stdout() {
    let exit = WaitExit::from_outcome(
        WaitOutcome::Timeout {
            subject: "requested workers".to_owned(),
            timeout: "30s".to_owned(),
        },
        true,
    );
    assert_eq!(exit.code, EXIT_TIMEOUT);
    assert_eq!(exit.stdout, None);
    assert_eq!(
        exit.stderr.as_deref(),
        Some("wait: timeout target='requested workers' timeout=30s")
    );
}

#[test]
fn worker_ids_are_deduplicated_in_first_named_order() {
    let ids = ["b", "a", "b", "c", "a"].map(str::to_owned).to_vec();
    assert_eq!(dedup(ids), ["b", "a", "c"].map(str::to_owned).to_vec());
}

#[test]
fn exactly_one_of_workers_and_task_is_asked_for() {
    match resolve_request(vec!["a".to_owned(), "a".to_owned()], None).unwrap() {
        WaitRequest::Workers(ids) => assert_eq!(ids, vec!["a".to_owned()]),
        WaitRequest::Task(_) => panic!("workers were named"),
    }
    match resolve_request(Vec::new(), Some("ship".to_owned())).unwrap() {
        WaitRequest::Task(label) => assert_eq!(label, "ship"),
        WaitRequest::Workers(_) => panic!("a task was named"),
    }
    assert_eq!(
        resolve_request(vec!["a".to_owned()], Some("ship".to_owned())).err(),
        Some("use either --worker <id> or --task <label>, not both".to_owned())
    );
    assert_eq!(
        resolve_request(Vec::new(), None).err(),
        Some("wait requires --worker <id> or --task <label>".to_owned())
    );
}

#[test]
fn task_resolution_selects_labelled_live_workers() {
    assert_eq!(
        task_worker_ids("ship", vec!["a".to_owned(), "b".to_owned()], Vec::new()),
        Ok(vec!["a".to_owned(), "b".to_owned()])
    );
    let err = task_worker_ids("missing", Vec::new(), Vec::new()).unwrap_err();
    assert!(err.contains("no live workers with task label missing"));
}

#[test]
fn unknown_worker_id_aborts_batch_resolution() {
    let err = task_worker_ids(
        "ship",
        vec!["a".to_owned()],
        vec![("missing".to_owned(), "unknown worker id 'missing'".to_owned())],
    )
    .unwrap_err();
    assert!(err.contains("unknown worker id 'missing'"));
    assert_eq!(
        err,
        "failed to select workers with task label ship: missing: unknown worker id 'missing'"
    );
}

#[test]
fn a_timeout_names_one_log_or_the_whole_request() {
    assert_eq!(timeout_subject(&vec!["/s".to_owned()]), "/s");
    assert_eq!(
        timeout_subject(&vec!["/a".to_owned(), "/b".to_owned()]),
        "requested workers"
    );
}

#[test]
fn a_scan_skips_working_lines_and_stops_at_a_partial_one() {
    let mut scan = WaitScan::new();
    assert_eq!(scan.read_from(0), None);
    assert_eq!(scan.read_from(10), Some(0));
    let appended = b"working: a\ndone: b\nfail".to_vec();
    let (line, end) = scan.absorb(&appended).unwrap();
    assert_eq!(line, "done: b");
    assert_eq!(end, 19);
    assert_eq!(scan.scanned, 0);
    scan.deliver(end);
    assert_eq!(scan.absorb(&b"working: c\nfail".to_vec()), None);
    assert_eq!(scan.scanned, 30);
    // A log shorter than the position is a new log.
    assert_eq!(scan.read_from(5), Some(0));
    scan.resync(7);
    assert_eq!(scan.scanned, 7);
    scan.resync(3);
    assert_eq!(scan.scanned, 7);
}

#[test]
fn a_wake_cursor_reads_back_what_was_written() {
    let path = "/w/.niles/worker/a/wake.cursor";
    assert_eq!(niles::wait::cursor_text(4096), "4096\n");
    assert_eq!(niles::wait::read_wake_cursor(&niles::wait::cursor_text(4096), path), Ok(4096));
    assert_eq!(niles::wait::read_wake_cursor("", path), Ok(0));
    assert_eq!(niles::wait::read_wake_cursor("  \n", path), Ok(0));
    assert_eq!(
        niles::wait::read_wake_cursor("12x\n", path),
        Err(format!(
            "invalid wake cursor in {path}; remove it to resume: invalid digit found in string"
        ))
    );
    assert_eq!(
        niles::wait::read_wake_cursor("99999999999999999999", path),
        Err(format!(
            "invalid wake cursor in {path}; remove it to resume: number too large to fit in target type"
        ))
    );
}

#[test]
fn a_closed_line_closes_the_wait_and_any_other_wakes_it() {
    match WaitOutcome::for_line("a".to_owned(), "/w/a/status.log".to_owned(), "closed: agent exited (status 3)".to_owned()) {
        WaitOutcome::Closed { id, status, line } => {
            assert_eq!(id, "a");
            assert_eq!(status, "/w/a/status.log");
            assert_eq!(line, "closed: agent exited (status 3)");
        }
        _ => panic!("a closed line must close the wait"),
    }
    match WaitOutcome::for_line("a".to_owned(), "/w/a/status.log".to_owned(), "done: shipped".to_owned()) {
        WaitOutcome::Wake { id, line } => {
            assert_eq!(id, "a");
            assert_eq!(line, "done: shipped");
        }
        _ => panic!("a done line is a wake"),
    }
    match WaitOutcome::directory_removed("a".to_owned(), "/w/a/status.log".to_owned()) {
        WaitOutcome::Closed { line, .. } => assert_eq!(line, "closed: worker 'a' directory removed"),
        _ => panic!("a removed directory closes the wait"),
    }
}

#[test]
fn a_line_polled_from_the_log_is_handed_over_once() {
    let mut scan = WaitScan::new();
    let log = b"working: a\ndone: first\nworking: b\n".to_vec();
    let (line, end) = scan.poll_log(&log).unwrap();
    assert_eq!(line, "done: first");
    assert_eq!(end, 23);
    scan.deliver(end);
    assert_eq!(scan.poll_log(&log), None);
    let mut grown = log.clone();
    grown.extend_from_slice(b"failed: second\n");
    assert_eq!(scan.poll_log(&grown).unwrap().0, "failed: second");
}
