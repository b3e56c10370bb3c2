use niles::checkin::{Checkin, Recheck};
use niles::decide::{ArmedCheckin, Commit, Plan, WatchMemory, WorkerSnapshot};
use niles::time::UtcTime;

const WINDOW: &str = "working: launch\n";
const DONE: &str = "done: shipped\n";

fn at(seconds: i64) -> UtcTime {
    UtcTime::from_secs(seconds)
}

fn worker(id: &str, log: &str) -> WorkerSnapshot {
    WorkerSnapshot::new(
        id.to_owned(),
        format!("/w/{id}"),
        Some(log.as_bytes().to_vec()),
    )
}

fn armed_with(log: &str, delay_secs: u64, recheck: Recheck, now: UtcTime) -> Vec<ArmedCheckin> {
    vec![ArmedCheckin {
        id: "impl".to_owned(),
        checkin: Checkin::armed(delay_secs, recheck, worker("impl", log).log_len, now),
    }]
}

fn armed_over(log: &str, delay_secs: u64, now: UtcTime) -> Vec<ArmedCheckin> {
    armed_with(log, delay_secs, Recheck::Backoff, now)
}

fn reports(plan: &Plan) -> Vec<&str> {
    plan.nudges
        .iter()
        .filter(|nudge| matches!(nudge.commit, Commit::Seen(_)))
        .map(|nudge| nudge.text.as_str())
        .collect()
}

#[test]
fn a_report_right_after_dispatch_nudges_once() {
    let now = at(1_000);
    let checkins = armed_over(WINDOW, 300, now);
    let mut memory = WatchMemory::at_start(&[worker("impl", WINDOW)]);
    let dispatched = || worker("impl", &format!("{WINDOW}{DONE}"));

    let plan = memory.plan(&[dispatched()], &checkins, at(1060));
    assert_eq!(
        reports(&plan),
        vec!["niles: impl reported (done) — check workers"]
    );
    assert_eq!(plan.disarms.len(), 1);
    assert_eq!(plan.disarms[0].id, "impl");

    memory.commit(&plan.nudges[0]);
    let quiet = memory.plan(&[dispatched()], &[], at(1061));
    assert!(quiet.nudges.is_empty(), "{quiet:?}");
}

#[test]
fn done_send_done_nudges_twice() {
    let mut memory = WatchMemory::at_start(&[worker("impl", WINDOW)]);
    let first = format!("{WINDOW}{DONE}");
    let second = format!("{first}done: shipped again\n");

    let plan = memory.plan(&[worker("impl", &first)], &[], at(1030));
    assert_eq!(
        reports(&plan),
        vec!["niles: impl reported (done) — check workers"]
    );
    memory.commit(&plan.nudges[0]);

    let plan = memory.plan(&[worker("impl", &second)], &[], at(1060));
    assert_eq!(
        reports(&plan),
        vec!["niles: impl reported (done) — check workers"]
    );
}

#[test]
fn a_log_that_only_grew_with_working_lines_nudges_nobody() {
    let mut memory = WatchMemory::at_start(&[worker("impl", WINDOW)]);
    let busy = worker("impl", &format!("{WINDOW}working: still going\n"));

    let plan = memory.plan(&[busy], &[], at(1300));

    assert!(plan.nudges.is_empty(), "{plan:?}");
}

#[test]
fn history_present_at_thread_start_never_nudges() {
    let mut memory = WatchMemory::at_start(&[worker("impl", &format!("{WINDOW}{DONE}"))]);

    let plan = memory.plan(&[worker("impl", &format!("{WINDOW}{DONE}"))], &[], at(1_000));

    assert!(plan.nudges.is_empty(), "{plan:?}");
}

#[test]
fn a_replaced_log_starts_over() {
    let mut memory = WatchMemory::at_start(&[worker("impl", "done: a much longer report\n")]);

    let plan = memory.plan(&[worker("impl", DONE)], &[], at(1_000));

    assert_eq!(
        reports(&plan),
        vec!["niles: impl reported (done) — check workers"]
    );
}

#[test]
fn check_ins_fire_at_five_eight_and_eleven_minutes_with_no_report() {
    let now = at(1_000);
    let mut memory = WatchMemory::at_start(&[worker("impl", WINDOW)]);
    // A fixed three-minute re-check: every fire re-arms three minutes out.
    let mut armed = armed_with(WINDOW, 300, Recheck::Fixed(180), now);
    let busy = || worker("impl", WINDOW);

    let early = memory.plan(&[busy()], &armed, at(1299));
    assert!(early.nudges.is_empty(), "{early:?}");

    for (offset, minutes) in [(300, 5), (480, 8), (660, 11)] {
        let plan = memory.plan(&[busy()], &armed, at(1_000 + offset));
        assert_eq!(
            plan.nudges
                .iter()
                .map(|nudge| nudge.text.as_str())
                .collect::<Vec<_>>(),
            vec![format!("niles: no report from impl in {minutes}m — check it")],
            "at {offset}s"
        );
        assert!(plan.disarms.is_empty());

        let nudge = plan.nudges[0].clone();
        memory.commit(&nudge);
        let Commit::Checkin { next, .. } = nudge.commit else {
            panic!("a check-in nudge must carry its re-arm");
        };
        assert_eq!(next.elapsed_label(), format!("{}m", minutes + 3));
        armed = vec![ArmedCheckin {
            id: "impl".to_owned(),
            checkin: next,
        }];
    }
}

#[test]
fn a_failed_check_in_nudge_is_not_recorded_so_the_next_tick_fires_it_again() {
    let now = at(1_000);
    let checkins = armed_over(WINDOW, 300, now);
    let mut memory = WatchMemory::at_start(&[worker("impl", WINDOW)]);
    let busy = || worker("impl", WINDOW);

    let first = memory.plan(&[busy()], &checkins, at(1300));
    let retry = memory.plan(&[busy()], &checkins, at(1301));

    assert_eq!(first.nudges.len(), 1);
    assert_eq!(
        first.nudges[0].text, retry.nudges[0].text,
        "the same check-in comes round again rather than being lost"
    );
    assert_ne!(first.nudges[0].commit, retry.nudges[0].commit);
}

#[test]
fn an_actionable_line_past_the_armed_length_disarms_and_an_older_one_does_not() {
    let now = at(1_000);
    let checkins = armed_over(WINDOW, 300, now);
    let mut memory = WatchMemory::at_start(&[worker("impl", WINDOW)]);

    let stale = worker("impl", &format!("{WINDOW}{DONE}"));
    let stale_checkins = vec![ArmedCheckin {
        id: "impl".to_owned(),
        checkin: Checkin::armed(300, Recheck::Backoff, stale.log_len + 10, now),
    }];
    let plan = memory.plan(&[stale], &stale_checkins, at(1300));
    assert!(plan.disarms.is_empty(), "{plan:?}");
    memory.commit(&plan.nudges[0]);

    let plan = memory.plan(
        &[worker("impl", &format!("{WINDOW}{DONE}done: answered\n"))],
        &checkins,
        at(1300),
    );
    assert_eq!(plan.disarms.len(), 1, "{plan:?}");
}

#[test]
fn a_worker_that_is_gone_is_forgotten() {
    let now = at(1_000);
    let mut memory = WatchMemory::at_start(&[worker("impl", WINDOW)]);
    let reported = worker("impl", &format!("{WINDOW}{DONE}"));

    let gone = memory.plan(&[], &[], now);
    assert!(gone.nudges.is_empty(), "{gone:?}");

    let plan = memory.plan(&[reported], &[], at(1001));
    assert_eq!(
        reports(&plan),
        vec!["niles: impl reported (done) — check workers"]
    );
}

#[test]
fn a_worker_without_a_status_log_has_nothing_to_report() {
    let silent = WorkerSnapshot::new("impl".to_owned(), "/w/impl".to_owned(), None);
    assert_eq!(silent.log_len, 0);
    assert!(silent.last_actionable.is_none());
    let mut memory = WatchMemory::at_start(&[]);
    let plan = memory.plan(&[silent], &[], at(1_000));
    assert!(plan.nudges.is_empty());
}

#[test]
fn a_failed_nudge_is_retried_on_the_next_tick() {
    let mut memory = WatchMemory::at_start(&[worker("impl", WINDOW)]);
    let reported = || worker("impl", &format!("{WINDOW}{DONE}"));

    // The first delivery fails, so nothing is committed.
    let failed = memory.plan(&[reported()], &[], at(1_000));
    assert_eq!(
        reports(&failed),
        vec!["niles: impl reported (done) — check workers"]
    );

    let retried = memory.plan(&[reported()], &[], at(1_001));
    assert_eq!(
        reports(&retried),
        vec!["niles: impl reported (done) — check workers"]
    );
    memory.commit(&retried.nudges[0]);

    // The report has been handed over, so the third tick has nothing to say about it.
    let quiet = memory.plan(&[reported()], &[], at(1_002));
    assert!(quiet.nudges.is_empty(), "{quiet:?}");
}

#[test]
fn only_a_landed_nudge_moves_the_memory() {
    let mut memory = WatchMemory::at_start(&[worker("impl", WINDOW)]);
    let reported = || worker("impl", &format!("{WINDOW}{DONE}"));
    let plan = memory.plan(&[reported()], &[], at(1_000));
    assert_eq!(memory.land(&plan.nudges[0], &Err("pane gone".to_owned())), None);
    assert_eq!(memory.plan(&[reported()], &[], at(1_001)).nudges.len(), 1);
    assert_eq!(memory.land(&plan.nudges[0], &Ok(())), None);
    assert!(memory.plan(&[reported()], &[], at(1_002)).nudges.is_empty());

    let checkins = armed_with(WINDOW, 300, Recheck::Fixed(180), at(1_000));
    let due = memory.plan(&[worker("impl", WINDOW)], &checkins, at(1_300));
    let Commit::Checkin { planned, next } = due.nudges[0].commit else {
        panic!("a due check-in nudges");
    };
    assert_eq!(memory.land(&due.nudges[0], &Ok(())), Some((planned, next)));
    assert_eq!(niles::watch::before_nudge(true), Some(niles::watch::EXITING_NOTE));
    assert_eq!(niles::watch::before_nudge(false), None);
}
