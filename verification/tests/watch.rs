use niles::checkin::{Checkin, Recheck};
use niles::decide::WorkerSnapshot;
use niles::time::UtcTime;
use niles::watch::{
    collect_checkins, disarm_note, nudge_note, planned_checkin, rearm_failure_note, started_note,
    watch_pane, PlannedCheckin, NO_PANE_NOTE,
};
use niles::worker::{known_worker, validate_id};

fn quiet_target(id: &str, location: Option<String>) -> Result<String, String> {
    validate_id(id)?;
    known_worker(id, location)
}

#[test]
fn quiet_is_a_lead_command_and_needs_a_worker_that_exists() {
    let err = quiet_target("no-such-worker", None).unwrap_err();

    assert!(err.to_string().contains("unknown worker id"), "{err}");
}

#[test]
fn a_session_with_no_lead_pane_starts_no_watcher() {
    let note = watch_pane(None).unwrap_err();
    assert!(note.contains("recorded no lead pane"), "{note}");
    assert!(!note.contains("watcher started"), "{note}");
    assert_eq!(watch_pane(Some("   ")).unwrap_err(), NO_PANE_NOTE);
}

#[test]
fn the_watcher_starts_on_the_recorded_pane() {
    let pane = watch_pane(Some(" %7 ")).unwrap();
    assert_eq!(pane.as_str(), "%7");
    assert_eq!(
        started_note(pane.as_str(), "/w"),
        "watcher started: pane=%7 workspace=/w"
    );
}

fn armed(len: u64) -> Checkin {
    Checkin::armed(300, Recheck::Backoff, len, UtcTime::from_secs(1_000))
}

#[test]
fn a_check_in_armed_while_a_disarm_is_delivering_is_left_alone() {
    let planned = armed(3);
    assert!(matches!(
        planned_checkin("impl", Ok(Some(planned)), planned),
        PlannedCheckin::Proceed
    ));
    match planned_checkin("impl", Ok(Some(armed(9))), planned) {
        PlannedCheckin::LeaveAlone(note) => assert_eq!(
            note,
            "left the check-in for impl alone: it was re-armed while this tick was delivering \
             (armed_len 9 where this tick planned on 3)"
        ),
        _ => panic!("a re-armed check-in is not touched"),
    }
    assert!(matches!(
        planned_checkin("impl", Ok(None), planned),
        PlannedCheckin::Gone
    ));
    match planned_checkin("impl", Err("bad file".to_owned()), planned) {
        PlannedCheckin::LeaveAlone(note) => {
            assert_eq!(note, "failed to re-read the check-in for impl: bad file")
        }
        _ => panic!("an unreadable check-in is not touched"),
    }
}

#[test]
fn unreadable_check_ins_are_noted_and_skipped() {
    let snapshot = vec![
        WorkerSnapshot::new("a".to_owned(), "/w/a".to_owned(), None),
        WorkerSnapshot::new("b".to_owned(), "/w/b".to_owned(), None),
        WorkerSnapshot::new("c".to_owned(), "/w/c".to_owned(), None),
    ];
    let reads = vec![Ok(Some(armed(1))), Err("truncated".to_owned()), Ok(None)];
    let (checkins, notes) = collect_checkins(&snapshot, reads);
    assert_eq!(checkins.len(), 1);
    assert_eq!(checkins[0].id, "a");
    assert_eq!(checkins[0].checkin, armed(1));
    assert_eq!(
        notes,
        vec!["ignoring the unreadable check-in for b: truncated".to_owned()]
    );
}

#[test]
fn check_ins_and_notes_keep_snapshot_order() {
    let snapshot = vec![
        WorkerSnapshot::new("z".to_owned(), "/w/z".to_owned(), None),
        WorkerSnapshot::new("y".to_owned(), "/w/y".to_owned(), None),
        WorkerSnapshot::new("x".to_owned(), "/w/x".to_owned(), None),
        WorkerSnapshot::new("w".to_owned(), "/w/w".to_owned(), None),
    ];
    let reads = vec![
        Ok(Some(armed(3))),
        Err("first".to_owned()),
        Ok(Some(armed(7))),
        Err("second".to_owned()),
    ];
    let (checkins, notes) = collect_checkins(&snapshot, reads);
    let ids: Vec<&str> = checkins.iter().map(|c| c.id.as_str()).collect();
    assert_eq!(ids, ["z", "x"]);
    assert_eq!(checkins[1].checkin, armed(7));
    assert_eq!(
        notes,
        vec![
            "ignoring the unreadable check-in for y: first".to_owned(),
            "ignoring the unreadable check-in for w: second".to_owned(),
        ]
    );
}

#[test]
fn the_watch_log_says_what_landed_and_what_did_not() {
    assert_eq!(
        disarm_note("impl", Ok(true)).as_deref(),
        Some("check-in disarmed: impl answered it")
    );
    assert_eq!(disarm_note("impl", Ok(false)), None);
    assert_eq!(
        disarm_note("impl", Err("denied".to_owned())).as_deref(),
        Some("failed to disarm the check-in for impl: denied")
    );
    assert_eq!(
        nudge_note("impl", "niles: hi", Ok(())),
        "nudged impl: niles: hi"
    );
    assert_eq!(
        nudge_note("impl", "niles: hi", Err("pane gone".to_owned())),
        "the nudge for impl did not land, retrying next tick: pane gone"
    );
    assert!(rearm_failure_note("impl", "disk full").ends_with("fires again: disk full"));
}
