use niles::guard::{
    format_indeterminate, guard_exit, heartbeat_state, invalid_pid_reason, resolve_existing_waiter,
    resolve_live_waiter, verify_registration_token, GuardOutcome, HeartbeatState, RegistrationRead,
    RegistrationTokenCheck, ResolveStep, Takeover, TakeoverAction, TakeoverPhase, WaitContext,
    WaitIndeterminate, WaiterRegistration, EXIT_INDETERMINATE, EXIT_WAITER_CONFLICT,
    MAX_HEARTBEAT_INTERVAL_MS,
};
use niles::time::UtcTime;

const NOW: i64 = 1_783_296_000;

fn at(secs: i64) -> UtcTime {
    UtcTime::from_secs(secs)
}

fn registration(
    heartbeat_at: Option<UtcTime>,
    heartbeat_interval_ms: Option<u64>,
    started_at: UtcTime,
) -> WaiterRegistration {
    WaiterRegistration {
        pid: 1234,
        started_at,
        token: "token".to_owned(),
        heartbeat_at,
        heartbeat_interval_ms,
    }
}

fn context() -> WaitContext {
    WaitContext {
        worker_id: Some("auth-fix".to_owned()),
        status: "/w/auth-fix/status.log".to_owned(),
        waiter: "/w/auth-fix/status.waiter".to_owned(),
    }
}

const OWN_PID: u32 = 777;

#[test]
fn pid_zero_and_self_are_never_usable() {
    assert_eq!(invalid_pid_reason(0, OWN_PID), Some("pid-zero"));
    assert_eq!(invalid_pid_reason(OWN_PID, OWN_PID), Some("pid-self"));
    assert_eq!(invalid_pid_reason(OWN_PID + 1, OWN_PID), None);
}

#[test]
fn saturating_heartbeat_interval_cannot_disable_stale_detection() {
    let now = at(NOW);
    let year_ago = at(NOW - 365 * 24 * 3600);
    let waiter = registration(Some(year_ago), Some(u64::MAX), year_ago);

    assert_eq!(heartbeat_state(&waiter, now), HeartbeatState::Stale);
}

#[test]
fn large_but_accepted_interval_still_reports_fresh() {
    let now = at(NOW);
    let waiter = registration(Some(at(NOW - 60)), Some(MAX_HEARTBEAT_INTERVAL_MS), now);

    assert_eq!(heartbeat_state(&waiter, now), HeartbeatState::Fresh);
}

#[test]
fn missing_heartbeat_ages_out_from_started_at() {
    let now = at(NOW);
    let recent = registration(None, None, at(NOW - 5 * 60));
    let ancient = registration(None, None, at(NOW - 24 * 3600));

    assert_eq!(heartbeat_state(&recent, now), HeartbeatState::Missing);
    assert_eq!(heartbeat_state(&ancient, now), HeartbeatState::Stale);
}

#[test]
fn fresh_heartbeat_within_threshold_is_fresh() {
    let now = at(NOW);
    let waiter = registration(Some(at(NOW - 1)), Some(1000), now);

    assert_eq!(heartbeat_state(&waiter, now), HeartbeatState::Fresh);
}

fn live(pid: u32, heartbeat_ago: i64) -> WaiterRegistration {
    WaiterRegistration {
        pid,
        started_at: at(946_684_800),
        token: "holder-token".to_owned(),
        heartbeat_at: Some(at(NOW - heartbeat_ago)),
        heartbeat_interval_ms: Some(1000),
    }
}

#[test]
fn pid_zero_is_reclaimed_and_never_signalled() {
    let step = resolve_live_waiter(&context(), &live(0, 0), OWN_PID, Ok(true), at(NOW), true);
    assert!(matches!(step, ResolveStep::Reclaim { reason: "pid-zero" }));
}

#[test]
fn own_pid_is_reclaimed_as_a_recycled_leftover() {
    let step = resolve_live_waiter(&context(), &live(OWN_PID, 0), OWN_PID, Ok(true), at(NOW), true);
    assert!(matches!(step, ResolveStep::Reclaim { reason: "pid-self" }));
}

#[test]
fn dead_waiter_reclaims_and_logs_stale_waiter() {
    let step = resolve_live_waiter(&context(), &live(4321, 0), OWN_PID, Ok(false), at(NOW), false);
    assert!(matches!(step, ResolveStep::Reclaim { reason: "pid-dead" }));
}

#[test]
fn heartbeat_stale_reclaims_and_fresh_conflicts() {
    let stale = resolve_live_waiter(&context(), &live(1111, 20), OWN_PID, Ok(true), at(NOW), false);
    assert!(matches!(stale, ResolveStep::Reclaim { reason: "heartbeat-stale" }));

    let fresh = resolve_live_waiter(&context(), &live(2222, 0), OWN_PID, Ok(true), at(NOW), false);
    let ResolveStep::Outcome(GuardOutcome::Conflict(conflict)) = fresh else {
        panic!("expected fresh heartbeat conflict");
    };
    assert_eq!(conflict.heartbeat, HeartbeatState::Fresh);
    assert_eq!(conflict.holder_pid, 2222);
    let (code, line) = guard_exit(&GuardOutcome::Conflict(conflict));
    assert_eq!(code, EXIT_WAITER_CONFLICT);
    assert!(line.starts_with("wait: waiter-conflict"), "{line}");
}

#[test]
fn live_legacy_waiter_returns_typed_conflict() {
    let legacy = registration(None, None, at(NOW - 60));
    let step = resolve_live_waiter(&context(), &legacy, OWN_PID, Ok(true), at(NOW), false);
    let ResolveStep::Outcome(GuardOutcome::Conflict(conflict)) = step else {
        panic!("expected waiter conflict");
    };
    assert_eq!(conflict.worker_id.as_deref(), Some("auth-fix"));
    assert_eq!(conflict.holder_pid, 1234);
    assert_eq!(conflict.heartbeat, HeartbeatState::Missing);
}

#[test]
fn abandoned_legacy_waiter_is_reclaimed_instead_of_wedging() {
    let legacy = registration(None, None, at(NOW - 24 * 3600));
    let step = resolve_live_waiter(&context(), &legacy, OWN_PID, Ok(true), at(NOW), false);
    assert!(matches!(step, ResolveStep::Reclaim { reason: "heartbeat-stale" }));
}

#[test]
fn malformed_waiter_is_indeterminate_and_preserved() {
    let read = niles::guard::registration_read(
        "/w/auth-fix/status.waiter",
        Ok(Some(Err("expected value at line 1 column 2".to_owned()))),
    );
    let Err(ResolveStep::Outcome(GuardOutcome::Indeterminate(i))) =
        resolve_existing_waiter(&context(), read)
    else {
        panic!("expected indeterminate");
    };
    assert_eq!(
        i.detail,
        "failed to parse /w/auth-fix/status.waiter: expected value at line 1 column 2"
    );
    assert_eq!(i.status.as_deref(), Some("/w/auth-fix/status.log"));
    assert_eq!(i.waiter.as_deref(), Some("/w/auth-fix/status.waiter"));
    assert_eq!(i.worker_id.as_deref(), Some("auth-fix"));
    let (code, line) = guard_exit(&GuardOutcome::Indeterminate(i));
    assert_eq!(code, EXIT_INDETERMINATE);
    assert!(line.starts_with("wait: indeterminate worker=auth-fix"), "{line}");
}

#[test]
fn takeover_rechecks_token_before_signalling() {
    let ctx = context();
    let (mut takeover, first) = Takeover::new(live(3333, 0), 0);
    assert!(matches!(first, TakeoverAction::CheckToken));
    let read = RegistrationRead::Present(WaiterRegistration {
        token: "new-token".to_owned(),
        ..live(4444, 0)
    });
    let action = takeover.on_token(&ctx, verify_registration_token(read, "holder-token"));
    let TakeoverAction::Fail(GuardOutcome::Indeterminate(i)) = action else {
        panic!("expected indeterminate token race");
    };
    assert_eq!(i.detail, "waiter registration changed before takeover");
    assert_eq!(i.status.as_deref(), Some("/w/auth-fix/status.log"));
    assert_eq!(i.waiter.as_deref(), Some("/w/auth-fix/status.waiter"));
    assert_eq!(i.worker_id.as_deref(), Some("auth-fix"));
    assert_eq!(takeover.phase, TakeoverPhase::Finished);
}

#[test]
fn takeover_refuses_when_holder_survives_grace() {
    let ctx = context();
    let holder = live(5555, 0);
    let (mut takeover, _) = Takeover::new(holder.clone(), 0);
    let check = verify_registration_token(RegistrationRead::Present(holder), "holder-token");
    assert!(matches!(takeover.on_token(&ctx, check), TakeoverAction::Terminate));
    assert!(matches!(takeover.on_signal(&ctx, Ok(())), TakeoverAction::CheckRunning));
    let TakeoverAction::Fail(GuardOutcome::TakeoverFailed(failed)) =
        takeover.on_running(&ctx, Ok(true), 0)
    else {
        panic!("expected takeover failure");
    };
    assert_eq!(failed.holder_pid, 5555);
    assert_eq!(failed.holder_since, live(5555, 0).started_at);
    assert_eq!(failed.status, "/w/auth-fix/status.log");
    assert_eq!(failed.waiter, "/w/auth-fix/status.waiter");
    assert_eq!(failed.worker_id.as_deref(), Some("auth-fix"));
    assert_eq!(failed.detail, "waiter pid 5555 still running after SIGTERM grace");
}

#[test]
fn takeover_logs_and_replaces_exited_holder() {
    let ctx = context();
    let holder = live(6666, 0);
    let (mut takeover, _) = Takeover::new(holder.clone(), 500);
    let check = verify_registration_token(RegistrationRead::Present(holder.clone()), "holder-token");
    assert!(matches!(takeover.on_token(&ctx, check), TakeoverAction::Terminate));
    assert!(matches!(takeover.on_signal(&ctx, Ok(())), TakeoverAction::CheckRunning));
    assert!(matches!(
        takeover.on_running(&ctx, Ok(true), 100),
        TakeoverAction::Sleep(_)
    ));
    assert!(matches!(takeover.on_running(&ctx, Ok(false), 150), TakeoverAction::CheckToken));
    assert!(takeover.exited);
    let check = verify_registration_token(RegistrationRead::Present(holder), "holder-token");
    assert!(matches!(takeover.on_token(&ctx, check), TakeoverAction::RemoveAndRetry));
}

#[test]
fn an_indeterminate_line_names_only_what_is_known() {
    let line = format_indeterminate(&WaitIndeterminate {
        worker_id: None,
        status: None,
        waiter: None,
        detail: "oops".to_owned(),
    });
    assert_eq!(line, "wait: indeterminate detail=\"oops\"");
    assert!(matches!(
        verify_registration_token(RegistrationRead::Missing, "t"),
        RegistrationTokenCheck::Missing
    ));
}

#[test]
fn waiter_audit_records_are_one_json_object_each() {
    let waiter = niles::guard::WaiterRegistration {
        pid: 4242,
        started_at: niles::time::UtcTime::from_secs(0),
        token: "tok\"1".to_owned(),
        heartbeat_at: None,
        heartbeat_interval_ms: None,
    };
    let now = niles::time::UtcTime::from_secs(60);
    assert_eq!(
        niles::guard::stale_reclaimed_text(&waiter, "pid not running", now),
        "{\"event\":\"stale-waiter-reclaimed\",\"pid\":4242,\"reason\":\"pid not running\",\
         \"reclaimed_at\":\"1970-01-01T00:01:00+00:00\",\"started_at\":\"1970-01-01T00:00:00+00:00\",\
         \"token\":\"tok\\\"1\"}"
    );
    assert_eq!(
        niles::guard::takeover_requested_text(&waiter, now),
        "{\"event\":\"waiter-takeover-requested\",\"pid\":4242,\
         \"requested_at\":\"1970-01-01T00:01:00+00:00\",\"signal\":\"SIGTERM\",\
         \"started_at\":\"1970-01-01T00:00:00+00:00\",\"token\":\"tok\\\"1\"}"
    );
    assert_eq!(
        niles::guard::taken_over_text(&waiter, now),
        "{\"event\":\"waiter-taken-over\",\"pid\":4242,\"started_at\":\"1970-01-01T00:00:00+00:00\",\
         \"taken_over_at\":\"1970-01-01T00:01:00+00:00\",\"token\":\"tok\\\"1\"}"
    );
    let consumed = niles::guard::wake_consumed_text(3, "done: a\tb", &waiter);
    assert_eq!(
        consumed,
        "{\"cursor\":3,\"event\":\"wake-consumed\",\"line\":\"done: a\\tb\",\"pid\":4242,\
         \"started_at\":\"1970-01-01T00:00:00+00:00\",\"token\":\"tok\\\"1\"}"
    );
    let value: serde_json::Value = serde_json::from_str(&consumed).unwrap();
    assert_eq!(value["line"], "done: a\tb");
    assert_eq!(value["cursor"], 3);
}

#[test]
fn a_registration_read_says_what_it_found() {
    assert!(matches!(
        niles::guard::registration_read("/w/a/status.waiter", Ok(None)),
        RegistrationRead::Missing
    ));
    match niles::guard::registration_read("/w/a/status.waiter", Err("permission denied".to_owned())) {
        RegistrationRead::Indeterminate { detail } => {
            assert_eq!(detail, "failed to read /w/a/status.waiter: permission denied")
        }
        _ => panic!("an unreadable registration is indeterminate"),
    }
    match niles::guard::registration_read("/w/a/status.waiter", Ok(Some(Ok(live(12, 0))))) {
        RegistrationRead::Present(w) => assert_eq!(w.pid, 12),
        _ => panic!("a parsed registration is present"),
    }
}
