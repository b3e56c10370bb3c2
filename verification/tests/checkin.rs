use niles::checkin::{
    describe_delay, parse_checkin, parse_delay, parse_recheck, resolve_cadence, Cadence,
    CadenceSettings, Checkin, CheckinReadError, Recheck, DEFAULT_DELAY_SECS,
};
use niles::time::UtcTime;
use niles::wake::{ActionableWake, WakeKind};

fn at(secs: i64) -> UtcTime {
    UtcTime::from_secs(secs)
}

const MANIFEST_FILE: &str = "/work/.niles/manifest.yaml";

fn manifest(checkin: Option<&str>, recheck: Option<&str>) -> CadenceSettings {
    CadenceSettings {
        checkin: checkin.map(str::to_owned),
        recheck: recheck.map(str::to_owned),
    }
}

fn cadence(flag: Option<&str>, manifest: Option<&CadenceSettings>) -> Result<Cadence, String> {
    resolve_cadence(flag, manifest, MANIFEST_FILE).map_err(|e| e.message())
}

#[test]
fn the_checkin_spellings_parse_and_the_armed_delay_prints_back() {
    for (written, delay) in [("90s", 90), ("5m", 300), ("1h", 3600), ("7", 420)] {
        assert_eq!(
            parse_delay(written).map_err(|e| e.message()).unwrap(),
            Some(delay),
            "--checkin {written}"
        );
    }

    for (delay, printed) in [(90, "90s"), (300, "5m"), (3600, "1h")] {
        assert_eq!(describe_delay(delay), printed, "{delay}s armed");
    }
}

#[test]
fn zero_and_off_arm_nothing() {
    assert_eq!(parse_delay("0").map_err(|e| e.message()).unwrap(), None);
    assert_eq!(parse_delay("0s").map_err(|e| e.message()).unwrap(), None);
    assert_eq!(parse_delay("off").map_err(|e| e.message()).unwrap(), None);
    assert_eq!(parse_delay("OFF").map_err(|e| e.message()).unwrap(), None);
    assert_eq!(cadence(None, None).unwrap().delay, Some(DEFAULT_DELAY_SECS));
}

#[test]
fn the_flag_beats_the_manifest_which_beats_the_default() {
    let configured = manifest(Some("15m"), Some("30m"));

    assert_eq!(
        cadence(None, Some(&configured)).unwrap(),
        Cadence {
            delay: Some(900),
            recheck: Recheck::Fixed(1800),
        }
    );
    assert_eq!(
        cadence(Some("90s"), Some(&configured)).unwrap(),
        Cadence {
            delay: Some(90),
            recheck: Recheck::Fixed(1800),
        }
    );
    assert_eq!(
        cadence(None, Some(&manifest(None, None))).unwrap(),
        Cadence {
            delay: Some(DEFAULT_DELAY_SECS),
            recheck: Recheck::Backoff,
        }
    );
    assert_eq!(cadence(Some("off"), Some(&configured)).unwrap().delay, None);
}

#[test]
fn a_malformed_manifest_value_is_refused_rather_than_defaulted_over() {
    for (manifest, key) in [
        (manifest(Some("soon"), None), "checkin"),
        (manifest(None, Some("fast")), "recheck"),
        (manifest(None, Some("off")), "recheck"),
        (manifest(None, Some("daily")), "recheck"),
    ] {
        let err = cadence(None, Some(&manifest)).unwrap_err();
        assert!(err.contains(key), "{err}");
    }

    for value in ["backoff", "BACKOFF", "10m", "1h", "7"] {
        assert!(
            cadence(None, Some(&manifest(None, Some(value)))).is_ok(),
            "{value}"
        );
    }
}

#[test]
fn a_manifest_typo_names_the_manifest() {
    let err = cadence(None, Some(&manifest(Some("soon"), None))).unwrap_err();

    assert!(err.contains(MANIFEST_FILE), "{err}");
    assert!(err.contains("is not a duration"), "{err}");
}

#[test]
fn a_malformed_delay_is_rejected_rather_than_guessed_at() {
    for value in ["", "5x", "m", "-5", "1.5m", "99999h"] {
        assert!(parse_delay(value).is_err(), "{value} should not parse");
    }
}

#[test]
fn a_delay_that_is_not_whole_minutes_is_reported_as_it_was_asked_for() {
    let armed = Checkin::armed(65, Recheck::Backoff, 0, at(1_000));
    assert_eq!(armed.elapsed_label(), "65s");
    assert_eq!(armed.rearmed(at(1_065)).elapsed_label(), "195s");
}

#[test]
fn arming_keeps_the_log_length_and_doubles_each_fire_up_to_the_cap() {
    let now = at(1_000);
    let mut armed = Checkin::armed(300, Recheck::Backoff, 42, now);

    assert_eq!(armed.deadline, at(1_300));
    assert_eq!(armed.delay, 300);
    assert_eq!(armed.elapsed_label(), "5m");
    assert_eq!(armed.armed_len, 42);

    for (deadline, delay, step) in [
        (1_900, 600, 900),
        (3_100, 1_200, 2_100),
        (5_500, 2_400, 4_500),
        (9_100, 3_600, 8_100),
        (12_700, 3_600, 11_700),
    ] {
        let fired = armed;
        armed = fired.rearmed(fired.deadline);

        assert_eq!(armed.deadline, at(deadline), "{delay}s arm");
        assert_eq!(armed.delay, delay);
        assert_eq!(armed.step, step);
        assert_eq!(armed.elapsed_label(), describe_delay(step));
    }

    assert!(armed.answered_by(ActionableWake {
        end: 43,
        kind: WakeKind::Done
    }));
}

#[test]
fn the_cap_never_shortens_a_delay_longer_than_it() {
    let armed = Checkin::armed(2 * 60 * 60, Recheck::Backoff, 0, at(1_000));

    assert_eq!(armed.rearmed(at(8_200)).delay, 2 * 60 * 60);
}

#[test]
fn a_fixed_recheck_arms_the_same_delay_every_fire() {
    let armed = Checkin::armed(300, Recheck::Fixed(600), 0, at(1_000));

    let fired = armed.rearmed(at(1_300));
    assert_eq!(fired.deadline, at(1_900));
    assert_eq!(fired.delay, 600);
    assert_eq!(fired.elapsed_label(), "15m");
    assert_eq!(fired.rearmed(at(1_900)).deadline, at(2_500));
}

#[test]
fn only_a_line_past_the_armed_length_answers_a_check_in() {
    let checkin = Checkin::armed(300, Recheck::Backoff, 10, at(1_000));
    let wake = |end| ActionableWake {
        end,
        kind: WakeKind::Done,
    };

    assert!(!checkin.answered_by(wake(10)));
    assert!(!checkin.answered_by(wake(0)));
    assert!(checkin.answered_by(wake(11)));
}

#[test]
fn arm_state_round_trips_through_its_file_body() {
    let armed = Checkin::armed(90, Recheck::Fixed(600), 7, at(1_000));
    let body = armed.body();
    assert!(body.contains("delay=90"), "{body}");
    assert!(body.contains("recheck=10m"), "{body}");
    assert_eq!(parse_checkin(&body), Ok(armed));
    let next = armed.rearmed(at(1_090));
    assert_eq!(parse_checkin(&next.body()), Ok(next));
    assert_eq!(next.delay, 600);
}

#[test]
fn an_incomplete_checkin_body_is_an_error_rather_than_a_default() {
    let err = parse_checkin("deadline=1970-01-01T00:16:40Z\nstep=300\n").unwrap_err();
    assert_eq!(err, CheckinReadError::Incomplete);
    assert!(err.message("/w/checkin").contains("incomplete"));
}

#[test]
fn an_unreadable_recheck_policy_is_an_error_rather_than_a_default() {
    let err = parse_checkin(
        "deadline=1970-01-01T00:16:40Z\ndelay=300\nstep=300\nrecheck=soon\narmed_len=0\n",
    )
    .unwrap_err();
    assert_eq!(err, CheckinReadError::InvalidRecheck);
    assert!(err.message("/w/checkin").contains("re-check"));
}

#[test]
fn every_delay_error_says_what_was_asked_for() {
    assert_eq!(
        parse_delay("5x").unwrap_err().message(),
        "check-in delay `5x` uses unknown unit `x`; use s, m or h"
    );
    assert_eq!(
        parse_delay("25h").unwrap_err().message(),
        "check-in delay `25h` is longer than 24h"
    );
    assert!(parse_delay("99999999999999999999h").is_err());
    assert_eq!(parse_recheck("backoff").unwrap(), Recheck::Backoff);
    assert_eq!(parse_recheck("10").unwrap(), Recheck::Fixed(600));
    assert!(parse_recheck("off")
        .unwrap_err()
        .message()
        .starts_with("re-check policy `off`"));
    assert!(parse_recheck("fast")
        .unwrap_err()
        .message()
        .starts_with("check-in delay `fast`"));
}

#[test]
fn every_printed_delay_reads_back() {
    for seconds in [1, 59, 60, 61, 90, 3599, 3600, 5400, 86_400] {
        assert_eq!(
            parse_delay(&describe_delay(seconds)).map_err(|e| e.message()),
            Ok(Some(seconds))
        );
    }
}
