use niles::usage::display::{
    format_optional, format_rollup_wall, format_wall, UsageDisplay, UsageDisplayStatus,
    UsageRollup, UsageTotals,
};
use niles::usage::home::{
    resolve_home, CODEX_HOME_ENV, DEFAULT_CODEX_HOME_SUFFIX,
};

#[test]
fn mixed_family_rollup_sums_union_columns() {
    let codex = UsageDisplay {
        status: UsageDisplayStatus::Available,
        wall_seconds: Some(10),
        turns: Some(1),
        totals: UsageTotals {
            total: Some(18),
            input: Some(10),
            cache_create: None,
            cache_read: None,
            cached: Some(3),
            output: Some(5),
            reasoning: Some(2),
        },
    };
    let ledger = UsageDisplay {
        status: UsageDisplayStatus::Available,
        wall_seconds: Some(20),
        turns: Some(1),
        totals: UsageTotals {
            total: Some(30),
            input: Some(7),
            cache_create: Some(8),
            cache_read: Some(9),
            cached: None,
            output: Some(6),
            reasoning: None,
        },
    };
    let pending = UsageDisplay::pending(Some(5));

    let mut rollup = UsageRollup::default();
    rollup.add(&codex);
    rollup.add(&ledger);
    rollup.add(&pending);

    assert_eq!(rollup.available_subjects, 2);
    assert_eq!(rollup.wall_seconds, Some(35));
    assert_eq!(
        rollup.totals,
        UsageTotals {
            total: Some(48),
            input: Some(17),
            cache_create: Some(8),
            cache_read: Some(9),
            cached: Some(3),
            output: Some(11),
            reasoning: Some(2),
        }
    );
}

#[test]
fn an_unavailable_subject_adds_its_wall_time_and_no_tokens() {
    let mut rollup = UsageRollup::default();
    rollup.add(&UsageDisplay::unavailable(Some(7)));
    rollup.add(&UsageDisplay::unavailable(Some(-3)));
    assert_eq!(rollup.available_subjects, 0);
    assert_eq!(rollup.wall_seconds, Some(7));
    assert_eq!(rollup.totals, UsageTotals::default());
}

#[test]
fn usage_columns_print_a_dash_for_nothing() {
    assert_eq!(format_optional(Some(12)), "12");
    assert_eq!(format_optional(None), "-");
    assert_eq!(format_wall(Some(9)), "9s");
    assert_eq!(format_wall(Some(-1)), "-");
    assert_eq!(format_rollup_wall(None), "-");
    assert_eq!(format_rollup_wall(Some(60)), "60s");
    assert_eq!(UsageDisplayStatus::Pending.as_str(), "pending");
}

#[test]
fn override_env_wins() {
    let resolved = resolve_home(
        CODEX_HOME_ENV,
        DEFAULT_CODEX_HOME_SUFFIX,
        "Codex home",
        Some("/tmp/codex-custom".to_owned()),
        Some("/tmp/home".to_owned()),
    )
    .unwrap();

    assert_eq!(resolved, "/tmp/codex-custom");
}

#[test]
fn home_fallback_uses_named_suffix() {
    let resolved = resolve_home(
        "LEDGER_CONFIG_DIR",
        ".ledger",
        "Ledger config dir",
        None,
        Some("/tmp/home".to_owned()),
    )
    .unwrap();

    assert_eq!(resolved, "/tmp/home/.ledger");
}

#[test]
fn missing_override_and_home_fails_loudly() {
    let err = resolve_home(
        CODEX_HOME_ENV,
        DEFAULT_CODEX_HOME_SUFFIX,
        "Codex home",
        None,
        None,
    )
    .unwrap_err()
    .to_string();

    assert!(err.contains("Codex home requires $CODEX_HOME or $HOME"));
}

#[test]
fn a_session_ledger_launch_gets_a_version_four_uuid() {
    let a = niles::usage::attribution::attribution_for_family(
        "ledger",
        "ledger",
        "/w",
        niles::time::UtcTime::from_secs(0),
        Some(1),
    );
    let id = a.ledger_session_id().unwrap().to_owned();
    let chars: Vec<char> = id.chars().collect();
    assert_eq!(chars.len(), 36);
    for (i, c) in chars.iter().enumerate() {
        if [8, 13, 18, 23].contains(&i) {
            assert_eq!(*c, '-');
        } else {
            assert!(c.is_ascii_digit() || ('a'..='f').contains(c), "{id}");
        }
    }
    assert_eq!(chars[14], '4');
    assert!(['8', '9', 'a', 'b'].contains(&chars[19]), "{id}");
}
