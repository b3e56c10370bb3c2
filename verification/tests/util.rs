use niles::time::{timestamp_id, UtcTime};
use niles::util::{absolute_path_from, render_template, slugify};

#[test]
fn absolute_path_from_joins_relative_paths_to_base() {
    let base = "/tmp/niles-base";

    assert_eq!(
        absolute_path_from(base, "relative/path"),
        "/tmp/niles-base/relative/path"
    );
}

#[test]
fn absolute_path_from_keeps_absolute_paths() {
    let base = "/tmp/niles-base";
    let path = "/tmp/niles-absolute-path-test";

    assert_eq!(absolute_path_from(base, path), path);
}

#[test]
fn render_template_replaces_known_placeholders_once() {
    assert_eq!(
        render_template(
            "id={id} task={task} again={id}",
            &[("{id}", "auth-fix"), ("{task}", "ship {id}")]
        ),
        "id=auth-fix task=ship {id} again=auth-fix"
    );
}

#[test]
fn render_template_preserves_unknown_and_unclosed_placeholders() {
    assert_eq!(
        render_template("known={id} unknown={missing} tail={", &[("{id}", "run")]),
        "known=run unknown={missing} tail={"
    );
}

#[test]
fn slugify_normalizes_labels_for_step_filenames() {
    assert_eq!(slugify("Hello World!"), "hello-world");
    assert_eq!(slugify("Already_OK-123"), "already_ok-123");
}

#[test]
fn slugify_collapses_and_trims_separators() {
    assert_eq!(slugify("--Hello!!!World--"), "hello-world");
    assert_eq!(slugify("a / b : c"), "a-b-c");
}

#[test]
fn slugify_uses_step_for_empty_slugs() {
    assert_eq!(slugify("!!!"), "step");
    assert_eq!(slugify(""), "step");
}

#[test]
fn timestamp_id_uses_utc_timestamp_with_padded_nanoseconds() {
    let now = UtcTime { secs: 0, nanos: 42 };

    assert_eq!(timestamp_id(now), "19700101T000000000000042Z");
}

#[test]
fn slugify_is_idempotent_on_an_example() {
    let once = slugify("Fix: the Auth flow (v2)");
    assert_eq!(once, "fix-the-auth-flow-v2");
    assert_eq!(slugify(&once), once);
}

#[test]
fn a_checkin_deadline_is_written_in_rfc3339_and_read_back() {
    let armed = niles::checkin::Checkin {
        deadline: UtcTime::from_secs(1_783_296_000),
        delay: 300,
        step: 300,
        recheck: niles::checkin::Recheck::Fixed(180),
        armed_len: 12,
    };
    let body = armed.body();
    assert!(body.starts_with("deadline=2026-07-06T00:00:00Z\n"), "{body}");
    assert_eq!(niles::checkin::parse_checkin(&body), Ok(armed));
    assert!(niles::checkin::parse_checkin(&body.replace("2026-07-06T00:00:00Z", "not a time")).is_err());
}

#[test]
fn camino_paths_join_and_split() {
    assert_eq!(niles::wake::status_log_path("/a/b"), "/a/b/status.log");
    assert!(niles::usage::codex::is_rollout("/s/2026/07/06/rollout-1.jsonl"));
    assert!(!niles::usage::codex::is_rollout("/s/2026/07/06/other-1.jsonl"));
    assert!(!niles::usage::codex::is_rollout("/s/2026/07/06/rollout-1.json"));
    assert!(!niles::usage::codex::is_rollout("/"));
    assert!(niles::usage::codex::is_rollout("/s/rollout-a.b.jsonl"));
    assert!(!niles::usage::codex::is_rollout("/s/rollout-a.jsonl.bak"));
}

#[test]
fn a_slug_is_its_own_slug() {
    for label in ["Hello World!", "--a--b--", "", "_x_", "Ünïcode 9"] {
        let slug = slugify(label);
        assert_eq!(slugify(&slug), slug);
        assert!(!slug.starts_with('-') && !slug.ends_with('-') && !slug.contains("--"));
        assert!(slug
            .chars()
            .all(|c| c.is_ascii_lowercase() || c.is_ascii_digit() || c == '_' || c == '-'));
    }
}
