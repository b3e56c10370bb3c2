//! Workers: which ids and labels are allowed, what each command was asked to do, and the lines
//! it prints.
use vstd::prelude::*;

use crate::digits::{decimal, push_decimal};
use crate::paths::{join_path, joined_path};
use crate::session::{sort_texts, sorted_texts};
use crate::statuslog::{find_first_actionable, first_actionable_from};
use crate::text::{
    chars_of, is_empty_str, lemma_text_le_antisymmetric, lemma_text_le_transitive, lines_of,
    lines_of_chars, owned, push_str, str_eq, str_le, string_of_range, text_le, text_lt, texts,
    trim, trim_str,
};
use crate::tmux::outside_tmux_text;
use crate::tmux::target::{state_text, target_state, RecordedWindowState, TargetState};
use crate::time::{parse_rfc3339, rfc3339_reading, time_le, UtcTime};

verus! {

/// The file a worker writes its deliverable to.
pub const REPORT_FILE: &'static str = "report.md";

/// The file the last pane capture is kept in when a worker closes.
pub const FINAL_PANE_FILE: &'static str = "final-pane.txt";

/// Pane lines `peek` shows by default.
pub const DEFAULT_PEEK_LINES: usize = 2000;

/// A character allowed in a worker id or task label.
pub open spec fn name_char(c: char) -> bool {
    ('a' <= c <= 'z') || ('A' <= c <= 'Z') || ('0' <= c <= '9') || c == '-' || c == '_'
}

pub open spec fn all_name_chars(s: Seq<char>) -> bool {
    forall|i: int| 0 <= i < s.len() ==> name_char(#[trigger] s[i])
}

/// Why `value` is refused as a worker id (`what` is "worker id") or task label, if it is.
pub open spec fn name_refusal(value: Seq<char>, what: Seq<char>) -> Option<Seq<char>> {
    if value.len() == 0 {
        Some(what + " cannot be empty"@)
    } else if value == "archive"@ {
        Some(what + " 'archive' is reserved for closed worker archives"@)
    } else if !all_name_chars(value) {
        Some(what + " may only contain ASCII letters, numbers, '-' and '_'"@)
    } else {
        None
    }
}

/// The name grammar: a worker id or task label is accepted exactly when it is non-empty, is
/// not `archive`, and is made only of ASCII letters of either case, digits, `-` and `_`.
pub proof fn lemma_name_grammar(value: Seq<char>, what: Seq<char>)
    ensures
        name_refusal(value, what) is None <==> (value.len() > 0 && value != "archive"@ && forall|i: int|
            0 <= i < value.len() ==> ('a' <= #[trigger] value[i] <= 'z') || ('A' <= value[i] <= 'Z')
                || ('0' <= value[i] <= '9') || value[i] == '-' || value[i] == '_'),
{
}

fn check_name(value: &str, what: &str) -> (r: Result<(), String>)
    ensures
        match name_refusal(value@, what@) {
            Some(e) => r matches Err(m) && m@ == e,
            None => r is Ok,
        },
{
    let chars = chars_of(value);
    if chars.len() == 0 {
        let mut e = owned(what);
        push_str(&mut e, " cannot be empty");
        return Err(e);
    }
    if str_eq(value, "archive") {
        let mut e = owned(what);
        push_str(&mut e, " 'archive' is reserved for closed worker archives");
        return Err(e);
    }
    let mut i: usize = 0;
    while i < chars.len()
        invariant
            i <= chars@.len(),
            chars@ == value@,
            value@.len() > 0,
            value@ != "archive"@,
            forall|j: int| 0 <= j < i ==> name_char(#[trigger] chars@[j]),
        decreases chars.len() - i,
    {
        let c = chars[i];
        if !(('a' <= c && c <= 'z') || ('A' <= c && c <= 'Z') || ('0' <= c && c <= '9') || c == '-'
            || c == '_') {
            assert(!name_char(value@[i as int]));
            assert(!all_name_chars(value@));
            let mut e = owned(what);
            push_str(&mut e, " may only contain ASCII letters, numbers, '-' and '_'");
            return Err(e);
        }
        i += 1;
    }
    Ok(())
}

/// A worker id: non-empty, not `archive`, ASCII letters, digits, `-` and `_` only.
pub fn validate_id(id: &str) -> (r: Result<(), String>)
    ensures
        match name_refusal(id@, "worker id"@) {
            Some(e) => r matches Err(m) && m@ == e,
            None => r is Ok,
        },
{
    check_name(id, "worker id")
}

/// A task label, under the same rule as a worker id.
pub fn validate_task_label(label: &str) -> (r: Result<(), String>)
    ensures
        match name_refusal(label@, "task label"@) {
            Some(e) => r matches Err(m) && m@ == e,
            None => r is Ok,
        },
{
    check_name(label, "task label")
}

/// A worker the store knows: its directory, as the store's lookup found it. An id the store
/// has no directory for is refused by name.
pub fn known_worker(id: &str, location: Option<String>) -> (r: Result<String, String>)
    ensures
        match location {
            Some(dir) => r matches Ok(d) && d@ == dir@,
            None => r matches Err(e) && e@ == "unknown worker id '"@ + id@ + "'"@,
        },
{
    match location {
        Some(dir) => Ok(dir),
        None => {
            let mut e = owned("unknown worker id '");
            push_str(&mut e, id);
            push_str(&mut e, "'");
            Err(e)
        },
    }
}

/// Which workers `close` closes.
#[derive(Clone, Debug, PartialEq, Eq)]
pub enum CloseRequest {
    One(String),
    Task(String),
    All,
}

/// Reads `close`'s arguments: exactly one of an id, `--task` and `--all`.
pub fn worker_close(id: Option<String>, task_label: Option<String>, all: bool) -> (r: Result<
    CloseRequest,
    String,
>)
    ensures
        id is Some && task_label is None && !all ==> r == Ok::<CloseRequest, String>(
            CloseRequest::One(id.unwrap()),
        ),
        id is None && task_label is Some && !all ==> r == Ok::<CloseRequest, String>(
            CloseRequest::Task(task_label.unwrap()),
        ),
        id is None && task_label is None && all ==> r == Ok::<CloseRequest, String>(
            CloseRequest::All,
        ),
        !((id is Some && task_label is None && !all) || (id is None && task_label is Some && !all)
            || (id is None && task_label is None && all)) ==> (r matches Err(e) && e@
            == "use a worker id, --task <label>, or --all"@),
{
    match (id, task_label, all) {
        (Some(id), None, false) => Ok(CloseRequest::One(id)),
        (None, Some(label), false) => Ok(CloseRequest::Task(label)),
        (None, None, true) => Ok(CloseRequest::All),
        _ => Err(owned("use a worker id, --task <label>, or --all")),
    }
}

/// What closing one worker did.
pub struct WorkerCloseOutcome {
    pub id: String,
    pub archive_dir: String,
    pub pane_path: Option<String>,
    pub pane_error: Option<String>,
    pub window_name: String,
    pub window_error: Option<String>,
}

/// The lines a single close prints.
pub open spec fn single_close_spec(o: WorkerCloseOutcome) -> Seq<Seq<char>> {
    let pane = match o.pane_path {
        Some(p) => seq!["pane: "@ + p@],
        None => Seq::empty(),
    };
    let pane_err = match o.pane_error {
        Some(e) => seq!["pane not captured for worker "@ + o.id@ + ": "@ + e@],
        None => Seq::empty(),
    };
    let window = match o.window_error {
        Some(e) => seq!["window "@ + o.window_name@ + " not closed: "@ + e@],
        None => seq!["closed window: "@ + o.window_name@],
    };
    pane + pane_err + window + seq!["archive: "@ + o.archive_dir@, "closed: "@ + o.id@]
}

fn joined3(a: &str, b: &str, c: &str) -> (r: String)
    ensures
        r@ == a@ + b@ + c@,
{
    let mut r = owned(a);
    push_str(&mut r, b);
    push_str(&mut r, c);
    r
}

fn joined4(a: &str, b: &str, c: &str, d: &str) -> (r: String)
    ensures
        r@ == a@ + b@ + c@ + d@,
{
    let mut r = joined3(a, b, c);
    push_str(&mut r, d);
    r
}

pub fn single_close_lines(o: &WorkerCloseOutcome) -> (r: Vec<String>)
    ensures
        texts(r@) == single_close_spec(*o),
{
    let mut r: Vec<String> = Vec::new();
    match &o.pane_path {
        Some(p) => r.push(joined3("pane: ", p.as_str(), "")),
        None => {},
    }
    match &o.pane_error {
        Some(e) => r.push(joined4("pane not captured for worker ", o.id.as_str(), ": ", e.as_str())),
        None => {},
    }
    match &o.window_error {
        Some(e) => r.push(joined4("window ", o.window_name.as_str(), " not closed: ", e.as_str())),
        None => r.push(joined3("closed window: ", o.window_name.as_str(), "")),
    }
    r.push(joined3("archive: ", o.archive_dir.as_str(), ""));
    r.push(joined3("closed: ", o.id.as_str(), ""));
    proof {
        reveal_strlit("");
        assert(texts(r@) =~= single_close_spec(*o));
    }
    r
}

/// The lines one worker's success adds to a group close.
pub open spec fn group_success_spec(o: WorkerCloseOutcome) -> Seq<Seq<char>> {
    seq!["  "@ + o.id@ + ",closed,"@ + o.archive_dir@] + match o.pane_error {
        Some(e) => seq!["  "@ + o.id@ + ",pane-not-captured,"@ + e@],
        None => Seq::empty(),
    } + match o.window_error {
        Some(e) => seq!["  "@ + o.id@ + ",window-not-closed,"@ + e@],
        None => Seq::empty(),
    }
}

pub fn group_success_lines(o: &WorkerCloseOutcome) -> (r: Vec<String>)
    ensures
        texts(r@) == group_success_spec(*o),
{
    let mut r: Vec<String> = Vec::new();
    r.push(joined4("  ", o.id.as_str(), ",closed,", o.archive_dir.as_str()));
    match &o.pane_error {
        Some(e) => r.push(joined4("  ", o.id.as_str(), ",pane-not-captured,", e.as_str())),
        None => {},
    }
    match &o.window_error {
        Some(e) => r.push(joined4("  ", o.id.as_str(), ",window-not-closed,", e.as_str())),
        None => {},
    }
    assert(texts(r@) =~= group_success_spec(*o));
    r
}

/// The header of a group close: how many workers it covers.
pub fn group_header(count: usize) -> (r: String)
    ensures
        r@ == "workers["@ + decimal(count as nat) + "]{id,status,archive}:"@,
{
    let mut r = owned("workers[");
    push_decimal(&mut r, count as u64);
    push_str(&mut r, "]{id,status,archive}:");
    r
}

/// The row a worker that failed to close gets.
pub fn group_failure_line(id: &str) -> (r: String)
    ensures
        r@ == "  "@ + id@ + ",failed,-"@,
{
    joined3("  ", id, ",failed,-")
}

/// Ids joined with `, `.
pub open spec fn joined_ids(ids: Seq<Seq<char>>) -> Seq<char>
    decreases ids.len(),
{
    if ids.len() == 0 {
        Seq::empty()
    } else if ids.len() == 1 {
        ids[0]
    } else {
        joined_ids(ids.drop_last()) + ", "@ + ids.last()
    }
}

/// A group close fails as a whole when any worker in it failed, naming each.
pub fn close_group_result(selection: &str, failures: &Vec<String>) -> (r: Result<(), String>)
    ensures
        failures@.len() == 0 ==> r is Ok,
        failures@.len() > 0 ==> (r matches Err(e) && e@ == "worker-close "@ + selection@
            + " failed for "@ + decimal(failures@.len()) + " worker(s): "@ + joined_ids(
            texts(failures@),
        )),
{
    if failures.len() == 0 {
        return Ok(());
    }
    let mut joined = String::new();
    let mut i: usize = 0;
    while i < failures.len()
        invariant
            i <= failures@.len(),
            joined@ == joined_ids(texts(failures@).take(i as int)),
        decreases failures.len() - i,
    {
        proof {
            let t = texts(failures@).take(i + 1);
            assert(t.drop_last() =~= texts(failures@).take(i as int));
            assert(t.last() == failures@[i as int]@);
        }
        if i > 0 {
            push_str(&mut joined, ", ");
        }
        push_str(&mut joined, failures[i].as_str());
        proof {
            if i == 0 {
                assert(joined@ =~= joined_ids(texts(failures@).take(1)));
            }
        }
        i += 1;
    }
    assert(texts(failures@).take(failures@.len() as int) =~= texts(failures@));
    let mut e = owned("worker-close ");
    push_str(&mut e, selection);
    push_str(&mut e, " failed for ");
    push_decimal(&mut e, failures.len() as u64);
    push_str(&mut e, " worker(s): ");
    push_str(&mut e, joined.as_str());
    Err(e)
}

/// The report a worker's `report` command serves: its live report, or its latest archive's.
pub struct ReportSource {
    pub path: String,
    pub archive_dir: Option<String>,
}

/// Chooses the report to serve: the live worker's where there is one, else the latest
/// archive's; neither is an error.
pub fn report(id: &str, live_dir: Option<String>, archive_dir: Option<String>) -> (r: Result<
    ReportSource,
    String,
>)
    ensures
        name_refusal(id@, "worker id"@) matches Some(e) ==> (r matches Err(m) && m@ == e),
        name_refusal(id@, "worker id"@) is None ==> match live_dir {
            Some(d) => r matches Ok(s) && s.path@ == joined_path(d@, REPORT_FILE@) && s.archive_dir
                is None,
            None => match archive_dir {
                Some(a) => r matches Ok(s) && s.path@ == joined_path(a@, REPORT_FILE@)
                    && s.archive_dir == Some(a),
                None => r matches Err(m) && m@ == "no report found for worker '"@ + id@
                    + "': no live worker or archive found"@,
            },
        },
{
    match validate_id(id) {
        Err(e) => return Err(e),
        Ok(()) => {},
    }
    match live_dir {
        Some(d) => Ok(ReportSource { path: join_path(d.as_str(), REPORT_FILE), archive_dir: None }),
        None => match archive_dir {
            Some(a) => {
                let path = join_path(a.as_str(), REPORT_FILE);
                Ok(ReportSource { path, archive_dir: Some(a) })
            },
            None => Err(
                joined3("no report found for worker '", id, "': no live worker or archive found"),
            ),
        },
    }
}

/// Why a report could not be served when its file is missing: the final pane is pointed to
/// where it was kept.
pub fn missing_report_message(id: &str, path: &str, final_pane: Option<&str>) -> (r: String)
    ensures
        final_pane matches Some(p) ==> r@ == "no report found for worker '"@ + id@ + "' at "@ + path@
            + "; final pane snapshot is available at "@ + p@,
        final_pane is None ==> r@ == "no report found for worker '"@ + id@ + "' at "@ + path@
            + "; workers should write substantial deliverables to report.md"@,
{
    let mut r = joined4("no report found for worker '", id, "' at ", path);
    match final_pane {
        Some(p) => {
            push_str(&mut r, "; final pane snapshot is available at ");
            push_str(&mut r, p);
        },
        None => push_str(&mut r, "; workers should write substantial deliverables to report.md"),
    }
    r
}

/// The note printed when a report is served from an archive.
pub fn archived_report_note(path: &str, archive_dir: &str) -> (r: String)
    ensures
        r@ == "serving archived report from "@ + path@ + " (archive: "@ + archive_dir@ + ")"@,
{
    let mut r = joined4("serving archived report from ", path, " (archive: ", archive_dir);
    push_str(&mut r, ")");
    r
}

/// The error for a worker that is not live, pointing at its latest archive where there is one.
pub fn no_live_worker_message(id: &str, latest: Result<Option<String>, String>) -> (r: String)
    ensures
        latest matches Ok(Some(a)) ==> r@ == "no live worker '"@ + id@ + "'"@ + "; latest archive: "@ + a@,
        latest matches Ok(None) ==> r@ == "no live worker '"@ + id@ + "'"@,
        latest matches Err(e) ==> r@ == "no live worker '"@ + id@ + "'"@ + "; failed to inspect archives: "@
            + e@,
{
    let mut r = joined3("no live worker '", id, "'");
    match latest {
        Ok(Some(a)) => {
            push_str(&mut r, "; latest archive: ");
            push_str(&mut r, a.as_str());
        },
        Ok(None) => {},
        Err(e) => {
            push_str(&mut r, "; failed to inspect archives: ");
            push_str(&mut r, e.as_str());
        },
    }
    r
}

/// Whole seconds from `start` to `now`, truncated, and never negative.
pub open spec fn age_seconds(start: UtcTime, now: UtcTime) -> int {
    let d = (now.secs - start.secs) * 1_000_000_000 + (now.nanos - start.nanos);
    if d <= 0 {
        0
    } else {
        d / 1_000_000_000
    }
}

/// An age in its largest whole unit: seconds, minutes, hours or days.
pub open spec fn age_text(seconds: int) -> Seq<char> {
    if seconds < 60 {
        decimal(seconds as nat) + "s"@
    } else if seconds < 3600 {
        decimal((seconds / 60) as nat) + "m"@
    } else if seconds < 86400 {
        decimal((seconds / 3600) as nat) + "h"@
    } else {
        decimal((seconds / 86400) as nat) + "d"@
    }
}

/// How long a worker has been running: from when it was created, else from its metadata's
/// modification time, else no time at all.
pub fn worker_age(created_at: Option<UtcTime>, modified_at: Option<UtcTime>, now: UtcTime) -> (r: String)
    requires
        created_at matches Some(t) ==> -8_400_000_000_000 <= t.secs <= 8_400_000_000_000 && t.nanos
            < 2_000_000_000,
        modified_at matches Some(t) ==> -8_400_000_000_000 <= t.secs <= 8_400_000_000_000
            && t.nanos < 2_000_000_000,
        -8_400_000_000_000 <= now.secs <= 8_400_000_000_000,
        now.nanos < 2_000_000_000,
    ensures
        r@ == age_text(
            age_seconds(
                match created_at {
                    Some(t) => t,
                    None => match modified_at {
                        Some(t) => t,
                        None => now,
                    },
                },
                now,
            ),
        ),
{
    let start = match created_at {
        Some(t) => t,
        None => match modified_at {
            Some(t) => t,
            None => now,
        },
    };
    let d: i128 = (now.secs as i128 - start.secs as i128) * 1_000_000_000i128 + (now.nanos as i128
        - start.nanos as i128);
    let seconds: u64 = if d <= 0 {
        0
    } else {
        (d / 1_000_000_000i128) as u64
    };
    let mut r = String::new();
    if seconds < 60 {
        push_decimal(&mut r, seconds);
        push_str(&mut r, "s");
    } else if seconds < 3600 {
        push_decimal(&mut r, seconds / 60);
        push_str(&mut r, "m");
    } else if seconds < 86400 {
        push_decimal(&mut r, seconds / 3600);
        push_str(&mut r, "h");
    } else {
        push_decimal(&mut r, seconds / 86400);
        push_str(&mut r, "d");
    }
    r
}

/// The last line of a status log with anything but whitespace on it.
pub open spec fn last_status_spec(lines: Seq<Seq<char>>) -> Option<Seq<char>>
    decreases lines.len(),
{
    if lines.len() == 0 {
        None
    } else if trim(lines.last()).len() > 0 {
        Some(lines.last())
    } else {
        last_status_spec(lines.drop_last())
    }
}

pub fn last_status_line(body: &str) -> (r: Option<String>)
    ensures
        match last_status_spec(lines_of(body@)) {
            Some(l) => r matches Some(s) && s@ == l,
            None => r is None,
        },
{
    let lines = lines_of_chars(&chars_of(body));
    let ghost all = lines@.map_values(|l: String| l@);
    let mut i = lines.len();
    assert(all.take(i as int) =~= all);
    while i > 0
        invariant
            i <= lines@.len(),
            all == lines@.map_values(|l: String| l@),
            all == lines_of(body@),
            last_status_spec(all.take(i as int)) == last_status_spec(all),
        decreases i,
    {
        proof {
            assert(all.take(i as int).last() == lines@[i - 1]@);
            assert(all.take(i as int).drop_last() =~= all.take(i - 1));
        }
        if !is_empty_str(trim_str(lines[i - 1].as_str()).as_str()) {
            return Some(owned(lines[i - 1].as_str()));
        }
        i -= 1;
    }
    None
}

/// The header of the `workers` listing.
pub fn workers_header(count: usize) -> (r: String)
    ensures
        r@ == "workers["@ + decimal(count as nat) + "]{id,agent,task,age,wake,window,last_status}:"@,
{
    let mut r = owned("workers[");
    push_decimal(&mut r, count as u64);
    push_str(&mut r, "]{id,agent,task,age,wake,window,last_status}:");
    r
}

/// Whether a status log holds an actionable line no wait has collected: a complete one at or
/// past the wake cursor (from the start where the log is shorter than the cursor, which makes
/// it a new log).
pub open spec fn wake_pending_spec(log: Seq<u8>, cursor: u64) -> bool {
    let start = if cursor > log.len() {
        0
    } else {
        cursor as int
    };
    first_actionable_from(log, start) is Line
}

pub fn wake_pending(log: &Vec<u8>, cursor: u64) -> (r: bool)
    ensures
        r == wake_pending_spec(log@, cursor),
{
    let start: usize = if cursor > log.len() as u64 {
        0
    } else {
        cursor as usize
    };
    match find_first_actionable(log, start) {
        Ok(_) => true,
        Err(_) => false,
    }
}

/// The window-health word of a worker's recorded window: a window tmux no longer lists, or
/// whose session is gone, is dead.
pub open spec fn window_health_text(state: RecordedWindowState) -> Seq<char> {
    match state {
        RecordedWindowState::Live => state_text(TargetState::Live),
        RecordedWindowState::PaneExited => state_text(TargetState::PaneExited),
        RecordedWindowState::WindowMissing => state_text(TargetState::WindowDead),
        RecordedWindowState::SessionMissing => state_text(TargetState::WindowDead),
        RecordedWindowState::Unknown { error } => state_text(TargetState::Unknown { error }),
    }
}

pub fn window_health(state: RecordedWindowState) -> (r: String)
    ensures
        r@ == window_health_text(state),
{
    match target_state(state) {
        Ok(s) => s.text(),
        Err(_) => TargetState::WindowDead.text(),
    }
}

/// One worker's row: `-` for a missing task label or status line, `pending` in the wake
/// column while a wake waits to be collected.
pub fn worker_row(
    id: &str,
    agent: &str,
    task: Option<&str>,
    age: &str,
    pending: bool,
    window: &str,
    status: Option<&str>,
) -> (r: String)
    ensures
        r@ == "  "@ + id@ + ","@ + agent@ + ","@ + match task {
            Some(t) => t@,
            None => "-"@,
        } + ","@ + age@ + ","@ + (if pending {
            "pending"@
        } else {
            "-"@
        }) + ","@ + window@ + ","@ + match status {
            Some(s) => s@,
            None => "-"@,
        },
{
    let mut r = joined4("  ", id, ",", agent);
    push_str(&mut r, ",");
    match task {
        Some(t) => push_str(&mut r, t),
        None => push_str(&mut r, "-"),
    }
    push_str(&mut r, ",");
    push_str(&mut r, age);
    push_str(&mut r, ",");
    if pending {
        push_str(&mut r, "pending");
    } else {
        push_str(&mut r, "-");
    }
    push_str(&mut r, ",");
    push_str(&mut r, window);
    push_str(&mut r, ",");
    match status {
        Some(s) => push_str(&mut r, s),
        None => push_str(&mut r, "-"),
    }
    r
}

/// A pane `peek` reads or `send` types into.
#[derive(Clone, Debug, PartialEq, Eq)]
pub enum PaneRequest {
    Worker(String),
    RunStep { run: String, index: usize },
}

/// The step a `--run`/`--index` pair names: both are needed, and steps count from 1.
pub open spec fn run_step_reading(run: Option<String>, index: Option<usize>) -> Result<PaneRequest, Seq<char>> {
    match run {
        None => Err("run-step target requires --run <id>"@),
        Some(r) => match index {
            None => Err("run-step target requires --index <N>"@),
            Some(i) => if i == 0 {
                Err("step index must be >= 1"@)
            } else {
                Ok(PaneRequest::RunStep { run: r, index: i })
            },
        },
    }
}

pub open spec fn matches_reading(r: Result<PaneRequest, String>, reading: Result<PaneRequest, Seq<char>>) -> bool {
    match reading {
        Ok(t) => r == Ok::<PaneRequest, String>(t),
        Err(e) => r matches Err(m) && m@ == e,
    }
}

pub fn run_step_target(run: Option<String>, index: Option<usize>) -> (r: Result<PaneRequest, String>)
    ensures
        matches_reading(r, run_step_reading(run, index)),
{
    let run = match run {
        Some(r) => r,
        None => return Err(owned("run-step target requires --run <id>")),
    };
    let index = match index {
        Some(i) => i,
        None => return Err(owned("run-step target requires --index <N>")),
    };
    if index == 0 {
        return Err(owned("step index must be >= 1"));
    }
    Ok(PaneRequest::RunStep { run, index })
}

/// What `peek` looks at: a worker, or a run step, never both.
pub fn resolve_peek_target(id: Option<String>, run: Option<String>, index: Option<usize>) -> (r: Result<
    PaneRequest,
    String,
>)
    ensures
        id is Some && (run is Some || index is Some) ==> (r matches Err(e) && e@
            == "use either a worker id or --run <id> --index <N>, not both"@),
        id is Some && run is None && index is None ==> r == Ok::<PaneRequest, String>(
            PaneRequest::Worker(id.unwrap()),
        ),
        id is None && (run is Some || index is Some) ==> matches_reading(r, run_step_reading(run, index)),
        id is None && run is None && index is None ==> (r matches Err(e) && e@
            == "peek requires a worker id or --run <id> --index <N>"@),
{
    let has_step_target = run.is_some() || index.is_some();
    match id {
        Some(id) => if has_step_target {
            Err(owned("use either a worker id or --run <id> --index <N>, not both"))
        } else {
            Ok(PaneRequest::Worker(id))
        },
        None => if has_step_target {
            run_step_target(run, index)
        } else {
            Err(owned("peek requires a worker id or --run <id> --index <N>"))
        },
    }
}

/// What `send` types into, and the words of its message.
pub fn resolve_send_target(
    run: Option<String>,
    index: Option<usize>,
    target_and_message: Vec<String>,
) -> (r: Result<(PaneRequest, Vec<String>), String>)
    ensures
        (run is Some || index is Some) ==> match run_step_reading(run, index) {
            Ok(t) => r matches Ok((p, m)) && p == t && m@ == target_and_message@,
            Err(e) => r matches Err(m) && m@ == e,
        },
        run is None && index is None && target_and_message@.len() == 0 ==> (r matches Err(e) && e@
            == "send requires a worker id or --run <id> --index <N>"@),
        run is None && index is None && target_and_message@.len() == 1 ==> (r matches Err(e) && e@
            == "send requires a message"@),
        run is None && index is None && target_and_message@.len() > 1 ==> (r matches Ok((p, m))
            && p == PaneRequest::Worker(target_and_message@[0]) && m@ == target_and_message@.drop_first()),
{
    if run.is_some() || index.is_some() {
        return match run_step_target(run, index) {
            Ok(t) => Ok((t, target_and_message)),
            Err(e) => Err(e),
        };
    }
    if target_and_message.len() == 0 {
        return Err(owned("send requires a worker id or --run <id> --index <N>"));
    }
    if target_and_message.len() == 1 {
        return Err(owned("send requires a message"));
    }
    let mut parts = target_and_message;
    let id = parts.remove(0);
    Ok((PaneRequest::Worker(id), parts))
}

/// Words joined with single spaces.
pub open spec fn joined_words(words: Seq<Seq<char>>) -> Seq<char>
    decreases words.len(),
{
    if words.len() == 0 {
        Seq::empty()
    } else if words.len() == 1 {
        words[0]
    } else {
        joined_words(words.drop_last()) + " "@ + words.last()
    }
}

/// A message's words as one line.
pub fn join_message(words: &Vec<String>) -> (r: String)
    ensures
        r@ == joined_words(texts(words@)),
{
    let mut r = String::new();
    let mut i: usize = 0;
    while i < words.len()
        invariant
            i <= words@.len(),
            r@ == joined_words(texts(words@).take(i as int)),
        decreases words.len() - i,
    {
        proof {
            let t = texts(words@).take(i + 1);
            assert(t.drop_last() =~= texts(words@).take(i as int));
            assert(t.last() == words@[i as int]@);
        }
        if i > 0 {
            push_str(&mut r, " ");
        }
        push_str(&mut r, words[i].as_str());
        proof {
            if i == 0 {
                assert(r@ =~= joined_words(texts(words@).take(1)));
            }
        }
        i += 1;
    }
    assert(texts(words@).take(words@.len() as int) =~= texts(words@));
    r
}

/// How a pane is named once a message landed in it.
pub fn pane_label(target: &PaneRequest) -> (r: String)
    ensures
        r@ == match target {
            PaneRequest::Worker(id) => id@,
            PaneRequest::RunStep { run, index } => run@ + " step "@ + decimal(*index as nat),
        },
{
    match target {
        PaneRequest::Worker(id) => owned(id.as_str()),
        PaneRequest::RunStep { run, index } => {
            let mut r = owned(run.as_str());
            push_str(&mut r, " step ");
            push_decimal(&mut r, *index as u64);
            r
        },
    }
}

/// The window a run step recorded, found among the run's steps by index.
pub fn step_window(run_id: &str, index: usize, steps: &Vec<(usize, Option<String>)>) -> (r: Result<
    String,
    String,
>)
    ensures
        (forall|j: int| 0 <= j < steps@.len() ==> steps@[j].0 != index) ==> (r matches Err(e) && e@
            == "step "@ + decimal(index as nat) + " not found in run "@ + run_id@),
        (exists|j: int| 0 <= j < steps@.len() && steps@[j].0 == index) ==> {
            let j = choose|j: int|
                0 <= j < steps@.len() && steps@[j].0 == index && forall|k: int|
                    0 <= k < j ==> steps@[k].0 != index;
            match steps@[j].1 {
                Some(w) => r == Ok::<String, String>(w),
                None => r matches Err(e) && e@ == "step "@ + decimal(index as nat) + " in run "@
                    + run_id@ + " has no recorded window"@,
            }
        },
{
    let mut i: usize = 0;
    while i < steps.len()
        invariant
            i <= steps@.len(),
            forall|k: int| 0 <= k < i ==> steps@[k].0 != index,
        decreases steps.len() - i,
    {
        if steps[i].0 == index {
            proof {
                let j = choose|j: int|
                    0 <= j < steps@.len() && steps@[j].0 == index && forall|k: int|
                        0 <= k < j ==> steps@[k].0 != index;
                assert(steps@[i as int].0 == index && forall|k: int| 0 <= k < i ==> steps@[k].0 != index);
                if j < i {
                    assert(steps@[j].0 != index);
                } else if j > i {
                    assert(steps@[i as int].0 != index);
                }
            }
            return match &steps[i].1 {
                Some(w) => Ok(w.clone()),
                None => {
                    let mut e = owned("step ");
                    push_decimal(&mut e, index as u64);
                    push_str(&mut e, " in run ");
                    push_str(&mut e, run_id);
                    push_str(&mut e, " has no recorded window");
                    Err(e)
                },
            };
        }
        i += 1;
    }
    let mut e = owned("step ");
    push_decimal(&mut e, index as u64);
    push_str(&mut e, " not found in run ");
    push_str(&mut e, run_id);
    Err(e)
}

/// Checks `spawn`'s arguments before anything is created.
pub fn spawn_request(id: &str, task_label: Option<&str>, has_brief: bool, task_words: usize) -> (r:
    Result<(), String>)
    ensures
        name_refusal(id@, "worker id"@) matches Some(e) ==> (r matches Err(m) && m@ == e),
        name_refusal(id@, "worker id"@) is None && task_label is Some && name_refusal(
            task_label.unwrap()@,
            "task label"@,
        ) is Some ==> (r matches Err(m) && m@ == name_refusal(task_label.unwrap()@, "task label"@).unwrap()),
        name_refusal(id@, "worker id"@) is None && (task_label matches Some(l) ==> name_refusal(
            l@,
            "task label"@,
        ) is None) ==> if !has_brief && task_words == 0 {
            r matches Err(m) && m@ == "spawn requires either --brief or task text"@
        } else {
            r is Ok
        },
{
    match validate_id(id) {
        Err(e) => return Err(e),
        Ok(()) => {},
    }
    match task_label {
        Some(l) => match validate_task_label(l) {
            Err(e) => return Err(e),
            Ok(()) => {},
        },
        None => {},
    }
    if !has_brief && task_words == 0 {
        return Err(owned("spawn requires either --brief or task text"));
    }
    Ok(())
}

/// The text appended to a log so that `line` starts on a line of its own: a newline first
/// where the log does not already end in one.
pub fn append_text(last_byte: Option<u8>, line: &str) -> (r: String)
    ensures
        r@ == (if last_byte matches Some(b) && b != 10u8 {
            "\n"@
        } else {
            Seq::empty()
        }) + line@ + "\n"@,
{
    let mut r = String::new();
    match last_byte {
        Some(b) => if b != 10u8 {
            push_str(&mut r, "\n");
        },
        None => {},
    }
    push_str(&mut r, line);
    push_str(&mut r, "\n");
    r
}

/// What `NaiveDateTime::parse_from_str(s, "%Y%m%dT%H%M%S%fZ")`, taken as UTC, reads from `s`.
pub uninterp spec fn archive_stamp_reading(s: Seq<char>) -> Option<UtcTime>;

/// Reads the timestamp an archive directory's name ends in.
///
/// Trusted: calls `chrono::NaiveDateTime::parse_from_str` with the archive format and takes the
/// result as UTC (`and_utc`, `timestamp`, `timestamp_subsec_nanos`). The reading is named:
/// chrono's format parser decides it, from the text alone.
#[verifier::external_body]
fn parse_archive_stamp(s: &str) -> (r: Option<UtcTime>)
    ensures
        r == archive_stamp_reading(s@),
{
    chrono::NaiveDateTime::parse_from_str(s, "%Y%m%dT%H%M%S%fZ").ok().map(
        |t| {
            let u = t.and_utc();
            UtcTime { secs: u.timestamp(), nanos: u.timestamp_subsec_nanos() }
        },
    )
}

/// When an archive directory named `name` was made for `worker`: its name is the worker id, a
/// `-`, and a timestamp. A name of another shape (a worker whose id merely starts the same) is
/// not one of this worker's archives.
pub open spec fn archive_time(worker: Seq<char>, name: Seq<char>) -> Option<UtcTime> {
    let prefix = worker + "-"@;
    if name.len() >= prefix.len() && name.take(prefix.len() as int) == prefix {
        archive_stamp_reading(name.skip(prefix.len() as int))
    } else {
        None
    }
}

/// Archives order by when they were made, then by path.
pub open spec fn archive_before(t1: UtcTime, p1: Seq<char>, t2: UtcTime, p2: Seq<char>) -> bool {
    (time_le(t1, t2) && t1 != t2) || (t1 == t2 && text_le(p1, p2))
}

fn archive_time_of(worker: &str, name: &str) -> (r: Option<UtcTime>)
    ensures
        r == archive_time(worker@, name@),
{
    let n = chars_of(name);
    let mut prefix = owned(worker);
    push_str(&mut prefix, "-");
    let p = chars_of(prefix.as_str());
    if n.len() < p.len() {
        return None;
    }
    let head = string_of_range(&n, 0, p.len());
    assert(n@.subrange(0, p@.len() as int) =~= name@.take(p@.len() as int));
    if !str_eq(head.as_str(), prefix.as_str()) {
        return None;
    }
    let rest = string_of_range(&n, p.len(), n.len());
    assert(n@.subrange(p@.len() as int, n@.len() as int) =~= name@.skip(p@.len() as int));
    parse_archive_stamp(rest.as_str())
}

/// The newest of a worker's archives among the directories `(path, name)` of the archive
/// root: the last by time, then path. `None` where none of them is this worker's.
pub fn latest_archive(worker: &str, dirs: &Vec<(String, String)>) -> (r: Option<String>)
    ensures
        r is None <==> forall|i: int| 0 <= i < dirs@.len() ==> archive_time(worker@, (#[trigger] dirs@[i]).1@) is None,
        r matches Some(p) ==> exists|i: int| {
            &&& 0 <= i < dirs@.len()
            &&& dirs@[i].0@ == p@
            &&& archive_time(worker@, dirs@[i].1@) matches Some(t) && forall|j: int| 0 <= j < dirs@.len() ==> (
                archive_time(worker@, (#[trigger] dirs@[j]).1@) matches Some(t2) ==> !archive_before(t, p@, t2, dirs@[j].0@)
                    || (t2 == t && dirs@[j].0@ == p@))
        },
{
    let mut best: Option<(UtcTime, usize)> = None;
    let mut i: usize = 0;
    while i < dirs.len()
        invariant
            i <= dirs@.len(),
            best is None <==> forall|k: int| 0 <= k < i ==> archive_time(worker@, (#[trigger] dirs@[k]).1@) is None,
            best matches Some((t, b)) ==> {
                &&& b < i
                &&& archive_time(worker@, dirs@[b as int].1@) == Some(t)
                &&& forall|j: int| 0 <= j < i ==> (archive_time(worker@, (#[trigger] dirs@[j]).1@) matches Some(t2)
                    ==> !archive_before(t, dirs@[b as int].0@, t2, dirs@[j].0@) || (t2 == t && dirs@[j].0@ == dirs@[b as int].0@))
            },
        decreases dirs.len() - i,
    {
        match archive_time_of(worker, dirs[i].1.as_str()) {
            None => {},
            Some(t) => {
                let replace = match best {
                    None => true,
                    Some((bt, b)) => {
                        if bt.secs != t.secs || bt.nanos != t.nanos {
                            bt.secs < t.secs || (bt.secs == t.secs && bt.nanos < t.nanos)
                        } else {
                            str_le(dirs[b].0.as_str(), dirs[i].0.as_str())
                        }
                    },
                };
                proof {
                    if let Some((bt, b)) = best {
                        crate::text::lemma_text_le_total(dirs@[b as int].0@, dirs@[i as int].0@);
                        if replace {
                            assert forall|j: int| 0 <= j < i + 1 implies (archive_time(worker@, (#[trigger] dirs@[j]).1@) matches Some(t2)
                                ==> !archive_before(t, dirs@[i as int].0@, t2, dirs@[j].0@) || (t2 == t && dirs@[j].0@ == dirs@[i as int].0@)) by {
                                if j < i {
                                    if let Some(t2) = archive_time(worker@, dirs@[j].1@) {
                                        if archive_before(t, dirs@[i as int].0@, t2, dirs@[j].0@) && !(t2 == t && dirs@[j].0@ == dirs@[i as int].0@) {
                                            if t2 == bt {
                                                crate::text::lemma_text_le_transitive(dirs@[b as int].0@, dirs@[i as int].0@, dirs@[j].0@);
                                                if dirs@[j].0@ == dirs@[b as int].0@ {
                                                    crate::text::lemma_text_le_antisymmetric(dirs@[b as int].0@, dirs@[i as int].0@);
                                                }
                                            }
                                        }
                                    }
                                } else {
                                    crate::text::lemma_text_le_reflexive(dirs@[i as int].0@);
                                }
                            }
                        } else {
                            assert(archive_time(worker@, dirs@[i as int].1@) == Some(t));
                        }
                    } else {
                        crate::text::lemma_text_le_reflexive(dirs@[i as int].0@);
                    }
                }
                if replace {
                    best = Some((t, i));
                }
            },
        }
        i += 1;
    }
    match best {
        None => None,
        Some((_, b)) => Some(owned(dirs[b].0.as_str())),
    }
}

/// The workers carrying `label`, given each worker's id and what reading its metadata found:
/// its task label, or why it could not be read. Order is kept.
pub open spec fn labelled_ids(label: Seq<char>, metas: Seq<(String, Result<Option<String>, String>)>) -> Seq<Seq<char>>
    decreases metas.len(),
{
    if metas.len() == 0 {
        Seq::empty()
    } else {
        let rest = labelled_ids(label, metas.drop_last());
        match metas.last().1 {
            Ok(Some(l)) => if l@ == label {
                rest.push(metas.last().0@)
            } else {
                rest
            },
            _ => rest,
        }
    }
}

/// The workers whose metadata could not be read, with why. Order is kept.
pub open spec fn unreadable_metas(metas: Seq<(String, Result<Option<String>, String>)>) -> Seq<(Seq<char>, Seq<char>)>
    decreases metas.len(),
{
    if metas.len() == 0 {
        Seq::empty()
    } else {
        let rest = unreadable_metas(metas.drop_last());
        match metas.last().1 {
            Err(e) => rest.push((metas.last().0@, e@)),
            _ => rest,
        }
    }
}

/// Selects the workers of a task: each whose label is `label`, and each whose metadata failed.
pub fn select_by_task(label: &str, metas: &Vec<(String, Result<Option<String>, String>)>) -> (r: (
    Vec<String>,
    Vec<(String, String)>,
))
    ensures
        texts(r.0@) == labelled_ids(label@, metas@),
        r.1@.map_values(|p: (String, String)| (p.0@, p.1@)) == unreadable_metas(metas@),
{
    let mut ids: Vec<String> = Vec::new();
    let mut failures: Vec<(String, String)> = Vec::new();
    let mut i: usize = 0;
    while i < metas.len()
        invariant
            i <= metas@.len(),
            texts(ids@) == labelled_ids(label@, metas@.take(i as int)),
            failures@.map_values(|p: (String, String)| (p.0@, p.1@)) == unreadable_metas(metas@.take(i as int)),
        decreases metas.len() - i,
    {
        let ghost before_ids = texts(ids@);
        let ghost before_failures = failures@.map_values(|p: (String, String)| (p.0@, p.1@));
        assert(metas@.take(i + 1).drop_last() =~= metas@.take(i as int));
        assert(metas@.take(i + 1).last() == metas@[i as int]);
        match &metas[i].1 {
            Ok(Some(l)) => {
                if str_eq(l.as_str(), label) {
                    ids.push(owned(metas[i].0.as_str()));
                    assert(texts(ids@) =~= before_ids.push(metas@[i as int].0@));
                }
            },
            Ok(None) => {},
            Err(e) => {
                failures.push((owned(metas[i].0.as_str()), owned(e.as_str())));
                assert(failures@.map_values(|p: (String, String)| (p.0@, p.1@)) =~= before_failures.push(
                    (metas@[i as int].0@, e@),
                ));
            },
        }
        i += 1;
    }
    assert(metas@.take(metas@.len() as int) =~= metas@);
    (ids, failures)
}

/// The workers `--all` closes, from the ids of every live worker found: each once, in text
/// order.
pub fn close_all_worker_ids(ids: &Vec<String>) -> (r: Vec<String>)
    ensures
        forall|i: int, j: int| 0 <= i < j < r@.len() ==> text_lt(#[trigger] r@[i]@, #[trigger] r@[j]@),
        forall|x: Seq<char>| texts(r@).contains(x) <==> texts(ids@).contains(x),
{
    let sorted = sort_texts(ids);
    proof {
        texts(sorted@).to_multiset_ensures();
        texts(ids@).to_multiset_ensures();
    }
    let mut r: Vec<String> = Vec::new();
    let mut k: usize = 0;
    while k < sorted.len()
        invariant
            k <= sorted@.len(),
            sorted_texts(texts(sorted@)),
            forall|i: int, j: int| 0 <= i < j < r@.len() ==> text_lt(#[trigger] r@[i]@, #[trigger] r@[j]@),
            k > 0 ==> r@.len() > 0 && r@.last()@ == sorted@[k - 1]@,
            k == 0 ==> r@.len() == 0,
            forall|x: Seq<char>| texts(r@).contains(x) <==> texts(sorted@).take(k as int).contains(x),
        decreases sorted.len() - k,
    {
        let ghost before = r@;
        let ghost seen = texts(sorted@).take(k as int);
        assert(texts(sorted@).take(k + 1) =~= seen.push(sorted@[k as int]@));
        if k == 0 || !str_eq(r[r.len() - 1].as_str(), sorted[k].as_str()) {
            proof {
                if k > 0 {
                    assert(text_le(texts(sorted@)[k - 1], texts(sorted@)[k as int]));
                    assert forall|i: int| 0 <= i < before.len() implies text_lt(#[trigger] before[i]@, sorted@[k as int]@) by {
                        if i < before.len() - 1 {
                            assert(text_lt(before[i]@, before[before.len() - 1]@));
                            lemma_text_le_transitive(before[i]@, before.last()@, sorted@[k as int]@);
                            if before[i]@ == sorted@[k as int]@ {
                                lemma_text_le_antisymmetric(before[i]@, before.last()@);
                            }
                        }
                    }
                }
            }
            r.push(owned(sorted[k].as_str()));
            assert(texts(r@) =~= texts(before).push(sorted@[k as int]@));
            assert forall|x: Seq<char>| texts(r@).contains(x) <==> texts(sorted@).take(k + 1).contains(x) by {
                vstd::seq_lib::lemma_seq_contains_after_push(texts(before), sorted@[k as int]@, x);
                vstd::seq_lib::lemma_seq_contains_after_push(seen, sorted@[k as int]@, x);
            }
        } else {
            assert(texts(r@).contains(sorted@[k as int]@)) by {
                assert(texts(r@)[r@.len() - 1] == sorted@[k as int]@);
            }
            assert forall|x: Seq<char>| texts(r@).contains(x) <==> texts(sorted@).take(k + 1).contains(x) by {
                vstd::seq_lib::lemma_seq_contains_after_push(seen, sorted@[k as int]@, x);
            }
        }
        k += 1;
    }
    assert(texts(sorted@).take(sorted@.len() as int) =~= texts(sorted@));
    assert forall|x: Seq<char>| texts(r@).contains(x) <==> texts(ids@).contains(x) by {
        assert(texts(sorted@).to_multiset().count(x) == texts(ids@).to_multiset().count(x));
    }
    r
}

/// One line for each tier field a spawned worker records, in order, skipping those it has not.
pub open spec fn tier_lines_spec(family: Option<Seq<char>>, model: Option<Seq<char>>, effort: Option<Seq<char>>) -> Seq<Seq<char>> {
    (match family {
        Some(f) => seq!["agent_family: "@ + f],
        None => Seq::empty(),
    }) + (match model {
        Some(m) => seq!["model: "@ + m],
        None => Seq::empty(),
    }) + (match effort {
        Some(e) => seq!["effort: "@ + e],
        None => Seq::empty(),
    })
}

/// What `spawn` prints of the tier a worker runs at.
pub fn worker_tier_lines(family: Option<&str>, model: Option<&str>, effort: Option<&str>) -> (r: Vec<String>)
    ensures
        texts(r@) == tier_lines_spec(opt_chars(family), opt_chars(model), opt_chars(effort)),
{
    let mut r: Vec<String> = Vec::new();
    if let Some(f) = family {
        r.push(joined3("agent_family: ", f, ""));
    }
    if let Some(m) = model {
        r.push(joined3("model: ", m, ""));
    }
    if let Some(e) = effort {
        r.push(joined3("effort: ", e, ""));
    }
    proof {
        reveal_strlit("");
    }
    assert(texts(r@) =~= tier_lines_spec(opt_chars(family), opt_chars(model), opt_chars(effort)));
    r
}

/// Optional text as plain values.
pub open spec fn opt_chars(s: Option<&str>) -> Option<Seq<char>> {
    match s {
        Some(t) => Some(t@),
        None => None,
    }
}

/// What `spawn` prints once the worker runs: where it is, how it runs, and the commands that
/// reach it.
pub open spec fn spawn_summary_spec(
    id: Seq<char>,
    window: Seq<char>,
    agent: Seq<char>,
    tier: Seq<Seq<char>>,
    task: Option<Seq<char>>,
    brief: Seq<char>,
) -> Seq<Seq<char>> {
    seq!["spawned: "@ + id, "window: "@ + window, "agent: "@ + agent] + tier + (match task {
        Some(l) => seq!["task: "@ + l],
        None => Seq::empty(),
    }) + seq![
        "brief: "@ + brief,
        "peek: niles peek "@ + id,
        "report: niles report "@ + id,
        "send: niles send "@ + id + " <message>"@,
        "close: niles close "@ + id,
    ] + (match task {
        Some(l) => seq!["close_task: niles close --task "@ + l],
        None => Seq::empty(),
    }) + seq!["workers: niles workers"@]
}

pub fn spawn_summary_lines(
    id: &str,
    window: &str,
    agent: &str,
    tier: (Option<&str>, Option<&str>, Option<&str>),
    task: Option<&str>,
    brief: &str,
) -> (r: Vec<String>)
    ensures
        texts(r@) == spawn_summary_spec(
            id@,
            window@,
            agent@,
            tier_lines_spec(opt_chars(tier.0), opt_chars(tier.1), opt_chars(tier.2)),
            opt_chars(task),
            brief@,
        ),
{
    proof {
        reveal_strlit("");
    }
    let mut r: Vec<String> = Vec::new();
    r.push(joined3("spawned: ", id, ""));
    r.push(joined3("window: ", window, ""));
    r.push(joined3("agent: ", agent, ""));
    let ghost head = texts(r@);
    let tier_lines = worker_tier_lines(tier.0, tier.1, tier.2);
    let mut k: usize = 0;
    while k < tier_lines.len()
        invariant
            k <= tier_lines@.len(),
            texts(r@) == head + texts(tier_lines@).take(k as int),
        decreases tier_lines.len() - k,
    {
        let ghost before = texts(r@);
        r.push(owned(tier_lines[k].as_str()));
        assert(texts(r@) =~= before.push(tier_lines@[k as int]@));
        assert(texts(tier_lines@).take(k + 1) =~= texts(tier_lines@).take(k as int).push(
            tier_lines@[k as int]@,
        ));
        assert(texts(r@) =~= head + texts(tier_lines@).take(k + 1));
        k += 1;
    }
    assert(texts(tier_lines@).take(tier_lines@.len() as int) =~= texts(tier_lines@));
    let ghost with_tier = texts(r@);
    let ghost task_part: Seq<Seq<char>> = match opt_chars(task) {
        Some(l) => seq!["task: "@ + l],
        None => Seq::empty(),
    };
    if let Some(l) = task {
        r.push(joined3("task: ", l, ""));
    }
    assert(texts(r@) =~= with_tier + task_part);
    let ghost with_task = texts(r@);
    r.push(joined3("brief: ", brief, ""));
    r.push(joined3("peek: niles peek ", id, ""));
    r.push(joined3("report: niles report ", id, ""));
    r.push(joined3("send: niles send ", id, " <message>"));
    r.push(joined3("close: niles close ", id, ""));
    assert(texts(r@) =~= with_task + seq![
        "brief: "@ + brief@,
        "peek: niles peek "@ + id@,
        "report: niles report "@ + id@,
        "send: niles send "@ + id@ + " <message>"@,
        "close: niles close "@ + id@,
    ]);
    let ghost with_commands = texts(r@);
    let ghost close_task_part: Seq<Seq<char>> = match opt_chars(task) {
        Some(l) => seq!["close_task: niles close --task "@ + l],
        None => Seq::empty(),
    };
    if let Some(l) = task {
        r.push(joined3("close_task: niles close --task ", l, ""));
    }
    assert(texts(r@) =~= with_commands + close_task_part);
    let ghost with_close = texts(r@);
    r.push(owned("workers: niles workers"));
    assert(texts(r@) =~= with_close + seq!["workers: niles workers"@]);
    assert(texts(r@) =~= spawn_summary_spec(
        id@,
        window@,
        agent@,
        tier_lines_spec(opt_chars(tier.0), opt_chars(tier.1), opt_chars(tier.2)),
        opt_chars(task),
        brief@,
    ));
    r
}

/// A spawn under an id that already has a live worker is refused.
pub fn spawn_collision(id: &str, live: bool) -> (r: Result<(), String>)
    ensures
        live ==> (r matches Err(e) && e@ == "worker id '"@ + id@ + "' already exists"@),
        !live ==> r is Ok,
{
    if live {
        Err(joined3("worker id '", id, "' already exists"))
    } else {
        Ok(())
    }
}

/// What a failed launch is reported under.
pub open spec fn failed_launch_text(id: Seq<char>, dir: Seq<char>, cleanup: Result<(), String>) -> Seq<char> {
    match cleanup {
        Ok(()) => "failed to launch worker "@ + id + "; cleaned up partial worker at "@ + dir,
        Err(e) => "failed to launch worker "@ + id
            + "; additionally failed to clean up partial worker at "@ + dir + ": "@ + e@,
    }
}

/// What a failed launch is reported under, once the partial worker at `dir` was cleaned up or
/// could not be.
pub fn failed_launch_context(id: &str, dir: &str, cleanup: Result<(), String>) -> (r: String)
    ensures
        cleanup is Ok ==> r@ == "failed to launch worker "@ + id@ + "; cleaned up partial worker at "@ + dir@,
        cleanup matches Err(e) ==> r@ == "failed to launch worker "@ + id@
            + "; additionally failed to clean up partial worker at "@ + dir@ + ": "@ + e@,
        r@ == failed_launch_text(id@, dir@, cleanup),
{
    let mut r = joined3("failed to launch worker ", id, "");
    proof {
        reveal_strlit("");
    }
    match cleanup {
        Ok(()) => {
            push_str(&mut r, "; cleaned up partial worker at ");
            push_str(&mut r, dir);
        },
        Err(e) => {
            push_str(&mut r, "; additionally failed to clean up partial worker at ");
            push_str(&mut r, dir);
            push_str(&mut r, ": ");
            push_str(&mut r, e.as_str());
        },
    }
    r
}

/// One thing `spawn` does to the workspace or to tmux, in the order the plan gives.
#[derive(Clone, Copy, Debug, PartialEq, Eq, Structural)]
pub enum SpawnAction {
    /// Move an earlier worker directory of the same id into the archive.
    ArchiveStale,
    /// Create the worker's directory.
    CreateDir,
    /// Write `brief.md` from the task text.
    WriteBrief,
    /// Create the worker's empty status log.
    CreateStatusLog,
    /// Record where the worker lives.
    RegisterLocation,
    /// Start the worker's tmux window.
    LaunchWindow,
    /// Write the worker's metadata.
    WriteMeta,
    /// Take back what a failed launch left: the registration, the metadata and the directory.
    Cleanup,
}

/// The tmux window a worker runs in: `niles-<id>`.
pub fn worker_window_name(id: &str) -> (r: String)
    ensures
        r@ == "niles-"@ + id@,
{
    let mut r = owned("niles-");
    push_str(&mut r, id);
    r
}

/// The refusal `spawn` gives its arguments, where it gives one.
pub open spec fn spawn_refusal(id: Seq<char>, task_label: Option<Seq<char>>, has_brief: bool, task_words: nat) -> Option<Seq<char>> {
    if name_refusal(id, "worker id"@) is Some {
        name_refusal(id, "worker id"@)
    } else if task_label is Some && name_refusal(task_label.unwrap(), "task label"@) is Some {
        name_refusal(task_label.unwrap(), "task label"@)
    } else if !has_brief && task_words == 0 {
        Some("spawn requires either --brief or task text"@)
    } else {
        None
    }
}

/// What spawn does, in order, once nothing refused it: a stale directory of the same id goes
/// to the archive first, and the brief is written only where none was given.
pub open spec fn spawn_actions(has_brief: bool, dir_exists: bool) -> Seq<SpawnAction> {
    (if dir_exists { seq![SpawnAction::ArchiveStale] } else { Seq::empty() }) + seq![SpawnAction::CreateDir]
        + (if has_brief { Seq::empty() } else { seq![SpawnAction::WriteBrief] }) + seq![
        SpawnAction::CreateStatusLog,
        SpawnAction::RegisterLocation,
        SpawnAction::LaunchWindow,
        SpawnAction::WriteMeta,
    ]
}

/// Decides what `spawn` does before it touches anything: its arguments are checked first, then
/// that it runs inside tmux, then that no live worker has the id. Any of these refuses the spawn
/// with nothing written; otherwise the plan lists the actions to take, in order, each one only
/// after the one before it succeeded.
pub fn spawn_plan(
    id: &str,
    task_label: Option<&str>,
    has_brief: bool,
    task_words: usize,
    in_tmux: bool,
    live: bool,
    dir_exists: bool,
) -> (r: Result<Vec<SpawnAction>, String>)
    ensures
        spawn_refusal(id@, opt_chars(task_label), has_brief, task_words as nat) matches Some(e)
            ==> (r matches Err(m) && m@ == e),
        spawn_refusal(id@, opt_chars(task_label), has_brief, task_words as nat) is None && !in_tmux
            ==> (r matches Err(m) && m@ == outside_tmux_text()),
        spawn_refusal(id@, opt_chars(task_label), has_brief, task_words as nat) is None && in_tmux
            && live ==> (r matches Err(m) && m@ == "worker id '"@ + id@ + "' already exists"@),
        spawn_refusal(id@, opt_chars(task_label), has_brief, task_words as nat) is None && in_tmux
            && !live ==> (r matches Ok(a) && a@ == spawn_actions(has_brief, dir_exists)),
{
    match spawn_request(id, task_label, has_brief, task_words) {
        Err(e) => return Err(e),
        Ok(()) => {},
    }
    if !in_tmux {
        return Err(
            owned(
                "niles must run inside tmux. Start one with `tmux new -s niles`, or attach an existing session, then rerun.",
            ),
        );
    }
    match spawn_collision(id, live) {
        Err(e) => return Err(e),
        Ok(()) => {},
    }
    let mut a: Vec<SpawnAction> = Vec::new();
    if dir_exists {
        a.push(SpawnAction::ArchiveStale);
    }
    a.push(SpawnAction::CreateDir);
    if !has_brief {
        a.push(SpawnAction::WriteBrief);
    }
    a.push(SpawnAction::CreateStatusLog);
    a.push(SpawnAction::RegisterLocation);
    a.push(SpawnAction::LaunchWindow);
    a.push(SpawnAction::WriteMeta);
    assert(a@ =~= spawn_actions(has_brief, dir_exists));
    Ok(a)
}

/// What a spawn does once one of its actions failed with `error`.
#[derive(Clone, Debug, PartialEq, Eq)]
pub enum SpawnRecovery {
    /// Take this action first, then come back with its result.
    Then(SpawnAction),
    /// Give up with this error.
    Fail(String),
}

/// What follows a failed spawn action. Only a window that failed to launch leaves a partial
/// worker behind: it is cleaned up first (`cleanup` is `None` until then), and the spawn then
/// fails with the launch error under a context that says whether the cleanup worked, in the
/// one-line `context: cause` form. Any other failure stops the spawn with its own error.
pub fn spawn_recovery(id: &str, dir: &str, failed: SpawnAction, error: String, cleanup: Option<
    Result<(), String>,
>) -> (r: SpawnRecovery)
    ensures
        failed == SpawnAction::LaunchWindow && cleanup is None ==> r == SpawnRecovery::Then(
            SpawnAction::Cleanup,
        ),
        failed == SpawnAction::LaunchWindow && cleanup is Some ==> (r matches SpawnRecovery::Fail(m)
            && m@ == failed_launch_text(id@, dir@, cleanup.unwrap()) + ": "@ + error@),
        failed != SpawnAction::LaunchWindow ==> r == SpawnRecovery::Fail(error),
{
    match failed {
        SpawnAction::LaunchWindow => match cleanup {
            None => SpawnRecovery::Then(SpawnAction::Cleanup),
            Some(c) => {
                let mut m = failed_launch_context(id, dir, c);
                push_str(&mut m, ": ");
                push_str(&mut m, error.as_str());
                SpawnRecovery::Fail(m)
            },
        },
        _ => SpawnRecovery::Fail(error),
    }
}

/// When a worker's metadata says it was spawned: its `created_at`, read as RFC 3339, where it
/// records one that reads.
pub fn created_at_of(text: Option<&str>) -> (r: Option<UtcTime>)
    ensures
        r == match text {
            Some(t) => rfc3339_reading(t@),
            None => None,
        },
{
    match text {
        Some(t) => parse_rfc3339(t),
        None => None,
    }
}

} // verus!
