//! Wake delivery: which status line a wait hands over, how it is rendered, and what the wait
//! prints and exits with.
use vstd::prelude::*;


use crate::statuslog::{
    find_first_actionable, first_actionable_from, lemma_first_actionable_bounds, line_text, ScanPoint,
};
use crate::digits::{
    decimal, int_error, int_error_text, lemma_decimal_reads_back, lemma_parse_decimal,
    parse_u64_spec, parse_u64_str, push_decimal,
};
use crate::text::{
    chars_of, is_whitespace, owned, push_char, push_str, str_eq, texts, trim, trim_end, trim_start,
    trim_str,
};
use crate::wake::{
    is_actionable_wake, is_closed_wake, line, line_is_actionable, line_is_closed, wake_line, WakeKind,
};

verus! {

/// Exit code of a wait that delivered a wake.
pub const EXIT_WAKE: u8 = 0;

/// Exit code of a wait whose worker closed or whose window went away.
pub const EXIT_WORKER_CLOSED: u8 = 10;

/// Exit code of a wait that timed out.
pub const EXIT_TIMEOUT: u8 = 22;

/// Longest status line rendered to the manager, in UTF-8 bytes.
pub const MAX_LINE_BYTES: u64 = 4096;

/// The lowercase hexadecimal digit for `d`.
pub open spec fn hex_char(d: nat) -> char {
    if d < 10 {
        (d + '0' as nat) as char
    } else {
        (d - 10 + 'a' as nat) as char
    }
}

/// The lowercase hexadecimal spelling of `n`, with no leading zeros.
pub open spec fn hex(n: nat) -> Seq<char>
    decreases n,
{
    if n < 16 {
        seq![hex_char(n)]
    } else {
        hex(n / 16).push(hex_char(n % 16))
    }
}

fn hex_exec(n: u32) -> (r: String)
    ensures
        r@ == hex(n as nat),
    decreases n,
{
    let d: u32 = n % 16;
    let c: char = if d < 10 {
        ((d as u8) + 48) as char
    } else {
        ((d as u8) + 87) as char
    };
    if n < 16 {
        let mut r = String::new();
        push_char(&mut r, c);
        assert(r@ =~= hex(n as nat));
        r
    } else {
        let mut r = hex_exec(n / 16);
        push_char(&mut r, c);
        r
    }
}

/// A control character, as `char::is_control` classifies it: Unicode category Cc.
pub open spec fn is_control(c: char) -> bool {
    (c as u32) <= 0x1f || (0x7f <= (c as u32) && (c as u32) <= 0x9f)
}

/// What `char::escape_debug` writes for a control character.
pub open spec fn escape_control(c: char) -> Seq<char> {
    if c == '\0' {
        "\\0"@
    } else if c == '\t' {
        "\\t"@
    } else if c == '\r' {
        "\\r"@
    } else if c == '\n' {
        "\\n"@
    } else {
        "\\u{"@ + hex((c as u32) as nat) + "}"@
    }
}

/// `s` with each control character escaped and every other character kept.
pub open spec fn escape_controls(s: Seq<char>) -> Seq<char>
    decreases s.len(),
{
    if s.len() == 0 {
        s
    } else {
        escape_controls(s.drop_last()) + if is_control(s.last()) {
            escape_control(s.last())
        } else {
            seq![s.last()]
        }
    }
}

/// How many bytes UTF-8 spends on `c`.
pub open spec fn utf8_len(c: char) -> nat {
    if (c as u32) < 0x80 {
        1
    } else if (c as u32) < 0x800 {
        2
    } else if (c as u32) < 0x10000 {
        3
    } else {
        4
    }
}

/// How many bytes UTF-8 spends on `s`.
pub open spec fn utf8_size(s: Seq<char>) -> nat
    decreases s.len(),
{
    if s.len() == 0 {
        0
    } else {
        utf8_size(s.drop_last()) + utf8_len(s.last())
    }
}

/// The longest prefix of `s` that fits in `max` bytes.
pub open spec fn fitting_prefix(s: Seq<char>, max: nat) -> Seq<char>
    decreases s.len(),
{
    if s.len() == 0 || utf8_size(s) <= max {
        s
    } else {
        fitting_prefix(s.drop_last(), max)
    }
}

/// A status line as the manager sees it: control characters escaped, and cut at a character
/// boundary with a marker where it runs past `MAX_LINE_BYTES`.
pub open spec fn rendered(line: Seq<char>) -> Seq<char> {
    let e = escape_controls(line);
    if utf8_size(e) <= MAX_LINE_BYTES {
        e
    } else {
        fitting_prefix(e, MAX_LINE_BYTES as nat) + "... (truncated)"@
    }
}

fn char_is_control(c: char) -> (r: bool)
    ensures
        r == is_control(c),
{
    let u = c as u32;
    u <= 0x1f || (0x7f <= u && u <= 0x9f)
}

fn char_utf8_len(c: char) -> (r: u64)
    ensures
        r == utf8_len(c),
{
    let u = c as u32;
    if u < 0x80 {
        1
    } else if u < 0x800 {
        2
    } else if u < 0x10000 {
        3
    } else {
        4
    }
}

proof fn lemma_utf8_size_append(a: Seq<char>, b: Seq<char>)
    ensures
        utf8_size(a + b) == utf8_size(a) + utf8_size(b),
    decreases b.len(),
{
    if b.len() == 0 {
        assert(a + b =~= a);
    } else {
        assert((a + b).drop_last() =~= a + b.drop_last());
        lemma_utf8_size_append(a, b.drop_last());
    }
}

proof fn lemma_utf8_size_prefix(s: Seq<char>, k: int)
    requires
        0 <= k <= s.len(),
    ensures
        utf8_size(s.take(k)) <= utf8_size(s),
    decreases s.len() - k,
{
    if k < s.len() {
        lemma_utf8_size_prefix(s, k + 1);
        assert(s.take(k + 1).drop_last() =~= s.take(k));
    } else {
        assert(s.take(k) =~= s);
    }
}

/// The fitting prefix is the prefix of length `k` where `k` characters fit and `k + 1` do not.
proof fn lemma_fitting_prefix(s: Seq<char>, max: nat, k: int)
    requires
        0 <= k < s.len(),
        utf8_size(s.take(k)) <= max,
        utf8_size(s.take(k + 1)) > max,
    ensures
        fitting_prefix(s, max) == s.take(k),
    decreases s.len(),
{
    lemma_utf8_size_prefix(s, k + 1);
    assert(utf8_size(s) > max);
    if s.len() == k + 1 {
        assert(s.take(k + 1) =~= s);
        assert(s.drop_last() =~= s.take(k));
        assert(fitting_prefix(s.take(k), max) == s.take(k));
    } else {
        assert(s.drop_last().take(k) =~= s.take(k));
        assert(s.drop_last().take(k + 1) =~= s.take(k + 1));
        lemma_fitting_prefix(s.drop_last(), max, k);
    }
}

/// Escapes control characters so a status line cannot rewrite the manager's terminal, and caps
/// its length so it cannot flood it.
pub fn render(text: &str) -> (r: String)
    ensures
        r@ == rendered(text@),
{
    let chars = chars_of(text);
    let mut escaped = String::new();
    let mut i: usize = 0;
    while i < chars.len()
        invariant
            i <= chars@.len(),
            chars@ == text@,
            escaped@ == escape_controls(chars@.take(i as int)),
        decreases chars.len() - i,
    {
        let c = chars[i];
        if char_is_control(c) {
            if c == '\0' {
                push_str(&mut escaped, "\\0");
            } else if c == '\t' {
                push_str(&mut escaped, "\\t");
            } else if c == '\r' {
                push_str(&mut escaped, "\\r");
            } else if c == '\n' {
                push_str(&mut escaped, "\\n");
            } else {
                push_str(&mut escaped, "\\u{");
                let h = hex_exec(c as u32);
                push_str(&mut escaped, h.as_str());
                push_str(&mut escaped, "}");
            }
        } else {
            push_char(&mut escaped, c);
        }
        proof {
            assert(chars@.take(i + 1).drop_last() =~= chars@.take(i as int));
            assert(chars@.take(i + 1).last() == c);
        }
        i += 1;
    }
    assert(chars@.take(chars@.len() as int) =~= text@);
    let e = chars_of(escaped.as_str());
    let mut size: u64 = 0;
    let mut k: usize = 0;
    while k < e.len()
        invariant
            k <= e@.len(),
            e@ == escaped@,
            escaped@ == escape_controls(text@),
            size == utf8_size(e@.take(k as int)),
            size <= MAX_LINE_BYTES,
        decreases e.len() - k,
    {
        let n = char_utf8_len(e[k]);
        proof {
            assert(e@.take(k + 1).drop_last() =~= e@.take(k as int));
            assert(e@.take(k + 1).last() == e@[k as int]);
        }
        if size + n > MAX_LINE_BYTES {
            let mut r = String::new();
            let mut j: usize = 0;
            while j < k
                invariant
                    j <= k < e@.len(),
                    r@ == e@.take(j as int),
                    e@ == escape_controls(text@),
                    size == utf8_size(e@.take(k as int)),
                    n == utf8_len(e@[k as int]),
                    size + n > MAX_LINE_BYTES,
                decreases k - j,
            {
                push_char(&mut r, e[j]);
                j += 1;
                assert(r@ =~= e@.take(j as int));
            }
            push_str(&mut r, "... (truncated)");
            proof {
                assert(e@.take(k + 1).drop_last() =~= e@.take(k as int));
                assert(e@.take(k + 1).last() == e@[k as int]);
                lemma_fitting_prefix(e@, MAX_LINE_BYTES as nat, k as int);
                lemma_utf8_size_prefix(e@, k + 1);
            }
            return r;
        }
        size = size + n;
        k += 1;
    }
    assert(e@.take(e@.len() as int) =~= e@);
    escaped
}

/// A wake line as printed: prefixed with the worker id when several workers are waited on.
pub open spec fn wake_output(id: Seq<char>, line: Seq<char>, prefix_worker_id: bool) -> Seq<char> {
    if prefix_worker_id {
        id + ": "@ + line
    } else {
        line
    }
}

pub fn wake_output_exec(id: &str, line: String, prefix_worker_id: bool) -> (r: String)
    ensures
        r@ == wake_output(id@, line@, prefix_worker_id),
{
    if prefix_worker_id {
        let mut r = owned(id);
        push_str(&mut r, ": ");
        push_str(&mut r, line.as_str());
        r
    } else {
        line
    }
}

/// `value` in single quotes, each `'` inside written as `'\''`.
pub open spec fn quoted_spec(value: Seq<char>) -> Seq<char> {
    "'"@ + replace_quote(value) + "'"@
}

pub open spec fn replace_quote(value: Seq<char>) -> Seq<char>
    decreases value.len(),
{
    if value.len() == 0 {
        value
    } else {
        replace_quote(value.drop_last()) + if value.last() == '\'' {
            "'\\''"@
        } else {
            seq![value.last()]
        }
    }
}

pub fn quoted(value: &str) -> (r: String)
    ensures
        r@ == quoted_spec(value@),
{
    let chars = chars_of(value);
    let mut r = owned("'");
    let mut i: usize = 0;
    while i < chars.len()
        invariant
            i <= chars@.len(),
            r@ == "'"@ + replace_quote(chars@.take(i as int)),
        decreases chars.len() - i,
    {
        if chars[i] == '\'' {
            push_str(&mut r, "'\\''");
        } else {
            push_char(&mut r, chars[i]);
        }
        proof {
            assert(chars@.take(i + 1).drop_last() =~= chars@.take(i as int));
        }
        i += 1;
    }
    push_str(&mut r, "'");
    assert(chars@.take(chars@.len() as int) =~= value@);
    r
}

/// A field value that needs quoting: empty, or holding whitespace or a quote.
pub open spec fn needs_quoting(value: Seq<char>) -> bool {
    value.len() == 0 || exists|i: int|
        0 <= i < value.len() && (crate::text::is_whitespace(#[trigger] value[i]) || value[i] == '\''
            || value[i] == '"')
}

/// A `key=value` field value: bare where it is safe, quoted otherwise.
pub open spec fn field_spec(value: Seq<char>) -> Seq<char> {
    if needs_quoting(value) {
        quoted_spec(value)
    } else {
        value
    }
}

pub fn field(value: &str) -> (r: String)
    ensures
        r@ == field_spec(value@),
{
    let chars = chars_of(value);
    let mut needs = chars.len() == 0;
    let mut i: usize = 0;
    while i < chars.len() && !needs
        invariant
            i <= chars@.len(),
            chars@ == value@,
            needs ==> needs_quoting(value@),
            !needs ==> value@.len() > 0 && forall|j: int|
                0 <= j < i ==> !(crate::text::is_whitespace(#[trigger] value@[j]) || value@[j]
                    == '\'' || value@[j] == '"'),
        decreases chars.len() - i,
    {
        let c = chars[i];
        if crate::text::char_is_whitespace(c) || c == '\'' || c == '"' {
            assert(crate::text::is_whitespace(value@[i as int]) || value@[i as int] == '\''
                || value@[i as int] == '"');
            needs = true;
        }
        i += 1;
    }
    if needs {
        quoted(value)
    } else {
        owned(value)
    }
}

/// How serde_json escapes one character inside a JSON string.
pub open spec fn json_escape(c: char) -> Seq<char> {
    if c == '"' {
        "\\\""@
    } else if c == '\\' {
        "\\\\"@
    } else if (c as u32) == 0x08 {
        "\\b"@
    } else if c == '\t' {
        "\\t"@
    } else if c == '\n' {
        "\\n"@
    } else if (c as u32) == 0x0c {
        "\\f"@
    } else if c == '\r' {
        "\\r"@
    } else if (c as u32) < 0x20 {
        "\\u00"@ + seq![hex_char((c as nat) / 16), hex_char((c as nat) % 16)]
    } else {
        seq![c]
    }
}

pub open spec fn json_escape_all(s: Seq<char>) -> Seq<char>
    decreases s.len(),
{
    if s.len() == 0 {
        s
    } else {
        json_escape_all(s.drop_last()) + json_escape(s.last())
    }
}

/// `s` as a JSON string literal, as serde_json writes it.
pub open spec fn json_string(s: Seq<char>) -> Seq<char> {
    "\""@ + json_escape_all(s) + "\""@
}

/// Writes `s` as a JSON string.
///
/// Trusted: calls `serde_json::to_string` on a `&str`. Its source writes `"`, then each
/// character, escaping `"` and `\` with a backslash, the controls 0x08, 0x09, 0x0a, 0x0c and
/// 0x0d as `\b \t \n \f \r`, the other controls below 0x20 as `\u00` and two lowercase hex
/// digits; then `"`. The only error it can return comes from its writer, and writing into a
/// `Vec` does not fail, so the result is always `Some`.
#[verifier::external_body]
pub(crate) fn json_str(s: &str) -> (r: Option<String>)
    ensures
        r is Some,
        r.unwrap()@ == json_string(s@),
{
    serde_json::to_string(s).ok()
}

/// Appends `s` written as a JSON string.
pub(crate) fn push_json(r: &mut String, s: &str)
    ensures
        final(r)@ == old(r)@ + json_string(s@),
{
    match json_str(s) {
        Some(t) => push_str(r, t.as_str()),
        None => {},
    }
}

/// A free-text detail, as a JSON string.
pub open spec fn detail_spec(value: Seq<char>) -> Seq<char> {
    json_string(value)
}

pub fn detail(value: &str) -> (r: String)
    ensures
        r@ == detail_spec(value@),
{
    match json_str(value) {
        Some(json) => json,
        None => quoted(value),
    }
}

/// What a wait ended with.
pub enum WaitOutcome {
    /// An actionable line, already rendered.
    Wake { id: String, line: String },
    /// A `closed:` line, or a worker whose directory is gone.
    Closed { id: String, status: String, line: String },
    /// A worker whose tmux window is gone, with nothing further in its log.
    WindowGone { id: String, status: String },
    /// No wake before the timeout; `timeout` is the timeout as it is printed.
    Timeout { subject: String, timeout: String },
}

impl WaitOutcome {
    /// The outcome of a delivered line: a `closed:` line closes the wait on that worker, any
    /// other actionable line is a wake.
    pub fn for_line(id: String, status: String, line: String) -> (r: WaitOutcome)
        ensures
            line_is_closed(line@) ==> r == (WaitOutcome::Closed { id, status, line }),
            !line_is_closed(line@) ==> r == (WaitOutcome::Wake { id, line }),
    {
        if is_closed_wake(line.as_str()) {
            WaitOutcome::Closed { id, status, line }
        } else {
            WaitOutcome::Wake { id, line }
        }
    }

    /// The outcome for a worker whose directory is gone: it is closed, with a `closed:` line
    /// saying why.
    pub fn directory_removed(id: String, status: String) -> (r: WaitOutcome)
        ensures
            r matches WaitOutcome::Closed { id: i, status: s, line } && i == id && s == status
                && line@ == wake_line(WakeKind::Closed, "worker '"@ + id@ + "' directory removed"@),
    {
        let mut detail = owned("worker '");
        push_str(&mut detail, id.as_str());
        push_str(&mut detail, "' directory removed");
        let line = line(WakeKind::Closed, detail.as_str());
        WaitOutcome::Closed { id, status, line }
    }
}

/// The exit code and the lines a wait prints.
pub struct WaitExit {
    pub code: u8,
    pub stdout: Option<String>,
    pub stderr: Option<String>,
}

pub open spec fn opt_text(s: Option<String>) -> Option<Seq<char>> {
    match s {
        Some(t) => Some(t@),
        None => None,
    }
}

pub open spec fn closed_stderr(id: Seq<char>, status: Seq<char>) -> Seq<char> {
    "wait: worker-closed worker="@ + field_spec(id) + " status="@ + field_spec(status)
        + " detail="@ + detail_spec("worker '"@ + id + "' closed"@)
}

pub open spec fn gone_line(id: Seq<char>) -> Seq<char> {
    wake_line(
        WakeKind::Failed,
        "worker '"@ + id + "' exited without reporting; its window is gone"@,
    )
}

pub open spec fn gone_stderr(id: Seq<char>, status: Seq<char>) -> Seq<char> {
    "wait: window-gone worker="@ + field_spec(id) + " status="@ + field_spec(status)
        + " detail="@ + detail_spec(
        "worker '"@ + id
            + "' tmux window is gone and its status log ended without a final line"@,
    )
}

pub open spec fn timeout_stderr(subject: Seq<char>, timeout: Seq<char>) -> Seq<char> {
    "wait: timeout target="@ + field_spec(subject) + " timeout="@ + timeout
}

/// The exit a wait outcome produces.
pub open spec fn exit_spec(outcome: WaitOutcome, prefix_worker_id: bool) -> (u8, Option<Seq<char>>, Option<Seq<char>>) {
    match outcome {
        WaitOutcome::Wake { id, line } => (
            EXIT_WAKE,
            Some(wake_output(id@, line@, prefix_worker_id)),
            None,
        ),
        WaitOutcome::Closed { id, status, line } => (
            EXIT_WORKER_CLOSED,
            Some(wake_output(id@, line@, prefix_worker_id)),
            Some(closed_stderr(id@, status@)),
        ),
        WaitOutcome::WindowGone { id, status } => (
            EXIT_WORKER_CLOSED,
            Some(wake_output(id@, gone_line(id@), prefix_worker_id)),
            Some(gone_stderr(id@, status@)),
        ),
        WaitOutcome::Timeout { subject, timeout } => (
            EXIT_TIMEOUT,
            None,
            Some(timeout_stderr(subject@, timeout@)),
        ),
    }
}

fn worker_phrase(id: &str, tail: &str) -> (r: String)
    ensures
        r@ == "worker '"@ + id@ + tail@,
{
    let mut r = owned("worker '");
    push_str(&mut r, id);
    push_str(&mut r, tail);
    r
}

fn keyed(head: &str, id: &str, status: &str, detail_text: &str) -> (r: String)
    ensures
        r@ == head@ + field_spec(id@) + " status="@ + field_spec(status@) + " detail="@
            + detail_spec(detail_text@),
{
    let mut r = owned(head);
    push_str(&mut r, field(id).as_str());
    push_str(&mut r, " status=");
    push_str(&mut r, field(status).as_str());
    push_str(&mut r, " detail=");
    push_str(&mut r, detail(detail_text).as_str());
    r
}

impl WaitExit {
    pub fn from_outcome(outcome: WaitOutcome, prefix_worker_id: bool) -> (r: WaitExit)
        ensures
            (r.code, opt_text(r.stdout), opt_text(r.stderr)) == exit_spec(outcome, prefix_worker_id),
    {
        match outcome {
            WaitOutcome::Wake { id, line } => WaitExit {
                code: EXIT_WAKE,
                stdout: Some(wake_output_exec(id.as_str(), line, prefix_worker_id)),
                stderr: None,
            },
            WaitOutcome::Closed { id, status, line } => {
                let d = worker_phrase(id.as_str(), "' closed");
                let err = keyed("wait: worker-closed worker=", id.as_str(), status.as_str(), d.as_str());
                WaitExit {
                    code: EXIT_WORKER_CLOSED,
                    stdout: Some(wake_output_exec(id.as_str(), line, prefix_worker_id)),
                    stderr: Some(err),
                }
            },
            WaitOutcome::WindowGone { id, status } => {
                let what = worker_phrase(
                    id.as_str(),
                    "' exited without reporting; its window is gone",
                );
                let gone = line(WakeKind::Failed, what.as_str());
                let d = worker_phrase(
                    id.as_str(),
                    "' tmux window is gone and its status log ended without a final line",
                );
                let err = keyed("wait: window-gone worker=", id.as_str(), status.as_str(), d.as_str());
                WaitExit {
                    code: EXIT_WORKER_CLOSED,
                    stdout: Some(wake_output_exec(id.as_str(), gone, prefix_worker_id)),
                    stderr: Some(err),
                }
            },
            WaitOutcome::Timeout { subject, timeout } => {
                let mut err = owned("wait: timeout target=");
                push_str(&mut err, field(subject.as_str()).as_str());
                push_str(&mut err, " timeout=");
                push_str(&mut err, timeout.as_str());
                WaitExit { code: EXIT_TIMEOUT, stdout: None, stderr: Some(err) }
            },
        }
    }
}

/// `ids` with each repeat after its first occurrence dropped.
pub open spec fn dedup_spec(ids: Seq<Seq<char>>) -> Seq<Seq<char>>
    decreases ids.len(),
{
    if ids.len() == 0 {
        ids
    } else {
        let rest = dedup_spec(ids.drop_last());
        if rest.contains(ids.last()) {
            rest
        } else {
            rest.push(ids.last())
        }
    }
}

/// Drops every repeated id, keeping the first occurrence of each.
pub fn dedup(ids: Vec<String>) -> (r: Vec<String>)
    ensures
        texts(r@) == dedup_spec(texts(ids@)),
{
    let mut r: Vec<String> = Vec::new();
    let mut i: usize = 0;
    while i < ids.len()
        invariant
            i <= ids@.len(),
            texts(r@) == dedup_spec(texts(ids@).take(i as int)),
        decreases ids.len() - i,
    {
        let ghost before = texts(r@);
        proof {
            assert(texts(ids@).take(i + 1).drop_last() =~= texts(ids@).take(i as int));
            assert(texts(ids@).take(i + 1).last() == ids@[i as int]@);
        }
        let mut seen = false;
        let mut j: usize = 0;
        while j < r.len()
            invariant
                j <= r@.len(),
                i < ids@.len(),
                before == texts(r@),
                seen <==> exists|k: int| 0 <= k < j && r@[k]@ == ids@[i as int]@,
            decreases r.len() - j,
        {
            if str_eq(r[j].as_str(), ids[i].as_str()) {
                seen = true;
            }
            j += 1;
        }
        proof {
            if seen {
                let k = choose|k: int| 0 <= k < r@.len() && r@[k]@ == ids@[i as int]@;
                assert(before[k] == ids@[i as int]@);
            } else {
                assert forall|k: int| 0 <= k < before.len() implies before[k] != ids@[i as int]@ by {
                    assert(before[k] == r@[k]@);
                }
            }
        }
        if !seen {
            r.push(owned(ids[i].as_str()));
            assert(texts(r@) =~= before.push(ids@[i as int]@));
        }
        i += 1;
    }
    assert(texts(ids@).take(ids@.len() as int) =~= texts(ids@));
    r
}

/// Where the workers to wait on come from.
pub enum WaitRequest {
    /// The named workers, each once, in the order first named.
    Workers(Vec<String>),
    /// The live workers carrying the given task label.
    Task(String),
}

/// Reads `--worker` and `--task`: exactly one of the two must be given.
pub fn resolve_request(worker_ids: Vec<String>, task: Option<String>) -> (r: Result<WaitRequest, String>)
    ensures
        worker_ids@.len() > 0 && task is None ==> (r matches Ok(WaitRequest::Workers(ids)) && texts(ids@)
            == dedup_spec(texts(worker_ids@))),
        worker_ids@.len() == 0 && task is Some ==> (r matches Ok(WaitRequest::Task(label)) && label
            == task.unwrap()),
        worker_ids@.len() > 0 && task is Some ==> (r matches Err(e) && e@
            == "use either --worker <id> or --task <label>, not both"@),
        worker_ids@.len() == 0 && task is None ==> (r matches Err(e) && e@
            == "wait requires --worker <id> or --task <label>"@),
{
    let has_workers = worker_ids.len() > 0;
    match task {
        None => if has_workers {
            Ok(WaitRequest::Workers(dedup(worker_ids)))
        } else {
            Err(owned("wait requires --worker <id> or --task <label>"))
        },
        Some(label) => if has_workers {
            Err(owned("use either --worker <id> or --task <label>, not both"))
        } else {
            Ok(WaitRequest::Task(label))
        },
    }
}

/// `id: error` pairs joined with `; `.
pub open spec fn failures_text(failures: Seq<(Seq<char>, Seq<char>)>) -> Seq<char>
    decreases failures.len(),
{
    if failures.len() == 0 {
        Seq::empty()
    } else if failures.len() == 1 {
        failures[0].0 + ": "@ + failures[0].1
    } else {
        failures_text(failures.drop_last()) + "; "@ + failures.last().0 + ": "@
            + failures.last().1
    }
}

pub open spec fn pair_texts(v: Seq<(String, String)>) -> Seq<(Seq<char>, Seq<char>)> {
    v.map_values(|p: (String, String)| (p.0@, p.1@))
}

/// The workers a task label selected, or why the selection cannot be waited on.
pub fn task_worker_ids(label: &str, ids: Vec<String>, failures: Vec<(String, String)>) -> (r: Result<
    Vec<String>,
    String,
>)
    ensures
        failures@.len() > 0 ==> (r matches Err(e) && e@
            == "failed to select workers with task label "@ + label@ + ": "@ + failures_text(
            pair_texts(failures@),
        )),
        failures@.len() == 0 && ids@.len() == 0 ==> (r matches Err(e) && e@
            == "no live workers with task label "@ + label@),
        failures@.len() == 0 && ids@.len() > 0 ==> (r matches Ok(v) && v@ == ids@),
{
    if failures.len() > 0 {
        let mut e = owned("failed to select workers with task label ");
        push_str(&mut e, label);
        push_str(&mut e, ": ");
        let mut joined = String::new();
        let mut i: usize = 0;
        while i < failures.len()
            invariant
                i <= failures@.len(),
                joined@ == failures_text(pair_texts(failures@).take(i as int)),
            decreases failures.len() - i,
        {
            proof {
                let t = pair_texts(failures@).take(i + 1);
                assert(t.drop_last() =~= pair_texts(failures@).take(i as int));
                assert(t.last() == (failures@[i as int].0@, failures@[i as int].1@));
            }
            if i > 0 {
                push_str(&mut joined, "; ");
            }
            push_str(&mut joined, failures[i].0.as_str());
            push_str(&mut joined, ": ");
            push_str(&mut joined, failures[i].1.as_str());
            proof {
                if i == 0 {
                    assert(joined@ =~= failures_text(pair_texts(failures@).take(1)));
                }
            }
            i += 1;
        }
        assert(pair_texts(failures@).take(failures@.len() as int) =~= pair_texts(failures@));
        push_str(&mut e, joined.as_str());
        Err(e)
    } else if ids.len() == 0 {
        let mut e = owned("no live workers with task label ");
        push_str(&mut e, label);
        Err(e)
    } else {
        Ok(ids)
    }
}

/// What a timeout names: the one status log waited on, or the requested workers as a whole.
pub fn timeout_subject(statuses: &Vec<String>) -> (r: String)
    ensures
        statuses@.len() == 1 ==> r@ == statuses@[0]@,
        statuses@.len() != 1 ==> r@ == "requested workers"@,
{
    if statuses.len() == 1 {
        owned(statuses[0].as_str())
    } else {
        owned("requested workers")
    }
}

/// How far into one worker's status log a wait has looked.
///
/// The position moves past non-actionable lines in memory only; the persisted cursor moves on
/// delivery, so a wait that dies mid-poll re-reads `working:` lines rather than skipping an
/// undelivered wake.
pub struct WaitScan {
    pub scanned: u64,
}

impl WaitScan {
    pub fn new() -> (r: WaitScan)
        ensures
            r.scanned == 0,
    {
        WaitScan { scanned: 0 }
    }

    /// Catches up with a cursor another wait may have moved past this one's position.
    pub fn resync(&mut self, persisted: u64)
        ensures
            final(self).scanned == if persisted > old(self).scanned {
                persisted
            } else {
                old(self).scanned
            },
    {
        if persisted > self.scanned {
            self.scanned = persisted;
        }
    }

    /// Given the log's length now, where reading resumes, or `None` when nothing was
    /// appended. A log shorter than the position is a new log, read from its start.
    pub fn read_from(&mut self, len: u64) -> (r: Option<u64>)
        ensures
            final(self).scanned == if len < old(self).scanned {
                0
            } else {
                old(self).scanned
            },
            r == if len == final(self).scanned {
                None::<u64>
            } else {
                Some(final(self).scanned)
            },
    {
        if len < self.scanned {
            self.scanned = 0;
        }
        if len == self.scanned {
            None
        } else {
            Some(self.scanned)
        }
    }

    /// Looks through the bytes appended since the position: the first complete actionable
    /// line, rendered, with the log offset just past it; or, with none, the position moves
    /// past every complete line and a trailing partial line is left for the next poll.
    pub fn absorb(&mut self, appended: &Vec<u8>) -> (r: Option<(String, u64)>)
        requires
            old(self).scanned + appended@.len() <= u64::MAX,
        ensures
            match first_actionable_from(appended@, 0) {
                ScanPoint::Line { start, newline } => r matches Some((text, end)) && text@
                    == rendered(line_text(appended@.subrange(start, newline))) && end
                    == old(self).scanned + newline + 1 && final(self).scanned == old(self).scanned,
                ScanPoint::Rest { start } => r is None && final(self).scanned == old(self).scanned
                    + start,
            },
            r matches Some((_, end)) ==> old(self).scanned < end,
    {
        proof {
            lemma_first_actionable_bounds(appended@, 0);
        }
        match find_first_actionable(appended, 0) {
            Ok((text, end)) => {
                let shown = render(text.as_str());
                proof {
                    assert(first_actionable_from(appended@, 0) is Line);
                }
                Some((shown, self.scanned + end as u64))
            },
            Err(rest) => {
                proof {
                    assert(first_actionable_from(appended@, 0) is Rest);
                }
                self.scanned = self.scanned + rest as u64;
                None
            },
        }
    }

    /// One look at the whole log as it stands: the first complete actionable line at or past
    /// the position (from the start where the log is shorter than the position), rendered, with
    /// the offset just past it; or, with none, the position moves to where the scan stopped.
    pub fn poll_log(&mut self, log: &Vec<u8>) -> (r: Option<(String, u64)>)
        ensures
            match first_actionable_from(log@, resume_point(log@, old(self).scanned)) {
                ScanPoint::Line { start, newline } => r matches Some((text, end)) && end == newline + 1
                    && text@ == rendered(line_text(log@.subrange(start, newline)))
                    && final(self).scanned == resume_point(log@, old(self).scanned),
                ScanPoint::Rest { start } => r is None && final(self).scanned == start,
            },
    {
        let len = log.len() as u64;
        match self.read_from(len) {
            None => {
                proof {
                    assert(first_actionable_from(log@, len as int) == (ScanPoint::Rest { start: len as int }));
                }
                None
            },
            Some(from) => {
                let from = from as usize;
                let mut appended: Vec<u8> = Vec::new();
                let mut i: usize = from;
                while i < log.len()
                    invariant
                        from <= i <= log@.len(),
                        appended@ == log@.subrange(from as int, i as int),
                    decreases log.len() - i,
                {
                    appended.push(log[i]);
                    assert(appended@ =~= log@.subrange(from as int, i + 1));
                    i += 1;
                }
                assert(appended@ =~= log@.skip(from as int));
                proof {
                    crate::statuslog::lemma_appended_scan_is_log_scan(log@, from as int);
                }
                self.absorb(&appended)
            },
        }
    }

    /// Records that the line ending at `end` was delivered.
    pub fn deliver(&mut self, end: u64)
        ensures
            final(self).scanned == end,
    {
        self.scanned = end;
    }
}

/// Where a wait resumes in a log: its position, or the start of a log now shorter than that.
pub open spec fn resume_point(log: Seq<u8>, scanned: u64) -> int {
    if log.len() < scanned {
        0
    } else {
        scanned as int
    }
}

/// Each actionable line is handed over exactly once. A poll hands over the first complete
/// actionable line at or past the position; once it is delivered the position moves just past
/// it, so no later poll, however the log has grown, hands it over again. Where a poll finds
/// nothing and moves on, no line was passed over: in the grown log, resuming where it stopped
/// finds what scanning from the old position finds, and a line found in the log is still the
/// one found in the grown log.
pub proof fn lemma_wake_delivered_once(log: Seq<u8>, scanned: u64, later: Seq<u8>)
    requires
        log.len() <= later.len(),
        later.take(log.len() as int) == log,
    ensures
        match first_actionable_from(log, resume_point(log, scanned)) {
            ScanPoint::Line { start, newline } => {
                &&& resume_point(log, scanned) <= start
                &&& first_actionable_from(later, resume_point(log, scanned))
                    == (ScanPoint::Line { start, newline })
                &&& first_actionable_from(later, newline + 1) matches ScanPoint::Line {
                    start: s2,
                    ..
                } ==> s2 > newline
            },
            ScanPoint::Rest { start } => first_actionable_from(later, start) == first_actionable_from(
                later,
                resume_point(log, scanned),
            ),
        },
{
    let p = resume_point(log, scanned);
    lemma_first_actionable_bounds(log, p);
    crate::statuslog::lemma_scan_survives_growth(log, later, p);
    if let ScanPoint::Line { start, newline } = first_actionable_from(log, p) {
        lemma_first_actionable_bounds(later, newline + 1);
    }
}

/// One `niles wait` on a worker whose status log is `log`, resumed from the persisted cursor
/// (a fresh `WaitScan` caught up with it, then polled): the line it hands over, as its start and
/// newline offsets, and the cursor it leaves behind. The cursor moves only when a line is
/// delivered, to just past that line.
pub open spec fn wait_call(log: Seq<u8>, cursor: u64) -> (Option<(int, int)>, u64) {
    match first_actionable_from(log, resume_point(log, cursor)) {
        ScanPoint::Line { start, newline } => (Some((start, newline)), (newline + 1) as u64),
        ScanPoint::Rest { .. } => (None, cursor),
    }
}

/// The wake contract over two successive waits: where the log holds exactly one actionable line
/// not yet delivered, the first wait hands it over and leaves a cursor that the cursor file
/// reads back as written; the second wait hands nothing over and leaves the cursor where it is.
/// Whatever the log grows by afterwards, no later wait hands that line over again.
pub proof fn lemma_two_waits_deliver_once(
    log: Seq<u8>,
    cursor: u64,
    start: int,
    newline: int,
    later: Seq<u8>,
    path: Seq<char>,
)
    requires
        log.len() <= u64::MAX,
        log.len() <= later.len(),
        later.take(log.len() as int) == log,
        first_actionable_from(log, resume_point(log, cursor)) == (ScanPoint::Line { start, newline }),
        first_actionable_from(log, newline + 1) is Rest,
    ensures
        wait_call(log, cursor) == (Some((start, newline)), (newline + 1) as u64),
        wake_cursor_reading(decimal((newline + 1) as nat) + "\n"@, path) == Ok::<u64, Seq<char>>(
            (newline + 1) as u64,
        ),
        wait_call(log, (newline + 1) as u64) == (None::<(int, int)>, (newline + 1) as u64),
        wait_call(later, (newline + 1) as u64).0 matches Some((s2, _)) ==> s2 > newline,
{
    let p = resume_point(log, cursor);
    lemma_first_actionable_bounds(log, p);
    let next = (newline + 1) as u64;
    assert(resume_point(log, next) == newline + 1);
    assert(resume_point(later, next) == newline + 1);
    lemma_wake_cursor_round_trip(next, path);
    lemma_wake_delivered_once(log, cursor, later);
}

/// `k` is the first actionable line of `lines`.
pub open spec fn first_wake_at(lines: Seq<String>, k: int) -> bool {
    &&& 0 <= k < lines.len()
    &&& line_is_actionable(lines[k]@)
    &&& forall|j: int| 0 <= j < k ==> !line_is_actionable((#[trigger] lines[j])@)
}

/// The first actionable line and its offset, where there is one.
pub fn select_wake_with_offset(lines: &[String]) -> (r: Option<(usize, String)>)
    ensures
        match r {
            Some((k, l)) => first_wake_at(lines@, k as int) && l@ == lines@[k as int]@,
            None => forall|j: int| 0 <= j < lines@.len() ==> !line_is_actionable((#[trigger] lines@[j])@),
        },
{
    let mut k: usize = 0;
    while k < lines.len()
        invariant
            k <= lines@.len(),
            forall|j: int| 0 <= j < k ==> !line_is_actionable((#[trigger] lines@[j])@),
        decreases lines.len() - k,
    {
        if is_actionable_wake(lines[k].as_str()) {
            return Some((k, owned(lines[k].as_str())));
        }
        k += 1;
    }
    None
}

/// The first actionable line, where there is one.
pub fn select_wake(lines: &[String]) -> (r: Option<String>)
    ensures
        match r {
            Some(l) => exists|k: int| first_wake_at(lines@, k) && l@ == lines@[k]@,
            None => forall|j: int| 0 <= j < lines@.len() ==> !line_is_actionable((#[trigger] lines@[j])@),
        },
{
    match select_wake_with_offset(lines) {
        Some((_, l)) => Some(l),
        None => None,
    }
}

/// One selection of a wake scanner at `cursor` over the log's lines: the first actionable line
/// at or past the cursor is handed over and the cursor moves just past it; with none, the
/// cursor moves to the end.
pub fn scan_from(cursor: usize, lines: &[String]) -> (r: (usize, Option<String>))
    ensures
        ({
            let start = if cursor < lines@.len() { cursor as int } else { lines@.len() as int };
            match r.1 {
                Some(l) => start <= r.0 - 1 && first_wake_at(lines@.skip(start), r.0 - 1 - start)
                    && l@ == lines@[r.0 - 1]@,
                None => r.0 == lines@.len() && forall|j: int| start <= j < lines@.len()
                    ==> !line_is_actionable((#[trigger] lines@[j])@),
            }
        }),
{
    let start = if cursor < lines.len() { cursor } else { lines.len() };
    let mut k: usize = start;
    while k < lines.len()
        invariant
            start <= k <= lines@.len(),
            start == (if cursor < lines@.len() { cursor } else { lines@.len() as usize }),
            forall|j: int| start <= j < k ==> !line_is_actionable((#[trigger] lines@[j])@),
        decreases lines.len() - k,
    {
        if is_actionable_wake(lines[k].as_str()) {
            proof {
                let rest = lines@.skip(start as int);
                assert(rest[k - start] == lines@[k as int]);
                assert forall|j: int| 0 <= j < k - start implies !line_is_actionable((#[trigger] rest[j])@) by {
                    assert(rest[j] == lines@[start + j]);
                }
            }
            return (k + 1, Some(owned(lines[k].as_str())));
        }
        k += 1;
    }
    (lines.len(), None)
}

/// What an ack cursor file holds: the cursor, a newline.
pub fn ack_cursor_text(cursor: usize) -> (r: String)
    ensures
        r@ == decimal(cursor as nat) + "\n"@,
{
    let mut r = String::new();
    push_decimal(&mut r, cursor as u64);
    push_str(&mut r, "\n");
    r
}

/// The cursor an ack file records, read as `str::parse::<usize>` reads its trimmed body, and
/// never past the lines there are. No file means nothing was acknowledged.
pub open spec fn ack_cursor_reading(body: Option<Seq<char>>, line_count: usize, path: Seq<char>) -> Result<usize, Seq<char>> {
    match body {
        None => Ok(0),
        Some(b) => match parse_u64_spec(trim(b)) {
            Some(v) => if v <= usize::MAX {
                Ok(if (v as usize) < line_count { v as usize } else { line_count })
            } else {
                Err("invalid ack cursor in "@ + path + ": "@ + "number too large to fit in target type"@)
            },
            None => Err("invalid ack cursor in "@ + path + ": "@ + int_error_text(trim(b))),
        },
    }
}

pub fn read_ack_cursor(body: Option<&str>, line_count: usize, path: &str) -> (r: Result<usize, String>)
    ensures
        match ack_cursor_reading(match body {
            Some(b) => Some(b@),
            None => None,
        }, line_count, path@) {
            Ok(c) => r == Ok::<usize, String>(c),
            Err(e) => r matches Err(m) && m@ == e,
        },
{
    match body {
        None => Ok(0),
        Some(b) => {
            let t = trim_str(b);
            match parse_u64_str(t.as_str()) {
                Some(v) => {
                    if v <= usize::MAX as u64 {
                        let c = v as usize;
                        Ok(if c < line_count { c } else { line_count })
                    } else {
                        let mut m = owned("invalid ack cursor in ");
                        push_str(&mut m, path);
                        push_str(&mut m, ": ");
                        push_str(&mut m, "number too large to fit in target type");
                        Err(m)
                    }
                },
                None => {
                    let mut m = owned("invalid ack cursor in ");
                    push_str(&mut m, path);
                    push_str(&mut m, ": ");
                    push_str(&mut m, int_error(t.as_str()).as_str());
                    Err(m)
                },
            }
        },
    }
}

/// What a wake cursor file holds: the offset, a newline.
pub fn cursor_text(offset: u64) -> (r: String)
    ensures
        r@ == decimal(offset as nat) + "\n"@,
{
    let mut r = String::new();
    push_decimal(&mut r, offset);
    push_str(&mut r, "\n");
    r
}

/// The offset a wake cursor file records: its trimmed body read as a `u64`, an empty one (a
/// cursor just created) being zero.
pub open spec fn wake_cursor_reading(body: Seq<char>, path: Seq<char>) -> Result<u64, Seq<char>> {
    let t = trim(body);
    if t.len() == 0 {
        Ok(0)
    } else {
        match parse_u64_spec(t) {
            Some(v) => Ok(v),
            None => Err("invalid wake cursor in "@ + path + "; remove it to resume: "@ + int_error_text(t)),
        }
    }
}

pub fn read_wake_cursor(body: &str, path: &str) -> (r: Result<u64, String>)
    ensures
        match wake_cursor_reading(body@, path@) {
            Ok(v) => r == Ok::<u64, String>(v),
            Err(e) => r matches Err(m) && m@ == e,
        },
{
    let t = trim_str(body);
    if crate::text::is_empty_str(t.as_str()) {
        return Ok(0);
    }
    match parse_u64_str(t.as_str()) {
        Some(v) => Ok(v),
        None => {
            let mut m = owned("invalid wake cursor in ");
            push_str(&mut m, path);
            push_str(&mut m, "; remove it to resume: ");
            push_str(&mut m, int_error(t.as_str()).as_str());
            Err(m)
        },
    }
}

/// A number written as a cursor file writes it, with its newline, trims back to its digits.
proof fn lemma_cursor_body_trims_to_digits(n: u64)
    ensures
        trim(decimal(n as nat) + "\n"@) == decimal(n as nat),
{
    let d = decimal(n as nat);
    let body = d + "\n"@;
    reveal_strlit("\n");
    lemma_decimal_reads_back(n as nat);
    assert(body[0] == d[0]);
    assert(!is_whitespace(body[0]));
    assert(trim_start(body) == body);
    assert(body.last() == '\n');
    assert(is_whitespace(body.last()));
    assert(body.drop_last() =~= d);
    assert(d.last() == d[d.len() - 1]);
    assert(!is_whitespace(d.last()));
    assert(trim_end(d) == d);
}

/// A wake cursor reads back as the offset it was written with.
pub proof fn lemma_wake_cursor_round_trip(offset: u64, path: Seq<char>)
    ensures
        wake_cursor_reading(decimal(offset as nat) + "\n"@, path) == Ok::<u64, Seq<char>>(offset),
{
    lemma_cursor_body_trims_to_digits(offset);
    lemma_decimal_reads_back(offset as nat);
    lemma_parse_decimal(offset);
}

/// An ack cursor reads back as the line count it was written with, never past the lines the log
/// has now.
pub proof fn lemma_ack_cursor_round_trip(cursor: usize, line_count: usize, path: Seq<char>)
    ensures
        ack_cursor_reading(Some(decimal(cursor as nat) + "\n"@), line_count, path) == Ok::<usize, Seq<char>>(
            if cursor < line_count { cursor } else { line_count },
        ),
{
    lemma_cursor_body_trims_to_digits(cursor as u64);
    lemma_parse_decimal(cursor as u64);
}

} // verus!
