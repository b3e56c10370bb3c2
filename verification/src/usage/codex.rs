//! Codex rollouts: which rollout a launch wrote, and what its token events sum to.
use vstd::prelude::*;

use crate::digits::{decimal, push_decimal};
use crate::text::{chars_of, is_empty_str, lines_of, lines_of_chars, owned, push_str, trim, trim_str};
use crate::paths::{
    extension, file_name, join_path, joined_path, named_parts, path_extension, path_file_name,
    starts_at_cwd, starts_at_root,
};
use crate::time::{date_of, utc_date, UtcTime};
use crate::usage::snapshot::{CodexTokenUsage, CodexUsageSummary, TranscriptTurnCounts};

verus! {

/// How far from the launch a rollout may start and still be the launch's, in seconds.
pub const CODEX_SESSION_MATCH_WINDOW_SECONDS: i64 = 120;

/// Rollouts this close to the nearest one cannot be told apart from it, in seconds.
pub const CODEX_AMBIGUITY_EPSILON_SECONDS: i64 = 2;

/// The rollout a launch was matched to.
#[derive(Clone, Debug, PartialEq, Eq)]
pub struct CodexResolvedTranscript {
    pub path: String,
    pub session_id: String,
}

/// What looking for a launch's rollout found.
#[derive(Clone, Debug, PartialEq, Eq)]
pub enum CodexResolveResult {
    Found(CodexResolvedTranscript),
    Missing(String),
    Ambiguous(String),
}

/// A rollout's `session_meta` line.
#[derive(Clone, Debug, PartialEq, Eq)]
pub struct CodexSessionMeta {
    pub session_id: String,
    pub cwd: String,
    pub timestamp: UtcTime,
}

/// What a rollout says: where and when it started, and its last token count.
#[derive(Clone, Debug, PartialEq, Eq)]
pub struct CodexTranscriptSummary {
    pub session_meta: Option<CodexSessionMeta>,
    pub usage: Option<CodexUsageSummary>,
}

/// Whether two paths are the same path, as `camino::Utf8Path`'s `==` compares them: component
/// by component, so that doubled and trailing `/` and inner `.` make no difference.
pub open spec fn same_path(a: Seq<char>, b: Seq<char>) -> bool {
    &&& starts_at_root(a) == starts_at_root(b)
    &&& starts_at_cwd(a) == starts_at_cwd(b)
    &&& named_parts(a) == named_parts(b)
}

/// Compares two paths.
///
/// Trusted: calls `==` on two `camino::Utf8Path`s, which compares them component by component
/// as `std::path::Path` does. On Unix those components are a root where the path starts with
/// `/`, a `.` where it starts with one, then its pieces between `/`s with empty ones and `.`
/// left out. The contract claims that.
#[verifier::external_body]
fn paths_equal(a: &str, b: &str) -> (r: bool)
    ensures
        r == same_path(a@, b@),
{
    camino::Utf8Path::new(a) == camino::Utf8Path::new(b)
}

/// `|later - earlier|` in whole milliseconds, as `TimeDelta::num_milliseconds().abs()` gives it.
pub open spec fn delta_millis(a: UtcTime, b: UtcTime) -> int {
    let d = (a.secs - b.secs) * 1_000_000_000 + (a.nanos - b.nanos);
    if d < 0 {
        (-d) / 1_000_000
    } else {
        d / 1_000_000
    }
}

/// A rollout that could be the launch's: same cwd, started within the match window.
pub struct Candidate {
    pub index: int,
    pub delta: int,
}

pub open spec fn is_candidate(r: (String, CodexTranscriptSummary), cwd: Seq<char>, launched_at: UtcTime) -> bool {
    match r.1.session_meta {
        Some(m) => same_path(m.cwd@, cwd) && delta_millis(m.timestamp, launched_at)
            <= CODEX_SESSION_MATCH_WINDOW_SECONDS * 1000,
        None => false,
    }
}

pub open spec fn delta_of(r: (String, CodexTranscriptSummary), launched_at: UtcTime) -> int {
    delta_millis(r.1.session_meta.unwrap().timestamp, launched_at)
}

/// `i` is the nearest candidate, and the first of the nearest.
pub open spec fn is_nearest(rs: Seq<(String, CodexTranscriptSummary)>, cwd: Seq<char>, launched_at: UtcTime, i: int) -> bool {
    &&& 0 <= i < rs.len()
    &&& is_candidate(rs[i], cwd, launched_at)
    &&& forall|j: int|
        0 <= j < rs.len() && is_candidate(rs[j], cwd, launched_at) ==> delta_of(rs[i], launched_at)
            <= delta_of(rs[j], launched_at)
    &&& forall|j: int|
        0 <= j < i && is_candidate(rs[j], cwd, launched_at) ==> delta_of(rs[i], launched_at)
            < delta_of(rs[j], launched_at)
}

/// How many candidates sit within the ambiguity margin of `near`.
pub open spec fn close_count(rs: Seq<(String, CodexTranscriptSummary)>, cwd: Seq<char>, launched_at: UtcTime, near: int) -> nat
    decreases rs.len(),
{
    if rs.len() == 0 {
        0
    } else {
        close_count(rs.drop_last(), cwd, launched_at, near) + if is_candidate(
            rs.last(),
            cwd,
            launched_at,
        ) && -CODEX_AMBIGUITY_EPSILON_SECONDS * 1000 <= delta_of(rs.last(), launched_at) - near
            <= CODEX_AMBIGUITY_EPSILON_SECONDS * 1000 {
            1nat
        } else {
            0nat
        }
    }
}

pub open spec fn missing_text(cwd: Seq<char>) -> Seq<char> {
    "no Codex rollout in cwd "@ + cwd + " within "@ + decimal(
        CODEX_SESSION_MATCH_WINDOW_SECONDS as nat,
    ) + "s of launch"@
}

pub open spec fn ambiguous_text(count: nat, cwd: Seq<char>) -> Seq<char> {
    decimal(count) + " matching Codex rollouts in cwd "@ + cwd + " within "@ + decimal(
        CODEX_AMBIGUITY_EPSILON_SECONDS as nat,
    ) + "s of nearest launch"@
}

fn millis_between(a: UtcTime, b: UtcTime) -> (r: u64)
    requires
        -8_400_000_000_000 <= a.secs <= 8_400_000_000_000,
        -8_400_000_000_000 <= b.secs <= 8_400_000_000_000,
        a.nanos < 2_000_000_000,
        b.nanos < 2_000_000_000,
    ensures
        r == delta_millis(a, b),
{
    let d: i128 = (a.secs as i128 - b.secs as i128) * 1_000_000_000i128 + (a.nanos as i128
        - b.nanos as i128);
    let m: i128 = if d < 0 {
        (-d) / 1_000_000i128
    } else {
        d / 1_000_000i128
    };
    m as u64
}

pub open spec fn meta_in_range(r: (String, CodexTranscriptSummary)) -> bool {
    match r.1.session_meta {
        Some(m) => time_in_range(m.timestamp),
        None => true,
    }
}

pub open spec fn time_in_range(t: UtcTime) -> bool {
    -8_400_000_000_000 <= t.secs <= 8_400_000_000_000 && t.nanos < 2_000_000_000
}

/// Picks the rollout a launch in `cwd` at `launched_at` wrote, among the rollouts read from
/// the session directories around its date: the candidate nearest the launch, unless another
/// candidate is as near within the ambiguity margin.
pub fn resolve_rollout(cwd: &str, launched_at: UtcTime, rollouts: &Vec<(String, CodexTranscriptSummary)>) -> (r:
    CodexResolveResult)
    requires
        time_in_range(launched_at),
        forall|i: int|
            0 <= i < rollouts@.len() ==> meta_in_range(#[trigger] rollouts@[i]),
    ensures
        (forall|i: int| 0 <= i < rollouts@.len() ==> !is_candidate(#[trigger] rollouts@[i], cwd@, launched_at)) ==> (
        r matches CodexResolveResult::Missing(d) && d@ == missing_text(cwd@)),
        (exists|i: int| 0 <= i < rollouts@.len() && is_candidate(#[trigger] rollouts@[i], cwd@, launched_at)) ==> {
            let n = choose|n: int| is_nearest(rollouts@, cwd@, launched_at, n);
            let count = close_count(rollouts@, cwd@, launched_at, delta_of(rollouts@[n], launched_at));
            &&& is_nearest(rollouts@, cwd@, launched_at, n)
            &&& count > 1 ==> (r matches CodexResolveResult::Ambiguous(d) && d@ == ambiguous_text(count, cwd@))
            &&& count <= 1 ==> (r matches CodexResolveResult::Found(t) && t.path == rollouts@[n].0
                && t.session_id == rollouts@[n].1.session_meta.unwrap().session_id)
        },
{
    let mut nearest: Option<(usize, u64)> = None;
    let mut i: usize = 0;
    while i < rollouts.len()
        invariant
            i <= rollouts@.len(),
            time_in_range(launched_at),
            forall|k: int|
                0 <= k < rollouts@.len() ==> meta_in_range(#[trigger] rollouts@[k]),
            nearest is None ==> forall|k: int| 0 <= k < i ==> !is_candidate(#[trigger] rollouts@[k], cwd@, launched_at),
            nearest matches Some((n, d)) ==> n < i && d == delta_of(rollouts@[n as int], launched_at)
                && is_nearest(rollouts@.take(i as int), cwd@, launched_at, n as int),
        decreases rollouts.len() - i,
    {
        proof {
            assert forall|k: int| 0 <= k < i implies rollouts@.take(i + 1)[k] == rollouts@.take(i as int)[k] by {}
        }
        match &rollouts[i].1.session_meta {
            Some(m) => {
                if paths_equal(m.cwd.as_str(), cwd) {
                    let d = millis_between(m.timestamp, launched_at);
                    if d <= 120_000 {
                        let better = match nearest {
                            Some((_, best)) => d < best,
                            None => true,
                        };
                        if better {
                            nearest = Some((i, d));
                        }
                    }
                }
            },
            None => {},
        }
        proof {
            let t = rollouts@.take(i + 1);
            assert(t[i as int] == rollouts@[i as int]);
            match nearest {
                Some((n, d)) => {
                    assert forall|j: int| 0 <= j < t.len() && is_candidate(t[j], cwd@, launched_at) implies delta_of(t[n as int], launched_at)
                        <= delta_of(t[j], launched_at) by {
                        if j < i {
                            assert(t[j] == rollouts@.take(i as int)[j]);
                        }
                    }
                    assert forall|j: int| 0 <= j < n && is_candidate(t[j], cwd@, launched_at) implies delta_of(t[n as int], launched_at)
                        < delta_of(t[j], launched_at) by {
                        assert(t[j] == rollouts@.take(i as int)[j]);
                    }
                    assert(t[n as int] == rollouts@[n as int]);
                },
                None => {},
            }
        }
        i += 1;
    }
    assert(rollouts@.take(rollouts@.len() as int) =~= rollouts@);
    match nearest {
        None => {
            let mut e = owned("no Codex rollout in cwd ");
            push_str(&mut e, cwd);
            push_str(&mut e, " within ");
            push_decimal(&mut e, 120);
            push_str(&mut e, "s of launch");
            CodexResolveResult::Missing(e)
        },
        Some((n, best)) => {
            proof {
                let c = choose|c: int| is_nearest(rollouts@, cwd@, launched_at, c);
                assert(is_nearest(rollouts@, cwd@, launched_at, n as int));
                if c != n {
                    if c < n {
                        assert(delta_of(rollouts@[n as int], launched_at) < delta_of(rollouts@[c], launched_at));
                    } else {
                        assert(delta_of(rollouts@[c], launched_at) < delta_of(rollouts@[n as int], launched_at));
                    }
                }
            }
            let mut count: u64 = 0;
            let mut k: usize = 0;
            while k < rollouts.len()
                invariant
                    k <= rollouts@.len(),
                    n < rollouts@.len(),
                    best == delta_of(rollouts@[n as int], launched_at),
                    time_in_range(launched_at),
                    forall|q: int|
                        0 <= q < rollouts@.len() ==> meta_in_range(#[trigger] rollouts@[q]),
                    count == close_count(rollouts@.take(k as int), cwd@, launched_at, best as int),
                    count <= k,
                decreases rollouts.len() - k,
            {
                proof {
                    assert(rollouts@.take(k + 1).drop_last() =~= rollouts@.take(k as int));
                    assert(rollouts@.take(k + 1).last() == rollouts@[k as int]);
                }
                match &rollouts[k].1.session_meta {
                    Some(m) => {
                        if paths_equal(m.cwd.as_str(), cwd) {
                            let d = millis_between(m.timestamp, launched_at);
                            if d <= 120_000 {
                                let close = if d >= best {
                                    d - best <= 2000
                                } else {
                                    best - d <= 2000
                                };
                                if close {
                                    count = count + 1;
                                }
                            }
                        }
                    },
                    None => {},
                }
                k += 1;
            }
            if count > 1 {
                let mut e = String::new();
                push_decimal(&mut e, count);
                push_str(&mut e, " matching Codex rollouts in cwd ");
                push_str(&mut e, cwd);
                push_str(&mut e, " within ");
                push_decimal(&mut e, 2);
                push_str(&mut e, "s of nearest launch");
                CodexResolveResult::Ambiguous(e)
            } else {
                let path = rollouts[n].0.clone();
                let session_id = match &rollouts[n].1.session_meta {
                    Some(m) => m.session_id.clone(),
                    None => owned(""),
                };
                CodexResolveResult::Found(CodexResolvedTranscript { path, session_id })
            }
        },
    }
}

/// The non-blank lines of a rollout, each with its 1-based line number.
pub open spec fn nonblank_lines(lines: Seq<Seq<char>>) -> Seq<(nat, Seq<char>)>
    decreases lines.len(),
{
    if lines.len() == 0 {
        Seq::empty()
    } else {
        let rest = nonblank_lines(lines.drop_last());
        if trim(lines.last()).len() > 0 {
            rest.push((lines.len(), lines.last()))
        } else {
            rest
        }
    }
}

pub fn rollout_lines(body: &str) -> (r: Vec<(usize, String)>)
    ensures
        r@.map_values(|p: (usize, String)| (p.0 as nat, p.1@)) == nonblank_lines(lines_of(body@)),
{
    let lines = lines_of_chars(&chars_of(body));
    let ghost all = lines@.map_values(|l: String| l@);
    let mut r: Vec<(usize, String)> = Vec::new();
    let mut i: usize = 0;
    while i < lines.len()
        invariant
            i <= lines@.len(),
            all == lines@.map_values(|l: String| l@),
            r@.map_values(|p: (usize, String)| (p.0 as nat, p.1@)) == nonblank_lines(all.take(i as int)),
        decreases lines.len() - i,
    {
        let ghost before = r@.map_values(|p: (usize, String)| (p.0 as nat, p.1@));
        assert(all.take(i + 1).drop_last() =~= all.take(i as int));
        assert(all.take(i + 1).last() == lines@[i as int]@);
        if !is_empty_str(trim_str(lines[i].as_str()).as_str()) {
            r.push((i + 1, owned(lines[i].as_str())));
            assert(r@.map_values(|p: (usize, String)| (p.0 as nat, p.1@)) =~= before.push(
                ((i + 1) as nat, lines@[i as int]@),
            ));
        }
        i += 1;
    }
    assert(all.take(lines@.len() as int) =~= all);
    r
}

/// One `event_msg` payload, as read by its `type`.
#[derive(Debug, PartialEq, Eq)]
pub enum CodexEventRead {
    /// The payload has no readable `type`.
    Invalid(String),
    /// A `token_count` event, or why its totals could not be read.
    TokenCount(Result<CodexTokenUsage, String>),
    UserMessage,
    AgentMessage,
    Other,
}

/// One non-blank rollout line, as read.
#[derive(Debug, PartialEq, Eq)]
pub enum CodexLineRead {
    /// Not JSON at all.
    Malformed(String),
    /// JSON, but not a rollout line with a `type` and a `payload`.
    Invalid(String),
    /// A `session_meta` line, or why its payload could not be read.
    SessionMeta(Result<CodexSessionMeta, String>),
    Event(CodexEventRead),
    Other,
}

/// A non-blank rollout line and its 1-based number in the file.
#[derive(Debug, PartialEq, Eq)]
pub struct CodexLine {
    pub line_number: usize,
    pub read: CodexLineRead,
}

/// What has been read so far: the last session meta, the last token totals, the counts.
pub struct SummaryState {
    pub meta: Option<CodexSessionMeta>,
    pub last: Option<CodexTokenUsage>,
    pub turns: TranscriptTurnCounts,
}

pub open spec fn no_turns() -> TranscriptTurnCounts {
    TranscriptTurnCounts { transcript_user_messages: 0, transcript_assistant_messages: 0, usage_messages: 0 }
}

pub open spec fn bump(n: u64) -> u64 {
    (n + 1) as u64
}

/// One JSON line's share: the last token count wins, and every user, agent and token event
/// is counted.
pub open spec fn summary_step(st: SummaryState, l: CodexLine) -> Result<SummaryState, Seq<char>> {
    let n = decimal(l.line_number as nat);
    match l.read {
        CodexLineRead::Malformed(_) => Ok(st),
        CodexLineRead::Other => Ok(st),
        CodexLineRead::Invalid(e) => Err("invalid Codex rollout line "@ + n + ": "@ + e@),
        CodexLineRead::SessionMeta(Err(e)) => Err(
            "invalid Codex session_meta payload at line "@ + n + ": "@ + e@,
        ),
        CodexLineRead::SessionMeta(Ok(m)) => Ok(SummaryState { meta: Some(m), ..st }),
        CodexLineRead::Event(CodexEventRead::Invalid(e)) => Err(
            "invalid Codex event payload at line "@ + n + ": "@ + e@,
        ),
        CodexLineRead::Event(CodexEventRead::TokenCount(Err(e))) => Err(
            "invalid Codex token_count payload at line "@ + n + ": "@ + e@,
        ),
        CodexLineRead::Event(CodexEventRead::TokenCount(Ok(u))) => Ok(
            SummaryState {
                last: Some(u),
                turns: TranscriptTurnCounts { usage_messages: bump(st.turns.usage_messages), ..st.turns },
                ..st
            },
        ),
        CodexLineRead::Event(CodexEventRead::UserMessage) => Ok(
            SummaryState {
                turns: TranscriptTurnCounts {
                    transcript_user_messages: bump(st.turns.transcript_user_messages),
                    ..st.turns
                },
                ..st
            },
        ),
        CodexLineRead::Event(CodexEventRead::AgentMessage) => Ok(
            SummaryState {
                turns: TranscriptTurnCounts {
                    transcript_assistant_messages: bump(st.turns.transcript_assistant_messages),
                    ..st.turns
                },
                ..st
            },
        ),
        CodexLineRead::Event(CodexEventRead::Other) => Ok(st),
    }
}

pub open spec fn summary_fold(lines: Seq<CodexLine>) -> Result<SummaryState, Seq<char>>
    decreases lines.len(),
{
    if lines.len() == 0 {
        Ok(SummaryState { meta: None, last: None, turns: no_turns() })
    } else {
        match summary_fold(lines.drop_last()) {
            Err(e) => Err(e),
            Ok(st) => summary_step(st, lines.last()),
        }
    }
}

/// The first line that is not JSON, other than the last line.
pub open spec fn first_interior_malformed(lines: Seq<CodexLine>) -> Option<int> {
    if exists|j: int| 0 <= j < lines.len() - 1 && lines[j].read is Malformed {
        Some(choose|j: int|
            0 <= j < lines.len() - 1 && lines[j].read is Malformed && forall|k: int|
                0 <= k < j ==> !(lines[k].read is Malformed))
    } else {
        None
    }
}

/// What a rollout's lines say. A line that is not JSON fails the whole read, unless it is the
/// last line, which a writer may still be appending to: that one is skipped with a warning.
pub open spec fn transcript_spec(lines: Seq<CodexLine>) -> (Result<(Option<CodexSessionMeta>, Option<CodexUsageSummary>), Seq<char>>, Option<Seq<char>>) {
    match first_interior_malformed(lines) {
        Some(j) => (
            Err(
                "malformed Codex rollout line "@ + decimal(lines[j].line_number as nat) + ": "@
                    + lines[j].read->Malformed_0@,
            ),
            None,
        ),
        None => {
            let warning = if lines.len() > 0 && lines.last().read is Malformed {
                Some(
                    "warning: ignored incomplete trailing Codex rollout line "@ + decimal(
                        lines.last().line_number as nat,
                    ) + ": "@ + lines.last().read->Malformed_0@,
                )
            } else {
                None
            };
            (
                match summary_fold(lines) {
                    Err(e) => Err(e),
                    Ok(st) => Ok(
                        (
                            st.meta,
                            match st.last {
                                Some(u) => Some(CodexUsageSummary { usage: u, turns: st.turns }),
                                None => None,
                            },
                        ),
                    ),
                },
                warning,
            )
        },
    }
}

pub open spec fn summary_view(r: Result<CodexTranscriptSummary, String>) -> Result<(Option<CodexSessionMeta>, Option<CodexUsageSummary>), Seq<char>> {
    match r {
        Ok(s) => Ok((s.session_meta, s.usage)),
        Err(e) => Err(e@),
    }
}

fn numbered(head: &str, n: usize, e: &str) -> (r: String)
    ensures
        r@ == head@ + decimal(n as nat) + ": "@ + e@,
{
    let mut r = owned(head);
    push_decimal(&mut r, n as u64);
    push_str(&mut r, ": ");
    push_str(&mut r, e);
    r
}

/// Reads a rollout's non-blank lines, in order; returns the summary and any warning to print.
pub fn parse_codex_transcript(lines: &Vec<CodexLine>) -> (r: (Result<CodexTranscriptSummary, String>, Option<String>))
    ensures
        (summary_view(r.0), match r.1 {
            Some(w) => Some(w@),
            None => None,
        }) == transcript_spec(lines@),
{
    let n = lines.len();
    let mut i: usize = 0;
    while i + 1 < n
        invariant
            n == lines@.len(),
            i <= n,
            i + 1 <= n || n == 0,
            forall|k: int| 0 <= k < i ==> !(lines@[k].read is Malformed),
        decreases n - i,
    {
        match &lines[i].read {
            CodexLineRead::Malformed(e) => {
                proof {
                    let j = choose|j: int|
                        0 <= j < lines@.len() - 1 && lines@[j].read is Malformed && forall|k: int|
                            0 <= k < j ==> !(lines@[k].read is Malformed);
                    assert(lines@[i as int].read is Malformed);
                    if j < i {
                        assert(!(lines@[j].read is Malformed));
                    } else if j > i {
                        assert(!(lines@[i as int].read is Malformed));
                    }
                }
                return (Err(numbered("malformed Codex rollout line ", lines[i].line_number, e.as_str())), None);
            },
            _ => {},
        }
        i += 1;
    }
    let warning = if n > 0 {
        match &lines[n - 1].read {
            CodexLineRead::Malformed(e) => Some(
                numbered(
                    "warning: ignored incomplete trailing Codex rollout line ",
                    lines[n - 1].line_number,
                    e.as_str(),
                ),
            ),
            _ => None,
        }
    } else {
        None
    };
    let mut meta: Option<CodexSessionMeta> = None;
    let mut last: Option<CodexTokenUsage> = None;
    let mut turns = TranscriptTurnCounts {
        transcript_user_messages: 0,
        transcript_assistant_messages: 0,
        usage_messages: 0,
    };
    proof {
        assert(first_interior_malformed(lines@) is None);
    }
    let mut k: usize = 0;
    while k < n
        invariant
            n == lines@.len(),
            k <= n,
            first_interior_malformed(lines@) is None,
            match warning {
                Some(w) => Some(w@),
                None => None,
            } == transcript_spec(lines@).1,
            turns.transcript_user_messages <= k,
            turns.transcript_assistant_messages <= k,
            turns.usage_messages <= k,
            summary_fold(lines@.take(k as int)) == Ok::<SummaryState, Seq<char>>(
                SummaryState { meta, last, turns },
            ),
        decreases n - k,
    {
        proof {
            assert(lines@.take(k + 1).drop_last() =~= lines@.take(k as int));
            assert(lines@.take(k + 1).last() == lines@[k as int]);
        }
        let ln = lines[k].line_number;
        match &lines[k].read {
            CodexLineRead::Malformed(_) => {},
            CodexLineRead::Other => {},
            CodexLineRead::Invalid(e) => {
                proof {
                    lemma_fold_stops(lines@, (k + 1) as int);
                }
                return (Err(numbered("invalid Codex rollout line ", ln, e.as_str())), warning);
            },
            CodexLineRead::SessionMeta(Err(e)) => {
                proof {
                    lemma_fold_stops(lines@, (k + 1) as int);
                }
                return (
                    Err(numbered("invalid Codex session_meta payload at line ", ln, e.as_str())),
                    warning,
                );
            },
            CodexLineRead::SessionMeta(Ok(m)) => {
                meta = Some(
                    CodexSessionMeta {
                        session_id: m.session_id.clone(),
                        cwd: m.cwd.clone(),
                        timestamp: m.timestamp,
                    },
                );
            },
            CodexLineRead::Event(CodexEventRead::Invalid(e)) => {
                proof {
                    lemma_fold_stops(lines@, (k + 1) as int);
                }
                return (Err(numbered("invalid Codex event payload at line ", ln, e.as_str())), warning);
            },
            CodexLineRead::Event(CodexEventRead::TokenCount(Err(e))) => {
                proof {
                    lemma_fold_stops(lines@, (k + 1) as int);
                }
                return (
                    Err(numbered("invalid Codex token_count payload at line ", ln, e.as_str())),
                    warning,
                );
            },
            CodexLineRead::Event(CodexEventRead::TokenCount(Ok(u))) => {
                last = Some(*u);
                turns.usage_messages = turns.usage_messages + 1;
            },
            CodexLineRead::Event(CodexEventRead::UserMessage) => {
                turns.transcript_user_messages = turns.transcript_user_messages + 1;
            },
            CodexLineRead::Event(CodexEventRead::AgentMessage) => {
                turns.transcript_assistant_messages = turns.transcript_assistant_messages + 1;
            },
            CodexLineRead::Event(CodexEventRead::Other) => {},
        }
        k += 1;
    }
    assert(lines@.take(n as int) =~= lines@);
    let usage = match last {
        Some(u) => Some(CodexUsageSummary { usage: u, turns }),
        None => None,
    };
    (Ok(CodexTranscriptSummary { session_meta: meta, usage }), warning)
}

/// Once the fold over a prefix has failed, the fold over the whole fails the same way.
proof fn lemma_fold_stops(lines: Seq<CodexLine>, k: int)
    requires
        0 <= k <= lines.len(),
        summary_fold(lines.take(k)) is Err,
    ensures
        summary_fold(lines) == summary_fold(lines.take(k)),
    decreases lines.len() - k,
{
    if k < lines.len() {
        assert(lines.take(k + 1).drop_last() =~= lines.take(k));
        lemma_fold_stops(lines, k + 1);
    } else {
        assert(lines.take(k) =~= lines);
    }
}

/// `n` in at least `width` digits, zero-padded, as `{:0width}` writes an unsigned value.
pub open spec fn padded(n: nat, width: nat) -> Seq<char>
    decreases width,
{
    if decimal(n).len() >= width || width == 0 {
        decimal(n)
    } else {
        seq!['0'] + padded(n, (width - 1) as nat)
    }
}

/// A year as `{:04}` writes it: a sign, where negative, counts toward the width.
pub open spec fn year_text(y: int) -> Seq<char> {
    if y < 0 {
        seq!['-'] + padded((-y) as nat, 3)
    } else {
        padded(y as nat, 4)
    }
}

fn push_padded(s: &mut String, n: u64, width: u64)
    ensures
        final(s)@ == old(s)@ + padded(n as nat, width as nat),
    decreases width,
{
    let d = crate::digits::u64_to_decimal(n);
    let len = d.as_str().unicode_len() as u64;
    if len >= width || width == 0 {
        push_str(s, d.as_str());
    } else {
        push_str(s, "0");
        push_padded(s, n, width - 1);
        proof {
            reveal_strlit("0");
        }
    }
}

/// The session directory Codex writes a day's rollouts to.
pub open spec fn day_dir_parts(date: (i32, u32, u32)) -> (Seq<char>, Seq<char>, Seq<char>) {
    (year_text(date.0 as int), padded(date.1 as nat, 2), padded(date.2 as nat, 2))
}

/// `<home>/sessions/<YYYY>/<MM>/<DD>` for the day `off` days from the launch.
pub open spec fn day_dir_at(home: Seq<char>, launched_at: UtcTime, off: int) -> Seq<char> {
    let parts = day_dir_parts(utc_date(launched_at.secs + off * 86400));
    joined_path(joined_path(joined_path(joined_path(home, "sessions"@), parts.0), parts.1), parts.2)
}

/// The day `off` days from the launch, where the calendar reaches it.
pub open spec fn dir_if(home: Seq<char>, launched_at: UtcTime, off: int) -> Seq<Seq<char>> {
    if crate::time::MIN_TIMESTAMP <= launched_at.secs + off * 86400 <= crate::time::MAX_TIMESTAMP {
        seq![day_dir_at(home, launched_at, off)]
    } else {
        Seq::empty()
    }
}

/// The directories for the days from the day before the launch up to, not including, `k`
/// days after it.
pub open spec fn dirs_upto(home: Seq<char>, launched_at: UtcTime, k: int) -> Seq<Seq<char>>
    decreases k + 1,
{
    if k <= -1 {
        Seq::empty()
    } else {
        dirs_upto(home, launched_at, k - 1) + dir_if(home, launched_at, k - 1)
    }
}

/// The session directories for the day before the launch, its day, and the day after.
pub fn candidate_date_dirs(codex_home: &str, launched_at: UtcTime) -> (r: Vec<String>)
    ensures
        r@.map_values(|s: String| s@) == dirs_upto(codex_home@, launched_at, 2),
{
    let mut dirs: Vec<String> = Vec::new();
    let mut k: i64 = -1;
    assert(dirs@.map_values(|s: String| s@) =~= dirs_upto(codex_home@, launched_at, -1));
    while k <= 1
        invariant
            -1 <= k <= 2,
            dirs@.map_values(|s: String| s@) == dirs_upto(codex_home@, launched_at, k as int),
        decreases 2 - k,
    {
        let ghost before = dirs@.map_values(|s: String| s@);
        let wide: i128 = launched_at.secs as i128 + k as i128 * 86400i128;
        let in_range = crate::time::MIN_TIMESTAMP as i128 <= wide && wide
            <= crate::time::MAX_TIMESTAMP as i128;
        if in_range {
            let day = wide as i64;
            let (y, m, d) = date_of(day);
            let mut year = String::new();
            if y < 0 {
                push_str(&mut year, "-");
                let mag: u64 = if y == i32::MIN {
                    2147483648u64
                } else {
                    (-y) as u64
                };
                push_padded(&mut year, mag, 3);
            } else {
                push_padded(&mut year, y as u64, 4);
            }
            let mut month = String::new();
            push_padded(&mut month, m as u64, 2);
            let mut dd = String::new();
            push_padded(&mut dd, d as u64, 2);
            let a = join_path(codex_home, "sessions");
            let b = join_path(a.as_str(), year.as_str());
            let c = join_path(b.as_str(), month.as_str());
            let e = join_path(c.as_str(), dd.as_str());
            proof {
                reveal_strlit("-");
                assert(year@ =~= year_text(y as int));
                assert(e@ == day_dir_at(codex_home@, launched_at, k as int));
            }
            dirs.push(e);
            assert(dirs@.map_values(|s: String| s@) =~= before + dir_if(codex_home@, launched_at, k as int));
        } else {
            assert(dir_if(codex_home@, launched_at, k as int) =~= Seq::<Seq<char>>::empty());
            assert(before + dir_if(codex_home@, launched_at, k as int) =~= before);
        }
        k += 1;
    }
    dirs
}

/// A rollout file: its name starts with `rollout-` and its extension is `jsonl`.
pub open spec fn is_rollout_spec(path: Seq<char>) -> bool {
    match path_file_name(path) {
        Some(name) => name.len() >= 8 && name.take(8) == "rollout-"@ && path_extension(path) == Some(
            "jsonl"@,
        ),
        None => false,
    }
}

pub fn is_rollout(path: &str) -> (r: bool)
    ensures
        r == is_rollout_spec(path@),
{
    let name = match file_name(path) {
        Some(n) => n,
        None => return false,
    };
    let chars = crate::text::chars_of(name.as_str());
    let prefix = crate::text::chars_of("rollout-");
    proof {
        reveal_strlit("rollout-");
    }
    if chars.len() < 8 {
        return false;
    }
    let mut i: usize = 0;
    while i < 8
        invariant
            i <= 8,
            chars@.len() >= 8,
            prefix@ == "rollout-"@,
            prefix@.len() == 8,
            chars@ == name@,
            path_file_name(path@) == Some(name@),
            forall|j: int| 0 <= j < i ==> chars@[j] == prefix@[j],
        decreases 8 - i,
    {
        if chars[i] != prefix[i] {
            assert(chars@.take(8)[i as int] != "rollout-"@[i as int]);
            return false;
        }
        i += 1;
    }
    assert(chars@.take(8) =~= "rollout-"@);
    match extension(path) {
        Some(e) => crate::text::str_eq(e.as_str(), "jsonl"),
        None => false,
    }
}

} // verus!
