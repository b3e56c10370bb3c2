//! A usage snapshot: whose usage it is, how it was attributed, and what the ledger said.
//!
//! Capturing one alternates between reading the agent's files and deciding what they mean;
//! each decision below takes what one read returned and says what comes next.
use vstd::prelude::*;

use crate::text::{owned, push_str};
use crate::time::UtcTime;
use crate::usage::attribution::UsageAttribution;
use crate::usage::codex::{CodexResolveResult, CodexResolvedTranscript};

verus! {

/// Why a ledger could not be read.
#[derive(Clone, Copy, Debug, PartialEq, Eq, Structural)]
pub enum UsageUnavailableReason {
    ParseError,
    Missing,
    AmbiguousCodexCandidates,
    Unsupported,
}

impl UsageUnavailableReason {
    /// The reason's name, as a warning prints it.
    pub fn name(self) -> (r: &'static str)
        ensures
            r@ == reason_name(self),
    {
        match self {
            UsageUnavailableReason::ParseError => "ParseError",
            UsageUnavailableReason::Missing => "Missing",
            UsageUnavailableReason::AmbiguousCodexCandidates => "AmbiguousCodexCandidates",
            UsageUnavailableReason::Unsupported => "Unsupported",
        }
    }
}

pub open spec fn reason_name(r: UsageUnavailableReason) -> Seq<char> {
    match r {
        UsageUnavailableReason::ParseError => "ParseError"@,
        UsageUnavailableReason::Missing => "Missing"@,
        UsageUnavailableReason::AmbiguousCodexCandidates => "AmbiguousCodexCandidates"@,
        UsageUnavailableReason::Unsupported => "Unsupported"@,
    }
}

/// Messages counted in a transcript.
#[derive(Clone, Copy, Debug, PartialEq, Eq, Structural)]
pub struct TranscriptTurnCounts {
    pub transcript_user_messages: u64,
    pub transcript_assistant_messages: u64,
    pub usage_messages: u64,
}

/// The turn counts a snapshot records.
#[derive(Clone, Copy, Debug, PartialEq, Eq, Structural)]
pub struct UsageTurnCounts {
    pub niles_prompt_count: Option<u64>,
    pub transcript_user_messages: Option<u64>,
    pub transcript_assistant_messages: Option<u64>,
    pub usage_messages: Option<u64>,
}

/// What the ledger said.
#[derive(Clone, Debug, PartialEq, Eq)]
pub enum UsageSnapshotUsage {
    Available {
        family: String,
        input_tokens: u64,
        cached_input_tokens: Option<u64>,
        cache_creation_input_tokens: Option<u64>,
        cache_read_input_tokens: Option<u64>,
        output_tokens: u64,
        reasoning_output_tokens: Option<u64>,
        total_tokens: u64,
    },
    Unavailable { reason: UsageUnavailableReason, detail: String },
}

/// How a snapshot was tied to the agent's own ledger.
#[derive(Clone, Debug, PartialEq, Eq)]
pub enum UsageSnapshotAttribution {
    SessionLedger {
        session_id: String,
        cwd: String,
        launched_at: UtcTime,
        niles_prompt_count: Option<u64>,
        transcript: Option<String>,
        resolved_by: Option<String>,
    },
    CodexCwdTime {
        cwd: String,
        launched_at: UtcTime,
        niles_prompt_count: Option<u64>,
        session_id: Option<String>,
        transcript: Option<String>,
        resolved_by: Option<String>,
    },
    Unsupported { cwd: String, launched_at: UtcTime, niles_prompt_count: Option<u64> },
    Missing,
}

/// Whose usage a snapshot is.
#[derive(Clone, Debug, PartialEq, Eq)]
pub enum UsageSubject {
    Manager { id: String },
    Worker { id: String, task_label: Option<String> },
    RunStep { run_id: String, index: usize, role: Option<String>, label: String },
}

/// The agent a snapshot covers.
#[derive(Clone, Debug, PartialEq, Eq)]
pub struct UsageAgent {
    pub spec: String,
    pub family: Option<String>,
    pub model: Option<String>,
    pub effort: Option<String>,
}

/// One recorded usage snapshot.
#[derive(Clone, Debug, PartialEq, Eq)]
pub struct UsageSnapshot {
    pub subject: UsageSubject,
    pub agent: UsageAgent,
    pub captured_at: UtcTime,
    pub started_at: Option<UtcTime>,
    pub finished_at: UtcTime,
    pub wall_seconds: Option<i64>,
    pub attribution: UsageSnapshotAttribution,
    pub turns: UsageTurnCounts,
    pub usage: UsageSnapshotUsage,
}

/// What capturing usage produced, and the warning it prints when warnings are asked for.
pub struct CaptureOutcome {
    pub attribution: UsageSnapshotAttribution,
    pub turns: UsageTurnCounts,
    pub usage: UsageSnapshotUsage,
    pub warning: Option<String>,
}

pub open spec fn turn_counts_spec(niles_prompt_count: Option<u64>, transcript: Option<TranscriptTurnCounts>) -> UsageTurnCounts {
    match transcript {
        Some(t) => UsageTurnCounts {
            niles_prompt_count,
            transcript_user_messages: Some(t.transcript_user_messages),
            transcript_assistant_messages: Some(t.transcript_assistant_messages),
            usage_messages: Some(t.usage_messages),
        },
        None => UsageTurnCounts {
            niles_prompt_count,
            transcript_user_messages: None,
            transcript_assistant_messages: None,
            usage_messages: None,
        },
    }
}

pub fn turn_counts(niles_prompt_count: Option<u64>, transcript: Option<TranscriptTurnCounts>) -> (r:
    UsageTurnCounts)
    ensures
        r == turn_counts_spec(niles_prompt_count, transcript),
{
    match transcript {
        Some(t) => UsageTurnCounts {
            niles_prompt_count,
            transcript_user_messages: Some(t.transcript_user_messages),
            transcript_assistant_messages: Some(t.transcript_assistant_messages),
            usage_messages: Some(t.usage_messages),
        },
        None => UsageTurnCounts {
            niles_prompt_count,
            transcript_user_messages: None,
            transcript_assistant_messages: None,
            usage_messages: None,
        },
    }
}

/// Whole seconds from start to finish, truncated toward zero as `TimeDelta::num_seconds`
/// does, and never negative.
pub open spec fn wall_seconds_spec(started_at: Option<UtcTime>, finished_at: UtcTime) -> Option<i64> {
    match started_at {
        None => None,
        Some(s) => {
            let d = (finished_at.secs - s.secs) * 1_000_000_000 + (finished_at.nanos - s.nanos);
            Some(
                if d <= 0 {
                    0i64
                } else {
                    (d / 1_000_000_000) as i64
                },
            )
        },
    }
}

pub fn wall_seconds(started_at: Option<UtcTime>, finished_at: UtcTime) -> (r: Option<i64>)
    requires
        started_at matches Some(s) ==> -8_400_000_000_000 <= s.secs <= 8_400_000_000_000
            && s.nanos < 2_000_000_000,
        -8_400_000_000_000 <= finished_at.secs <= 8_400_000_000_000,
        finished_at.nanos < 2_000_000_000,
    ensures
        r == wall_seconds_spec(started_at, finished_at),
{
    match started_at {
        None => None,
        Some(s) => {
            let d: i128 = (finished_at.secs as i128 - s.secs as i128) * 1_000_000_000i128 + (
            finished_at.nanos as i128 - s.nanos as i128);
            if d <= 0 {
                Some(0)
            } else {
                Some((d / 1_000_000_000i128) as i64)
            }
        },
    }
}

/// The warning an unavailable ledger prints.
pub open spec fn warning_text(reason: UsageUnavailableReason, detail: Seq<char>) -> Seq<char> {
    "warning: usage unavailable ("@ + reason_name(reason) + "): "@ + detail
}

/// An outcome with no ledger.
pub fn unavailable(
    attribution: UsageSnapshotAttribution,
    niles_prompt_count: Option<u64>,
    reason: UsageUnavailableReason,
    detail: String,
    warn_unavailable: bool,
) -> (r: CaptureOutcome)
    ensures
        r.attribution == attribution,
        r.turns == turn_counts_spec(niles_prompt_count, None),
        r.usage == (UsageSnapshotUsage::Unavailable { reason, detail }),
        warn_unavailable ==> (r.warning matches Some(w) && w@ == warning_text(reason, detail@)),
        !warn_unavailable ==> r.warning is None,
{
    let warning = if warn_unavailable {
        let mut w = owned("warning: usage unavailable (");
        push_str(&mut w, reason.name());
        push_str(&mut w, "): ");
        push_str(&mut w, detail.as_str());
        Some(w)
    } else {
        None
    };
    CaptureOutcome {
        attribution,
        turns: turn_counts(niles_prompt_count, None),
        usage: UsageSnapshotUsage::Unavailable { reason, detail },
        warning,
    }
}

/// A session-ledger family's token columns.
#[derive(Clone, Copy, Debug, PartialEq, Eq, Structural)]
pub struct LedgerTokenUsage {
    pub input_tokens: u64,
    pub cache_creation_input_tokens: u64,
    pub cache_read_input_tokens: u64,
    pub output_tokens: u64,
}

/// What a session-ledger transcript summed to.
#[derive(Clone, Copy, Debug, PartialEq, Eq, Structural)]
pub struct LedgerUsageSummary {
    pub usage: LedgerTokenUsage,
    pub turns: TranscriptTurnCounts,
}

pub open spec fn saturating_sum(a: u64, b: u64) -> u64 {
    if a + b > u64::MAX {
        u64::MAX
    } else {
        (a + b) as u64
    }
}

/// Every session-ledger column counted once: input, both cache columns, and output.
pub open spec fn ledger_total(u: LedgerTokenUsage) -> u64 {
    saturating_sum(
        saturating_sum(saturating_sum(u.input_tokens, u.cache_creation_input_tokens), u.cache_read_input_tokens),
        u.output_tokens,
    )
}

impl LedgerTokenUsage {
    pub fn total_tokens(&self) -> (r: u64)
        ensures
            r == ledger_total(*self),
    {
        self.input_tokens.saturating_add(self.cache_creation_input_tokens).saturating_add(
            self.cache_read_input_tokens,
        ).saturating_add(self.output_tokens)
    }
}

/// Codex's cumulative token columns.
#[derive(Clone, Copy, Debug, PartialEq, Eq, Structural)]
pub struct CodexTokenUsage {
    pub input_tokens: u64,
    pub cached_input_tokens: u64,
    pub output_tokens: u64,
    pub reasoning_output_tokens: u64,
    pub total_tokens: u64,
}

/// What a Codex rollout summed to.
#[derive(Clone, Copy, Debug, PartialEq, Eq, Structural)]
pub struct CodexUsageSummary {
    pub usage: CodexTokenUsage,
    pub turns: TranscriptTurnCounts,
}

/// A session-ledger family's columns: input, both cache columns and output as counted, no
/// Codex columns, and the total of all four.
pub open spec fn is_ledger_usage(u: UsageSnapshotUsage, family_name: Seq<char>, s: LedgerTokenUsage) -> bool {
    u matches UsageSnapshotUsage::Available {
        family,
        input_tokens,
        cached_input_tokens,
        cache_creation_input_tokens,
        cache_read_input_tokens,
        output_tokens,
        reasoning_output_tokens,
        total_tokens,
    } && family@ == family_name && input_tokens == s.input_tokens && cached_input_tokens is None
        && cache_creation_input_tokens == Some(s.cache_creation_input_tokens)
        && cache_read_input_tokens == Some(s.cache_read_input_tokens) && output_tokens
        == s.output_tokens && reasoning_output_tokens is None && total_tokens == ledger_total(s)
}

/// Codex's columns: input, cached input, output, reasoning output and Codex's own total, and
/// no session-ledger cache columns.
pub open spec fn is_codex_usage(u: UsageSnapshotUsage, s: CodexTokenUsage) -> bool {
    u matches UsageSnapshotUsage::Available {
        family,
        input_tokens,
        cached_input_tokens,
        cache_creation_input_tokens,
        cache_read_input_tokens,
        output_tokens,
        reasoning_output_tokens,
        total_tokens,
    } && family@ == "codex"@ && input_tokens == s.input_tokens && cached_input_tokens == Some(
        s.cached_input_tokens,
    ) && cache_creation_input_tokens is None && cache_read_input_tokens is None && output_tokens
        == s.output_tokens && reasoning_output_tokens == Some(s.reasoning_output_tokens)
        && total_tokens == s.total_tokens
}

pub fn available_ledger(
    family_name: &str,
    attribution: UsageSnapshotAttribution,
    niles_prompt_count: Option<u64>,
    summary: LedgerUsageSummary,
) -> (r: CaptureOutcome)
    ensures
        r.attribution == attribution,
        r.turns == turn_counts_spec(niles_prompt_count, Some(summary.turns)),
        is_ledger_usage(r.usage, family_name@, summary.usage),
        r.warning is None,
{
    CaptureOutcome {
        attribution,
        turns: turn_counts(niles_prompt_count, Some(summary.turns)),
        usage: UsageSnapshotUsage::Available {
            family: owned(family_name),
            input_tokens: summary.usage.input_tokens,
            cached_input_tokens: None,
            cache_creation_input_tokens: Some(summary.usage.cache_creation_input_tokens),
            cache_read_input_tokens: Some(summary.usage.cache_read_input_tokens),
            output_tokens: summary.usage.output_tokens,
            reasoning_output_tokens: None,
            total_tokens: summary.usage.total_tokens(),
        },
        warning: None,
    }
}

pub fn available_codex(
    attribution: UsageSnapshotAttribution,
    niles_prompt_count: Option<u64>,
    summary: CodexUsageSummary,
) -> (r: CaptureOutcome)
    ensures
        r.attribution == attribution,
        r.turns == turn_counts_spec(niles_prompt_count, Some(summary.turns)),
        is_codex_usage(r.usage, summary.usage),
        r.warning is None,
{
    CaptureOutcome {
        attribution,
        turns: turn_counts(niles_prompt_count, Some(summary.turns)),
        usage: UsageSnapshotUsage::Available {
            family: owned("codex"),
            input_tokens: summary.usage.input_tokens,
            cached_input_tokens: Some(summary.usage.cached_input_tokens),
            cache_creation_input_tokens: None,
            cache_read_input_tokens: None,
            output_tokens: summary.usage.output_tokens,
            reasoning_output_tokens: Some(summary.usage.reasoning_output_tokens),
            total_tokens: summary.usage.total_tokens,
        },
        warning: None,
    }
}

/// `u` is an unavailable ledger with this reason and detail.
pub open spec fn unavailable_with(u: UsageSnapshotUsage, reason: UsageUnavailableReason, detail: Seq<char>) -> bool {
    match u {
        UsageSnapshotUsage::Unavailable { reason: r, detail: d } => r == reason && d@ == detail,
        _ => false,
    }
}

/// The transcript an attribution was resolved to, as text.
pub open spec fn transcript_of(a: UsageSnapshotAttribution) -> Option<Seq<char>> {
    match a {
        UsageSnapshotAttribution::SessionLedger { transcript: Some(t), .. } => Some(t@),
        UsageSnapshotAttribution::CodexCwdTime { transcript: Some(t), .. } => Some(t@),
        _ => None,
    }
}

/// How an attribution says its transcript was found.
pub open spec fn resolved_by_of(a: UsageSnapshotAttribution) -> Option<Seq<char>> {
    match a {
        UsageSnapshotAttribution::SessionLedger { resolved_by: Some(b), .. } => Some(b@),
        UsageSnapshotAttribution::CodexCwdTime { resolved_by: Some(b), .. } => Some(b@),
        _ => None,
    }
}

/// Where capturing usage for an attribution goes first.
pub enum CaptureStart {
    /// Nothing to read: the outcome is already known.
    Done(CaptureOutcome),
    /// Find the session-ledger family's config dir next.
    SessionLedger,
    /// Find the Codex home next.
    Codex,
}

pub open spec fn done_outcome(r: CaptureStart) -> Option<CaptureOutcome> {
    match r {
        CaptureStart::Done(o) => Some(o),
        _ => None,
    }
}

/// The first decision: an attribution that names no ledger ends here.
pub fn capture_usage(attribution: Option<&UsageAttribution>, warn_unavailable: bool) -> (r: CaptureStart)
    ensures
        attribution is None ==> {
            &&& done_outcome(r) is Some
            &&& done_outcome(r).unwrap().attribution == UsageSnapshotAttribution::Missing
            &&& done_outcome(r).unwrap().turns == turn_counts_spec(None, None)
            &&& unavailable_with(
                done_outcome(r).unwrap().usage,
                UsageUnavailableReason::Unsupported,
                "no usage attribution was recorded for this artifact"@,
            )
        },
        attribution matches Some(UsageAttribution::Unsupported { cwd, launched_at, niles_prompt_count })
            ==> {
            &&& done_outcome(r) is Some
            &&& done_outcome(r).unwrap().attribution == (UsageSnapshotAttribution::Unsupported {
                cwd: *cwd,
                launched_at: *launched_at,
                niles_prompt_count: *niles_prompt_count,
            })
            &&& done_outcome(r).unwrap().turns == turn_counts_spec(*niles_prompt_count, None)
            &&& unavailable_with(
                done_outcome(r).unwrap().usage,
                UsageUnavailableReason::Unsupported,
                "agent family does not expose a supported token ledger"@,
            )
        },
        attribution matches Some(UsageAttribution::SessionLedger { .. }) ==> r is SessionLedger,
        attribution matches Some(UsageAttribution::CodexCwdTime { .. }) ==> r is Codex,
{
    match attribution {
        None => CaptureStart::Done(
            unavailable(
                UsageSnapshotAttribution::Missing,
                None,
                UsageUnavailableReason::Unsupported,
                owned("no usage attribution was recorded for this artifact"),
                warn_unavailable,
            ),
        ),
        Some(UsageAttribution::SessionLedger { .. }) => CaptureStart::SessionLedger,
        Some(UsageAttribution::CodexCwdTime { .. }) => CaptureStart::Codex,
        Some(UsageAttribution::Unsupported { cwd, launched_at, niles_prompt_count }) => {
            CaptureStart::Done(
                unavailable(
                    UsageSnapshotAttribution::Unsupported {
                        cwd: cwd.clone(),
                        launched_at: *launched_at,
                        niles_prompt_count: *niles_prompt_count,
                    },
                    *niles_prompt_count,
                    UsageUnavailableReason::Unsupported,
                    owned("agent family does not expose a supported token ledger"),
                    warn_unavailable,
                ),
            )
        },
    }
}

/// The session-ledger attribution: `transcript` and how it was found, where it was found.
pub open spec fn is_ledger_attr(
    family: Seq<char>,
    a: UsageSnapshotAttribution,
    session_id: String,
    cwd: String,
    launched_at: UtcTime,
    npc: Option<u64>,
    transcript: Option<Seq<char>>,
) -> bool {
    &&& a matches UsageSnapshotAttribution::SessionLedger {
        session_id: s,
        cwd: c,
        launched_at: l,
        niles_prompt_count: n,
        ..
    } && s == session_id && c == cwd && l == launched_at && n == npc
    &&& transcript_of(a) == transcript
    &&& resolved_by_of(a) == if transcript is Some {
        Some(family + "_session_id"@)
    } else {
        None
    }
}

/// How a session-ledger transcript is said to have been found: by the family's session id.
fn session_id_source(family: &str) -> (r: String)
    ensures
        r@ == family@ + "_session_id"@,
{
    let mut r = owned(family);
    push_str(&mut r, "_session_id");
    r
}

fn ledger_attribution(
    family: &str,
    session_id: &String,
    cwd: &String,
    launched_at: UtcTime,
    npc: Option<u64>,
    transcript: Option<&str>,
) -> (r: UsageSnapshotAttribution)
    ensures
        is_ledger_attr(
            family@,
            r,
            *session_id,
            *cwd,
            launched_at,
            npc,
            match transcript {
                Some(p) => Some(p@),
                None => None,
            },
        ),
{
    match transcript {
        None => UsageSnapshotAttribution::SessionLedger {
            session_id: session_id.clone(),
            cwd: cwd.clone(),
            launched_at,
            niles_prompt_count: npc,
            transcript: None,
            resolved_by: None,
        },
        Some(p) => UsageSnapshotAttribution::SessionLedger {
            session_id: session_id.clone(),
            cwd: cwd.clone(),
            launched_at,
            niles_prompt_count: npc,
            transcript: Some(owned(p)),
            resolved_by: Some(session_id_source(family)),
        },
    }
}

/// A session-ledger family, once its config dir was looked up: without one there is nothing
/// to read.
pub fn ledger_home_step(
    family: &str,
    session_id: &String,
    cwd: &String,
    launched_at: UtcTime,
    npc: Option<u64>,
    home: Result<String, String>,
    warn_unavailable: bool,
) -> (r: Result<String, CaptureOutcome>)
    ensures
        home matches Ok(h) ==> r == Ok::<String, CaptureOutcome>(h),
        home matches Err(e) ==> (r matches Err(o) && is_ledger_attr(
            family@,
            o.attribution,
            *session_id,
            *cwd,
            launched_at,
            npc,
            None,
        ) && unavailable_with(o.usage, UsageUnavailableReason::Missing, e@) && o.turns
            == turn_counts_spec(npc, None)),
{
    match home {
        Ok(h) => Ok(h),
        Err(e) => Err(
            unavailable(
                ledger_attribution(family, session_id, cwd, launched_at, npc, None),
                npc,
                UsageUnavailableReason::Missing,
                e,
                warn_unavailable,
            ),
        ),
    }
}

/// A session-ledger family, once its transcript was located: a transcript that is not there
/// is a missing
/// ledger.
pub fn ledger_transcript_step(
    family: &str,
    label: &str,
    session_id: &String,
    cwd: &String,
    launched_at: UtcTime,
    npc: Option<u64>,
    transcript: &str,
    exists: bool,
    warn_unavailable: bool,
) -> (r: Option<CaptureOutcome>)
    ensures
        exists ==> r is None,
        !exists ==> (r matches Some(o) && is_ledger_attr(
            family@,
            o.attribution,
            *session_id,
            *cwd,
            launched_at,
            npc,
            Some(transcript@),
        ) && unavailable_with(
            o.usage,
            UsageUnavailableReason::Missing,
            label@ + " transcript not found at "@ + transcript@,
        ) && o.turns == turn_counts_spec(npc, None)),
{
    if exists {
        return None;
    }
    let mut detail = owned(label);
    push_str(&mut detail, " transcript not found at ");
    push_str(&mut detail, transcript);
    Some(
        unavailable(
            ledger_attribution(family, session_id, cwd, launched_at, npc, Some(transcript)),
            npc,
            UsageUnavailableReason::Missing,
            detail,
            warn_unavailable,
        ),
    )
}

/// A session-ledger family, once its transcript was read: its usage, a missing ledger where
/// it holds no
/// assistant usage, or a parse error.
pub fn ledger_parsed_step(
    family: &str,
    label: &str,
    session_id: &String,
    cwd: &String,
    launched_at: UtcTime,
    npc: Option<u64>,
    transcript: &str,
    parsed: Result<Option<LedgerUsageSummary>, String>,
    warn_unavailable: bool,
) -> (r: CaptureOutcome)
    ensures
        is_ledger_attr(family@, r.attribution, *session_id, *cwd, launched_at, npc, Some(transcript@)),
        parsed matches Ok(Some(s)) ==> r.turns == turn_counts_spec(npc, Some(s.turns))
            && is_ledger_usage(r.usage, family@, s.usage),
        parsed is Ok && parsed.unwrap() is None ==> unavailable_with(
            r.usage,
            UsageUnavailableReason::Missing,
            label@ + " transcript "@ + transcript@ + " has no assistant usage records"@,
        ) && r.turns == turn_counts_spec(npc, None),
        parsed matches Err(e) ==> unavailable_with(r.usage, UsageUnavailableReason::ParseError, e@)
            && r.turns == turn_counts_spec(npc, None),
{
    let attribution = ledger_attribution(family, session_id, cwd, launched_at, npc, Some(transcript));
    match parsed {
        Ok(Some(summary)) => available_ledger(family, attribution, npc, summary),
        Ok(None) => {
            let mut detail = owned(label);
            push_str(&mut detail, " transcript ");
            push_str(&mut detail, transcript);
            push_str(&mut detail, " has no assistant usage records");
            unavailable(attribution, npc, UsageUnavailableReason::Missing, detail, warn_unavailable)
        },
        Err(e) => unavailable(attribution, npc, UsageUnavailableReason::ParseError, e, warn_unavailable),
    }
}

/// The Codex attribution: the rollout matched and how, where one was matched.
pub open spec fn is_codex_attr(
    a: UsageSnapshotAttribution,
    cwd: String,
    launched_at: UtcTime,
    npc: Option<u64>,
    found: Option<CodexResolvedTranscript>,
) -> bool {
    &&& a matches UsageSnapshotAttribution::CodexCwdTime {
        cwd: c,
        launched_at: l,
        niles_prompt_count: n,
        session_id: s,
        ..
    } && c == cwd && l == launched_at && n == npc && s == match found {
        Some(f) => Some(f.session_id),
        None => None,
    }
    &&& transcript_of(a) == match found {
        Some(f) => Some(f.path@),
        None => None,
    }
    &&& resolved_by_of(a) == if found is Some {
        Some("nearest_cwd_start"@)
    } else {
        None
    }
}

fn codex_attribution(cwd: &String, launched_at: UtcTime, npc: Option<u64>, found: Option<&CodexResolvedTranscript>) -> (r:
    UsageSnapshotAttribution)
    ensures
        is_codex_attr(
            r,
            *cwd,
            launched_at,
            npc,
            match found {
                Some(f) => Some(*f),
                None => None,
            },
        ),
{
    match found {
        None => UsageSnapshotAttribution::CodexCwdTime {
            cwd: cwd.clone(),
            launched_at,
            niles_prompt_count: npc,
            session_id: None,
            transcript: None,
            resolved_by: None,
        },
        Some(f) => UsageSnapshotAttribution::CodexCwdTime {
            cwd: cwd.clone(),
            launched_at,
            niles_prompt_count: npc,
            session_id: Some(f.session_id.clone()),
            transcript: Some(f.path.clone()),
            resolved_by: Some(owned("nearest_cwd_start")),
        },
    }
}

/// Codex, once its home was looked up.
pub fn codex_home_step(
    cwd: &String,
    launched_at: UtcTime,
    npc: Option<u64>,
    home: Result<String, String>,
    warn_unavailable: bool,
) -> (r: Result<String, CaptureOutcome>)
    ensures
        home matches Ok(h) ==> r == Ok::<String, CaptureOutcome>(h),
        home matches Err(e) ==> (r matches Err(o) && is_codex_attr(o.attribution, *cwd, launched_at, npc, None)
            && unavailable_with(o.usage, UsageUnavailableReason::Missing, e@) && o.turns
            == turn_counts_spec(npc, None)),
{
    match home {
        Ok(h) => Ok(h),
        Err(e) => Err(
            unavailable(
                codex_attribution(cwd, launched_at, npc, None),
                npc,
                UsageUnavailableReason::Missing,
                e,
                warn_unavailable,
            ),
        ),
    }
}

/// Codex, once its rollout was looked for: a read error, a missing or an ambiguous rollout
/// each end the capture with that reason.
pub fn codex_resolved_step(
    cwd: &String,
    launched_at: UtcTime,
    npc: Option<u64>,
    resolved: Result<CodexResolveResult, String>,
    warn_unavailable: bool,
) -> (r: Result<CodexResolvedTranscript, CaptureOutcome>)
    ensures
        resolved matches Ok(CodexResolveResult::Found(t)) ==> r == Ok::<CodexResolvedTranscript, CaptureOutcome>(t),
        resolved matches Err(e) ==> (r matches Err(o) && is_codex_attr(o.attribution, *cwd, launched_at, npc, None)
            && unavailable_with(o.usage, UsageUnavailableReason::ParseError, e@) && o.turns
            == turn_counts_spec(npc, None)),
        resolved matches Ok(CodexResolveResult::Missing(d)) ==> (r matches Err(o) && is_codex_attr(
            o.attribution,
            *cwd,
            launched_at,
            npc,
            None,
        ) && unavailable_with(o.usage, UsageUnavailableReason::Missing, d@) && o.turns
            == turn_counts_spec(npc, None)),
        resolved matches Ok(CodexResolveResult::Ambiguous(d)) ==> (r matches Err(o) && is_codex_attr(
            o.attribution,
            *cwd,
            launched_at,
            npc,
            None,
        ) && unavailable_with(o.usage, UsageUnavailableReason::AmbiguousCodexCandidates, d@)
            && o.turns == turn_counts_spec(npc, None)),
{
    match resolved {
        Ok(CodexResolveResult::Found(t)) => Ok(t),
        Ok(CodexResolveResult::Missing(d)) => Err(
            unavailable(
                codex_attribution(cwd, launched_at, npc, None),
                npc,
                UsageUnavailableReason::Missing,
                d,
                warn_unavailable,
            ),
        ),
        Ok(CodexResolveResult::Ambiguous(d)) => Err(
            unavailable(
                codex_attribution(cwd, launched_at, npc, None),
                npc,
                UsageUnavailableReason::AmbiguousCodexCandidates,
                d,
                warn_unavailable,
            ),
        ),
        Err(e) => Err(
            unavailable(
                codex_attribution(cwd, launched_at, npc, None),
                npc,
                UsageUnavailableReason::ParseError,
                e,
                warn_unavailable,
            ),
        ),
    }
}

/// Codex, once the matched rollout was read: its last token count, a missing ledger where it
/// has none, or a parse error.
pub fn codex_parsed_step(
    cwd: &String,
    launched_at: UtcTime,
    npc: Option<u64>,
    found: &CodexResolvedTranscript,
    parsed: Result<Option<CodexUsageSummary>, String>,
    warn_unavailable: bool,
) -> (r: CaptureOutcome)
    ensures
        is_codex_attr(r.attribution, *cwd, launched_at, npc, Some(*found)),
        parsed matches Ok(Some(u)) ==> r.turns == turn_counts_spec(npc, Some(u.turns))
            && is_codex_usage(r.usage, u.usage),
        parsed is Ok && parsed.unwrap() is None ==> unavailable_with(
            r.usage,
            UsageUnavailableReason::Missing,
            "Codex rollout "@ + found.path@ + " has no token_count events"@,
        ) && r.turns == turn_counts_spec(npc, None),
        parsed matches Err(e) ==> unavailable_with(r.usage, UsageUnavailableReason::ParseError, e@)
            && r.turns == turn_counts_spec(npc, None),
{
    let attribution = codex_attribution(cwd, launched_at, npc, Some(found));
    match parsed {
        Ok(Some(usage)) => available_codex(attribution, npc, usage),
        Ok(None) => {
            let mut detail = owned("Codex rollout ");
            push_str(&mut detail, found.path.as_str());
            push_str(&mut detail, " has no token_count events");
            unavailable(attribution, npc, UsageUnavailableReason::Missing, detail, warn_unavailable)
        },
        Err(e) => unavailable(attribution, npc, UsageUnavailableReason::ParseError, e, warn_unavailable),
    }
}

} // verus!
