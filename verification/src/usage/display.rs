//! Usage as a listing shows it: one subject's row, and the rollup across subjects.
use vstd::prelude::*;

use crate::digits::{decimal, u64_to_decimal};
use crate::text::{owned, push_str};
use crate::usage::snapshot::{UsageSnapshot, UsageSnapshotUsage, UsageTurnCounts, UsageUnavailableReason};

verus! {

/// How a subject's usage stands.
#[derive(Clone, Copy, Debug, PartialEq, Eq, Structural)]
pub enum UsageDisplayStatus {
    Available,
    Unavailable,
    Pending,
}

impl UsageDisplayStatus {
    pub fn as_str(self) -> (r: &'static str)
        ensures
            r@ == match self {
                UsageDisplayStatus::Available => "available"@,
                UsageDisplayStatus::Unavailable => "unavailable"@,
                UsageDisplayStatus::Pending => "pending"@,
            },
    {
        match self {
            UsageDisplayStatus::Available => "available",
            UsageDisplayStatus::Unavailable => "unavailable",
            UsageDisplayStatus::Pending => "pending",
        }
    }
}

/// Token columns; a column a family does not report stays `None`.
#[derive(Clone, Copy, Debug, PartialEq, Eq, Structural)]
pub struct UsageTotals {
    pub total: Option<u64>,
    pub input: Option<u64>,
    pub cache_create: Option<u64>,
    pub cache_read: Option<u64>,
    pub cached: Option<u64>,
    pub output: Option<u64>,
    pub reasoning: Option<u64>,
}

pub open spec fn no_totals() -> UsageTotals {
    UsageTotals {
        total: None,
        input: None,
        cache_create: None,
        cache_read: None,
        cached: None,
        output: None,
        reasoning: None,
    }
}

impl Default for UsageTotals {
    fn default() -> (r: UsageTotals)
        ensures
            r == no_totals(),
    {
        UsageTotals {
            total: None,
            input: None,
            cache_create: None,
            cache_read: None,
            cached: None,
            output: None,
            reasoning: None,
        }
    }
}

/// A column after adding `value`: a missing value changes nothing; otherwise the saturating
/// sum, starting from the value where the column was empty.
pub open spec fn column_sum(target: Option<u64>, value: Option<u64>) -> Option<u64> {
    match value {
        None => target,
        Some(v) => Some(
            match target {
                Some(c) => if c + v > u64::MAX {
                    u64::MAX
                } else {
                    (c + v) as u64
                },
                None => v,
            },
        ),
    }
}

pub open spec fn totals_sum(a: UsageTotals, b: UsageTotals) -> UsageTotals {
    UsageTotals {
        total: column_sum(a.total, b.total),
        input: column_sum(a.input, b.input),
        cache_create: column_sum(a.cache_create, b.cache_create),
        cache_read: column_sum(a.cache_read, b.cache_read),
        cached: column_sum(a.cached, b.cached),
        output: column_sum(a.output, b.output),
        reasoning: column_sum(a.reasoning, b.reasoning),
    }
}

pub fn add_column(target: &mut Option<u64>, value: Option<u64>)
    ensures
        *final(target) == column_sum(*old(target), value),
{
    match value {
        Some(v) => {
            *target = Some(
                match *target {
                    Some(c) => c.saturating_add(v),
                    None => v,
                },
            );
        },
        None => {},
    }
}

impl UsageTotals {
    pub fn add_assign(&mut self, other: &UsageTotals)
        ensures
            *final(self) == totals_sum(*old(self), *other),
    {
        add_column(&mut self.total, other.total);
        add_column(&mut self.input, other.input);
        add_column(&mut self.cache_create, other.cache_create);
        add_column(&mut self.cache_read, other.cache_read);
        add_column(&mut self.cached, other.cached);
        add_column(&mut self.output, other.output);
        add_column(&mut self.reasoning, other.reasoning);
    }
}

/// One subject's usage as a listing shows it.
#[derive(Clone, Copy, Debug, PartialEq, Eq, Structural)]
pub struct UsageDisplay {
    pub status: UsageDisplayStatus,
    pub wall_seconds: Option<i64>,
    pub turns: Option<u64>,
    pub totals: UsageTotals,
}

/// The turn count shown: transcript user messages, else niles' own prompt count, else usage
/// messages.
pub open spec fn turns_spec(t: UsageTurnCounts) -> Option<u64> {
    if t.transcript_user_messages is Some {
        t.transcript_user_messages
    } else if t.niles_prompt_count is Some {
        t.niles_prompt_count
    } else {
        t.usage_messages
    }
}

pub fn display_turns(turns: &UsageTurnCounts) -> (r: Option<u64>)
    ensures
        r == turns_spec(*turns),
{
    if let Some(count) = turns.transcript_user_messages {
        return Some(count);
    }
    if let Some(count) = turns.niles_prompt_count {
        return Some(count);
    }
    turns.usage_messages
}

/// How a snapshot shows: an available ledger with its columns; otherwise no columns, pending
/// where a missing ledger may still arrive and `missing_is_pending` says so.
pub open spec fn display_spec(s: UsageSnapshot, missing_is_pending: bool) -> UsageDisplay {
    match s.usage {
        UsageSnapshotUsage::Available {
            input_tokens,
            cached_input_tokens,
            cache_creation_input_tokens,
            cache_read_input_tokens,
            output_tokens,
            reasoning_output_tokens,
            total_tokens,
            ..
        } => UsageDisplay {
            status: UsageDisplayStatus::Available,
            wall_seconds: s.wall_seconds,
            turns: turns_spec(s.turns),
            totals: UsageTotals {
                total: Some(total_tokens),
                input: Some(input_tokens),
                cache_create: cache_creation_input_tokens,
                cache_read: cache_read_input_tokens,
                cached: cached_input_tokens,
                output: Some(output_tokens),
                reasoning: reasoning_output_tokens,
            },
        },
        UsageSnapshotUsage::Unavailable { reason, .. } => UsageDisplay {
            status: if missing_is_pending && reason == UsageUnavailableReason::Missing {
                UsageDisplayStatus::Pending
            } else {
                UsageDisplayStatus::Unavailable
            },
            wall_seconds: s.wall_seconds,
            turns: None,
            totals: no_totals(),
        },
    }
}

/// The turn count an available snapshot shows: the transcript's user messages where the
/// transcript counted them, then niles' own prompt count, then the usage messages. An
/// unavailable snapshot shows none.
pub proof fn lemma_turns_prefer_transcript(s: UsageSnapshot, missing_is_pending: bool)
    ensures
        s.usage is Available && s.turns.transcript_user_messages is Some ==> display_spec(
            s,
            missing_is_pending,
        ).turns == s.turns.transcript_user_messages,
        s.usage is Available && s.turns.transcript_user_messages is None ==> display_spec(
            s,
            missing_is_pending,
        ).turns == if s.turns.niles_prompt_count is Some {
            s.turns.niles_prompt_count
        } else {
            s.turns.usage_messages
        },
        s.usage is Unavailable ==> display_spec(s, missing_is_pending).turns is None,
{
}

impl UsageDisplay {
    pub fn from_snapshot(snapshot: &UsageSnapshot, missing_is_pending: bool) -> (r: UsageDisplay)
        ensures
            r == display_spec(*snapshot, missing_is_pending),
    {
        match &snapshot.usage {
            UsageSnapshotUsage::Available {
                input_tokens,
                cached_input_tokens,
                cache_creation_input_tokens,
                cache_read_input_tokens,
                output_tokens,
                reasoning_output_tokens,
                total_tokens,
                ..
            } => UsageDisplay {
                status: UsageDisplayStatus::Available,
                wall_seconds: snapshot.wall_seconds,
                turns: display_turns(&snapshot.turns),
                totals: UsageTotals {
                    total: Some(*total_tokens),
                    input: Some(*input_tokens),
                    cache_create: *cache_creation_input_tokens,
                    cache_read: *cache_read_input_tokens,
                    cached: *cached_input_tokens,
                    output: Some(*output_tokens),
                    reasoning: *reasoning_output_tokens,
                },
            },
            UsageSnapshotUsage::Unavailable { reason, .. } => {
                let missing = match reason {
                    UsageUnavailableReason::Missing => true,
                    _ => false,
                };
                let status = if missing_is_pending && missing {
                    UsageDisplayStatus::Pending
                } else {
                    UsageDisplayStatus::Unavailable
                };
                UsageDisplay {
                    status,
                    wall_seconds: snapshot.wall_seconds,
                    turns: None,
                    totals: UsageTotals::default(),
                }
            },
        }
    }

    /// A subject whose ledger has not been written yet.
    pub fn pending(wall_seconds: Option<i64>) -> (r: UsageDisplay)
        ensures
            r == (UsageDisplay {
                status: UsageDisplayStatus::Pending,
                wall_seconds,
                turns: None,
                totals: no_totals(),
            }),
    {
        UsageDisplay {
            status: UsageDisplayStatus::Pending,
            wall_seconds,
            turns: None,
            totals: UsageTotals::default(),
        }
    }

    /// A subject whose ledger cannot be read.
    pub fn unavailable(wall_seconds: Option<i64>) -> (r: UsageDisplay)
        ensures
            r == (UsageDisplay {
                status: UsageDisplayStatus::Unavailable,
                wall_seconds,
                turns: None,
                totals: no_totals(),
            }),
    {
        UsageDisplay {
            status: UsageDisplayStatus::Unavailable,
            wall_seconds,
            turns: None,
            totals: UsageTotals::default(),
        }
    }
}

/// Usage summed across subjects.
#[derive(Clone, Copy, Debug, PartialEq, Eq, Structural)]
pub struct UsageRollup {
    pub available_subjects: u64,
    pub wall_seconds: Option<u64>,
    pub totals: UsageTotals,
}

impl Default for UsageRollup {
    fn default() -> (r: UsageRollup)
        ensures
            r == (UsageRollup { available_subjects: 0, wall_seconds: None, totals: no_totals() }),
    {
        UsageRollup { available_subjects: 0, wall_seconds: None, totals: UsageTotals::default() }
    }
}

/// The rollup after one more subject: its wall time counts whenever it is known and not
/// negative; its tokens and the subject count only where its ledger is available.
pub open spec fn rollup_add(r: UsageRollup, u: UsageDisplay) -> UsageRollup {
    UsageRollup {
        available_subjects: if u.status == UsageDisplayStatus::Available {
            if r.available_subjects == u64::MAX {
                u64::MAX
            } else {
                (r.available_subjects + 1) as u64
            }
        } else {
            r.available_subjects
        },
        wall_seconds: match u.wall_seconds {
            Some(s) if s >= 0 => column_sum(r.wall_seconds, Some(s as u64)),
            _ => r.wall_seconds,
        },
        totals: if u.status == UsageDisplayStatus::Available {
            totals_sum(r.totals, u.totals)
        } else {
            r.totals
        },
    }
}

impl UsageRollup {
    pub fn add(&mut self, usage: &UsageDisplay)
        ensures
            *final(self) == rollup_add(*old(self), *usage),
    {
        match usage.wall_seconds {
            Some(seconds) => if seconds >= 0 {
                add_column(&mut self.wall_seconds, Some(seconds as u64));
            },
            None => {},
        }
        match usage.status {
            UsageDisplayStatus::Available => {
                self.available_subjects = self.available_subjects.saturating_add(1);
                self.totals.add_assign(&usage.totals);
            },
            _ => {},
        }
    }
}

/// A rollup over subjects one after another.
pub open spec fn rollup_all(r: UsageRollup, us: Seq<UsageDisplay>) -> UsageRollup
    decreases us.len(),
{
    if us.len() == 0 {
        r
    } else {
        rollup_add(rollup_all(r, us.drop_last()), us.last())
    }
}

/// Subjects whose ledger is not available leave the token columns and the subject count of a
/// rollup as they were, whatever order they come in.
pub proof fn lemma_unavailable_subjects_add_no_tokens(r: UsageRollup, us: Seq<UsageDisplay>)
    requires
        forall|i: int| 0 <= i < us.len() ==> (#[trigger] us[i]).status != UsageDisplayStatus::Available,
    ensures
        rollup_all(r, us).totals == r.totals,
        rollup_all(r, us).available_subjects == r.available_subjects,
    decreases us.len(),
{
    if us.len() > 0 {
        assert forall|i: int| 0 <= i < us.drop_last().len() implies (
        #[trigger] us.drop_last()[i]).status != UsageDisplayStatus::Available by {
            assert(us.drop_last()[i] == us[i]);
        }
        lemma_unavailable_subjects_add_no_tokens(r, us.drop_last());
        assert(us.last() == us[us.len() - 1]);
    }
}

/// A missing value is `-`.
pub fn format_optional(value: Option<u64>) -> (r: String)
    ensures
        r@ == match value {
            Some(v) => decimal(v as nat),
            None => "-"@,
        },
{
    match value {
        Some(v) => u64_to_decimal(v),
        None => owned("-"),
    }
}

/// Wall seconds with an `s`, or `-` where unknown or negative.
pub fn format_wall(value: Option<i64>) -> (r: String)
    ensures
        r@ == match value {
            Some(v) if v >= 0 => decimal(v as nat) + "s"@,
            _ => "-"@,
        },
{
    match value {
        Some(v) => if v >= 0 {
            let mut r = u64_to_decimal(v as u64);
            push_str(&mut r, "s");
            r
        } else {
            owned("-")
        },
        None => owned("-"),
    }
}

pub fn format_rollup_wall(value: Option<u64>) -> (r: String)
    ensures
        r@ == match value {
            Some(v) => decimal(v as nat) + "s"@,
            None => "-"@,
        },
{
    match value {
        Some(v) => {
            let mut r = u64_to_decimal(v);
            push_str(&mut r, "s");
            r
        },
        None => owned("-"),
    }
}

} // verus!
