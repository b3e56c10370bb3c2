//! Check-in arm state: when a check-in is due, how it re-arms, and how it is spelled on disk.
use vstd::prelude::*;

use crate::digits::{
    decimal, is_digit, lemma_decimal_reads_back, lemma_parse_decimal, parse_u64_range,
    parse_u64_spec, push_decimal,
};
use crate::text::{
    chars_of, eq_ignore_ascii_case, find_first, index_of, is_first_index, is_whitespace,
    lemma_find_first, lines_of, lines_of_chars, owned, push_char, push_str,
    range_eq_ignore_ascii_case, strip_cr, string_of_range, trim, trim_range,
    trim_start,
};
use crate::time::{
    parse_rfc3339, rfc3339_char, rfc3339_reading, rfc3339_secs,
    rfc3339_text, time_plus, time_valid, UtcTime, FOUR_DIGIT_YEARS_END, FOUR_DIGIT_YEARS_START,
    MAX_TIMESTAMP, MIN_TIMESTAMP,
};
use crate::wake::ActionableWake;

verus! {

/// The delay `spawn` and `send` arm when nothing else is asked for: five minutes.
pub const DEFAULT_DELAY_SECS: u64 = 300;

/// How far a doubling re-check backs off: an hour.
pub const BACKOFF_CAP_SECS: u64 = 3600;

/// The longest accepted `--checkin`: a day.
pub const MAX_DELAY_SECS: u64 = 86400;

/// How a check-in that has fired picks the delay it re-arms at.
#[derive(Clone, Copy, Debug, PartialEq, Eq, Structural)]
pub enum Recheck {
    /// Double the delay after each fire, up to the cap, never below the delay that fired.
    Backoff,
    /// The same delay, in seconds, after every fire.
    Fixed(u64),
}

/// The delay the next check-in waits, given the one that just fired.
pub open spec fn next_delay(recheck: Recheck, fired: u64) -> u64 {
    match recheck {
        Recheck::Backoff => {
            let doubled: int = if 2 * fired <= BACKOFF_CAP_SECS {
                2 * fired
            } else {
                BACKOFF_CAP_SECS as int
            };
            if doubled >= fired {
                doubled as u64
            } else {
                fired
            }
        },
        Recheck::Fixed(delay) => delay,
    }
}

/// How `--checkin` spells a delay: whole hours, else whole minutes, else seconds.
pub open spec fn delay_text(seconds: u64) -> Seq<char> {
    if seconds % 3600 == 0 {
        decimal((seconds / 3600) as nat) + "h"@
    } else if seconds % 60 == 0 {
        decimal((seconds / 60) as nat) + "m"@
    } else {
        decimal(seconds as nat) + "s"@
    }
}

/// How the arm state spells a policy.
pub open spec fn recheck_text(recheck: Recheck) -> Seq<char> {
    match recheck {
        Recheck::Backoff => "backoff"@,
        Recheck::Fixed(delay) => delay_text(delay),
    }
}

/// The `--checkin` spelling of a delay, for `spawn` to print back to the lead.
pub fn describe_delay(seconds: u64) -> (r: String)
    ensures
        r@ == delay_text(seconds),
{
    let mut r = String::new();
    if seconds % 3600 == 0 {
        push_decimal(&mut r, seconds / 3600);
        push_str(&mut r, "h");
    } else if seconds % 60 == 0 {
        push_decimal(&mut r, seconds / 60);
        push_str(&mut r, "m");
    } else {
        push_decimal(&mut r, seconds);
        push_str(&mut r, "s");
    }
    r
}

impl Recheck {
    /// The delay the next check-in waits, given the one that just fired.
    pub fn next_delay(self, fired: u64) -> (r: u64)
        ensures
            r == next_delay(self, fired),
    {
        match self {
            Recheck::Backoff => {
                let doubled = if fired <= BACKOFF_CAP_SECS / 2 {
                    fired * 2
                } else {
                    BACKOFF_CAP_SECS
                };
                if doubled >= fired {
                    doubled
                } else {
                    fired
                }
            },
            Recheck::Fixed(delay) => delay,
        }
    }

    /// `backoff`, or the delay as `--checkin` spells it.
    pub fn spelling(self) -> (r: String)
        ensures
            r@ == recheck_text(self),
    {
        match self {
            Recheck::Backoff => owned("backoff"),
            Recheck::Fixed(delay) => describe_delay(delay),
        }
    }
}

/// A backoff never shortens the delay that fired, and grows only up to the cap; a fixed
/// policy always waits its own delay.
pub proof fn lemma_next_delay_bounds(recheck: Recheck, fired: u64)
    ensures
        recheck is Backoff ==> fired <= next_delay(recheck, fired),
        recheck is Backoff ==> next_delay(recheck, fired) <= if fired <= BACKOFF_CAP_SECS {
            BACKOFF_CAP_SECS
        } else {
            fired
        },
        recheck is Backoff && 2 * fired <= BACKOFF_CAP_SECS ==> next_delay(recheck, fired) == 2
            * fired,
        recheck matches Recheck::Fixed(d) ==> next_delay(recheck, fired) == d,
{
}

/// The check-in a dispatch arms with.
#[derive(Clone, Copy, Debug, PartialEq, Eq, Structural)]
pub struct Cadence {
    /// `None` is no check-in at all.
    pub delay: Option<u64>,
    pub recheck: Recheck,
}

/// One worker's check-in.
#[derive(Clone, Copy, Debug, PartialEq, Eq, Structural)]
pub struct Checkin {
    pub deadline: UtcTime,
    /// The delay this arm waits, in seconds.
    pub delay: u64,
    /// Seconds since arming at which this check-in is due.
    pub step: u64,
    /// The policy a fire follows.
    pub recheck: Recheck,
    /// Status-log byte length at the moment of arming.
    pub armed_len: u64,
}

/// The seconds `TimeDelta::seconds(delay as i64)` moves by: a delay past `i64::MAX` wraps.
pub open spec fn shift_secs(delay: u64) -> int {
    if delay <= i64::MAX {
        delay as int
    } else {
        delay - 0x1_0000_0000_0000_0000int
    }
}

/// `now` plus `delay`, as `now + TimeDelta::seconds(delay as i64)` computes it.
pub open spec fn fire_at(now: UtcTime, delay: u64) -> UtcTime {
    time_plus(now, shift_secs(delay))
}

/// Where `fire_at` does not panic: the shift fits a `TimeDelta` and the sum is a time.
pub open spec fn can_fire_at(now: UtcTime, delay: u64) -> bool {
    &&& time_valid(now)
    &&& -(i64::MAX / 1000) <= shift_secs(delay) <= i64::MAX / 1000
    &&& MIN_TIMESTAMP <= now.secs + shift_secs(delay) <= MAX_TIMESTAMP
}

/// The check-in armed at `now`.
pub open spec fn armed_spec(delay: u64, recheck: Recheck, armed_len: u64, now: UtcTime) -> Checkin {
    Checkin { deadline: fire_at(now, delay), delay, step: delay, recheck, armed_len }
}

/// The check-in that follows `c` once it has fired at `now`.
pub open spec fn rearmed_spec(c: Checkin, now: UtcTime) -> Checkin {
    let delay = next_delay(c.recheck, c.delay);
    Checkin {
        deadline: fire_at(now, delay),
        delay,
        step: (c.step + delay) as u64,
        recheck: c.recheck,
        armed_len: c.armed_len,
    }
}

/// Where re-arming `c` at `now` does not panic.
pub open spec fn can_rearm(c: Checkin, now: UtcTime) -> bool {
    &&& can_fire_at(now, next_delay(c.recheck, c.delay))
    &&& c.step + next_delay(c.recheck, c.delay) <= u64::MAX
}

fn fire_at_exec(now: UtcTime, delay: u64) -> (r: UtcTime)
    requires
        can_fire_at(now, delay),
    ensures
        r == fire_at(now, delay),
{
    if delay <= i64::MAX as u64 {
        UtcTime { secs: now.secs + delay as i64, nanos: now.nanos }
    } else {
        let back: u64 = u64::MAX - delay + 1;
        UtcTime { secs: now.secs - back as i64, nanos: now.nanos }
    }
}

impl Checkin {
    /// The check-in a dispatch arms at `now`, over a log `armed_len` bytes long.
    pub fn armed(delay: u64, recheck: Recheck, armed_len: u64, now: UtcTime) -> (r: Checkin)
        requires
            can_fire_at(now, delay),
        ensures
            r == armed_spec(delay, recheck, armed_len, now),
    {
        Checkin { deadline: fire_at_exec(now, delay), delay, step: delay, recheck, armed_len }
    }

    /// The check-in that follows this one, once it has fired.
    pub fn rearmed(&self, now: UtcTime) -> (r: Checkin)
        requires
            can_rearm(*self, now),
        ensures
            r == rearmed_spec(*self, now),
    {
        let delay = self.recheck.next_delay(self.delay);
        Checkin {
            deadline: fire_at_exec(now, delay),
            delay,
            step: self.step + delay,
            recheck: self.recheck,
            armed_len: self.armed_len,
        }
    }

    /// Whether re-arming at `now` stays inside what the clock can represent.
    pub fn can_rearm_at(&self, now: UtcTime) -> (r: bool)
        requires
            time_valid(now),
        ensures
            r == can_rearm(*self, now),
    {
        let delay = self.recheck.next_delay(self.delay);
        if self.step > u64::MAX - delay {
            return false;
        }
        if delay <= i64::MAX as u64 {
            delay <= (i64::MAX / 1000) as u64 && now.secs <= MAX_TIMESTAMP - delay as i64
        } else {
            let back: u64 = u64::MAX - delay + 1;
            back <= (i64::MAX / 1000) as u64 && now.secs >= MIN_TIMESTAMP + back as i64
        }
    }

    /// How long since arming this check-in is due at, as the nudge words it.
    pub fn elapsed_label(&self) -> (r: String)
        ensures
            r@ == delay_text(self.step),
    {
        describe_delay(self.step)
    }

    /// Whether `wake` answers the assignment this check-in was armed for.
    pub fn answered_by(&self, wake: ActionableWake) -> (r: bool)
        ensures
            r == (wake.end > self.armed_len),
    {
        wake.end > self.armed_len
    }

    /// The arm state's file body. It reads back as this check-in wherever the file can hold
    /// it: a deadline on a whole second in years 0 to 9999, and a policy it can spell.
    pub fn body(&self) -> (r: String)
        requires
            time_valid(self.deadline),
        ensures
            r@ == checkin_body(*self),
            self.deadline.nanos == 0 && FOUR_DIGIT_YEARS_START <= self.deadline.secs
                <= FOUR_DIGIT_YEARS_END && spellable(self.recheck) ==> checkin_reading(r@) == Ok::<
                Checkin,
                CheckinReadError,
            >(*self),
    {
        let mut r = owned("deadline=");
        let deadline = rfc3339_secs(self.deadline);
        proof {
            if self.deadline.nanos == 0 && FOUR_DIGIT_YEARS_START <= self.deadline.secs
                <= FOUR_DIGIT_YEARS_END && spellable(self.recheck) {
                assert forall|i: int| 0 <= i < deadline@.len() implies !is_whitespace(
                    #[trigger] deadline@[i],
                ) by {
                    assert(rfc3339_char(deadline@[i]));
                }
                lemma_body_reads_back(*self);
            }
        }
        push_str(&mut r, deadline.as_str());
        push_str(&mut r, "\ndelay=");
        push_decimal(&mut r, self.delay);
        push_str(&mut r, "\nstep=");
        push_decimal(&mut r, self.step);
        push_str(&mut r, "\nrecheck=");
        let recheck = self.recheck.spelling();
        push_str(&mut r, recheck.as_str());
        push_str(&mut r, "\narmed_len=");
        push_decimal(&mut r, self.armed_len);
        push_str(&mut r, "\n");
        r
    }
}

/// Re-arming keeps the policy and the log length, and the step grows by the new delay.
pub proof fn lemma_rearm_accumulates(c: Checkin, now: UtcTime)
    requires
        can_rearm(c, now),
    ensures
        rearmed_spec(c, now).step == c.step + rearmed_spec(c, now).delay,
        rearmed_spec(c, now).armed_len == c.armed_len,
        rearmed_spec(c, now).recheck == c.recheck,
        rearmed_spec(c, now).delay == next_delay(c.recheck, c.delay),
        rearmed_spec(c, now).deadline == fire_at(now, rearmed_spec(c, now).delay),
{
}

/// `deadline=…\ndelay=…\nstep=…\nrecheck=…\narmed_len=…\n`.
pub open spec fn checkin_body(c: Checkin) -> Seq<char> {
    "deadline="@ + rfc3339_text(c.deadline.secs as int) + "\ndelay="@ + decimal(c.delay as nat)
        + "\nstep="@ + decimal(c.step as nat) + "\nrecheck="@ + recheck_text(c.recheck)
        + "\narmed_len="@ + decimal(c.armed_len as nat) + "\n"@
}

/// Why a check-in delay or re-check policy was refused.
#[derive(Clone, Copy, Debug, PartialEq, Eq, Structural)]
pub enum DelayErrorKind {
    NotADuration,
    UnknownUnit(char),
    TooLong,
    LongerThanDay,
    NotARecheck,
}

/// A refused delay or policy, and the (trimmed) text that was refused.
#[derive(Clone, Debug)]
pub struct DelayError {
    pub kind: DelayErrorKind,
    pub value: String,
}

/// What `parse_delay` makes of a number spelled with an optional unit.
pub open spec fn is_ascii_alpha(c: char) -> bool {
    ('a' <= c <= 'z') || ('A' <= c <= 'Z')
}

/// The multiplier a unit stands for: none is minutes.
pub open spec fn unit_multiplier(unit: Option<char>) -> Option<nat> {
    match unit {
        None => Some(60),
        Some(c) => if c == 's' {
            Some(1)
        } else if c == 'm' {
            Some(60)
        } else if c == 'h' {
            Some(3600)
        } else {
            None
        },
    }
}

/// How a `--checkin` value reads: `off` or a zero is no check-in; otherwise a whole number
/// with an optional `s`, `m` or `h` (minutes when bare), at most a day.
pub open spec fn delay_reading(value: Seq<char>) -> Result<Option<u64>, DelayErrorKind> {
    let v = trim(value);
    if eq_ignore_ascii_case(v, "off"@) {
        Ok(None)
    } else {
        let unit = if v.len() > 0 && is_ascii_alpha(v.last()) {
            Some(v.last())
        } else {
            None
        };
        let digits = if unit is Some {
            v.drop_last()
        } else {
            v
        };
        match parse_u64_spec(trim(digits)) {
            None => Err(DelayErrorKind::NotADuration),
            Some(amount) => match unit_multiplier(unit) {
                None => Err(DelayErrorKind::UnknownUnit(v.last())),
                Some(m) => if amount * m > u64::MAX {
                    Err(DelayErrorKind::TooLong)
                } else if amount * m == 0 {
                    Ok(None)
                } else if amount * m > MAX_DELAY_SECS {
                    Err(DelayErrorKind::LongerThanDay)
                } else {
                    Ok(Some((amount * m) as u64))
                },
            },
        }
    }
}

/// Reads a `--checkin` value.
pub fn parse_delay(value: &str) -> (r: Result<Option<u64>, DelayError>)
    ensures
        r matches Ok(d) ==> delay_reading(value@) == Ok::<Option<u64>, DelayErrorKind>(d),
        r matches Err(e) ==> delay_reading(value@) == Err::<Option<u64>, DelayErrorKind>(e.kind)
            && e.value@ == trim(value@),
{
    let chars = chars_of(value);
    let (a, b) = trim_range(&chars, 0, chars.len());
    let ghost v = trim(value@);
    proof {
        assert(chars@.subrange(0, chars@.len() as int) =~= value@);
    }
    if range_eq_ignore_ascii_case(&chars, a, b, "off") {
        return Ok(None);
    }
    let has_unit = a < b && {
        let c = chars[b - 1];
        ('a' <= c && c <= 'z') || ('A' <= c && c <= 'Z')
    };
    let digits_end = if has_unit {
        b - 1
    } else {
        b
    };
    proof {
        if has_unit {
            assert(v.last() == chars@[b - 1]);
            assert(v.drop_last() =~= chars@.subrange(a as int, digits_end as int));
        } else {
            assert(v =~= chars@.subrange(a as int, digits_end as int));
        }
    }
    let (da, db) = trim_range(&chars, a, digits_end);
    let amount = match parse_u64_range(&chars, da, db) {
        Some(amount) => amount,
        None => {
            return Err(DelayError { kind: DelayErrorKind::NotADuration, value: string_of_range(&chars, a, b) });
        },
    };
    let multiplier: u64 = if !has_unit {
        60
    } else {
        let c = chars[b - 1];
        if c == 's' {
            1
        } else if c == 'm' {
            60
        } else if c == 'h' {
            3600
        } else {
            return Err(
                DelayError { kind: DelayErrorKind::UnknownUnit(c), value: string_of_range(&chars, a, b) },
            );
        }
    };
    if amount > 0 && multiplier > u64::MAX / amount {
        proof {
            assert(amount * multiplier > u64::MAX) by (nonlinear_arith)
                requires
                    amount > 0,
                    multiplier > u64::MAX / amount,
            ;
        }
        return Err(DelayError { kind: DelayErrorKind::TooLong, value: string_of_range(&chars, a, b) });
    }
    proof {
        if amount > 0 {
            assert(amount * multiplier <= u64::MAX) by (nonlinear_arith)
                requires
                    amount > 0,
                    multiplier <= u64::MAX / amount,
            ;
        }
    }
    let seconds = amount * multiplier;
    if seconds == 0 {
        return Ok(None);
    }
    if seconds > MAX_DELAY_SECS {
        return Err(
            DelayError { kind: DelayErrorKind::LongerThanDay, value: string_of_range(&chars, a, b) },
        );
    }
    Ok(Some(seconds))
}

/// How a `recheck` value reads: `backoff` in any case, or a delay to re-arm flat.
pub open spec fn recheck_reading(value: Seq<char>) -> Result<Recheck, DelayErrorKind> {
    if eq_ignore_ascii_case(trim(value), "backoff"@) {
        Ok(Recheck::Backoff)
    } else {
        match delay_reading(trim(value)) {
            Ok(Some(d)) => Ok(Recheck::Fixed(d)),
            Ok(None) => Err(DelayErrorKind::NotARecheck),
            Err(e) => Err(e),
        }
    }
}

/// Reads a `recheck` value.
pub fn parse_recheck(value: &str) -> (r: Result<Recheck, DelayError>)
    ensures
        r matches Ok(p) ==> recheck_reading(value@) == Ok::<Recheck, DelayErrorKind>(p),
        r matches Err(e) ==> recheck_reading(value@) == Err::<Recheck, DelayErrorKind>(e.kind)
            && e.value@ == trim(value@),
{
    let chars = chars_of(value);
    let (a, b) = trim_range(&chars, 0, chars.len());
    proof {
        assert(chars@.subrange(0, chars@.len() as int) =~= value@);
        crate::text::lemma_trim_idempotent(value@);
    }
    let trimmed = string_of_range(&chars, a, b);
    if range_eq_ignore_ascii_case(&chars, a, b, "backoff") {
        return Ok(Recheck::Backoff);
    }
    match parse_delay(trimmed.as_str()) {
        Ok(Some(delay)) => Ok(Recheck::Fixed(delay)),
        Ok(None) => Err(DelayError { kind: DelayErrorKind::NotARecheck, value: trimmed }),
        Err(e) => Err(e),
    }
}

/// The message a refused delay or policy is reported with.
pub open spec fn delay_error_text(kind: DelayErrorKind, value: Seq<char>) -> Seq<char> {
    match kind {
        DelayErrorKind::NotADuration => "check-in delay `"@ + value
            + "` is not a duration; use 90s, 5m, 1h, a bare number of minutes, or 0/off"@,
        DelayErrorKind::UnknownUnit(c) => "check-in delay `"@ + value + "` uses unknown unit `"@
            + seq![c] + "`; use s, m or h"@,
        DelayErrorKind::TooLong => "check-in delay `"@ + value + "` is too long"@,
        DelayErrorKind::LongerThanDay => "check-in delay `"@ + value + "` is longer than 24h"@,
        DelayErrorKind::NotARecheck => "re-check policy `"@ + value
            + "` is not `backoff` or a delay; use backoff, 10m, 1h, or a bare number of minutes"@,
    }
}

impl DelayError {
    pub fn message(&self) -> (r: String)
        ensures
            r@ == delay_error_text(self.kind, self.value@),
    {
        let v = self.value.as_str();
        match self.kind {
            DelayErrorKind::NotADuration => {
                let mut r = owned("check-in delay `");
                push_str(&mut r, v);
                push_str(
                    &mut r,
                    "` is not a duration; use 90s, 5m, 1h, a bare number of minutes, or 0/off",
                );
                r
            },
            DelayErrorKind::UnknownUnit(c) => {
                let mut r = owned("check-in delay `");
                push_str(&mut r, v);
                push_str(&mut r, "` uses unknown unit `");
                push_char(&mut r, c);
                push_str(&mut r, "`; use s, m or h");
                r
            },
            DelayErrorKind::TooLong => {
                let mut r = owned("check-in delay `");
                push_str(&mut r, v);
                push_str(&mut r, "` is too long");
                r
            },
            DelayErrorKind::LongerThanDay => {
                let mut r = owned("check-in delay `");
                push_str(&mut r, v);
                push_str(&mut r, "` is longer than 24h");
                r
            },
            DelayErrorKind::NotARecheck => {
                let mut r = owned("re-check policy `");
                push_str(&mut r, v);
                push_str(
                    &mut r,
                    "` is not `backoff` or a delay; use backoff, 10m, 1h, or a bare number of minutes",
                );
                r
            },
        }
    }
}

/// The two workspace-manifest keys that shape a check-in.
#[derive(Clone, Debug)]
pub struct CadenceSettings {
    pub checkin: Option<String>,
    pub recheck: Option<String>,
}

/// Why the cadence a dispatch asked for was refused.
#[derive(Clone, Debug)]
pub enum CadenceError {
    /// The `--checkin` flag.
    Flag(DelayError),
    /// The manifest's `checkin`.
    ManifestCheckin { error: DelayError, manifest_path: String },
    /// The manifest's `recheck`.
    ManifestRecheck { error: DelayError, manifest_path: String },
}

/// Which value a cadence error came from, and why it was refused.
#[derive(Clone, Copy, Debug, PartialEq, Eq, Structural)]
pub enum CadenceFault {
    Flag(DelayErrorKind),
    ManifestCheckin(DelayErrorKind),
    ManifestRecheck(DelayErrorKind),
}

pub open spec fn cadence_fault(e: CadenceError) -> CadenceFault {
    match e {
        CadenceError::Flag(d) => CadenceFault::Flag(d.kind),
        CadenceError::ManifestCheckin { error, .. } => CadenceFault::ManifestCheckin(error.kind),
        CadenceError::ManifestRecheck { error, .. } => CadenceFault::ManifestRecheck(error.kind),
    }
}

/// The cadence a dispatch arms with: the flag, else the manifest's `checkin`, else five
/// minutes; the manifest's `recheck` policy, else backoff. The first refused value wins.
pub open spec fn cadence_reading(
    flag: Option<Seq<char>>,
    checkin: Option<Seq<char>>,
    recheck: Option<Seq<char>>,
) -> Result<Cadence, CadenceFault> {
    let delay: Result<Option<u64>, CadenceFault> = match flag {
        Some(f) => match delay_reading(f) {
            Ok(d) => Ok(d),
            Err(k) => Err(CadenceFault::Flag(k)),
        },
        None => match checkin {
            Some(v) => match delay_reading(v) {
                Ok(d) => Ok(d),
                Err(k) => Err(CadenceFault::ManifestCheckin(k)),
            },
            None => Ok(Some(DEFAULT_DELAY_SECS)),
        },
    };
    match delay {
        Err(f) => Err(f),
        Ok(d) => match recheck {
            Some(v) => match recheck_reading(v) {
                Ok(p) => Ok(Cadence { delay: d, recheck: p }),
                Err(k) => Err(CadenceFault::ManifestRecheck(k)),
            },
            None => Ok(Cadence { delay: d, recheck: Recheck::Backoff }),
        },
    }
}

pub open spec fn opt_view(s: Option<String>) -> Option<Seq<char>> {
    match s {
        Some(v) => Some(v@),
        None => None,
    }
}

pub open spec fn opt_str_view(s: Option<&str>) -> Option<Seq<char>> {
    match s {
        Some(v) => Some(v@),
        None => None,
    }
}

/// The cadence a dispatch arms with, from the `--checkin` flag and the workspace manifest.
pub fn resolve_cadence(
    flag: Option<&str>,
    manifest: Option<&CadenceSettings>,
    manifest_path: &str,
) -> (r: Result<Cadence, CadenceError>)
    ensures
        r matches Ok(c) ==> cadence_reading(
            opt_str_view(flag),
            match manifest {
                Some(m) => opt_view(m.checkin),
                None => None,
            },
            match manifest {
                Some(m) => opt_view(m.recheck),
                None => None,
            },
        ) == Ok::<Cadence, CadenceFault>(c),
        r matches Err(e) ==> cadence_reading(
            opt_str_view(flag),
            match manifest {
                Some(m) => opt_view(m.checkin),
                None => None,
            },
            match manifest {
                Some(m) => opt_view(m.recheck),
                None => None,
            },
        ) == Err::<Cadence, CadenceFault>(cadence_fault(e)),
        r matches Err(CadenceError::ManifestCheckin { manifest_path: p, .. }) ==> p@
            == manifest_path@,
        r matches Err(CadenceError::ManifestRecheck { manifest_path: p, .. }) ==> p@
            == manifest_path@,
{
    let delay = match flag {
        Some(value) => match parse_delay(value) {
            Ok(d) => d,
            Err(e) => {
                return Err(CadenceError::Flag(e));
            },
        },
        None => {
            let checkin = match manifest {
                Some(m) => match &m.checkin {
                    Some(v) => Some(v.as_str()),
                    None => None,
                },
                None => None,
            };
            match checkin {
                Some(value) => match parse_delay(value) {
                    Ok(d) => d,
                    Err(e) => {
                        return Err(
                            CadenceError::ManifestCheckin {
                                error: e,
                                manifest_path: owned(manifest_path),
                            },
                        );
                    },
                },
                None => Some(DEFAULT_DELAY_SECS),
            }
        },
    };
    let recheck_value = match manifest {
        Some(m) => match &m.recheck {
            Some(v) => Some(v.as_str()),
            None => None,
        },
        None => None,
    };
    let recheck = match recheck_value {
        Some(value) => match parse_recheck(value) {
            Ok(p) => p,
            Err(e) => {
                return Err(
                    CadenceError::ManifestRecheck { error: e, manifest_path: owned(manifest_path) },
                );
            },
        },
        None => Recheck::Backoff,
    };
    Ok(Cadence { delay, recheck })
}

impl CadenceError {
    /// The error as `{:#}` prints it: the manifest context, then the refusal.
    pub fn message(&self) -> (r: String)
        ensures
            r@ == match self {
                CadenceError::Flag(e) => delay_error_text(e.kind, e.value@),
                CadenceError::ManifestCheckin { error, manifest_path } =>
                    "invalid `checkin` in workspace manifest "@ + manifest_path@ + ": "@
                    + delay_error_text(error.kind, error.value@),
                CadenceError::ManifestRecheck { error, manifest_path } =>
                    "invalid `recheck` in workspace manifest "@ + manifest_path@ + ": "@
                    + delay_error_text(error.kind, error.value@),
            },
    {
        match self {
            CadenceError::Flag(e) => e.message(),
            CadenceError::ManifestCheckin { error, manifest_path } => {
                let mut r = owned("invalid `checkin` in workspace manifest ");
                push_str(&mut r, manifest_path.as_str());
                push_str(&mut r, ": ");
                let inner = error.message();
                push_str(&mut r, inner.as_str());
                r
            },
            CadenceError::ManifestRecheck { error, manifest_path } => {
                let mut r = owned("invalid `recheck` in workspace manifest ");
                push_str(&mut r, manifest_path.as_str());
                push_str(&mut r, ": ");
                let inner = error.message();
                push_str(&mut r, inner.as_str());
                r
            },
        }
    }
}

/// Why an arm-state file could not be read.
#[derive(Clone, Copy, Debug, PartialEq, Eq, Structural)]
pub enum CheckinReadError {
    InvalidDeadline,
    InvalidDelay,
    InvalidStep,
    InvalidRecheck,
    InvalidLogLength,
    Incomplete,
}

/// The keys read so far from an arm-state file.
#[derive(Clone, Copy, Debug, PartialEq, Eq, Structural)]
pub struct CheckinFields {
    pub deadline: Option<UtcTime>,
    pub delay: Option<u64>,
    pub step: Option<u64>,
    pub recheck: Option<Recheck>,
    pub armed_len: Option<u64>,
}

pub open spec fn no_fields() -> CheckinFields {
    CheckinFields { deadline: None, delay: None, step: None, recheck: None, armed_len: None }
}

/// One line of the file: `key=value` after trimming, the value trimmed too. A line with no
/// `=`, or a key the file does not use, changes nothing; a known key with a value that does not
/// read is an error; a later line wins over an earlier one.
pub open spec fn absorb_line(f: CheckinFields, line: Seq<char>) -> Result<
    CheckinFields,
    CheckinReadError,
> {
    let t = trim(line);
    match find_first(t, '=') {
        None => Ok(f),
        Some(i) => {
            let key = t.take(i);
            let value = trim(t.skip(i + 1));
            if key == "deadline"@ {
                match rfc3339_reading(value) {
                    Some(d) => Ok(CheckinFields { deadline: Some(d), ..f }),
                    None => Err(CheckinReadError::InvalidDeadline),
                }
            } else if key == "delay"@ {
                match parse_u64_spec(value) {
                    Some(d) => Ok(CheckinFields { delay: Some(d), ..f }),
                    None => Err(CheckinReadError::InvalidDelay),
                }
            } else if key == "step"@ {
                match parse_u64_spec(value) {
                    Some(d) => Ok(CheckinFields { step: Some(d), ..f }),
                    None => Err(CheckinReadError::InvalidStep),
                }
            } else if key == "recheck"@ {
                match recheck_reading(value) {
                    Ok(p) => Ok(CheckinFields { recheck: Some(p), ..f }),
                    Err(_) => Err(CheckinReadError::InvalidRecheck),
                }
            } else if key == "armed_len"@ {
                match parse_u64_spec(value) {
                    Some(d) => Ok(CheckinFields { armed_len: Some(d), ..f }),
                    None => Err(CheckinReadError::InvalidLogLength),
                }
            } else {
                Ok(f)
            }
        },
    }
}

/// The lines of the file, in order, stopping at the first error.
pub open spec fn absorb_lines(f: CheckinFields, lines: Seq<Seq<char>>) -> Result<
    CheckinFields,
    CheckinReadError,
>
    decreases lines.len(),
{
    if lines.len() == 0 {
        Ok(f)
    } else {
        match absorb_line(f, lines[0]) {
            Err(e) => Err(e),
            Ok(g) => absorb_lines(g, lines.drop_first()),
        }
    }
}

/// What an arm-state file body reads as: every key present, or `Incomplete`.
pub open spec fn checkin_reading(body: Seq<char>) -> Result<Checkin, CheckinReadError> {
    match absorb_lines(no_fields(), lines_of(body)) {
        Err(e) => Err(e),
        Ok(f) => match (f.deadline, f.delay, f.step, f.recheck, f.armed_len) {
            (Some(deadline), Some(delay), Some(step), Some(recheck), Some(armed_len)) => Ok(
                Checkin { deadline, delay, step, recheck, armed_len },
            ),
            _ => Err(CheckinReadError::Incomplete),
        },
    }
}

fn absorb_line_exec(f: CheckinFields, line: &str) -> (r: Result<CheckinFields, CheckinReadError>)
    ensures
        r == absorb_line(f, line@),
{
    let chars = chars_of(line);
    let (a, b) = trim_range(&chars, 0, chars.len());
    let ghost t = trim(line@);
    proof {
        assert(chars@.subrange(0, chars@.len() as int) =~= line@);
    }
    let trimmed = string_of_range(&chars, a, b);
    let tc = chars_of(trimmed.as_str());
    let eq = match index_of(&tc, '=') {
        Some(i) => i,
        None => {
            return Ok(f);
        },
    };
    let key = string_of_range(&tc, 0, eq);
    let (va, vb) = trim_range(&tc, eq + 1, tc.len());
    let value = string_of_range(&tc, va, vb);
    proof {
        assert(tc@.subrange(0, eq as int) =~= t.take(eq as int));
        assert(tc@.subrange(eq + 1, tc@.len() as int) =~= t.skip(eq + 1));
    }
    let k = key.as_str();
    let v = value.as_str();
    if crate::text::str_eq(k, "deadline") {
        match parse_rfc3339(v) {
            Some(d) => Ok(CheckinFields { deadline: Some(d), ..f }),
            None => Err(CheckinReadError::InvalidDeadline),
        }
    } else if crate::text::str_eq(k, "delay") {
        let vc = chars_of(v);
        proof {
            assert(vc@.subrange(0, vc@.len() as int) =~= v@);
        }
        match parse_u64_range(&vc, 0, vc.len()) {
            Some(d) => Ok(CheckinFields { delay: Some(d), ..f }),
            None => Err(CheckinReadError::InvalidDelay),
        }
    } else if crate::text::str_eq(k, "step") {
        let vc = chars_of(v);
        proof {
            assert(vc@.subrange(0, vc@.len() as int) =~= v@);
        }
        match parse_u64_range(&vc, 0, vc.len()) {
            Some(d) => Ok(CheckinFields { step: Some(d), ..f }),
            None => Err(CheckinReadError::InvalidStep),
        }
    } else if crate::text::str_eq(k, "recheck") {
        match parse_recheck(v) {
            Ok(p) => Ok(CheckinFields { recheck: Some(p), ..f }),
            Err(_) => Err(CheckinReadError::InvalidRecheck),
        }
    } else if crate::text::str_eq(k, "armed_len") {
        let vc = chars_of(v);
        proof {
            assert(vc@.subrange(0, vc@.len() as int) =~= v@);
        }
        match parse_u64_range(&vc, 0, vc.len()) {
            Some(d) => Ok(CheckinFields { armed_len: Some(d), ..f }),
            None => Err(CheckinReadError::InvalidLogLength),
        }
    } else {
        Ok(f)
    }
}

/// Reads an arm-state file body.
pub fn parse_checkin(body: &str) -> (r: Result<Checkin, CheckinReadError>)
    ensures
        r == checkin_reading(body@),
{
    let chars = chars_of(body);
    let lines = lines_of_chars(&chars);
    let ghost views = lines@.map_values(|l: String| l@);
    let mut fields = CheckinFields {
        deadline: None,
        delay: None,
        step: None,
        recheck: None,
        armed_len: None,
    };
    let mut i: usize = 0;
    proof {
        assert(views.skip(0) =~= views);
    }
    while i < lines.len()
        invariant
            i <= lines@.len(),
            views == lines@.map_values(|l: String| l@),
            views == lines_of(body@),
            absorb_lines(fields, views.skip(i as int)) == absorb_lines(no_fields(), views),
        decreases lines.len() - i,
    {
        proof {
            assert(views.skip(i as int)[0] == lines@[i as int]@);
            assert(views.skip(i as int).drop_first() =~= views.skip(i + 1));
        }
        match absorb_line_exec(fields, lines[i].as_str()) {
            Ok(g) => {
                fields = g;
            },
            Err(e) => {
                return Err(e);
            },
        }
        i += 1;
    }
    proof {
        assert(views.skip(i as int) =~= Seq::<Seq<char>>::empty());
    }
    match (fields.deadline, fields.delay, fields.step, fields.recheck, fields.armed_len) {
        (Some(deadline), Some(delay), Some(step), Some(recheck), Some(armed_len)) => Ok(
            Checkin { deadline, delay, step, recheck, armed_len },
        ),
        _ => Err(CheckinReadError::Incomplete),
    }
}

impl CheckinReadError {
    /// The error as it is reported, naming the file.
    pub fn message(&self, path: &str) -> (r: String)
        ensures
            r@ == checkin_read_error_text(*self, path@),
    {
        let mut r = String::new();
        match self {
            CheckinReadError::InvalidDeadline => push_str(&mut r, "invalid check-in deadline in "),
            CheckinReadError::InvalidDelay => push_str(&mut r, "invalid check-in delay in "),
            CheckinReadError::InvalidStep => push_str(&mut r, "invalid check-in step in "),
            CheckinReadError::InvalidRecheck => push_str(&mut r, "invalid check-in re-check in "),
            CheckinReadError::InvalidLogLength => push_str(
                &mut r,
                "invalid check-in log length in ",
            ),
            CheckinReadError::Incomplete => push_str(&mut r, "check-in file "),
        }
        push_str(&mut r, path);
        if matches!(self, CheckinReadError::Incomplete) {
            push_str(&mut r, " is incomplete; `niles quiet` clears it");
        }
        r
    }
}

pub open spec fn checkin_read_error_text(e: CheckinReadError, path: Seq<char>) -> Seq<char> {
    match e {
        CheckinReadError::InvalidDeadline => "invalid check-in deadline in "@ + path,
        CheckinReadError::InvalidDelay => "invalid check-in delay in "@ + path,
        CheckinReadError::InvalidStep => "invalid check-in step in "@ + path,
        CheckinReadError::InvalidRecheck => "invalid check-in re-check in "@ + path,
        CheckinReadError::InvalidLogLength => "invalid check-in log length in "@ + path,
        CheckinReadError::Incomplete => "check-in file "@ + path
            + " is incomplete; `niles quiet` clears it"@,
    }
}

/// No whitespace anywhere in `s`, so `str::trim` leaves it as it is.
pub open spec fn unspaced(s: Seq<char>) -> bool {
    forall|i: int| 0 <= i < s.len() ==> !is_whitespace(#[trigger] s[i])
}

pub proof fn lemma_trim_unspaced(s: Seq<char>)
    requires
        unspaced(s),
    ensures
        trim(s) == s,
{
    if s.len() > 0 {
        assert(!is_whitespace(s[0]));
        assert(trim_start(s) == s);
        assert(!is_whitespace(s.last()));
    }
}

/// A line with no line break in it reads as one line of a text.
pub proof fn lemma_lines_cons(line: Seq<char>, rest: Seq<char>)
    requires
        unspaced(line),
    ensures
        lines_of(line + "\n"@ + rest) == seq![line] + lines_of(rest),
{
    reveal_strlit("\n");
    let s = line + "\n"@ + rest;
    let i = line.len() as int;
    assert(s[i] == '\n');
    assert forall|j: int| 0 <= j < i implies s[j] != '\n' by {
        assert(s[j] == line[j]);
        assert(!is_whitespace(line[j]));
    }
    assert(is_first_index(s, '\n', i));
    lemma_find_first(s, '\n');
    assert(s.take(i) =~= line);
    if line.len() > 0 {
        assert(!is_whitespace(line.last()));
    }
    assert(strip_cr(line) == line);
    assert(s.skip(i + 1) =~= rest);
}

/// `key=value` with no whitespace, the key free of `=`: the arm-state reader finds this key
/// and this value in it.
pub proof fn lemma_field_line(key: Seq<char>, value: Seq<char>)
    requires
        unspaced(key),
        unspaced(value),
        forall|i: int| 0 <= i < key.len() ==> key[i] != '=',
    ensures
        unspaced(key + "="@ + value),
        trim(key + "="@ + value) == key + "="@ + value,
        find_first(key + "="@ + value, '=') == Some(key.len() as int),
        (key + "="@ + value).take(key.len() as int) == key,
        trim((key + "="@ + value).skip(key.len() as int + 1)) == value,
{
    reveal_strlit("=");
    let line = key + "="@ + value;
    assert(unspaced(line)) by {
        assert forall|i: int| 0 <= i < line.len() implies !is_whitespace(#[trigger] line[i]) by {
            if i < key.len() {
                assert(line[i] == key[i]);
            } else if i > key.len() {
                assert(line[i] == value[i - key.len() - 1]);
            }
        }
    }
    lemma_trim_unspaced(line);
    let k = key.len() as int;
    assert forall|j: int| 0 <= j < k implies line[j] != '=' by {
        assert(line[j] == key[j]);
    }
    assert(is_first_index(line, '=', k));
    lemma_find_first(line, '=');
    assert(line.take(k) =~= key);
    assert(line.skip(k + 1) =~= value);
    lemma_trim_unspaced(value);
}

/// A policy the arm state can spell and read back: backoff, or a delay `--checkin` accepts.
pub open spec fn spellable(recheck: Recheck) -> bool {
    match recheck {
        Recheck::Backoff => true,
        Recheck::Fixed(d) => 0 < d <= MAX_DELAY_SECS,
    }
}

/// A whole number followed by a unit letter has no whitespace and does not spell a word.
proof fn lemma_amount_text(q: nat, unit: char)
    requires
        unit == 'h' || unit == 'm' || unit == 's',
    ensures
        unspaced(decimal(q) + seq![unit]),
        (decimal(q) + seq![unit]).drop_last() == decimal(q),
        (decimal(q) + seq![unit]).last() == unit,
        is_digit((decimal(q) + seq![unit])[0]),
{
    lemma_decimal_reads_back(q);
    let t = decimal(q) + seq![unit];
    assert forall|i: int| 0 <= i < t.len() implies !is_whitespace(#[trigger] t[i]) by {
        if i < decimal(q).len() {
            assert(t[i] == decimal(q)[i]);
            assert(is_digit(decimal(q)[i]));
        }
    }
    assert(t.drop_last() =~= decimal(q));
    assert(t[0] == decimal(q)[0]);
}

/// The arm state reads a policy back as it was spelled.
pub proof fn lemma_recheck_round_trip(recheck: Recheck)
    requires
        spellable(recheck),
    ensures
        unspaced(recheck_text(recheck)),
        recheck_reading(recheck_text(recheck)) == Ok::<Recheck, DelayErrorKind>(recheck),
{
    reveal_strlit("backoff");
    reveal_strlit("off");
    match recheck {
        Recheck::Backoff => {
            let t = recheck_text(recheck);
            assert(unspaced(t));
            lemma_trim_unspaced(t);
            assert(eq_ignore_ascii_case(trim(t), "backoff"@));
        },
        Recheck::Fixed(d) => {
            reveal_strlit("h");
            reveal_strlit("m");
            reveal_strlit("s");
            let (q, unit, m): (nat, char, nat) = if d % 3600 == 0 {
                ((d / 3600) as nat, 'h', 3600)
            } else if d % 60 == 0 {
                ((d / 60) as nat, 'm', 60)
            } else {
                (d as nat, 's', 1)
            };
            let t = decimal(q) + seq![unit];
            assert(recheck_text(recheck) =~= t);
            lemma_amount_text(q, unit);
            lemma_trim_unspaced(t);
            lemma_decimal_reads_back(q);
            assert(crate::text::ascii_lower(t[0]) == t[0]);
            assert(!eq_ignore_ascii_case(t, "backoff"@)) by {
                if t.len() == "backoff"@.len() {
                    assert(crate::text::ascii_lower(t[0]) != crate::text::ascii_lower("backoff"@[0]));
                }
            }
            assert(!eq_ignore_ascii_case(t, "off"@)) by {
                if t.len() == "off"@.len() {
                    assert(crate::text::ascii_lower(t[0]) != crate::text::ascii_lower("off"@[0]));
                }
            }
            assert(is_ascii_alpha(t.last()));
            lemma_trim_unspaced(decimal(q));
            assert(q <= 86400);
            lemma_parse_decimal(q as u64);
            assert(unit_multiplier(Some(unit)) == Some(m));
            assert(q * m == d);
            assert(delay_reading(t) == Ok::<Option<u64>, DelayErrorKind>(Some(d)));
        },
    }
}

/// A number's decimal spelling has no whitespace.
proof fn lemma_decimal_unspaced(n: nat)
    ensures
        unspaced(decimal(n)),
        parse_u64_spec(trim(decimal(n))) == (if n <= u64::MAX {
            Some(n as u64)
        } else {
            parse_u64_spec(decimal(n))
        }),
{
    lemma_decimal_reads_back(n);
    assert forall|i: int| 0 <= i < decimal(n).len() implies !is_whitespace(#[trigger] decimal(n)[i]) by {
        assert(is_digit(decimal(n)[i]));
    }
    lemma_trim_unspaced(decimal(n));
    if n <= u64::MAX {
        lemma_parse_decimal(n as u64);
    }
}

/// The deadline line sets the deadline.
proof fn lemma_absorb_deadline(f: CheckinFields, rt: Seq<char>, d: UtcTime)
    requires
        unspaced(rt),
        rfc3339_reading(rt) == Some(d),
    ensures
        absorb_line(f, "deadline"@ + "="@ + rt) == Ok::<CheckinFields, CheckinReadError>(
            CheckinFields { deadline: Some(d), ..f },
        ),
{
    reveal_strlit("deadline");
    reveal_strlit("=");
    lemma_field_line("deadline"@, rt);
}

/// The delay line sets the delay.
proof fn lemma_absorb_delay(f: CheckinFields, n: u64)
    ensures
        absorb_line(f, "delay"@ + "="@ + decimal(n as nat)) == Ok::<CheckinFields, CheckinReadError>(
            CheckinFields { delay: Some(n), ..f },
        ),
{
    reveal_strlit("delay");
    reveal_strlit("deadline");
    reveal_strlit("=");
    lemma_decimal_unspaced(n as nat);
    lemma_field_line("delay"@, decimal(n as nat));
}

/// The step line sets the step.
proof fn lemma_absorb_step(f: CheckinFields, n: u64)
    ensures
        absorb_line(f, "step"@ + "="@ + decimal(n as nat)) == Ok::<CheckinFields, CheckinReadError>(
            CheckinFields { step: Some(n), ..f },
        ),
{
    reveal_strlit("step");
    reveal_strlit("delay");
    reveal_strlit("deadline");
    reveal_strlit("=");
    lemma_decimal_unspaced(n as nat);
    lemma_field_line("step"@, decimal(n as nat));
}

/// The recheck line sets the policy.
proof fn lemma_absorb_recheck(f: CheckinFields, p: Recheck)
    requires
        spellable(p),
    ensures
        absorb_line(f, "recheck"@ + "="@ + recheck_text(p)) == Ok::<CheckinFields, CheckinReadError>(
            CheckinFields { recheck: Some(p), ..f },
        ),
{
    reveal_strlit("recheck");
    reveal_strlit("step");
    reveal_strlit("delay");
    reveal_strlit("deadline");
    reveal_strlit("=");
    lemma_recheck_round_trip(p);
    lemma_field_line("recheck"@, recheck_text(p));
}

/// The armed_len line sets the log length.
proof fn lemma_absorb_armed_len(f: CheckinFields, n: u64)
    ensures
        absorb_line(f, "armed_len"@ + "="@ + decimal(n as nat)) == Ok::<
            CheckinFields,
            CheckinReadError,
        >(CheckinFields { armed_len: Some(n), ..f }),
{
    reveal_strlit("armed_len");
    reveal_strlit("recheck");
    reveal_strlit("step");
    reveal_strlit("delay");
    reveal_strlit("deadline");
    reveal_strlit("=");
    lemma_decimal_unspaced(n as nat);
    lemma_field_line("armed_len"@, decimal(n as nat));
}

/// The file body, regrouped as its five field lines, each ended by a newline.
#[verifier::rlimit(40)]
proof fn lemma_body_shape(c: Checkin)
    ensures
        checkin_body(c) == ("deadline"@ + "="@ + rfc3339_text(c.deadline.secs as int)) + "\n"@ + ((
        "delay"@ + "="@ + decimal(c.delay as nat)) + "\n"@ + (("step"@ + "="@ + decimal(
            c.step as nat,
        )) + "\n"@ + (("recheck"@ + "="@ + recheck_text(c.recheck)) + "\n"@ + (("armed_len"@
            + "="@ + decimal(c.armed_len as nat)) + "\n"@ + Seq::<char>::empty())))),
{
    reveal_strlit("deadline");
    reveal_strlit("delay");
    reveal_strlit("step");
    reveal_strlit("recheck");
    reveal_strlit("armed_len");
    reveal_strlit("deadline=");
    reveal_strlit("\ndelay=");
    reveal_strlit("\nstep=");
    reveal_strlit("\nrecheck=");
    reveal_strlit("\narmed_len=");
    reveal_strlit("\n");
    reveal_strlit("=");
    let nl = "\n"@;
    let l1 = "deadline"@ + "="@ + rfc3339_text(c.deadline.secs as int);
    let l2 = "delay"@ + "="@ + decimal(c.delay as nat);
    let l3 = "step"@ + "="@ + decimal(c.step as nat);
    let l4 = "recheck"@ + "="@ + recheck_text(c.recheck);
    let l5 = "armed_len"@ + "="@ + decimal(c.armed_len as nat);
    let t5 = l5 + nl + Seq::<char>::empty();
    let t4 = l4 + nl + t5;
    let t3 = l3 + nl + t4;
    let t2 = l2 + nl + t3;
    assert("\narmed_len="@ + decimal(c.armed_len as nat) + "\n"@ =~= nl + t5);
    assert("\nrecheck="@ + recheck_text(c.recheck) + (nl + t5) =~= nl + t4);
    assert("\nstep="@ + decimal(c.step as nat) + (nl + t4) =~= nl + t3);
    assert("\ndelay="@ + decimal(c.delay as nat) + (nl + t3) =~= nl + t2);
    assert("deadline="@ + rfc3339_text(c.deadline.secs as int) + (nl + t2) =~= l1 + nl + t2);
    assert(checkin_body(c) =~= l1 + nl + t2);
}

/// Five lines without whitespace, each ended by a newline, read back as those five lines.
proof fn lemma_five_lines(
    l1: Seq<char>,
    l2: Seq<char>,
    l3: Seq<char>,
    l4: Seq<char>,
    l5: Seq<char>,
)
    requires
        unspaced(l1),
        unspaced(l2),
        unspaced(l3),
        unspaced(l4),
        unspaced(l5),
    ensures
        lines_of(l1 + "\n"@ + (l2 + "\n"@ + (l3 + "\n"@ + (l4 + "\n"@ + (l5 + "\n"@
            + Seq::<char>::empty()))))) == seq![l1, l2, l3, l4, l5],
{
    let nl = "\n"@;
    let e = Seq::<char>::empty();
    lemma_lines_cons(l5, e);
    assert(lines_of(e) =~= Seq::<Seq<char>>::empty());
    assert(lines_of(l5 + nl + e) =~= seq![l5]);
    lemma_lines_cons(l4, l5 + nl + e);
    assert(lines_of(l4 + nl + (l5 + nl + e)) =~= seq![l4, l5]);
    lemma_lines_cons(l3, l4 + nl + (l5 + nl + e));
    assert(lines_of(l3 + nl + (l4 + nl + (l5 + nl + e))) =~= seq![l3, l4, l5]);
    lemma_lines_cons(l2, l3 + nl + (l4 + nl + (l5 + nl + e)));
    assert(lines_of(l2 + nl + (l3 + nl + (l4 + nl + (l5 + nl + e)))) =~= seq![l2, l3, l4, l5]);
    lemma_lines_cons(l1, l2 + nl + (l3 + nl + (l4 + nl + (l5 + nl + e))));
    assert(lines_of(l1 + nl + (l2 + nl + (l3 + nl + (l4 + nl + (l5 + nl + e)))))
        =~= seq![l1, l2, l3, l4, l5]);
}

/// The file body is its five field lines.
proof fn lemma_body_lines(c: Checkin)
    requires
        unspaced(rfc3339_text(c.deadline.secs as int)),
        spellable(c.recheck),
    ensures
        lines_of(checkin_body(c)) == seq![
            "deadline"@ + "="@ + rfc3339_text(c.deadline.secs as int),
            "delay"@ + "="@ + decimal(c.delay as nat),
            "step"@ + "="@ + decimal(c.step as nat),
            "recheck"@ + "="@ + recheck_text(c.recheck),
            "armed_len"@ + "="@ + decimal(c.armed_len as nat),
        ],
{
    lemma_body_shape(c);
    lemma_unspaced_field("deadline"@, rfc3339_text(c.deadline.secs as int));
    lemma_decimal_unspaced(c.delay as nat);
    lemma_unspaced_field("delay"@, decimal(c.delay as nat));
    lemma_decimal_unspaced(c.step as nat);
    lemma_unspaced_field("step"@, decimal(c.step as nat));
    lemma_recheck_round_trip(c.recheck);
    lemma_unspaced_field("recheck"@, recheck_text(c.recheck));
    lemma_decimal_unspaced(c.armed_len as nat);
    lemma_unspaced_field("armed_len"@, decimal(c.armed_len as nat));
    lemma_five_lines(
        "deadline"@ + "="@ + rfc3339_text(c.deadline.secs as int),
        "delay"@ + "="@ + decimal(c.delay as nat),
        "step"@ + "="@ + decimal(c.step as nat),
        "recheck"@ + "="@ + recheck_text(c.recheck),
        "armed_len"@ + "="@ + decimal(c.armed_len as nat),
    );
}

/// A field line of an unspaced key and value is unspaced.
proof fn lemma_unspaced_field(key: Seq<char>, value: Seq<char>)
    requires
        unspaced(value),
        key == "deadline"@ || key == "delay"@ || key == "step"@ || key == "recheck"@ || key
            == "armed_len"@,
    ensures
        unspaced(key + "="@ + value),
{
    reveal_strlit("deadline");
    reveal_strlit("delay");
    reveal_strlit("step");
    reveal_strlit("recheck");
    reveal_strlit("armed_len");
    reveal_strlit("=");
    let line = key + "="@ + value;
    assert forall|i: int| 0 <= i < line.len() implies !is_whitespace(#[trigger] line[i]) by {
        if i < key.len() {
            assert(line[i] == key[i]);
        } else if i > key.len() {
            assert(line[i] == value[i - key.len() - 1]);
        }
    }
}

/// A delay printed back to the lead reads as the same delay: `parse_delay` of what
/// `describe_delay` writes gives it back, for every delay a check-in can wait.
pub proof fn lemma_delay_round_trip(seconds: u64)
    requires
        0 < seconds <= MAX_DELAY_SECS,
    ensures
        delay_reading(delay_text(seconds)) == Ok::<Option<u64>, DelayErrorKind>(Some(seconds)),
{
    lemma_recheck_round_trip(Recheck::Fixed(seconds));
    lemma_trim_unspaced(delay_text(seconds));
    assert(recheck_text(Recheck::Fixed(seconds)) == delay_text(seconds));
}

/// The arm state a check-in writes reads back as that check-in, where its deadline is a whole
/// second (the file keeps whole seconds), its text reads back as that second, and its policy is
/// one the file can spell.
pub proof fn lemma_body_reads_back(c: Checkin)
    requires
        c.deadline.nanos == 0,
        unspaced(rfc3339_text(c.deadline.secs as int)),
        rfc3339_reading(rfc3339_text(c.deadline.secs as int)) == Some(c.deadline),
        spellable(c.recheck),
    ensures
        checkin_reading(checkin_body(c)) == Ok::<Checkin, CheckinReadError>(c),
{
    lemma_body_lines(c);
    let l1 = "deadline"@ + "="@ + rfc3339_text(c.deadline.secs as int);
    let l2 = "delay"@ + "="@ + decimal(c.delay as nat);
    let l3 = "step"@ + "="@ + decimal(c.step as nat);
    let l4 = "recheck"@ + "="@ + recheck_text(c.recheck);
    let l5 = "armed_len"@ + "="@ + decimal(c.armed_len as nat);
    let lines = seq![l1, l2, l3, l4, l5];
    let f0 = no_fields();
    let f1 = CheckinFields { deadline: Some(c.deadline), ..f0 };
    let f2 = CheckinFields { delay: Some(c.delay), ..f1 };
    let f3 = CheckinFields { step: Some(c.step), ..f2 };
    let f4 = CheckinFields { recheck: Some(c.recheck), ..f3 };
    let f5 = CheckinFields { armed_len: Some(c.armed_len), ..f4 };
    lemma_absorb_deadline(f0, rfc3339_text(c.deadline.secs as int), c.deadline);
    lemma_absorb_delay(f1, c.delay);
    lemma_absorb_step(f2, c.step);
    lemma_absorb_recheck(f3, c.recheck);
    lemma_absorb_armed_len(f4, c.armed_len);
    assert(lines.drop_first() =~= seq![l2, l3, l4, l5]);
    assert(seq![l2, l3, l4, l5].drop_first() =~= seq![l3, l4, l5]);
    assert(seq![l3, l4, l5].drop_first() =~= seq![l4, l5]);
    assert(seq![l4, l5].drop_first() =~= seq![l5]);
    assert(seq![l5].drop_first() =~= Seq::<Seq<char>>::empty());
    assert(seq![l5][0] == l5);
    assert(absorb_lines(f5, Seq::<Seq<char>>::empty()) == Ok::<CheckinFields, CheckinReadError>(f5));
    assert(absorb_lines(f4, seq![l5]) == Ok::<CheckinFields, CheckinReadError>(f5));
    assert(seq![l4, l5][0] == l4);
    assert(absorb_lines(f3, seq![l4, l5]) == Ok::<CheckinFields, CheckinReadError>(f5));
    assert(seq![l3, l4, l5][0] == l3);
    assert(absorb_lines(f2, seq![l3, l4, l5]) == Ok::<CheckinFields, CheckinReadError>(f5));
    assert(seq![l2, l3, l4, l5][0] == l2);
    assert(absorb_lines(f1, seq![l2, l3, l4, l5]) == Ok::<CheckinFields, CheckinReadError>(f5));
    assert(lines[0] == l1);
    assert(absorb_lines(f0, lines) == Ok::<CheckinFields, CheckinReadError>(f5));
}

} // verus!
