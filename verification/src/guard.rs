//! The waiter registration protocol: one registered waiter per status log, identified by a
//! token, kept alive by heartbeats, and taken over only once its holder has exited.
//!
//! Each step here decides on one thing the edge read or did (a registration file, a liveness
//! check, a signal) and says what to do next; the edge does it and reports back.
use vstd::prelude::*;

use crate::digits::{decimal, push_decimal};
use crate::text::{owned, push_str, str_eq};
use crate::time::{chrono_time, rfc3339_auto, rfc3339_auto_text, UtcTime};
use crate::wait::{detail, detail_spec, field, field_spec, json_string, push_json, quoted, quoted_spec};

verus! {

/// A heartbeat is stale after this long at the least, in milliseconds.
pub const MIN_STALE_HEARTBEAT_MS: u64 = 15_000;

/// The largest heartbeat interval the staleness threshold takes from a registration, in
/// milliseconds: the largest interval `wait` accepts.
pub const MAX_HEARTBEAT_INTERVAL_MS: u64 = 3_600_000;

/// How long a registration without heartbeats holds a log, in milliseconds from its start.
pub const MISSING_HEARTBEAT_MAX_AGE_MS: u64 = 3_600_000;

/// How long a holder is given to exit after SIGTERM, in milliseconds.
pub const DEFAULT_TAKEOVER_GRACE_MS: u64 = 500;

/// How often a takeover looks whether the holder has exited, in milliseconds.
pub const TAKEOVER_POLL_INTERVAL_MS: u64 = 25;

/// Exit code of a wait refused because another waiter holds the log.
pub const EXIT_WAITER_CONFLICT: u8 = 21;

/// Exit code of a wait that could not tell what state the registration is in.
pub const EXIT_INDETERMINATE: u8 = 23;

/// A waiter's registration file.
#[derive(Clone, Debug, PartialEq, Eq)]
pub struct WaiterRegistration {
    pub pid: u32,
    pub started_at: UtcTime,
    pub token: String,
    pub heartbeat_at: Option<UtcTime>,
    pub heartbeat_interval_ms: Option<u64>,
}

/// What reading a registration file found.
pub enum RegistrationRead {
    Present(WaiterRegistration),
    Missing,
    Indeterminate { detail: String },
}

/// Whether the registration on disk is still the one a token names.
pub enum RegistrationTokenCheck {
    Matches(WaiterRegistration),
    Missing,
    Changed,
    Indeterminate { detail: String },
}

/// Reads a registration: no file is missing; a file that cannot be read or parsed leaves the
/// state indeterminate, saying which and where.
pub fn registration_read(path: &str, read: Result<Option<Result<WaiterRegistration, String>>, String>) -> (r: RegistrationRead)
    ensures
        read is Ok && read->Ok_0 is None ==> r is Missing,
        read matches Ok(Some(Ok(w))) ==> r == RegistrationRead::Present(w),
        read matches Ok(Some(Err(e))) ==> (r matches RegistrationRead::Indeterminate { detail } && detail@
            == "failed to parse "@ + path@ + ": "@ + e@),
        read matches Err(e) ==> (r matches RegistrationRead::Indeterminate { detail } && detail@
            == "failed to read "@ + path@ + ": "@ + e@),
{
    match read {
        Ok(None) => RegistrationRead::Missing,
        Ok(Some(Ok(w))) => RegistrationRead::Present(w),
        Ok(Some(Err(e))) => {
            let mut d = owned("failed to parse ");
            push_str(&mut d, path);
            push_str(&mut d, ": ");
            push_str(&mut d, e.as_str());
            RegistrationRead::Indeterminate { detail: d }
        },
        Err(e) => {
            let mut d = owned("failed to read ");
            push_str(&mut d, path);
            push_str(&mut d, ": ");
            push_str(&mut d, e.as_str());
            RegistrationRead::Indeterminate { detail: d }
        },
    }
}

/// Compares the registration read with `token`.
pub fn verify_registration_token(read: RegistrationRead, token: &str) -> (r: RegistrationTokenCheck)
    ensures
        read matches RegistrationRead::Present(reg) ==> if reg.token@ == token@ {
            r == RegistrationTokenCheck::Matches(reg)
        } else {
            r is Changed
        },
        read is Missing ==> r is Missing,
        read matches RegistrationRead::Indeterminate { detail } ==> r
            == (RegistrationTokenCheck::Indeterminate { detail }),
{
    match read {
        RegistrationRead::Present(reg) => if str_eq(reg.token.as_str(), token) {
            RegistrationTokenCheck::Matches(reg)
        } else {
            RegistrationTokenCheck::Changed
        },
        RegistrationRead::Missing => RegistrationTokenCheck::Missing,
        RegistrationRead::Indeterminate { detail } => RegistrationTokenCheck::Indeterminate { detail },
    }
}

/// How a holder's heartbeat stands.
#[derive(Clone, Copy, Debug, PartialEq, Eq, Structural)]
pub enum HeartbeatState {
    Fresh,
    Missing,
    Stale,
}

impl HeartbeatState {
    pub fn as_str(self) -> (r: &'static str)
        ensures
            r@ == heartbeat_text(self),
    {
        match self {
            HeartbeatState::Fresh => "fresh",
            HeartbeatState::Missing => "missing",
            HeartbeatState::Stale => "stale",
        }
    }
}

pub open spec fn heartbeat_text(h: HeartbeatState) -> Seq<char> {
    match h {
        HeartbeatState::Fresh => "fresh"@,
        HeartbeatState::Missing => "missing"@,
        HeartbeatState::Stale => "stale"@,
    }
}

/// `value` as an `i64`, or `i64::MAX` where it does not fit.
pub fn u64_to_i64_saturating(value: u64) -> (r: i64)
    ensures
        r == if value > i64::MAX {
            i64::MAX as int
        } else {
            value as int
        },
{
    if value > i64::MAX as u64 {
        i64::MAX
    } else {
        value as i64
    }
}

/// `value` as a `u64`, or `u64::MAX` where it does not fit.
pub fn u128_to_u64_saturating(value: u128) -> (r: u64)
    ensures
        r == if value > u64::MAX {
            u64::MAX as int
        } else {
            value as int
        },
{
    if value > u64::MAX as u128 {
        u64::MAX
    } else {
        value as u64
    }
}

/// Milliseconds from `a` to `b`, truncated toward zero, as `TimeDelta::num_milliseconds`.
pub open spec fn millis_since(b: UtcTime, a: UtcTime) -> int {
    let d = (b.secs - a.secs) * 1_000_000_000 + (b.nanos - a.nanos);
    if d < 0 {
        -((-d) / 1_000_000)
    } else {
        d / 1_000_000
    }
}

/// The staleness threshold: three heartbeat intervals, the interval clamped first so an absurd
/// one cannot push the threshold out of reach, and never under the minimum.
pub open spec fn stale_threshold(interval_ms: u64) -> int {
    let clamped = if interval_ms < MAX_HEARTBEAT_INTERVAL_MS {
        interval_ms as int
    } else {
        MAX_HEARTBEAT_INTERVAL_MS as int
    };
    if clamped * 3 < MIN_STALE_HEARTBEAT_MS {
        MIN_STALE_HEARTBEAT_MS as int
    } else {
        clamped * 3
    }
}

/// A registration whose last heartbeat is older than the threshold is stale. One without
/// heartbeat fields predates heartbeats: it is missing one until it has outlived
/// `MISSING_HEARTBEAT_MAX_AGE_MS` since it started, and stale after.
pub open spec fn heartbeat_spec(waiter: WaiterRegistration, now: UtcTime) -> HeartbeatState {
    match (waiter.heartbeat_at, waiter.heartbeat_interval_ms) {
        (Some(at), Some(interval)) => if millis_since(now, at) > stale_threshold(interval) {
            HeartbeatState::Stale
        } else {
            HeartbeatState::Fresh
        },
        _ => if millis_since(now, waiter.started_at) > MISSING_HEARTBEAT_MAX_AGE_MS {
            HeartbeatState::Stale
        } else {
            HeartbeatState::Missing
        },
    }
}

/// Milliseconds from `at` to `now`, truncated toward zero.
fn millis_between(at: UtcTime, now: UtcTime) -> (r: i128)
    requires
        chrono_time(now),
        chrono_time(at),
    ensures
        r == millis_since(now, at),
{
    let d: i128 = (now.secs as i128 - at.secs as i128) * 1_000_000_000i128 + (now.nanos as i128
        - at.nanos as i128);
    if d < 0 {
        -((-d) / 1_000_000i128)
    } else {
        d / 1_000_000i128
    }
}

pub fn heartbeat_state(waiter: &WaiterRegistration, now: UtcTime) -> (r: HeartbeatState)
    requires
        chrono_time(now),
        chrono_time(waiter.started_at),
        waiter.heartbeat_at matches Some(t) ==> chrono_time(t),
    ensures
        r == heartbeat_spec(*waiter, now),
{
    match (waiter.heartbeat_at, waiter.heartbeat_interval_ms) {
        (Some(at), Some(interval)) => {
            let clamped = if interval < MAX_HEARTBEAT_INTERVAL_MS {
                interval
            } else {
                MAX_HEARTBEAT_INTERVAL_MS
            };
            let threshold = if clamped * 3 < MIN_STALE_HEARTBEAT_MS {
                MIN_STALE_HEARTBEAT_MS
            } else {
                clamped * 3
            };
            if millis_between(at, now) > threshold as i128 {
                HeartbeatState::Stale
            } else {
                HeartbeatState::Fresh
            }
        },
        _ => {
            if millis_between(waiter.started_at, now) > MISSING_HEARTBEAT_MAX_AGE_MS as i128 {
                HeartbeatState::Stale
            } else {
                HeartbeatState::Missing
            }
        },
    }
}

/// Why a recorded pid cannot belong to a live holder: pid 0 would signal this process's whole
/// group, and this process's own pid is a recycled leftover. `None` where the pid is usable.
pub fn invalid_pid_reason(pid: u32, own_pid: u32) -> (r: Option<&'static str>)
    ensures
        pid == 0 ==> (r matches Some(s) && s@ == "pid-zero"@),
        pid != 0 && pid == own_pid ==> (r matches Some(s) && s@ == "pid-self"@),
        pid != 0 && pid != own_pid ==> r is None,
{
    if pid == 0 {
        Some("pid-zero")
    } else if pid == own_pid {
        Some("pid-self")
    } else {
        None
    }
}

/// The log and registration a wait is about.
pub struct WaitContext {
    pub worker_id: Option<String>,
    pub status: String,
    pub waiter: String,
}

/// Another waiter holds the log and was not taken over.
pub struct WaiterConflict {
    pub worker_id: Option<String>,
    pub status: String,
    pub waiter: String,
    pub holder_pid: u32,
    pub holder_since: UtcTime,
    pub heartbeat: HeartbeatState,
}

/// The wait could not tell what state the registration is in.
pub struct WaitIndeterminate {
    pub worker_id: Option<String>,
    pub status: Option<String>,
    pub waiter: Option<String>,
    pub detail: String,
}

/// A takeover that did not complete.
pub struct WaiterTakeoverFailed {
    pub worker_id: Option<String>,
    pub status: String,
    pub waiter: String,
    pub holder_pid: u32,
    pub holder_since: UtcTime,
    pub detail: String,
}

/// How registering ended other than by attaching.
pub enum GuardOutcome {
    Conflict(WaiterConflict),
    Indeterminate(WaitIndeterminate),
    TakeoverFailed(WaiterTakeoverFailed),
}

fn copy_opt(s: &Option<String>) -> (r: Option<String>)
    ensures
        r == *s,
{
    match s {
        Some(v) => Some(v.clone()),
        None => None,
    }
}

/// An indeterminate outcome about the context's log and registration.
pub fn indeterminate(ctx: &WaitContext, detail: String) -> (r: GuardOutcome)
    ensures
        r matches GuardOutcome::Indeterminate(i) && i.worker_id == ctx.worker_id && i.status == Some(
            ctx.status,
        ) && i.waiter == Some(ctx.waiter) && i.detail == detail,
{
    GuardOutcome::Indeterminate(
        WaitIndeterminate {
            worker_id: copy_opt(&ctx.worker_id),
            status: Some(ctx.status.clone()),
            waiter: Some(ctx.waiter.clone()),
            detail,
        },
    )
}

/// A failed takeover of `waiter`.
pub fn takeover_failed(ctx: &WaitContext, waiter: &WaiterRegistration, detail: String) -> (r: GuardOutcome)
    ensures
        r matches GuardOutcome::TakeoverFailed(f) && f.worker_id == ctx.worker_id && f.status
            == ctx.status && f.waiter == ctx.waiter && f.holder_pid == waiter.pid && f.holder_since
            == waiter.started_at && f.detail == detail,
{
    GuardOutcome::TakeoverFailed(
        WaiterTakeoverFailed {
            worker_id: copy_opt(&ctx.worker_id),
            status: ctx.status.clone(),
            waiter: ctx.waiter.clone(),
            holder_pid: waiter.pid,
            holder_since: waiter.started_at,
            detail,
        },
    )
}

/// What a waiter does about a registration that is already there.
pub enum ResolveStep {
    /// Try to register again.
    Retry,
    /// Log that the registration was reclaimed for `reason`, remove it, and try again.
    Reclaim { reason: &'static str },
    /// Take the live holder over.
    Takeover,
    /// Stop with this outcome.
    Outcome(GuardOutcome),
}

/// The registration that is in the way: a missing one means try again; one that cannot be
/// read stops the wait.
pub fn resolve_existing_waiter(ctx: &WaitContext, read: RegistrationRead) -> (r: Result<WaiterRegistration, ResolveStep>)
    ensures
        read matches RegistrationRead::Present(w) ==> r == Ok::<WaiterRegistration, ResolveStep>(w),
        read is Missing ==> (r matches Err(s) && s is Retry),
        read matches RegistrationRead::Indeterminate { detail } ==> (r matches Err(
            ResolveStep::Outcome(GuardOutcome::Indeterminate(i)),
        ) && i.detail == detail && i.status == Some(ctx.status) && i.waiter == Some(ctx.waiter)
            && i.worker_id == ctx.worker_id),
{
    match read {
        RegistrationRead::Present(w) => Ok(w),
        RegistrationRead::Missing => Err(ResolveStep::Retry),
        RegistrationRead::Indeterminate { detail } => Err(ResolveStep::Outcome(indeterminate(ctx, detail))),
    }
}

pub open spec fn running_failed_text(pid: u32, e: Seq<char>) -> Seq<char> {
    "failed to determine whether waiter pid "@ + decimal(pid as nat) + " is running: "@ + e
}

/// The holder, once it is known whether its process runs: a dead holder or a stale heartbeat
/// is reclaimed; a live one is taken over when asked, and otherwise is a conflict.
pub fn resolve_live_waiter(
    ctx: &WaitContext,
    waiter: &WaiterRegistration,
    own_pid: u32,
    running: Result<bool, String>,
    now: UtcTime,
    takeover: bool,
) -> (r: ResolveStep)
    requires
        chrono_time(now),
        chrono_time(waiter.started_at),
        waiter.heartbeat_at matches Some(t) ==> chrono_time(t),
    ensures
        waiter.pid == 0 ==> (r matches ResolveStep::Reclaim { reason } && reason@ == "pid-zero"@),
        waiter.pid != 0 && waiter.pid == own_pid ==> (r matches ResolveStep::Reclaim { reason }
            && reason@ == "pid-self"@),
        waiter.pid != 0 && waiter.pid != own_pid && running == Ok::<bool, String>(false) ==> (r matches ResolveStep::Reclaim { reason } && reason@
            == "pid-dead"@),
        waiter.pid != 0 && waiter.pid != own_pid ==> (running matches Err(e) ==> (r matches ResolveStep::Outcome(GuardOutcome::Indeterminate(i))
            && i.detail@ == running_failed_text(waiter.pid, e@))),
        waiter.pid != 0 && waiter.pid != own_pid && running == Ok::<bool, String>(true) && heartbeat_spec(*waiter, now) == HeartbeatState::Stale
            ==> (r matches ResolveStep::Reclaim { reason } && reason@ == "heartbeat-stale"@),
        waiter.pid != 0 && waiter.pid != own_pid && running == Ok::<bool, String>(true) && heartbeat_spec(*waiter, now) != HeartbeatState::Stale
            && takeover ==> r is Takeover,
        waiter.pid != 0 && waiter.pid != own_pid && running == Ok::<bool, String>(true) && heartbeat_spec(*waiter, now) != HeartbeatState::Stale
            && !takeover ==> (r matches ResolveStep::Outcome(GuardOutcome::Conflict(c)) && c.holder_pid
            == waiter.pid && c.holder_since == waiter.started_at && c.heartbeat == heartbeat_spec(
            *waiter,
            now,
        ) && c.worker_id == ctx.worker_id && c.status == ctx.status && c.waiter == ctx.waiter),
{
    if let Some(reason) = invalid_pid_reason(waiter.pid, own_pid) {
        return ResolveStep::Reclaim { reason };
    }
    match running {
        Ok(false) => ResolveStep::Reclaim { reason: "pid-dead" },
        Err(e) => {
            let mut d = owned("failed to determine whether waiter pid ");
            push_decimal(&mut d, waiter.pid as u64);
            push_str(&mut d, " is running: ");
            push_str(&mut d, e.as_str());
            ResolveStep::Outcome(indeterminate(ctx, d))
        },
        Ok(true) => {
            let heartbeat = heartbeat_state(waiter, now);
            if heartbeat == HeartbeatState::Stale {
                return ResolveStep::Reclaim { reason: "heartbeat-stale" };
            }
            if takeover {
                return ResolveStep::Takeover;
            }
            ResolveStep::Outcome(
                GuardOutcome::Conflict(
                    WaiterConflict {
                        worker_id: copy_opt(&ctx.worker_id),
                        status: ctx.status.clone(),
                        waiter: ctx.waiter.clone(),
                        holder_pid: waiter.pid,
                        holder_since: waiter.started_at,
                        heartbeat,
                    },
                ),
            )
        },
    }
}

/// Where a takeover is.
#[derive(Clone, Copy, Debug, PartialEq, Eq, Structural)]
pub enum TakeoverPhase {
    /// Checking the holder's token before signalling it.
    VerifyBefore,
    /// The token matched; the request is logged and SIGTERM sent next.
    Signal,
    /// Waiting for the holder to exit, until `deadline`.
    Waiting,
    /// The holder exited; checking its token once more.
    VerifyAfter,
    Finished,
}

/// What a takeover asks the edge to do next.
pub enum TakeoverAction {
    /// Read the registration and compare its token.
    CheckToken,
    /// Log the request, then send SIGTERM to the holder.
    Terminate,
    /// Ask whether the holder still runs.
    CheckRunning,
    /// Sleep this many milliseconds, then ask again.
    Sleep(u64),
    /// Remove the registration, log the takeover, and try to register again.
    RemoveAndRetry,
    /// Log the takeover and try to register again.
    LogAndRetry,
    /// Try to register again.
    Retry,
    /// Stop with this outcome.
    Fail(GuardOutcome),
}

/// A stop that cannot tell the registration's state, about the context's log and
/// registration, with `detail`.
pub open spec fn stops_indeterminate(a: TakeoverAction, ctx: WaitContext, detail: Seq<char>) -> bool {
    a matches TakeoverAction::Fail(GuardOutcome::Indeterminate(i)) && i.worker_id == ctx.worker_id
        && i.status == Some(ctx.status) && i.waiter == Some(ctx.waiter) && i.detail@ == detail
}

/// A failed takeover of holder `w`, about the context's log and registration, with `detail`.
pub open spec fn stops_failed(a: TakeoverAction, ctx: WaitContext, w: WaiterRegistration, detail: Seq<char>) -> bool {
    a matches TakeoverAction::Fail(GuardOutcome::TakeoverFailed(f)) && f.worker_id == ctx.worker_id
        && f.status == ctx.status && f.waiter == ctx.waiter && f.holder_pid == w.pid
        && f.holder_since == w.started_at && f.detail@ == detail
}

/// A takeover of a live holder: its token checked, SIGTERM sent, its exit awaited within the
/// grace period, and its token checked again before its registration is removed.
pub struct Takeover {
    pub waiter: WaiterRegistration,
    pub phase: TakeoverPhase,
    /// Milliseconds since the signal by which the holder must have exited.
    pub deadline_ms: u64,
    /// Whether the holder was seen to have exited.
    pub exited: bool,
}

impl Takeover {
    pub fn new(waiter: WaiterRegistration, grace_ms: u64) -> (r: (Takeover, TakeoverAction))
        ensures
            r.0.waiter == waiter,
            r.0.phase == TakeoverPhase::VerifyBefore,
            r.0.deadline_ms == grace_ms,
            !r.0.exited,
            r.1 is CheckToken,
    {
        (
            Takeover { waiter, phase: TakeoverPhase::VerifyBefore, deadline_ms: grace_ms, exited: false },
            TakeoverAction::CheckToken,
        )
    }

    /// The token check's answer: before the signal, only a match goes on; after the holder
    /// exited, a match means its registration is still the one to remove.
    pub fn on_token(&mut self, ctx: &WaitContext, check: RegistrationTokenCheck) -> (r: TakeoverAction)
        requires
            old(self).phase == TakeoverPhase::VerifyBefore || old(self).phase == TakeoverPhase::VerifyAfter,
        ensures
            final(self).waiter == old(self).waiter,
            final(self).exited == old(self).exited,
            final(self).deadline_ms == old(self).deadline_ms,
            old(self).phase == TakeoverPhase::VerifyBefore ==> match check {
                RegistrationTokenCheck::Matches(_) => r is Terminate && final(self).phase == TakeoverPhase::Signal,
                RegistrationTokenCheck::Missing => r is Retry && final(self).phase == TakeoverPhase::Finished,
                RegistrationTokenCheck::Changed => final(self).phase == TakeoverPhase::Finished && stops_indeterminate(r, *ctx, "waiter registration changed before takeover"@),
                RegistrationTokenCheck::Indeterminate { detail } => final(self).phase == TakeoverPhase::Finished && stops_indeterminate(r, *ctx, detail@),
            },
            old(self).phase == TakeoverPhase::VerifyAfter ==> final(self).phase == TakeoverPhase::Finished && match check {
                RegistrationTokenCheck::Matches(_) => r is RemoveAndRetry,
                RegistrationTokenCheck::Missing => r is LogAndRetry,
                RegistrationTokenCheck::Changed => stops_indeterminate(r, *ctx, "waiter registration changed after takeover"@),
                RegistrationTokenCheck::Indeterminate { detail } => stops_indeterminate(r, *ctx, detail@),
            },
    {
        let before = self.phase == TakeoverPhase::VerifyBefore;
        match check {
            RegistrationTokenCheck::Matches(_) => {
                if before {
                    self.phase = TakeoverPhase::Signal;
                    TakeoverAction::Terminate
                } else {
                    self.phase = TakeoverPhase::Finished;
                    TakeoverAction::RemoveAndRetry
                }
            },
            RegistrationTokenCheck::Missing => {
                self.phase = TakeoverPhase::Finished;
                if before {
                    TakeoverAction::Retry
                } else {
                    TakeoverAction::LogAndRetry
                }
            },
            RegistrationTokenCheck::Changed => {
                self.phase = TakeoverPhase::Finished;
                let d = if before {
                    owned("waiter registration changed before takeover")
                } else {
                    owned("waiter registration changed after takeover")
                };
                TakeoverAction::Fail(indeterminate(ctx, d))
            },
            RegistrationTokenCheck::Indeterminate { detail } => {
                self.phase = TakeoverPhase::Finished;
                TakeoverAction::Fail(indeterminate(ctx, detail))
            },
        }
    }

    /// What sending SIGTERM returned.
    pub fn on_signal(&mut self, ctx: &WaitContext, sent: Result<(), String>) -> (r: TakeoverAction)
        requires
            old(self).phase == TakeoverPhase::Signal,
        ensures
            final(self).waiter == old(self).waiter,
            final(self).exited == old(self).exited,
            final(self).deadline_ms == old(self).deadline_ms,
            sent is Ok ==> r is CheckRunning && final(self).phase == TakeoverPhase::Waiting,
            sent matches Err(e) ==> final(self).phase == TakeoverPhase::Finished && stops_failed(r, *ctx, old(self).waiter, "failed to send SIGTERM to waiter pid "@ + decimal(old(self).waiter.pid as nat)
                + ": "@ + e@),
    {
        match sent {
            Ok(()) => {
                self.phase = TakeoverPhase::Waiting;
                TakeoverAction::CheckRunning
            },
            Err(e) => {
                self.phase = TakeoverPhase::Finished;
                let mut d = owned("failed to send SIGTERM to waiter pid ");
                push_decimal(&mut d, self.waiter.pid as u64);
                push_str(&mut d, ": ");
                push_str(&mut d, e.as_str());
                TakeoverAction::Fail(takeover_failed(ctx, &self.waiter, d))
            },
        }
    }

    /// Whether the holder still runs, asked `elapsed_ms` after the signal: once it has exited
    /// its token is checked again; while it runs within the grace period the takeover sleeps
    /// and asks again; past the grace period, or when the answer cannot be had, it fails.
    pub fn on_running(&mut self, ctx: &WaitContext, running: Result<bool, String>, elapsed_ms: u64) -> (r: TakeoverAction)
        requires
            old(self).phase == TakeoverPhase::Waiting,
        ensures
            final(self).waiter == old(self).waiter,
            final(self).deadline_ms == old(self).deadline_ms,
            running == Ok::<bool, String>(false) ==> r is CheckToken && final(self).phase
                == TakeoverPhase::VerifyAfter && final(self).exited,
            running == Ok::<bool, String>(true) && elapsed_ms < old(self).deadline_ms ==> final(self).phase
                == TakeoverPhase::Waiting && final(self).exited == old(self).exited && r == TakeoverAction::Sleep(
                if old(self).deadline_ms - elapsed_ms < TAKEOVER_POLL_INTERVAL_MS {
                    (old(self).deadline_ms - elapsed_ms) as u64
                } else {
                    TAKEOVER_POLL_INTERVAL_MS
                },
            ),
            running == Ok::<bool, String>(true) && elapsed_ms >= old(self).deadline_ms ==> final(self).phase
                == TakeoverPhase::Finished && stops_failed(r, *ctx, old(self).waiter, "waiter pid "@ + decimal(old(self).waiter.pid as nat)
                + " still running after SIGTERM grace"@),
            running matches Err(e) ==> final(self).phase == TakeoverPhase::Finished && stops_failed(r, *ctx, old(self).waiter, "failed to confirm waiter pid "@ + decimal(old(self).waiter.pid as nat)
                + " exited: "@ + e@),
    {
        match running {
            Ok(false) => {
                self.exited = true;
                self.phase = TakeoverPhase::VerifyAfter;
                TakeoverAction::CheckToken
            },
            Ok(true) => {
                if elapsed_ms < self.deadline_ms {
                    let remaining = self.deadline_ms - elapsed_ms;
                    let nap = if remaining < TAKEOVER_POLL_INTERVAL_MS {
                        remaining
                    } else {
                        TAKEOVER_POLL_INTERVAL_MS
                    };
                    TakeoverAction::Sleep(nap)
                } else {
                    self.phase = TakeoverPhase::Finished;
                    let mut d = owned("waiter pid ");
                    push_decimal(&mut d, self.waiter.pid as u64);
                    push_str(&mut d, " still running after SIGTERM grace");
                    TakeoverAction::Fail(takeover_failed(ctx, &self.waiter, d))
                }
            },
            Err(e) => {
                self.phase = TakeoverPhase::Finished;
                let mut d = owned("failed to confirm waiter pid ");
                push_decimal(&mut d, self.waiter.pid as u64);
                push_str(&mut d, " exited: ");
                push_str(&mut d, e.as_str());
                TakeoverAction::Fail(takeover_failed(ctx, &self.waiter, d))
            },
        }
    }
}

/// The line a waiter conflict prints.
pub open spec fn conflict_text(c: WaiterConflict) -> Seq<char> {
    let worker = match c.worker_id {
        Some(w) => w@,
        None => "unknown"@,
    };
    "wait: waiter-conflict worker="@ + field_spec(worker) + " status="@ + field_spec(c.status@)
        + " waiter="@ + field_spec(c.waiter@) + " holder_pid="@ + decimal(c.holder_pid as nat)
        + " holder_since="@ + field_spec(rfc3339_auto_text(c.holder_since)) + " heartbeat="@
        + heartbeat_text(c.heartbeat) + " hint="@ + quoted_spec(
        "niles wait --worker "@ + worker + " --takeover"@,
    )
}

pub fn format_waiter_conflict(c: &WaiterConflict) -> (r: String)
    requires
        chrono_time(c.holder_since),
    ensures
        r@ == conflict_text(*c),
{
    let worker = match &c.worker_id {
        Some(w) => w.as_str(),
        None => "unknown",
    };
    let mut r = owned("wait: waiter-conflict worker=");
    push_str(&mut r, field(worker).as_str());
    push_str(&mut r, " status=");
    push_str(&mut r, field(c.status.as_str()).as_str());
    push_str(&mut r, " waiter=");
    push_str(&mut r, field(c.waiter.as_str()).as_str());
    push_str(&mut r, " holder_pid=");
    push_decimal(&mut r, c.holder_pid as u64);
    push_str(&mut r, " holder_since=");
    push_str(&mut r, field(rfc3339_auto(c.holder_since).as_str()).as_str());
    push_str(&mut r, " heartbeat=");
    push_str(&mut r, c.heartbeat.as_str());
    push_str(&mut r, " hint=");
    let mut hint = owned("niles wait --worker ");
    push_str(&mut hint, worker);
    push_str(&mut hint, " --takeover");
    push_str(&mut r, quoted(hint.as_str()).as_str());
    r
}

/// The line an indeterminate wait prints: each known field, then the detail.
pub open spec fn indeterminate_text(i: WaitIndeterminate) -> Seq<char> {
    "wait: indeterminate"@ + match i.worker_id {
        Some(w) => " worker="@ + field_spec(w@),
        None => Seq::empty(),
    } + match i.status {
        Some(s) => " status="@ + field_spec(s@),
        None => Seq::empty(),
    } + match i.waiter {
        Some(w) => " waiter="@ + field_spec(w@),
        None => Seq::empty(),
    } + " detail="@ + detail_spec(i.detail@)
}

pub fn format_indeterminate(i: &WaitIndeterminate) -> (r: String)
    ensures
        r@ == indeterminate_text(*i),
{
    let mut r = owned("wait: indeterminate");
    match &i.worker_id {
        Some(w) => {
            push_str(&mut r, " worker=");
            push_str(&mut r, field(w.as_str()).as_str());
        },
        None => {},
    }
    match &i.status {
        Some(s) => {
            push_str(&mut r, " status=");
            push_str(&mut r, field(s.as_str()).as_str());
        },
        None => {},
    }
    match &i.waiter {
        Some(w) => {
            push_str(&mut r, " waiter=");
            push_str(&mut r, field(w.as_str()).as_str());
        },
        None => {},
    }
    push_str(&mut r, " detail=");
    push_str(&mut r, detail(i.detail.as_str()).as_str());
    r
}

/// The line a failed takeover prints.
pub open spec fn takeover_failed_text(f: WaiterTakeoverFailed) -> Seq<char> {
    "wait: waiter-takeover-failed worker="@ + field_spec(
        match f.worker_id {
            Some(w) => w@,
            None => "unknown"@,
        },
    ) + " status="@ + field_spec(f.status@) + " waiter="@ + field_spec(f.waiter@) + " holder_pid="@
        + decimal(f.holder_pid as nat) + " holder_since="@ + field_spec(
        rfc3339_auto_text(f.holder_since),
    ) + " detail="@ + detail_spec(f.detail@)
}

pub fn format_takeover_failed(f: &WaiterTakeoverFailed) -> (r: String)
    requires
        chrono_time(f.holder_since),
    ensures
        r@ == takeover_failed_text(*f),
{
    let worker = match &f.worker_id {
        Some(w) => w.as_str(),
        None => "unknown",
    };
    let mut r = owned("wait: waiter-takeover-failed worker=");
    push_str(&mut r, field(worker).as_str());
    push_str(&mut r, " status=");
    push_str(&mut r, field(f.status.as_str()).as_str());
    push_str(&mut r, " waiter=");
    push_str(&mut r, field(f.waiter.as_str()).as_str());
    push_str(&mut r, " holder_pid=");
    push_decimal(&mut r, f.holder_pid as u64);
    push_str(&mut r, " holder_since=");
    push_str(&mut r, field(rfc3339_auto(f.holder_since).as_str()).as_str());
    push_str(&mut r, " detail=");
    push_str(&mut r, detail(f.detail.as_str()).as_str());
    r
}

/// The exit code and the line a guard outcome ends a wait with.
pub fn guard_exit(outcome: &GuardOutcome) -> (r: (u8, String))
    requires
        outcome matches GuardOutcome::Conflict(c) ==> chrono_time(c.holder_since),
        outcome matches GuardOutcome::TakeoverFailed(f) ==> chrono_time(f.holder_since),
    ensures
        outcome matches GuardOutcome::Conflict(c) ==> r.0 == EXIT_WAITER_CONFLICT && r.1@
            == conflict_text(*c),
        outcome matches GuardOutcome::Indeterminate(i) ==> r.0 == EXIT_INDETERMINATE && r.1@
            == indeterminate_text(*i),
        outcome matches GuardOutcome::TakeoverFailed(f) ==> r.0 == EXIT_INDETERMINATE && r.1@
            == takeover_failed_text(*f),
{
    match outcome {
        GuardOutcome::Conflict(c) => (EXIT_WAITER_CONFLICT, format_waiter_conflict(c)),
        GuardOutcome::Indeterminate(i) => (EXIT_INDETERMINATE, format_indeterminate(i)),
        GuardOutcome::TakeoverFailed(f) => (EXIT_INDETERMINATE, format_takeover_failed(f)),
    }
}

/// How a heartbeat check ended.
pub enum GuardCheck {
    Verified,
    Lost { detail: String },
    Indeterminate { detail: String },
}

pub open spec fn lost_text(path: Seq<char>) -> Seq<char> {
    "waiter registration was removed/replaced while waiting: "@ + path
}

/// The token check before a heartbeat, or before a refreshed registration replaces the old
/// one: only a registration that still carries this waiter's token may be touched.
pub fn registration_check(path: &str, check: RegistrationTokenCheck) -> (r: Result<WaiterRegistration, GuardCheck>)
    ensures
        check matches RegistrationTokenCheck::Matches(reg) ==> r == Ok::<WaiterRegistration, GuardCheck>(reg),
        check is Missing || check is Changed ==> (r matches Err(GuardCheck::Lost { detail }) && detail@
            == lost_text(path@)),
        check matches RegistrationTokenCheck::Indeterminate { detail } ==> (r matches Err(
            GuardCheck::Indeterminate { detail: d },
        ) && d == detail),
{
    match check {
        RegistrationTokenCheck::Matches(reg) => Ok(reg),
        RegistrationTokenCheck::Missing => {
            let mut d = owned("waiter registration was removed/replaced while waiting: ");
            push_str(&mut d, path);
            Err(GuardCheck::Lost { detail: d })
        },
        RegistrationTokenCheck::Changed => {
            let mut d = owned("waiter registration was removed/replaced while waiting: ");
            push_str(&mut d, path);
            Err(GuardCheck::Lost { detail: d })
        },
        RegistrationTokenCheck::Indeterminate { detail } => Err(GuardCheck::Indeterminate { detail }),
    }
}

/// The registration a heartbeat writes: the one on disk, stamped now with this waiter's
/// interval.
pub fn refreshed(reg: WaiterRegistration, now: UtcTime, interval_ms: u64) -> (r: WaiterRegistration)
    ensures
        r == (WaiterRegistration {
            heartbeat_at: Some(now),
            heartbeat_interval_ms: Some(interval_ms),
            ..reg
        }),
{
    WaiterRegistration { heartbeat_at: Some(now), heartbeat_interval_ms: Some(interval_ms), ..reg }
}

/// The detail a wait that lost its registration twice while attaching ends with.
pub fn attach_exhausted(ctx: &WaitContext) -> (r: GuardOutcome)
    ensures
        r matches GuardOutcome::Indeterminate(i) && i.detail@
            == "waiter registration changed while attaching; retry wait"@,
{
    indeterminate(ctx, owned("waiter registration changed while attaching; retry wait"))
}

/// The start of an audit record on a waiter: its event and its pid.
pub open spec fn record_head(event: Seq<char>, pid: u32) -> Seq<char> {
    "{\"event\":"@ + json_string(event) + ",\"pid\":"@ + decimal(pid as nat)
}

/// The audit record of a stale waiter reclaimed at `now`, one JSON object with its keys in
/// order, as serde_json writes it.
pub open spec fn stale_reclaimed_record(w: WaiterRegistration, reason: Seq<char>, now: UtcTime) -> Seq<char> {
    record_head("stale-waiter-reclaimed"@, w.pid) + ",\"reason\":"@ + json_string(reason)
        + ",\"reclaimed_at\":"@ + json_string(rfc3339_auto_text(now)) + ",\"started_at\":"@
        + json_string(rfc3339_auto_text(w.started_at)) + ",\"token\":"@ + json_string(w.token@)
        + "}"@
}

/// The audit record of a takeover asked of `w` at `now`.
pub open spec fn takeover_requested_record(w: WaiterRegistration, now: UtcTime) -> Seq<char> {
    record_head("waiter-takeover-requested"@, w.pid) + ",\"requested_at\":"@ + json_string(
        rfc3339_auto_text(now),
    ) + ",\"signal\":\"SIGTERM\",\"started_at\":"@ + json_string(rfc3339_auto_text(w.started_at))
        + ",\"token\":"@ + json_string(w.token@) + "}"@
}

/// The audit record of `w` taken over at `now`.
pub open spec fn taken_over_record(w: WaiterRegistration, now: UtcTime) -> Seq<char> {
    record_head("waiter-taken-over"@, w.pid) + ",\"started_at\":"@ + json_string(
        rfc3339_auto_text(w.started_at),
    ) + ",\"taken_over_at\":"@ + json_string(rfc3339_auto_text(now)) + ",\"token\":"@
        + json_string(w.token@) + "}"@
}

/// The audit record of `line` handed over by waiter `w`, the ack cursor moving to `cursor`.
pub open spec fn wake_consumed_record(cursor: usize, line: Seq<char>, w: WaiterRegistration) -> Seq<char> {
    "{\"cursor\":"@ + decimal(cursor as nat) + ",\"event\":\"wake-consumed\",\"line\":"@
        + json_string(line) + ",\"pid\":"@ + decimal(w.pid as nat) + ",\"started_at\":"@
        + json_string(rfc3339_auto_text(w.started_at)) + ",\"token\":"@ + json_string(w.token@)
        + "}"@
}

fn push_record_head(r: &mut String, event: &str, pid: u32)
    ensures
        final(r)@ == old(r)@ + record_head(event@, pid),
{
    push_str(r, "{\"event\":");
    push_json(r, event);
    push_str(r, ",\"pid\":");
    push_decimal(r, pid as u64);
}

pub fn stale_reclaimed_text(w: &WaiterRegistration, reason: &str, now: UtcTime) -> (r: String)
    requires
        chrono_time(w.started_at),
        chrono_time(now),
    ensures
        r@ == stale_reclaimed_record(*w, reason@, now),
{
    let mut r = String::new();
    push_record_head(&mut r, "stale-waiter-reclaimed", w.pid);
    push_str(&mut r, ",\"reason\":");
    push_json(&mut r, reason);
    push_str(&mut r, ",\"reclaimed_at\":");
    push_json(&mut r, rfc3339_auto(now).as_str());
    push_str(&mut r, ",\"started_at\":");
    push_json(&mut r, rfc3339_auto(w.started_at).as_str());
    push_str(&mut r, ",\"token\":");
    push_json(&mut r, w.token.as_str());
    push_str(&mut r, "}");
    r
}

pub fn takeover_requested_text(w: &WaiterRegistration, now: UtcTime) -> (r: String)
    requires
        chrono_time(w.started_at),
        chrono_time(now),
    ensures
        r@ == takeover_requested_record(*w, now),
{
    let mut r = String::new();
    push_record_head(&mut r, "waiter-takeover-requested", w.pid);
    push_str(&mut r, ",\"requested_at\":");
    push_json(&mut r, rfc3339_auto(now).as_str());
    push_str(&mut r, ",\"signal\":\"SIGTERM\",\"started_at\":");
    push_json(&mut r, rfc3339_auto(w.started_at).as_str());
    push_str(&mut r, ",\"token\":");
    push_json(&mut r, w.token.as_str());
    push_str(&mut r, "}");
    r
}

pub fn taken_over_text(w: &WaiterRegistration, now: UtcTime) -> (r: String)
    requires
        chrono_time(w.started_at),
        chrono_time(now),
    ensures
        r@ == taken_over_record(*w, now),
{
    let mut r = String::new();
    push_record_head(&mut r, "waiter-taken-over", w.pid);
    push_str(&mut r, ",\"started_at\":");
    push_json(&mut r, rfc3339_auto(w.started_at).as_str());
    push_str(&mut r, ",\"taken_over_at\":");
    push_json(&mut r, rfc3339_auto(now).as_str());
    push_str(&mut r, ",\"token\":");
    push_json(&mut r, w.token.as_str());
    push_str(&mut r, "}");
    r
}

pub fn wake_consumed_text(cursor: usize, line: &str, w: &WaiterRegistration) -> (r: String)
    requires
        chrono_time(w.started_at),
    ensures
        r@ == wake_consumed_record(cursor, line@, *w),
{
    let mut r = owned("{\"cursor\":");
    push_decimal(&mut r, cursor as u64);
    push_str(&mut r, ",\"event\":\"wake-consumed\",\"line\":");
    push_json(&mut r, line);
    push_str(&mut r, ",\"pid\":");
    push_decimal(&mut r, w.pid as u64);
    push_str(&mut r, ",\"started_at\":");
    push_json(&mut r, rfc3339_auto(w.started_at).as_str());
    push_str(&mut r, ",\"token\":");
    push_json(&mut r, w.token.as_str());
    push_str(&mut r, "}");
    r
}

} // verus!
