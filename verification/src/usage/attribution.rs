//! How a launch is tied to the agent's own token ledger.
use vstd::prelude::*;

use crate::text::{owned, str_eq};
use crate::time::UtcTime;

verus! {

/// The attribution recorded when an agent is launched.
#[derive(Clone, Debug, PartialEq, Eq)]
pub enum UsageAttribution {
    /// A session-ledger family: the session id niles hands the agent names its transcript.
    SessionLedger {
        session_id: String,
        cwd: String,
        launched_at: UtcTime,
        niles_prompt_count: Option<u64>,
    },
    /// Codex: the rollout started nearest the launch in the same directory.
    CodexCwdTime { cwd: String, launched_at: UtcTime, niles_prompt_count: Option<u64> },
    /// A family with no token ledger niles can read.
    Unsupported { cwd: String, launched_at: UtcTime, niles_prompt_count: Option<u64> },
}

/// A lowercase hexadecimal digit.
pub open spec fn is_lower_hex(c: char) -> bool {
    ('0' <= c <= '9') || ('a' <= c <= 'f')
}

/// The text of a version 4 UUID in its hyphenated form: five groups of 8, 4, 4, 4 and 12
/// lowercase hex digits joined by `-`, the version digit `4` opening the third group and the
/// variant digit (`8`, `9`, `a` or `b`) opening the fourth.
pub open spec fn is_uuid_v4_text(s: Seq<char>) -> bool {
    &&& s.len() == 36
    &&& forall|i: int|
        0 <= i < 36 ==> if i == 8 || i == 13 || i == 18 || i == 23 {
            s[i] == '-'
        } else {
            is_lower_hex(#[trigger] s[i])
        }
    &&& s[14] == '4'
    &&& (s[19] == '8' || s[19] == '9' || s[19] == 'a' || s[19] == 'b')
}

/// A fresh session id for a session-ledger launch.
///
/// Trusted: calls `uuid::Uuid::new_v4()` and its `Display`. The id is random, so its value is
/// not claimed; its shape is, as uuid documents it: the hyphenated lowercase form, with the
/// version 4 and RFC 4122 variant bits set.
#[verifier::external_body]
fn new_session_id() -> (r: String)
    ensures
        is_uuid_v4_text(r@),
{
    uuid::Uuid::new_v4().to_string()
}

/// The attribution for a launch of `family` in `cwd` at `launched_at`, where `ledger_family`
/// names the family whose ledger is keyed by the session id niles hands it.
pub fn attribution_for_family(
    family: &str,
    ledger_family: &str,
    cwd: &str,
    launched_at: UtcTime,
    niles_prompt_count: Option<u64>,
) -> (r: UsageAttribution)
    ensures
        family@ == ledger_family@ ==> (r matches UsageAttribution::SessionLedger {
            session_id,
            cwd: c,
            launched_at: l,
            niles_prompt_count: n,
        } && is_uuid_v4_text(session_id@) && c@ == cwd@ && l == launched_at && n == niles_prompt_count),
        family@ != ledger_family@ && family@ == "codex"@ ==> (r matches UsageAttribution::CodexCwdTime {
            cwd: c,
            launched_at: l,
            niles_prompt_count: n,
        } && c@ == cwd@ && l == launched_at && n == niles_prompt_count),
        family@ != ledger_family@ && family@ != "codex"@ ==> (r matches UsageAttribution::Unsupported {
            cwd: c,
            launched_at: l,
            niles_prompt_count: n,
        } && c@ == cwd@ && l == launched_at && n == niles_prompt_count),
{
    if str_eq(family, ledger_family) {
        UsageAttribution::SessionLedger {
            session_id: new_session_id(),
            cwd: owned(cwd),
            launched_at,
            niles_prompt_count,
        }
    } else if str_eq(family, "codex") {
        UsageAttribution::CodexCwdTime { cwd: owned(cwd), launched_at, niles_prompt_count }
    } else {
        UsageAttribution::Unsupported { cwd: owned(cwd), launched_at, niles_prompt_count }
    }
}

impl UsageAttribution {
    /// The session id niles handed a session-ledger launch.
    pub fn ledger_session_id(&self) -> (r: Option<&str>)
        ensures
            match self {
                UsageAttribution::SessionLedger { session_id, .. } => r matches Some(s) && s@
                    == session_id@,
                _ => r is None,
            },
    {
        match self {
            UsageAttribution::SessionLedger { session_id, .. } => Some(session_id.as_str()),
            _ => None,
        }
    }
}

} // verus!
