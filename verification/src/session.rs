//! The lead's session: how its opening turn is handed over, which tmux session a workspace
//! uses, and what the lead is told at startup.
use vstd::prelude::*;

use crate::text::texts;

use crate::digits::{signed_decimal, i64_to_decimal};
use crate::paths::{file_name, path_file_name};
use crate::text::{
    is_empty_str, lemma_text_le_total, lemma_text_le_transitive, owned, push_str, str_le, text_le,
};
use crate::tmux::target::{target_reading, SessionName, WindowTarget};
use crate::tmux::{current_session, outside_tmux_text, session_refusal};
use crate::util::{slug_spec, slugify};
use crate::worker::joined_ids;

verus! {

/// The line that follows the brief in the lead's opening turn.
pub const STARTUP_PROMPT: &'static str = "Start the Niles manager session.";

/// How an exit by signal is reported.
pub const SIGNAL_EXIT_LABEL: &'static str = "signal";

/// How an agent family takes its brief.
#[derive(Clone, Debug, PartialEq, Eq)]
pub enum BriefDelivery {
    /// As the last argument.
    Arg,
    /// On stdin.
    Stdin,
    /// After a flag.
    Flag { value: String },
    /// As a system prompt after this flag, with the startup line as the turn.
    SystemPrompt(String),
}

/// Two deliveries that take a brief the same way.
pub open spec fn same_delivery(a: BriefDelivery, b: BriefDelivery) -> bool {
    match (a, b) {
        (BriefDelivery::Arg, BriefDelivery::Arg) => true,
        (BriefDelivery::Stdin, BriefDelivery::Stdin) => true,
        (BriefDelivery::Flag { value: x }, BriefDelivery::Flag { value: y }) => x@ == y@,
        (BriefDelivery::SystemPrompt(x), BriefDelivery::SystemPrompt(y)) => x@ == y@,
        _ => false,
    }
}

impl BriefDelivery {
    /// An equal copy.
    pub fn duplicate(&self) -> (r: BriefDelivery)
        ensures
            same_delivery(r, *self),
    {
        match self {
            BriefDelivery::Arg => BriefDelivery::Arg,
            BriefDelivery::Stdin => BriefDelivery::Stdin,
            BriefDelivery::Flag { value } => BriefDelivery::Flag { value: owned(value.as_str()) },
            BriefDelivery::SystemPrompt(flag) => BriefDelivery::SystemPrompt(owned(flag.as_str())),
        }
    }
}

/// How an agent is launched.
#[derive(Clone, Debug, PartialEq, Eq)]
pub struct AgentInvocation {
    pub binary: String,
    pub args: Vec<String>,
    pub env: Vec<(String, String)>,
    pub brief: BriefDelivery,
}

/// The lead's opening turn: the brief, a blank line, and the startup line.
pub open spec fn opening_turn_spec(brief: Seq<char>) -> Seq<char> {
    brief + "\n\n"@ + STARTUP_PROMPT@
}

pub fn opening_turn(brief: &str) -> (r: String)
    ensures
        r@ == opening_turn_spec(brief@),
{
    let mut r = owned(brief);
    push_str(&mut r, "\n\n");
    push_str(&mut r, STARTUP_PROMPT);
    r
}

/// The arguments and stdin that carry the lead's opening turn.
pub struct ForegroundPrompt {
    pub args: Vec<String>,
    pub stdin: Option<String>,
}

/// Where the opening turn goes for each way of delivering a brief.
pub open spec fn prompt_io_spec(delivery: BriefDelivery, brief: Seq<char>) -> (Seq<Seq<char>>, Option<Seq<char>>) {
    match delivery {
        BriefDelivery::Arg => (seq![opening_turn_spec(brief)], None),
        BriefDelivery::Stdin => (Seq::empty(), Some(opening_turn_spec(brief))),
        BriefDelivery::Flag { value } => (seq![value@, opening_turn_spec(brief)], None),
        BriefDelivery::SystemPrompt(flag) => (seq![flag@, brief, STARTUP_PROMPT@], None),
    }
}

pub fn manager_prompt_io(delivery: BriefDelivery, brief: String) -> (r: ForegroundPrompt)
    ensures
        (texts(r.args@), match r.stdin {
            Some(s) => Some(s@),
            None => None,
        }) == prompt_io_spec(delivery, brief@),
{
    match delivery {
        BriefDelivery::Arg => {
            let args = vec![opening_turn(brief.as_str())];
            assert(texts(args@) =~= seq![opening_turn_spec(brief@)]);
            ForegroundPrompt { args, stdin: None }
        },
        BriefDelivery::Stdin => {
            let args: Vec<String> = Vec::new();
            assert(texts(args@) =~= Seq::<Seq<char>>::empty());
            ForegroundPrompt { args, stdin: Some(opening_turn(brief.as_str())) }
        },
        BriefDelivery::Flag { value } => {
            let turn = opening_turn(brief.as_str());
            let args = vec![value, turn];
            assert(texts(args@) =~= seq![args@[0]@, opening_turn_spec(brief@)]);
            ForegroundPrompt { args, stdin: None }
        },
        BriefDelivery::SystemPrompt(flag) => {
            let args = vec![flag, brief, owned(STARTUP_PROMPT)];
            assert(texts(args@) =~= seq![args@[0]@, args@[1]@, STARTUP_PROMPT@]);
            ForegroundPrompt { args, stdin: None }
        },
    }
}

/// The lead's command: its invocation with the opening turn added, and the stdin to feed it.
pub struct ManagerCommand {
    pub invocation: AgentInvocation,
    pub stdin: Option<String>,
}

/// The invocation's own arguments, then those that carry the opening turn.
pub open spec fn manager_command_spec(invocation: AgentInvocation, brief: Seq<char>) -> (Seq<Seq<char>>, Option<Seq<char>>) {
    let io = prompt_io_spec(invocation.brief, brief);
    (texts(invocation.args@) + io.0, io.1)
}

pub fn prepare_manager_command(invocation: AgentInvocation, brief: String) -> (r: ManagerCommand)
    ensures
        r.invocation.binary == invocation.binary,
        r.invocation.env == invocation.env,
        r.invocation.brief == invocation.brief,
        (texts(r.invocation.args@), match r.stdin {
            Some(s) => Some(s@),
            None => None,
        }) == manager_command_spec(invocation, brief@),
{
    let ghost original = invocation;
    let mut invocation = invocation;
    let delivery = invocation.brief.duplicate();
    let ghost brief_text = brief@;
    assert(prompt_io_spec(delivery, brief_text) == prompt_io_spec(original.brief, brief_text));
    let prompt = manager_prompt_io(delivery, brief);
    let ghost before = texts(invocation.args@);
    let mut i: usize = 0;
    while i < prompt.args.len()
        invariant
            i <= prompt.args@.len(),
            invocation.binary == original.binary,
            invocation.env == original.env,
            invocation.brief == original.brief,
            texts(invocation.args@) == before + texts(prompt.args@).take(i as int),
        decreases prompt.args.len() - i,
    {
        let ghost at = texts(invocation.args@);
        invocation.args.push(prompt.args[i].clone());
        assert(texts(invocation.args@) =~= at.push(prompt.args@[i as int]@));
        assert(texts(prompt.args@).take(i + 1) =~= texts(prompt.args@).take(i as int).push(
            prompt.args@[i as int]@,
        ));
        i += 1;
    }
    assert(texts(prompt.args@).take(prompt.args@.len() as int) =~= texts(prompt.args@));
    ManagerCommand { invocation, stdin: prompt.stdin }
}

/// The command the lead's own tmux window runs: the same as the foreground lead's.
pub fn prepare_manager_window_command(invocation: AgentInvocation, brief: String) -> (r: ManagerCommand)
    ensures
        r.invocation.binary == invocation.binary,
        r.invocation.env == invocation.env,
        (texts(r.invocation.args@), match r.stdin {
            Some(s) => Some(s@),
            None => None,
        }) == manager_command_spec(invocation, brief@),
{
    prepare_manager_command(invocation, brief)
}

/// An exit code, or `signal` where the process was killed by one.
pub open spec fn exit_code_text(code: Option<i32>) -> Seq<char> {
    match code {
        Some(c) => signed_decimal(c as int),
        None => SIGNAL_EXIT_LABEL@,
    }
}

pub fn exit_code_label(code: Option<i32>) -> (r: String)
    ensures
        r@ == exit_code_text(code),
{
    match code {
        Some(c) => i64_to_decimal(c as i64),
        None => owned(SIGNAL_EXIT_LABEL),
    }
}

/// The error a lead that exited unsuccessfully ends the session with.
pub fn foreground_failure(agent: &str, code: Option<i32>) -> (r: String)
    ensures
        r@ == "foreground agent `"@ + agent@ + "` exited with "@ + exit_code_text(code),
{
    let mut r = owned("foreground agent `");
    push_str(&mut r, agent);
    push_str(&mut r, "` exited with ");
    push_str(&mut r, exit_code_label(code).as_str());
    r
}

/// The FNV-1a offset basis.
pub const FNV_OFFSET: u64 = 0xcbf2_9ce4_8422_2325;

/// The FNV-1a prime.
pub const FNV_PRIME: u64 = 0x0000_0100_0000_01b3;

/// The 64-bit FNV-1a hash of `bytes`.
pub open spec fn fnv1a(bytes: Seq<u8>) -> u64
    decreases bytes.len(),
{
    if bytes.len() == 0 {
        FNV_OFFSET
    } else {
        (fnv1a(bytes.drop_last()) ^ (bytes.last() as u64)).wrapping_mul(FNV_PRIME)
    }
}

/// The lowercase hex digit for `d`.
pub open spec fn hex_digit(d: nat) -> char {
    if d < 10 {
        (d + '0' as nat) as char
    } else {
        (d - 10 + 'a' as nat) as char
    }
}

/// `n` as exactly eight lowercase hex digits, as `{:08x}` writes a value below 2^32.
pub open spec fn hex8(n: nat) -> Seq<char> {
    Seq::new(8, |i: int| hex_digit((n / pow16((7 - i) as nat)) % 16))
}

pub open spec fn pow16(k: nat) -> nat
    decreases k,
{
    if k == 0 {
        1
    } else {
        16 * pow16((k - 1) as nat)
    }
}

/// The tail that tells two workspaces with the same name apart: the low 32 bits of the
/// FNV-1a hash of the workspace path's bytes, in hex.
pub open spec fn tail_spec(workspace: Seq<char>) -> Seq<char> {
    hex8((fnv1a(vstd::utf8::encode_utf8(workspace)) as nat) % 0x1_0000_0000)
}

pub fn deterministic_tail(workspace: &str) -> (r: String)
    ensures
        r@ == tail_spec(workspace@),
{
    let bytes = workspace.as_bytes();
    let mut hash: u64 = FNV_OFFSET;
    let mut i: usize = 0;
    while i < bytes.len()
        invariant
            i <= bytes@.len(),
            bytes@ == vstd::utf8::encode_utf8(workspace@),
            hash == fnv1a(bytes@.take(i as int)),
        decreases bytes.len() - i,
    {
        proof {
            assert(bytes@.take(i + 1).drop_last() =~= bytes@.take(i as int));
            assert(bytes@.take(i + 1).last() == bytes@[i as int]);
        }
        hash = (hash ^ (bytes[i] as u64)).wrapping_mul(FNV_PRIME);
        i += 1;
    }
    assert(bytes@.take(bytes@.len() as int) =~= bytes@);
    let low: u64 = hash % 0x1_0000_0000;
    let mut r = String::new();
    let mut k: usize = 0;
    let mut div: u64 = 0x1000_0000;
    assert(pow16(7) == 0x1000_0000) by {
        reveal_with_fuel(pow16, 8);
    }
    while k < 8
        invariant
            k <= 8,
            low < 0x1_0000_0000,
            div as nat == pow16((7 - k) as nat) || k == 8,
            r@ == hex8(low as nat).take(k as int),
        decreases 8 - k,
    {
        proof {
            reveal_with_fuel(pow16, 8);
        }
        let d: u64 = (low / div) % 16;
        let c: char = if d < 10 {
            ((d as u8) + 48) as char
        } else {
            ((d as u8) + 87) as char
        };
        push_char_hex(&mut r, c);
        assert(r@ =~= hex8(low as nat).take(k + 1));
        k += 1;
        if k < 8 {
            div = div / 16;
        }
    }
    assert(hex8(low as nat).take(8) =~= hex8(low as nat));
    r
}

fn push_char_hex(s: &mut String, c: char)
    ensures
        final(s)@ == old(s)@.push(c),
{
    crate::text::push_char(s, c);
}

/// The slug a workspace's session is named by: that of its last component, or of the whole
/// path where it has none.
pub open spec fn workspace_slug(workspace: Seq<char>) -> Seq<char> {
    match path_file_name(workspace) {
        Some(name) => slug_spec(name),
        None => slug_spec(workspace),
    }
}

/// `niles-{slug}-{tail}`: a name that depends on the workspace path alone.
pub open spec fn deterministic_name(workspace: Seq<char>) -> Seq<char> {
    "niles-"@ + workspace_slug(workspace) + "-"@ + tail_spec(workspace)
}

pub fn deterministic_session(workspace: &str) -> (r: SessionName)
    ensures
        r@ == deterministic_name(workspace@),
{
    let slug = match file_name(workspace) {
        Some(name) => slugify(name.as_str()),
        None => slugify(workspace),
    };
    let mut name = owned("niles-");
    push_str(&mut name, slug.as_str());
    push_str(&mut name, "-");
    push_str(&mut name, deterministic_tail(workspace).as_str());
    proof {
        reveal_strlit("niles-");
    }
    match SessionName::new(name) {
        Ok(session) => session,
        Err(_) => {
            assert(false);
            SessionName::new(owned("niles")).unwrap()
        },
    }
}

/// The tmux session named by the latest manager session's recorded window.
pub open spec fn manager_session_reading(window: Option<Seq<char>>) -> Result<Option<Seq<char>>, Seq<char>> {
    match window {
        None => Ok(None),
        Some(w) => if w.len() == 0 {
            Ok(None)
        } else {
            match target_reading(w) {
                Ok(t) => Ok(Some(t.session)),
                Err(e) => Err("latest manager session window is invalid: "@ + w + ": "@ + e),
            }
        },
    }
}

pub fn manager_session(window: Option<String>) -> (r: Result<Option<SessionName>, String>)
    ensures
        match manager_session_reading(match window {
            Some(w) => Some(w@),
            None => None,
        }) {
            Ok(None) => r matches Ok(None),
            Ok(Some(s)) => r matches Ok(Some(n)) && n@ == s,
            Err(e) => r matches Err(m) && m@ == e,
        },
{
    match window {
        None => Ok(None),
        Some(w) => {
            if is_empty_str(w.as_str()) {
                return Ok(None);
            }
            match WindowTarget::parse(w.as_str()) {
                Ok(target) => Ok(Some(target.session().duplicate())),
                Err(e) => {
                    let mut m = owned("latest manager session window is invalid: ");
                    push_str(&mut m, w.as_str());
                    push_str(&mut m, ": ");
                    push_str(&mut m, e.as_str());
                    Err(m)
                },
            }
        },
    }
}

/// Where the workspace's tmux session came from, and whether the pointer file is rewritten.
pub enum WorkspaceSessionChoice {
    /// The latest manager session's, which is live: the pointer is rewritten to it.
    Manager(SessionName),
    /// The pointer's, which is live: left as it is.
    Pointer(SessionName),
    /// The deterministic name: the pointer is rewritten to it.
    Deterministic(SessionName),
}

/// The session each choice settles on.
pub open spec fn choice_session(c: WorkspaceSessionChoice) -> Seq<char> {
    match c {
        WorkspaceSessionChoice::Manager(s) => s@,
        WorkspaceSessionChoice::Pointer(s) => s@,
        WorkspaceSessionChoice::Deterministic(s) => s@,
    }
}

/// A live manager session wins, then a live pointer, then the deterministic name. `manager` and
/// `pointer` carry each candidate with whether tmux reported it live.
pub fn choose_workspace_session(
    manager: Option<(SessionName, bool)>,
    pointer: Option<(SessionName, bool)>,
    workspace: &str,
) -> (r: WorkspaceSessionChoice)
    ensures
        match (manager, pointer) {
            (Some((m, true)), _) => r matches WorkspaceSessionChoice::Manager(s) && s@ == m@,
            (_, Some((p, true))) => r matches WorkspaceSessionChoice::Pointer(s) && s@ == p@,
            _ => r matches WorkspaceSessionChoice::Deterministic(s) && s@ == deterministic_name(
                workspace@,
            ),
        },
{
    if let Some((m, live)) = manager {
        if live {
            return WorkspaceSessionChoice::Manager(m);
        }
    }
    if let Some((p, live)) = pointer {
        if live {
            return WorkspaceSessionChoice::Pointer(p);
        }
    }
    WorkspaceSessionChoice::Deterministic(deterministic_session(workspace))
}

/// In text order.
pub open spec fn sorted_texts(s: Seq<Seq<char>>) -> bool {
    forall|i: int, j: int| 0 <= i < j < s.len() ==> text_le(#[trigger] s[i], #[trigger] s[j])
}

/// `ids` in text order.
pub fn sort_texts(ids: &Vec<String>) -> (r: Vec<String>)
    ensures
        sorted_texts(texts(r@)),
        texts(r@).to_multiset() == texts(ids@).to_multiset(),
{
    let mut r: Vec<String> = Vec::new();
    let mut i: usize = 0;
    assert(texts(r@) =~= texts(ids@).take(0));
    while i < ids.len()
        invariant
            i <= ids@.len(),
            sorted_texts(texts(r@)),
            texts(r@).to_multiset() == texts(ids@).take(i as int).to_multiset(),
        decreases ids.len() - i,
    {
        let x = owned(ids[i].as_str());
        let mut p: usize = 0;
        while p < r.len() && str_le(r[p].as_str(), x.as_str())
            invariant
                p <= r@.len(),
                forall|k: int| 0 <= k < p ==> text_le(#[trigger] r@[k]@, x@),
            decreases r.len() - p,
        {
            p += 1;
        }
        let ghost before = texts(r@);
        proof {
            if p < r@.len() {
                lemma_text_le_total(r@[p as int]@, x@);
            }
            assert forall|k: int| p <= k < before.len() implies text_le(x@, #[trigger] before[k]) by {
                if k > p {
                    lemma_text_le_transitive(x@, before[p as int], before[k]);
                }
            }
        }
        r.insert(p, x);
        proof {
            assert(texts(r@) =~= before.insert(p as int, ids@[i as int]@));
            vstd::seq_lib::to_multiset_insert(before, p as int, ids@[i as int]@);
            assert(texts(ids@).take(i + 1) =~= texts(ids@).take(i as int).push(ids@[i as int]@));
            vstd::seq_lib::to_multiset_build(texts(ids@).take(i as int), ids@[i as int]@);
        }
        i += 1;
    }
    assert(texts(ids@).take(ids@.len() as int) =~= texts(ids@));
    r
}

/// Text order leaves one way to arrange a collection of ids: two sorted sequences with the same
/// elements are the same sequence.
pub proof fn lemma_sorted_texts_unique(a: Seq<Seq<char>>, b: Seq<Seq<char>>)
    requires
        sorted_texts(a),
        sorted_texts(b),
        a.to_multiset() == b.to_multiset(),
    ensures
        a == b,
    decreases a.len(),
{
    vstd::seq_lib::to_multiset_len(a);
    vstd::seq_lib::to_multiset_len(b);
    if a.len() == 0 {
        assert(a =~= b);
    } else {
        vstd::seq_lib::to_multiset_contains(b, a[0]);
        vstd::seq_lib::to_multiset_contains(a, a[0]);
        vstd::seq_lib::to_multiset_contains(a, b[0]);
        vstd::seq_lib::to_multiset_contains(b, b[0]);
        assert(a.contains(a[0]));
        assert(b.contains(a[0]));
        let k = choose|k: int| 0 <= k < b.len() && b[k] == a[0];
        if k > 0 {
            assert(text_le(b[0], b[k]));
        } else {
            crate::text::lemma_text_le_reflexive(b[0]);
        }
        assert(b.contains(b[0]));
        assert(a.contains(b[0]));
        let j = choose|j: int| 0 <= j < a.len() && a[j] == b[0];
        if j > 0 {
            assert(text_le(a[0], a[j]));
        } else {
            crate::text::lemma_text_le_reflexive(a[0]);
        }
        crate::text::lemma_text_le_antisymmetric(a[0], b[0]);
        vstd::seq_lib::to_multiset_remove(a, 0);
        vstd::seq_lib::to_multiset_remove(b, 0);
        assert(a.remove(0) =~= a.drop_first());
        assert(b.remove(0) =~= b.drop_first());
        assert(sorted_texts(a.drop_first())) by {
            assert forall|i: int, j2: int| 0 <= i < j2 < a.drop_first().len() implies text_le(
                #[trigger] a.drop_first()[i],
                #[trigger] a.drop_first()[j2],
            ) by {
                assert(a.drop_first()[i] == a[i + 1]);
                assert(a.drop_first()[j2] == a[j2 + 1]);
            }
        }
        assert(sorted_texts(b.drop_first())) by {
            assert forall|i: int, j2: int| 0 <= i < j2 < b.drop_first().len() implies text_le(
                #[trigger] b.drop_first()[i],
                #[trigger] b.drop_first()[j2],
            ) by {
                assert(b.drop_first()[i] == b[i + 1]);
                assert(b.drop_first()[j2] == b[j2 + 1]);
            }
        }
        lemma_sorted_texts_unique(a.drop_first(), b.drop_first());
        assert(a =~= b) by {
            assert forall|i: int| 0 <= i < a.len() implies a[i] == b[i] by {
                if i > 0 {
                    assert(a[i] == a.drop_first()[i - 1]);
                    assert(b[i] == b.drop_first()[i - 1]);
                }
            }
        }
    }
}

/// What the lead is told of the workers it inherits: their ids in text order, or `none`.
pub open spec fn startup_text(sorted: Seq<Seq<char>>) -> Seq<char> {
    if sorted.len() == 0 {
        "worker: none"@
    } else {
        "worker: "@ + joined_ids(sorted)
    }
}

pub fn startup_context(ids: &Vec<String>) -> (r: String)
    ensures
        exists|s: Seq<Seq<char>>|
            sorted_texts(s) && s.to_multiset() == texts(ids@).to_multiset() && r@ == startup_text(s),
{
    let sorted = sort_texts(ids);
    proof {
        vstd::seq_lib::to_multiset_len(texts(sorted@));
        vstd::seq_lib::to_multiset_len(texts(ids@));
    }
    if sorted.len() == 0 {
        let r = owned("worker: none");
        assert(sorted_texts(texts(sorted@)) && r@ == startup_text(texts(sorted@)));
        return r;
    }
    let mut r = owned("worker: ");
    let ghost head = r@;
    let mut i: usize = 0;
    while i < sorted.len()
        invariant
            0 < sorted@.len(),
            i <= sorted@.len(),
            head == "worker: "@,
            r@ == head + joined_ids(texts(sorted@).take(i as int)),
        decreases sorted.len() - i,
    {
        let ghost at = texts(sorted@).take(i as int);
        assert(texts(sorted@).take(i + 1).drop_last() =~= at);
        if i > 0 {
            push_str(&mut r, ", ");
        }
        push_str(&mut r, sorted[i].as_str());
        assert(r@ =~= head + joined_ids(texts(sorted@).take(i + 1)));
        i += 1;
    }
    assert(texts(sorted@).take(sorted@.len() as int) =~= texts(sorted@));
    assert(r@ == startup_text(texts(sorted@)));
    r
}

/// How far bare `niles` has got in turning this pane into the lead.
#[derive(Clone, Copy, Debug, PartialEq, Eq, Structural)]
pub enum LaunchState {
    /// Nothing done yet: the tmux session is checked first.
    Start,
    /// Creating `.niles/worker` in the workspace.
    CreatingWorkerDir,
    /// Making sure the workspace manifest exists, prompting for it where it does not.
    EnsuringManifest,
    /// The lead agent runs in this pane.
    RunningLead,
    /// Over.
    Finished,
}

/// What bare `niles` learned since the last step.
#[derive(Debug, PartialEq, Eq)]
pub enum LaunchEvent {
    /// Whether the process runs inside tmux, and the session name tmux reports for it.
    Session { in_tmux: bool, name: Option<String> },
    /// What the action just taken came to.
    Completed(Result<(), String>),
}

/// What bare `niles` does next.
#[derive(Debug, PartialEq, Eq)]
pub enum LaunchAction {
    CreateWorkerDir,
    EnsureManifest,
    LaunchLead,
    /// Stop, with this result.
    Exit(Result<(), String>),
}

/// The event each state waits for; a finished launch waits for none.
pub open spec fn launch_accepts(state: LaunchState, event: LaunchEvent) -> bool {
    match (state, event) {
        (LaunchState::Start, LaunchEvent::Session { .. }) => true,
        (LaunchState::CreatingWorkerDir, LaunchEvent::Completed(_)) => true,
        (LaunchState::EnsuringManifest, LaunchEvent::Completed(_)) => true,
        (LaunchState::RunningLead, LaunchEvent::Completed(_)) => true,
        _ => false,
    }
}

/// One step of bare `niles`. The tmux session is checked before anything else, so that being
/// outside tmux (or in a session tmux cannot name) fails with one line and no setup: no
/// directory created and no prompt. Then the prelude creates `.niles/worker` and ensures the
/// manifest, and the lead runs; any failure along the way ends the launch with that error, and
/// the lead's own exit ends it with the lead's result.
pub open spec fn launch_follows(state: LaunchState, event: LaunchEvent, next: LaunchState, action: LaunchAction) -> bool {
    match event {
        LaunchEvent::Session { in_tmux, name } => match session_refusal(
            in_tmux,
            match name {
                Some(n) => Some(n@),
                None => None,
            },
        ) {
            Some(m) => next == LaunchState::Finished && (action matches LaunchAction::Exit(Err(e))
                && e@ == m),
            None => next == LaunchState::CreatingWorkerDir && action == LaunchAction::CreateWorkerDir,
        },
        LaunchEvent::Completed(r) => match r {
            Err(e) => next == LaunchState::Finished && action == LaunchAction::Exit(Err(e)),
            Ok(()) => match state {
                LaunchState::CreatingWorkerDir => next == LaunchState::EnsuringManifest && action
                    == LaunchAction::EnsureManifest,
                LaunchState::EnsuringManifest => next == LaunchState::RunningLead && action
                    == LaunchAction::LaunchLead,
                _ => next == LaunchState::Finished && action == LaunchAction::Exit(Ok(())),
            },
        },
    }
}

/// Whether `event` is the one `state` waits for.
pub fn launch_accepts_event(state: LaunchState, event: &LaunchEvent) -> (r: bool)
    ensures
        r == launch_accepts(state, *event),
{
    match (state, event) {
        (LaunchState::Start, LaunchEvent::Session { .. }) => true,
        (LaunchState::CreatingWorkerDir, LaunchEvent::Completed(_)) => true,
        (LaunchState::EnsuringManifest, LaunchEvent::Completed(_)) => true,
        (LaunchState::RunningLead, LaunchEvent::Completed(_)) => true,
        _ => false,
    }
}

/// Takes in what bare `niles` learned and says what it does next.
pub fn launch_step(state: LaunchState, event: LaunchEvent) -> (r: (LaunchState, LaunchAction))
    requires
        launch_accepts(state, event),
    ensures
        launch_follows(state, event, r.0, r.1),
{
    match event {
        LaunchEvent::Session { in_tmux, name } => match current_session(in_tmux, name) {
            Err(e) => (LaunchState::Finished, LaunchAction::Exit(Err(e))),
            Ok(_) => (LaunchState::CreatingWorkerDir, LaunchAction::CreateWorkerDir),
        },
        LaunchEvent::Completed(r) => match r {
            Err(e) => (LaunchState::Finished, LaunchAction::Exit(Err(e))),
            Ok(()) => match state {
                LaunchState::CreatingWorkerDir => (LaunchState::EnsuringManifest, LaunchAction::EnsureManifest),
                LaunchState::EnsuringManifest => (LaunchState::RunningLead, LaunchAction::LaunchLead),
                _ => (LaunchState::Finished, LaunchAction::Exit(Ok(()))),
            },
        },
    }
}

/// Outside tmux, bare `niles` stops at its first step with the one line of guidance, and a
/// finished launch takes no further step: no directory is created, no manifest prompted for,
/// no lead started.
pub proof fn lemma_outside_tmux_sets_nothing_up(name: Option<String>, next: LaunchState, action: LaunchAction, later: LaunchEvent)
    requires
        launch_follows(LaunchState::Start, LaunchEvent::Session { in_tmux: false, name }, next, action),
    ensures
        next == LaunchState::Finished,
        action matches LaunchAction::Exit(Err(e)) && e@ == outside_tmux_text(),
        !launch_accepts(next, later),
{
}

} // verus!
