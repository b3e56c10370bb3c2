//! The wake contract: the status lines a worker appends, and which of them wake the lead.
use vstd::prelude::*;

use crate::paths::join_path;
use crate::text::{chars_of, find_first, index_of, owned, push_str, str_eq, string_of_range};

verus! {

/// The state a status line reports.
#[derive(Clone, Copy, Debug, PartialEq, Eq, Structural)]
pub enum WakeKind {
    Done,
    Failed,
    Blocked,
    NeedsDecision,
    Closed,
    Working,
}

/// The spelling of each state, as it opens a status line.
pub open spec fn wake_kind_name(kind: WakeKind) -> Seq<char> {
    match kind {
        WakeKind::Done => "done"@,
        WakeKind::Failed => "failed"@,
        WakeKind::Blocked => "blocked"@,
        WakeKind::NeedsDecision => "needs-decision"@,
        WakeKind::Closed => "closed"@,
        WakeKind::Working => "working"@,
    }
}

/// The state spelled exactly `s`, case-sensitively.
pub open spec fn wake_kind_from(s: Seq<char>) -> Option<WakeKind> {
    if s == "done"@ {
        Some(WakeKind::Done)
    } else if s == "failed"@ {
        Some(WakeKind::Failed)
    } else if s == "blocked"@ {
        Some(WakeKind::Blocked)
    } else if s == "needs-decision"@ {
        Some(WakeKind::NeedsDecision)
    } else if s == "closed"@ {
        Some(WakeKind::Closed)
    } else if s == "working"@ {
        Some(WakeKind::Working)
    } else {
        None
    }
}

/// The state a line reports: the text before its first `:`, spelled exactly.
pub open spec fn wake_kind_of_line(line: Seq<char>) -> Option<WakeKind> {
    match find_first(line, ':') {
        Some(i) => wake_kind_from(line.take(i)),
        None => None,
    }
}

/// Every state but `working:` asks the lead to look.
pub open spec fn kind_is_actionable(kind: WakeKind) -> bool {
    kind != WakeKind::Working
}

/// A line wakes the lead when it opens with an actionable state.
pub open spec fn line_is_actionable(line: Seq<char>) -> bool {
    wake_kind_of_line(line) matches Some(k) && kind_is_actionable(k)
}

/// A line closes the worker when it opens with `closed:`.
pub open spec fn line_is_closed(line: Seq<char>) -> bool {
    wake_kind_of_line(line) == Some(WakeKind::Closed)
}

/// `kind: detail`.
pub open spec fn wake_line(kind: WakeKind, detail: Seq<char>) -> Seq<char> {
    wake_kind_name(kind) + ": "@ + detail
}

impl WakeKind {
    pub fn parse(value: &str) -> (r: Option<WakeKind>)
        ensures
            r == wake_kind_from(value@),
    {
        if str_eq(value, "done") {
            Some(WakeKind::Done)
        } else if str_eq(value, "failed") {
            Some(WakeKind::Failed)
        } else if str_eq(value, "blocked") {
            Some(WakeKind::Blocked)
        } else if str_eq(value, "needs-decision") {
            Some(WakeKind::NeedsDecision)
        } else if str_eq(value, "closed") {
            Some(WakeKind::Closed)
        } else if str_eq(value, "working") {
            Some(WakeKind::Working)
        } else {
            None
        }
    }

    pub fn parse_line(line: &str) -> (r: Option<WakeKind>)
        ensures
            r == wake_kind_of_line(line@),
    {
        let chars = chars_of(line);
        match index_of(&chars, ':') {
            Some(i) => {
                let state = string_of_range(&chars, 0, i);
                proof {
                    assert(chars@.subrange(0, i as int) =~= line@.take(i as int));
                }
                WakeKind::parse(state.as_str())
            },
            None => None,
        }
    }

    pub fn is_actionable(self) -> (r: bool)
        ensures
            r == kind_is_actionable(self),
    {
        !matches!(self, WakeKind::Working)
    }

    pub fn is_terminal(self) -> (r: bool)
        ensures
            r == (self == WakeKind::Closed),
    {
        matches!(self, WakeKind::Closed)
    }

    /// The spelling, as the status line writes it.
    pub fn as_str(self) -> (r: &'static str)
        ensures
            r@ == wake_kind_name(self),
    {
        match self {
            WakeKind::Done => "done",
            WakeKind::Failed => "failed",
            WakeKind::Blocked => "blocked",
            WakeKind::NeedsDecision => "needs-decision",
            WakeKind::Closed => "closed",
            WakeKind::Working => "working",
        }
    }

    /// The spelling as an owned string.
    pub fn to_string(self) -> (r: String)
        ensures
            r@ == wake_kind_name(self),
    {
        owned(self.as_str())
    }
}

/// Every state parses back from its own spelling.
pub proof fn lemma_wake_kind_round_trip(kind: WakeKind)
    ensures
        wake_kind_from(wake_kind_name(kind)) == Some(kind),
{
    reveal_strlit("done");
    reveal_strlit("failed");
    reveal_strlit("blocked");
    reveal_strlit("needs-decision");
    reveal_strlit("closed");
    reveal_strlit("working");
    match kind {
        WakeKind::Done => {},
        WakeKind::Failed => {
            assert("done"@ != "failed"@) by { assert("done"@.len() != "failed"@.len()); }
        },
        WakeKind::Blocked => {
            assert("done"@[0] != "blocked"@[0]);
            assert("failed"@[0] != "blocked"@[0]);
        },
        WakeKind::NeedsDecision => {
            assert("done"@[0] != "needs-decision"@[0]);
            assert("failed"@[0] != "needs-decision"@[0]);
            assert("blocked"@[0] != "needs-decision"@[0]);
        },
        WakeKind::Closed => {
            assert("done"@[0] != "closed"@[0]);
            assert("failed"@[0] != "closed"@[0]);
            assert("blocked"@[0] != "closed"@[0]);
            assert("needs-decision"@[0] != "closed"@[0]);
        },
        WakeKind::Working => {
            assert("done"@[0] != "working"@[0]);
            assert("failed"@[0] != "working"@[0]);
            assert("blocked"@[0] != "working"@[0]);
            assert("needs-decision"@[0] != "working"@[0]);
            assert("closed"@[0] != "working"@[0]);
        },
    }
}

/// A line written by `line` reports the state it was written with.
pub proof fn lemma_wake_line_reports_its_kind(kind: WakeKind, detail: Seq<char>)
    ensures
        wake_kind_of_line(wake_line(kind, detail)) == Some(kind),
{
    reveal_strlit("done");
    reveal_strlit("failed");
    reveal_strlit("blocked");
    reveal_strlit("needs-decision");
    reveal_strlit("closed");
    reveal_strlit("working");
    reveal_strlit(": ");
    let name = wake_kind_name(kind);
    let l = wake_line(kind, detail);
    assert(forall|j: int| 0 <= j < name.len() ==> name[j] != ':');
    assert(l[name.len() as int] == ':');
    crate::text::lemma_find_first(l, ':');
    assert(crate::text::is_first_index(l, ':', name.len() as int));
    assert(l.take(name.len() as int) =~= name);
    lemma_wake_kind_round_trip(kind);
}

/// The states that wake the lead are exactly `done`, `failed`, `blocked`, `needs-decision` and
/// `closed`: a line that opens with one of them and `: ` is actionable whatever follows, and a
/// `working: ` progress note never is.
pub proof fn lemma_actionable_lines(detail: Seq<char>)
    ensures
        line_is_actionable("done: "@ + detail),
        line_is_actionable("failed: "@ + detail),
        line_is_actionable("blocked: "@ + detail),
        line_is_actionable("needs-decision: "@ + detail),
        line_is_actionable("closed: "@ + detail),
        !line_is_actionable("working: "@ + detail),
        forall|k: WakeKind| #[trigger] line_is_actionable(wake_line(k, detail)) <==> k != WakeKind::Working,
{
    reveal_strlit("done");
    reveal_strlit("failed");
    reveal_strlit("blocked");
    reveal_strlit("needs-decision");
    reveal_strlit("closed");
    reveal_strlit("working");
    reveal_strlit(": ");
    reveal_strlit("done: ");
    reveal_strlit("failed: ");
    reveal_strlit("blocked: ");
    reveal_strlit("needs-decision: ");
    reveal_strlit("closed: ");
    reveal_strlit("working: ");
    assert forall|k: WakeKind| #[trigger] line_is_actionable(wake_line(k, detail)) <==> k != WakeKind::Working by {
        lemma_wake_line_reports_its_kind(k, detail);
    }
    assert("done: "@ + detail =~= wake_line(WakeKind::Done, detail));
    assert("failed: "@ + detail =~= wake_line(WakeKind::Failed, detail));
    assert("blocked: "@ + detail =~= wake_line(WakeKind::Blocked, detail));
    assert("needs-decision: "@ + detail =~= wake_line(WakeKind::NeedsDecision, detail));
    assert("closed: "@ + detail =~= wake_line(WakeKind::Closed, detail));
    assert("working: "@ + detail =~= wake_line(WakeKind::Working, detail));
    assert(line_is_actionable(wake_line(WakeKind::Done, detail)));
    assert(line_is_actionable(wake_line(WakeKind::Failed, detail)));
    assert(line_is_actionable(wake_line(WakeKind::Blocked, detail)));
    assert(line_is_actionable(wake_line(WakeKind::NeedsDecision, detail)));
    assert(line_is_actionable(wake_line(WakeKind::Closed, detail)));
    assert(!line_is_actionable(wake_line(WakeKind::Working, detail)));
}

/// `kind: detail`, the status line a worker appends.
pub fn line(kind: WakeKind, detail: &str) -> (r: String)
    ensures
        r@ == wake_line(kind, detail@),
{
    let mut r = kind.to_string();
    push_str(&mut r, ": ");
    push_str(&mut r, detail);
    r
}

pub fn is_actionable_wake(line: &str) -> (r: bool)
    ensures
        r == line_is_actionable(line@),
{
    match WakeKind::parse_line(line) {
        Some(kind) => kind.is_actionable(),
        None => false,
    }
}

pub fn is_closed_wake(line: &str) -> (r: bool)
    ensures
        r == line_is_closed(line@),
{
    match WakeKind::parse_line(line) {
        Some(kind) => kind.is_terminal(),
        None => false,
    }
}

/// `<dir>/status.log`.
pub fn status_log_path(dir: &str) -> (r: String)
    ensures
        r@ == crate::paths::joined_path(dir@, "status.log"@),
{
    join_path(dir, "status.log")
}

/// One `echo "<line>" >> <target>` per line, joined by newlines.
pub open spec fn echo_examples(lines: Seq<Seq<char>>, target: Seq<char>) -> Seq<char>
    decreases lines.len(),
{
    if lines.len() == 0 {
        Seq::empty()
    } else if lines.len() == 1 {
        echo_example(lines[0], target)
    } else {
        echo_examples(lines.drop_last(), target) + "\n"@ + echo_example(lines.last(), target)
    }
}

/// `echo "<line>" >> <target>`.
pub open spec fn echo_example(line: Seq<char>, target: Seq<char>) -> Seq<char> {
    "echo \""@ + line + "\" >> "@ + target
}

pub fn render_echo_examples(lines: &Vec<String>, status_target: &str) -> (r: String)
    ensures
        r@ == echo_examples(lines@.map_values(|l: String| l@), status_target@),
{
    let ghost views = lines@.map_values(|l: String| l@);
    let mut r = String::new();
    let mut i: usize = 0;
    while i < lines.len()
        invariant
            i <= lines@.len(),
            views == lines@.map_values(|l: String| l@),
            r@ == echo_examples(views.take(i as int), status_target@),
        decreases lines.len() - i,
    {
        if i != 0 {
            push_str(&mut r, "\n");
        }
        push_str(&mut r, "echo \"");
        push_str(&mut r, lines[i].as_str());
        push_str(&mut r, "\" >> ");
        push_str(&mut r, status_target);
        proof {
            assert(views.take(i + 1).drop_last() =~= views.take(i as int));
            assert(views.take(i + 1).last() == lines@[i as int]@);
        }
        i += 1;
    }
    assert(views.take(lines@.len() as int) =~= views);
    r
}

/// The four status lines a worker's brief teaches it to write.
pub open spec fn worker_example_lines() -> Seq<Seq<char>> {
    seq![
        wake_line(WakeKind::Done, "short result"@),
        wake_line(WakeKind::Blocked, "blocker summary"@),
        wake_line(WakeKind::NeedsDecision, "decision needed"@),
        wake_line(WakeKind::Failed, "failure summary"@),
    ]
}

/// The worker's four lines, plus the `closed:` line the lead may write for it.
pub open spec fn manager_example_lines() -> Seq<Seq<char>> {
    worker_example_lines().push(wake_line(WakeKind::Closed, "worker closed"@))
}

pub fn worker_contract_examples_for_target(status_target: &str) -> (r: String)
    ensures
        r@ == echo_examples(worker_example_lines(), status_target@),
{
    let lines = vec![
        line(WakeKind::Done, "short result"),
        line(WakeKind::Blocked, "blocker summary"),
        line(WakeKind::NeedsDecision, "decision needed"),
        line(WakeKind::Failed, "failure summary"),
    ];
    assert(lines@.map_values(|l: String| l@) =~= worker_example_lines());
    render_echo_examples(&lines, status_target)
}

pub fn manager_worker_contract_examples(status_target: &str) -> (r: String)
    ensures
        r@ == echo_examples(manager_example_lines(), status_target@),
{
    let lines = vec![
        line(WakeKind::Done, "short result"),
        line(WakeKind::Blocked, "blocker summary"),
        line(WakeKind::NeedsDecision, "decision needed"),
        line(WakeKind::Failed, "failure summary"),
        line(WakeKind::Closed, "worker closed"),
    ];
    assert(lines@.map_values(|l: String| l@) =~= manager_example_lines());
    render_echo_examples(&lines, status_target)
}

/// The worker contract examples, aimed at a status log path.
pub fn worker_contract_examples(status_path: &str) -> (r: String)
    ensures
        r@ == echo_examples(worker_example_lines(), status_path@),
{
    worker_contract_examples_for_target(status_path)
}

} // verus!

verus! {

/// The last actionable line in a worker's status log: its kind, and the byte offset just past
/// it.
#[derive(Clone, Copy, Debug, PartialEq, Eq, Structural)]
pub struct ActionableWake {
    pub end: u64,
    pub kind: WakeKind,
}

} // verus!
