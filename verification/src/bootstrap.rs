//! Getting the manager into a tmux session: continue inside one, start one, or ask which live
//! session to attach to.
use vstd::prelude::*;

use crate::text::texts;

use crate::digits::{decimal, parse_u64_spec, parse_u64_str, push_decimal};
use crate::text::{
    is_empty_str, lines_of, lines_of_chars, chars_of, owned, push_str, str_eq, trim,
    trim_str,
};

verus! {

/// The session bare `niles` starts, or offers when it already exists.
pub const FOREGROUND_TMUX_SESSION: &'static str = "niles";

/// Whether stdin and stdout are terminals.
#[derive(Clone, Copy, Debug, PartialEq, Eq, Structural)]
pub struct TerminalMode {
    pub stdin: bool,
    pub stdout: bool,
}

impl TerminalMode {
    pub fn interactive(self) -> (r: bool)
        ensures
            r == (self.stdin && self.stdout),
    {
        self.stdin && self.stdout
    }
}

/// What bare `niles` does about tmux.
#[derive(Clone, Copy, Debug, PartialEq, Eq)]
pub enum TmuxLaunchAction {
    ContinueHere,
    StartSession { session: &'static str },
    PromptExistingSession,
}

/// `$TMUX` names a session when it is set to something other than whitespace.
pub open spec fn session_present(tmux: Option<Seq<char>>) -> bool {
    tmux matches Some(v) && trim(v).len() > 0
}

pub fn tmux_session_present(tmux: Option<&str>) -> (r: bool)
    ensures
        r == session_present(
            match tmux {
                Some(v) => Some(v@),
                None => None,
            },
        ),
{
    match tmux {
        Some(v) => !is_empty_str(trim_str(v).as_str()),
        None => false,
    }
}

pub open spec fn no_tty_text() -> Seq<char> {
    "Niles must launch the foreground manager from an attached tmux session. Because stdin and stdout are not both TTYs, Niles will not auto-start tmux; start or attach tmux interactively and run `niles` again."@
}

/// Inside tmux, continue; without both terminals, refuse; otherwise prompt when there is a
/// session to offer and start the default one when there is none.
pub fn tmux_launch_action(
    tmux: Option<&str>,
    terminal: TerminalMode,
    foreground_session_exists: bool,
) -> (r: Result<TmuxLaunchAction, String>)
    ensures
        session_present(
            match tmux {
                Some(v) => Some(v@),
                None => None,
            },
        ) ==> r == Ok::<TmuxLaunchAction, String>(TmuxLaunchAction::ContinueHere),
        !session_present(
            match tmux {
                Some(v) => Some(v@),
                None => None,
            },
        ) ==> {
            &&& !(terminal.stdin && terminal.stdout) ==> (r matches Err(e) && e@ == no_tty_text())
            &&& terminal.stdin && terminal.stdout && foreground_session_exists ==> r == Ok::<
                TmuxLaunchAction,
                String,
            >(TmuxLaunchAction::PromptExistingSession)
            &&& terminal.stdin && terminal.stdout && !foreground_session_exists ==> (r matches Ok(
                TmuxLaunchAction::StartSession { session },
            ) && session@ == FOREGROUND_TMUX_SESSION@)
        },
{
    if tmux_session_present(tmux) {
        return Ok(TmuxLaunchAction::ContinueHere);
    }
    if !terminal.interactive() {
        return Err(
            owned(
                "Niles must launch the foreground manager from an attached tmux session. Because stdin and stdout are not both TTYs, Niles will not auto-start tmux; start or attach tmux interactively and run `niles` again.",
            ),
        );
    }
    if foreground_session_exists {
        Ok(TmuxLaunchAction::PromptExistingSession)
    } else {
        Ok(TmuxLaunchAction::StartSession { session: FOREGROUND_TMUX_SESSION })
    }
}

/// `live` without `default`, in order.
pub open spec fn without(live: Seq<Seq<char>>, default: Seq<char>) -> Seq<Seq<char>>
    decreases live.len(),
{
    if live.len() == 0 {
        live
    } else {
        let rest = without(live.drop_last(), default);
        if live.last() == default {
            rest
        } else {
            rest.push(live.last())
        }
    }
}

/// Every session bare `niles` could attach to: `default` first where it exists, then each live
/// Niles session other than it.
pub open spec fn candidates_spec(default: Seq<char>, default_exists: bool, live: Seq<Seq<char>>) -> Seq<
    Seq<char>,
> {
    if default_exists {
        seq![default] + without(live, default)
    } else {
        without(live, default)
    }
}

pub fn session_candidates(default_session: &str, default_exists: bool, live: &Vec<String>) -> (r: Vec<
    String,
>)
    ensures
        texts(r@) == candidates_spec(default_session@, default_exists, texts(live@)),
{
    let mut r: Vec<String> = Vec::new();
    if default_exists {
        r.push(owned(default_session));
    }
    let ghost head = texts(r@);
    let mut i: usize = 0;
    while i < live.len()
        invariant
            i <= live@.len(),
            head == (if default_exists {
                seq![default_session@]
            } else {
                Seq::empty()
            }),
            texts(r@) == head + without(texts(live@).take(i as int), default_session@),
        decreases live.len() - i,
    {
        let ghost before = texts(r@);
        proof {
            let t = texts(live@).take(i + 1);
            assert(t.drop_last() =~= texts(live@).take(i as int));
            assert(t.last() == live@[i as int]@);
        }
        if !str_eq(live[i].as_str(), default_session) {
            r.push(owned(live[i].as_str()));
            assert(texts(r@) =~= before.push(live@[i as int]@));
        }
        i += 1;
    }
    assert(texts(live@).take(live@.len() as int) =~= texts(live@));
    r
}

/// Why tmux could not address a session by this name, if it could not: an empty name, or one
/// holding `:` or `.`, which tmux reads as target separators.
pub open spec fn unaddressable_spec(session: Seq<char>) -> Option<Seq<char>> {
    if session.len() == 0 {
        Some("session name cannot be empty"@)
    } else if session.contains(':') || session.contains('.') {
        Some("tmux reads `:` and `.` as target separators"@)
    } else {
        None
    }
}

pub fn unaddressable_reason(session: &str) -> (r: Option<String>)
    ensures
        match unaddressable_spec(session@) {
            Some(reason) => r matches Some(s) && s@ == reason,
            None => r is None,
        },
{
    let chars = chars_of(session);
    if chars.len() == 0 {
        return Some(owned("session name cannot be empty"));
    }
    let mut i: usize = 0;
    while i < chars.len()
        invariant
            i <= chars@.len(),
            chars@ == session@,
            forall|j: int| 0 <= j < i ==> chars@[j] != ':' && chars@[j] != '.',
        decreases chars.len() - i,
    {
        if chars[i] == ':' || chars[i] == '.' {
            assert(session@.contains(chars@[i as int]));
            return Some(owned("tmux reads `:` and `.` as target separators"));
        }
        i += 1;
    }
    None
}

/// Where the prompt leaves the operator.
#[derive(Clone, Debug, PartialEq, Eq)]
pub enum ExistingSessionAction {
    Attach(String),
    StartNamedSession(String),
}

/// Where a prompt is.
#[derive(Clone, Debug)]
pub enum PromptState {
    /// Waiting for a selection.
    Choosing,
    /// Waiting for a new session's name.
    Naming,
    /// A new name was read; waiting to hear whether tmux already has it.
    Checking(String),
}

/// What the prompt asks of its edge next.
#[derive(Debug)]
pub enum PromptStep {
    /// Write `text`, then read a line.
    Ask(String),
    /// Ask tmux whether this session exists.
    CheckExists(String),
    Finished(ExistingSessionAction),
    Failed(String),
}

/// The interactive choice of a live session to attach to, or a new one to start.
pub struct SessionPrompt {
    pub candidates: Vec<String>,
    pub state: PromptState,
}

pub open spec fn menu_lines(cands: Seq<Seq<char>>) -> Seq<char>
    decreases cands.len(),
{
    if cands.len() == 0 {
        Seq::empty()
    } else {
        menu_lines(cands.drop_last()) + "  "@ + decimal(cands.len()) + ". "@ + cands.last()
            + "\n"@
    }
}

pub open spec fn selection_prompt(n: nat) -> Seq<char> {
    "Selection [1-"@ + decimal(n + 1) + "]: "@
}

/// The menu: every candidate numbered from 1, then the choice of a new name, then the first
/// selection prompt.
pub open spec fn menu_text(cands: Seq<Seq<char>>) -> Seq<char> {
    "Live Niles sessions:\n"@ + menu_lines(cands) + "  "@ + decimal(cands.len() + 1)
        + ". Start a new session with another name.\n"@ + selection_prompt(cands.len())
}

pub open spec fn name_prompt() -> Seq<char> {
    "New tmux session name: "@
}

pub open spec fn taken_text(name: Seq<char>) -> Seq<char> {
    "tmux session `"@ + name + "` already exists.\n"@ + name_prompt()
}

/// The selection a line makes, as `trim().parse::<usize>()` reads it.
pub open spec fn selection_of(line: Seq<char>) -> Option<u64> {
    match parse_u64_spec(trim(line)) {
        Some(v) if v <= usize::MAX => Some(v),
        _ => None,
    }
}

/// The steps of a prompt, as plain values.
pub enum StepView {
    Ask(Seq<char>),
    CheckExists(Seq<char>),
    Attach(Seq<char>),
    StartNamed(Seq<char>),
    Failed(Seq<char>),
}

pub open spec fn step_view(s: PromptStep) -> StepView {
    match s {
        PromptStep::Ask(t) => StepView::Ask(t@),
        PromptStep::CheckExists(n) => StepView::CheckExists(n@),
        PromptStep::Finished(ExistingSessionAction::Attach(n)) => StepView::Attach(n@),
        PromptStep::Finished(ExistingSessionAction::StartNamedSession(n)) => StepView::StartNamed(
            n@,
        ),
        PromptStep::Failed(e) => StepView::Failed(e@),
    }
}

/// A prompt state as plain values: 0 choosing, 1 naming, 2 checking, with the name checked.
pub open spec fn state_view(s: PromptState) -> (int, Seq<char>) {
    match s {
        PromptState::Choosing => (0, Seq::empty()),
        PromptState::Naming => (1, Seq::empty()),
        PromptState::Checking(n) => (2, n@),
    }
}

/// One line read while choosing (`None` when stdin closed): the state after it and the step.
pub open spec fn choosing_step(cands: Seq<Seq<char>>, line: Option<Seq<char>>) -> ((int, Seq<char>), StepView) {
    match line {
        None => ((0, Seq::empty()), StepView::Failed(
            "stdin closed before tmux session selection was read"@,
        )),
        Some(l) => match selection_of(l) {
            Some(c) if c == cands.len() + 1 => ((1, Seq::empty()), StepView::Ask(name_prompt())),
            Some(c) if 1 <= c <= cands.len() => ((0, Seq::empty()), StepView::Attach(
                cands[c - 1],
            )),
            _ => ((0, Seq::empty()), StepView::Ask(
                "Please answer 1 to "@ + decimal(cands.len() + 1) + ".\n"@ + selection_prompt(
                    cands.len(),
                ),
            )),
        },
    }
}

/// One line read while naming: a name already listed is refused at once; any other is checked
/// with tmux.
pub open spec fn naming_step(cands: Seq<Seq<char>>, line: Option<Seq<char>>) -> ((int, Seq<char>), StepView) {
    match line {
        None => ((1, Seq::empty()), StepView::Failed(
            "stdin closed before new tmux session name was read"@,
        )),
        Some(l) => if cands.contains(trim(l)) {
            ((1, Seq::empty()), StepView::Ask(taken_text(trim(l))))
        } else {
            ((2, trim(l)), StepView::CheckExists(trim(l)))
        },
    }
}

/// tmux's answer about a checked name: taken, unaddressable, or the session to start.
pub open spec fn checking_step(name: Seq<char>, exists: bool) -> ((int, Seq<char>), StepView) {
    if exists {
        ((1, Seq::empty()), StepView::Ask(taken_text(name)))
    } else {
        match unaddressable_spec(name) {
            Some(reason) => ((1, Seq::empty()), StepView::Ask(
                "Invalid tmux session name: "@ + reason + ".\n"@ + name_prompt(),
            )),
            None => ((2, name), StepView::StartNamed(name)),
        }
    }
}

fn menu(cands: &Vec<String>) -> (r: String)
    requires
        cands@.len() < usize::MAX,
    ensures
        r@ == menu_text(texts(cands@)),
{
    let mut r = owned("Live Niles sessions:\n");
    let ghost head = r@;
    let mut i: usize = 0;
    while i < cands.len()
        invariant
            i <= cands@.len(),
            cands@.len() < usize::MAX,
            head == "Live Niles sessions:\n"@,
            r@ == head + menu_lines(texts(cands@).take(i as int)),
        decreases cands.len() - i,
    {
        proof {
            let t = texts(cands@).take(i + 1);
            assert(t.drop_last() =~= texts(cands@).take(i as int));
            assert(t.last() == cands@[i as int]@);
            assert(t.len() == i + 1);
        }
        push_str(&mut r, "  ");
        push_decimal(&mut r, (i + 1) as u64);
        push_str(&mut r, ". ");
        push_str(&mut r, cands[i].as_str());
        push_str(&mut r, "\n");
        i += 1;
    }
    assert(texts(cands@).take(cands@.len() as int) =~= texts(cands@));
    push_str(&mut r, "  ");
    push_decimal(&mut r, (cands.len() + 1) as u64);
    push_str(&mut r, ". Start a new session with another name.\n");
    push_str(&mut r, selection_text(cands.len()).as_str());
    r
}

fn selection_text(n: usize) -> (r: String)
    requires
        n < usize::MAX,
    ensures
        r@ == selection_prompt(n as nat),
{
    let mut r = owned("Selection [1-");
    push_decimal(&mut r, (n + 1) as u64);
    push_str(&mut r, "]: ");
    r
}

fn taken(name: &str) -> (r: String)
    ensures
        r@ == taken_text(name@),
{
    let mut r = owned("tmux session `");
    push_str(&mut r, name);
    push_str(&mut r, "` already exists.\n");
    push_str(&mut r, "New tmux session name: ");
    r
}

fn contains_name(cands: &Vec<String>, name: &str) -> (r: bool)
    ensures
        r == texts(cands@).contains(name@),
{
    let mut i: usize = 0;
    while i < cands.len()
        invariant
            i <= cands@.len(),
            forall|j: int| 0 <= j < i ==> cands@[j]@ != name@,
        decreases cands.len() - i,
    {
        if str_eq(cands[i].as_str(), name) {
            assert(texts(cands@)[i as int] == name@);
            return true;
        }
        i += 1;
    }
    proof {
        assert forall|j: int| 0 <= j < texts(cands@).len() implies texts(cands@)[j] != name@ by {
            assert(texts(cands@)[j] == cands@[j]@);
        }
    }
    false
}

impl SessionPrompt {
    /// A prompt over `candidates`, and the menu to show first.
    pub fn start(candidates: Vec<String>) -> (r: (SessionPrompt, String))
        requires
            candidates@.len() < usize::MAX,
        ensures
            r.0.candidates@ == candidates@,
            state_view(r.0.state) == (0int, Seq::<char>::empty()),
            r.1@ == menu_text(texts(candidates@)),
    {
        let text = menu(&candidates);
        (SessionPrompt { candidates, state: PromptState::Choosing }, text)
    }

    /// A line read from the operator, or `None` when stdin closed.
    pub fn on_line(&mut self, line: Option<&str>) -> (r: PromptStep)
        requires
            old(self).candidates@.len() < usize::MAX,
            !(old(self).state is Checking),
        ensures
            final(self).candidates@ == old(self).candidates@,
            old(self).state is Choosing ==> (state_view(final(self).state), step_view(r)) == choosing_step(
                texts(old(self).candidates@),
                match line {
                    Some(l) => Some(l@),
                    None => None,
                },
            ),
            old(self).state is Naming ==> (state_view(final(self).state), step_view(r)) == naming_step(
                texts(old(self).candidates@),
                match line {
                    Some(l) => Some(l@),
                    None => None,
                },
            ),
    {
        let n = self.candidates.len();
        match self.state {
            PromptState::Choosing => {
                let line = match line {
                    None => {
                        return PromptStep::Failed(
                            owned("stdin closed before tmux session selection was read"),
                        );
                    },
                    Some(l) => l,
                };
                let t = trim_str(line);
                let choice = match parse_u64_str(t.as_str()) {
                    Some(v) => if v <= usize::MAX as u64 {
                        Some(v)
                    } else {
                        None
                    },
                    None => None,
                };
                match choice {
                    Some(c) => {
                        if c == (n + 1) as u64 {
                            self.state = PromptState::Naming;
                            return PromptStep::Ask(owned("New tmux session name: "));
                        }
                        if 1 <= c && c <= n as u64 {
                            let pick = owned(self.candidates[(c - 1) as usize].as_str());
                            return PromptStep::Finished(ExistingSessionAction::Attach(pick));
                        }
                    },
                    None => {},
                }
                let mut text = owned("Please answer 1 to ");
                push_decimal(&mut text, (n + 1) as u64);
                push_str(&mut text, ".\n");
                push_str(&mut text, selection_text(n).as_str());
                PromptStep::Ask(text)
            },
            _ => {
                let line = match line {
                    None => {
                        return PromptStep::Failed(
                            owned("stdin closed before new tmux session name was read"),
                        );
                    },
                    Some(l) => l,
                };
                let name = trim_str(line);
                if contains_name(&self.candidates, name.as_str()) {
                    return PromptStep::Ask(taken(name.as_str()));
                }
                self.state = PromptState::Checking(owned(name.as_str()));
                PromptStep::CheckExists(name)
            },
        }
    }

    /// tmux's answer to `CheckExists`.
    pub fn on_exists(&mut self, exists: bool) -> (r: PromptStep)
        requires
            old(self).state is Checking,
        ensures
            final(self).candidates@ == old(self).candidates@,
            (state_view(final(self).state), step_view(r)) == checking_step(
                state_view(old(self).state).1,
                exists,
            ),
    {
        let name = match &self.state {
            PromptState::Checking(n) => owned(n.as_str()),
            _ => owned(""),
        };
        if exists {
            self.state = PromptState::Naming;
            return PromptStep::Ask(taken(name.as_str()));
        }
        match unaddressable_reason(name.as_str()) {
            Some(reason) => {
                self.state = PromptState::Naming;
                let mut text = owned("Invalid tmux session name: ");
                push_str(&mut text, reason.as_str());
                push_str(&mut text, ".\n");
                push_str(&mut text, "New tmux session name: ");
                PromptStep::Ask(text)
            },
            None => PromptStep::Finished(ExistingSessionAction::StartNamedSession(name)),
        }
    }
}

/// A whole prompt run over scripted input: from state `st`, reading `lines` in turn (a
/// closed stdin once they run out), with `existing` the sessions tmux already has. The final
/// step, and everything written after the menu.
pub open spec fn prompt_run(
    cands: Seq<Seq<char>>,
    st: (int, Seq<char>),
    lines: Seq<Seq<char>>,
    existing: Seq<Seq<char>>,
) -> (StepView, Seq<char>)
    decreases lines.len(), if st.0 == 2 {
        1int
    } else {
        0int
    },
{
    if st.0 == 2 {
        let (next, step) = checking_step(st.1, existing.contains(st.1));
        match step {
            StepView::Ask(t) => {
                let (r, out) = prompt_run(cands, next, lines, existing);
                (r, t + out)
            },
            other => (other, Seq::empty()),
        }
    } else {
        let line = if lines.len() == 0 {
            None
        } else {
            Some(lines[0])
        };
        let (next, step) = if st.0 == 0 {
            choosing_step(cands, line)
        } else {
            naming_step(cands, line)
        };
        if lines.len() == 0 {
            (step, Seq::empty())
        } else {
            match step {
                StepView::Ask(t) => {
                    let (r, out) = prompt_run(cands, next, lines.drop_first(), existing);
                    (r, t + out)
                },
                StepView::CheckExists(_) => prompt_run(cands, next, lines.drop_first(), existing),
                other => (other, Seq::empty()),
            }
        }
    }
}

/// What a prompt run can end in: attaching only to a session it listed, or starting only a
/// session with a name it did not list, that tmux does not have and that tmux can address.
pub open spec fn sound_outcome(cands: Seq<Seq<char>>, existing: Seq<Seq<char>>, step: StepView) -> bool {
    match step {
        StepView::Attach(n) => cands.contains(n),
        StepView::StartNamed(n) => !cands.contains(n) && !existing.contains(n) && unaddressable_spec(n) is None,
        _ => true,
    }
}

proof fn lemma_prompt_run_sound(
    cands: Seq<Seq<char>>,
    st: (int, Seq<char>),
    lines: Seq<Seq<char>>,
    existing: Seq<Seq<char>>,
)
    requires
        st.0 == 2 ==> !cands.contains(st.1),
    ensures
        sound_outcome(cands, existing, prompt_run(cands, st, lines, existing).0),
    decreases lines.len(), if st.0 == 2 {
        1int
    } else {
        0int
    },
{
    if st.0 == 2 {
        let (next, step) = checking_step(st.1, existing.contains(st.1));
        if let StepView::Ask(_) = step {
            lemma_prompt_run_sound(cands, next, lines, existing);
        }
    } else {
        let line = if lines.len() == 0 {
            None
        } else {
            Some(lines[0])
        };
        let (next, step) = if st.0 == 0 {
            choosing_step(cands, line)
        } else {
            naming_step(cands, line)
        };
        if lines.len() > 0 {
            match step {
                StepView::Ask(_) => lemma_prompt_run_sound(cands, next, lines.drop_first(), existing),
                StepView::CheckExists(_) => lemma_prompt_run_sound(cands, next, lines.drop_first(), existing),
                _ => {},
            }
        }
    }
}

/// Whatever is typed at the session prompt, it attaches only to a session it listed, and
/// starts only a session whose name it did not list, that tmux does not already have, and that
/// tmux can address.
pub proof fn lemma_session_prompt_is_sound(
    cands: Seq<Seq<char>>,
    lines: Seq<Seq<char>>,
    existing: Seq<Seq<char>>,
)
    ensures
        sound_outcome(cands, existing, prompt_run(cands, (0, Seq::empty()), lines, existing).0),
{
    lemma_prompt_run_sound(cands, (0, Seq::empty()), lines, existing);
}

/// The result a final step stands for.
pub open spec fn outcome_of(step: StepView) -> Result<(bool, Seq<char>), Seq<char>> {
    match step {
        StepView::Attach(n) => Ok((true, n)),
        StepView::StartNamed(n) => Ok((false, n)),
        StepView::Failed(e) => Err(e),
        StepView::Ask(t) => Err(t),
        StepView::CheckExists(n) => Err(n),
    }
}

pub open spec fn action_view(r: Result<ExistingSessionAction, String>) -> Result<(bool, Seq<char>), Seq<char>> {
    match r {
        Ok(ExistingSessionAction::Attach(n)) => Ok((true, n@)),
        Ok(ExistingSessionAction::StartNamedSession(n)) => Ok((false, n@)),
        Err(e) => Err(e@),
    }
}

/// Runs the session prompt over a scripted stdin: `input` read a line at a time, with
/// `existing` the sessions tmux has. Returns the choice and everything written.
pub fn prompt_existing_session_action(
    input: &str,
    candidates: &Vec<String>,
    existing: &Vec<String>,
) -> (r: (Result<ExistingSessionAction, String>, String))
    requires
        candidates@.len() < usize::MAX,
    ensures
        ({
            let (step, out) = prompt_run(
                texts(candidates@),
                (0, Seq::empty()),
                lines_of(input@),
                texts(existing@),
            );
            &&& action_view(r.0) == outcome_of(step)
            &&& r.1@ == menu_text(texts(candidates@)) + out
        }),
{
    let mut copies: Vec<String> = Vec::new();
    let mut k: usize = 0;
    while k < candidates.len()
        invariant
            k <= candidates@.len(),
            texts(copies@) == texts(candidates@).take(k as int),
        decreases candidates.len() - k,
    {
        let ghost before = texts(copies@);
        copies.push(owned(candidates[k].as_str()));
        assert(texts(copies@) =~= before.push(candidates@[k as int]@));
        assert(texts(candidates@).take(k + 1) =~= texts(candidates@).take(k as int).push(
            candidates@[k as int]@,
        ));
        k += 1;
    }
    assert(texts(candidates@).take(candidates@.len() as int) =~= texts(candidates@));
    let ghost cands = texts(candidates@);
    let ghost ex = texts(existing@);
    let lines = lines_of_chars(&chars_of(input));
    let ghost all = lines@.map_values(|l: String| l@);
    let (mut prompt, menu) = SessionPrompt::start(copies);
    let mut out = menu;
    let ghost head = out@;
    let mut i: usize = 0;
    assert(all.skip(0) =~= all);
    assert(out@ + Seq::<char>::empty() =~= out@);
    loop
        invariant
            i <= lines@.len(),
            all == lines@.map_values(|l: String| l@),
            all == lines_of(input@),
            texts(prompt.candidates@) == cands,
            cands == texts(candidates@),
            cands.len() < usize::MAX,
            ex == texts(existing@),
            head == menu_text(cands),
            ({
                let (step, rest) = prompt_run(cands, state_view(prompt.state), all.skip(i as int), ex);
                let (step0, total) = prompt_run(cands, (0, Seq::empty()), all, ex);
                step == step0 && head + total == out@ + rest
            }),
        decreases lines@.len() - i, if prompt.state is Checking {
            1int
        } else {
            0int
        },
    {
        let ghost before = out@;
        let ghost st = state_view(prompt.state);
        let ghost rest_lines = all.skip(i as int);
        let step = match prompt.state {
            PromptState::Checking(_) => {
                let name = match &prompt.state {
                    PromptState::Checking(n) => owned(n.as_str()),
                    _ => owned(""),
                };
                let exists = contains_name(existing, name.as_str());
                prompt.on_exists(exists)
            },
            _ => {
                if i < lines.len() {
                    proof {
                        assert(rest_lines[0] == lines@[i as int]@);
                        assert(rest_lines.drop_first() =~= all.skip(i + 1));
                    }
                    let line = lines[i].as_str();
                    i += 1;
                    prompt.on_line(Some(line))
                } else {
                    prompt.on_line(None)
                }
            },
        };
        match step {
            PromptStep::Ask(text) => {
                push_str(&mut out, text.as_str());
            },
            PromptStep::CheckExists(_) => {},
            PromptStep::Finished(action) => {
                return (Ok(action), out);
            },
            PromptStep::Failed(e) => {
                return (Err(e), out);
            },
        }
    }
}

} // verus!
