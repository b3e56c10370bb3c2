//! Where tmux is asked to act: sessions, windows and panes, and what became of a recorded
//! worker window.
use vstd::prelude::*;

use crate::digits::{decimal, push_decimal};
use crate::statuslog::{lossy_text, utf8_lossy};
use crate::text::{
    chars_of, contains_str, contains_text, find_first, find_last, is_empty_str, last_index_of,
    lemma_find_last, lines_of, lines_of_chars, owned, push_str, split_char, split_spec,
    squash_whitespace, squash_whitespace_exec, str_eq, string_of_range, trim, trim_str,
};

verus! {

/// A tmux session name: any non-empty text.
#[derive(Clone, Debug, PartialEq, Eq)]
pub struct SessionName {
    name: String,
}

impl SessionName {
    pub closed spec fn view(&self) -> Seq<char> {
        self.name@
    }

    pub fn new(value: String) -> (r: Result<SessionName, String>)
        ensures
            value@.len() > 0 ==> (r matches Ok(s) && s@ == value@),
            value@.len() == 0 ==> (r matches Err(e) && e@ == "tmux session name cannot be empty"@),
    {
        if is_empty_str(value.as_str()) {
            Err(owned("tmux session name cannot be empty"))
        } else {
            Ok(SessionName { name: value })
        }
    }

    pub fn as_str(&self) -> (r: &str)
        ensures
            r@ == self@,
    {
        self.name.as_str()
    }

    /// An equal copy.
    pub fn duplicate(&self) -> (r: SessionName)
        ensures
            r@ == self@,
    {
        SessionName { name: owned(self.name.as_str()) }
    }
}

/// `=name`: tmux resolves a `-t` component exact, then by glob, then by prefix, and the `=`
/// pins it to an exact match.
pub open spec fn exact_spec(name: Seq<char>) -> Seq<char> {
    "="@ + name
}

pub fn exact(name: &str) -> (r: String)
    ensures
        r@ == exact_spec(name@),
{
    let mut r = owned("=");
    push_str(&mut r, name);
    r
}

/// A window in a session: both halves non-empty.
#[derive(Clone, Debug, PartialEq, Eq)]
pub struct WindowTarget {
    session: SessionName,
    window: String,
}

/// A window target as plain values.
pub struct TargetText {
    pub session: Seq<char>,
    pub window: Seq<char>,
}

/// `session:window`, the stored form.
pub open spec fn render_spec(t: TargetText) -> Seq<char> {
    t.session + ":"@ + t.window
}

/// What `WindowTarget::parse` makes of `value`: it splits at the last `:`.
pub open spec fn target_reading(value: Seq<char>) -> Result<TargetText, Seq<char>> {
    match find_last(value, ':') {
        None => Err("tmux window target `"@ + value + "` must be session:window"@),
        Some(i) => if value.take(i).len() == 0 {
            Err("tmux session name cannot be empty"@)
        } else if value.skip(i + 1).len() == 0 {
            Err("invalid tmux window target `"@ + value + "`: "@ + "tmux window name cannot be empty"@)
        } else {
            Ok(TargetText { session: value.take(i), window: value.skip(i + 1) })
        },
    }
}

impl WindowTarget {
    pub closed spec fn view(&self) -> TargetText {
        TargetText { session: self.session@, window: self.window@ }
    }

    pub fn new(session: SessionName, window: String) -> (r: Result<WindowTarget, String>)
        ensures
            window@.len() > 0 ==> (r matches Ok(t) && t@ == (TargetText {
                session: session@,
                window: window@,
            })),
            window@.len() == 0 ==> (r matches Err(e) && e@ == "tmux window name cannot be empty"@),
    {
        if is_empty_str(window.as_str()) {
            Err(owned("tmux window name cannot be empty"))
        } else {
            Ok(WindowTarget { session, window })
        }
    }

    /// Reads `session:window`, split at the last `:`.
    pub fn parse(value: &str) -> (r: Result<WindowTarget, String>)
        ensures
            match target_reading(value@) {
                Ok(t) => r matches Ok(w) && w@ == t,
                Err(e) => r matches Err(m) && m@ == e,
            },
    {
        let chars = chars_of(value);
        let n = chars.len();
        proof {
            lemma_find_last(value@, ':');
        }
        match last_index_of(&chars, ':') {
            None => {
                let mut e = owned("tmux window target `");
                push_str(&mut e, value);
                push_str(&mut e, "` must be session:window");
                Err(e)
            },
            Some(i) => {
                assert(i < n);
                let session = string_of_range(&chars, 0, i);
                let window = string_of_range(&chars, i + 1, chars.len());
                proof {
                    assert(session@ =~= value@.take(i as int));
                    assert(window@ =~= value@.skip(i + 1));
                }
                let session = match SessionName::new(session) {
                    Ok(s) => s,
                    Err(e) => return Err(e),
                };
                match WindowTarget::new(session, window) {
                    Ok(t) => Ok(t),
                    Err(inner) => {
                        let mut e = owned("invalid tmux window target `");
                        push_str(&mut e, value);
                        push_str(&mut e, "`: ");
                        push_str(&mut e, inner.as_str());
                        Err(e)
                    },
                }
            },
        }
    }

    /// An equal copy.
    pub fn duplicate(&self) -> (r: WindowTarget)
        ensures
            r@ == self@,
    {
        WindowTarget { session: self.session.duplicate(), window: owned(self.window.as_str()) }
    }

    pub fn session(&self) -> (r: &SessionName)
        ensures
            r@ == self@.session,
    {
        &self.session
    }

    pub fn window(&self) -> (r: &str)
        ensures
            r@ == self@.window,
    {
        self.window.as_str()
    }

    /// The stored, human-readable form: what lands in worker metadata and what `parse` reads
    /// back, so it stays free of target syntax.
    pub fn render(&self) -> (r: String)
        ensures
            r@ == render_spec(self@),
    {
        let mut r = owned(self.session.as_str());
        push_str(&mut r, ":");
        push_str(&mut r, self.window.as_str());
        r
    }

    /// The form handed to tmux after `-t`: both halves anchored.
    pub fn target_arg(&self) -> (r: String)
        ensures
            r@ == exact_spec(self@.session) + ":"@ + exact_spec(self@.window),
    {
        let mut r = exact(self.session.as_str());
        push_str(&mut r, ":");
        push_str(&mut r, exact(self.window.as_str()).as_str());
        r
    }
}

proof fn lemma_find_last_after(a: Seq<char>, w: Seq<char>)
    requires
        forall|j: int| 0 <= j < w.len() ==> w[j] != ':',
    ensures
        find_last(a + ":"@ + w, ':') == Some(a.len() as int),
    decreases w.len(),
{
    reveal_strlit(":");
    if w.len() == 0 {
        assert(a + ":"@ + w =~= a.push(':'));
        assert((a + ":"@ + w).last() == ':');
    } else {
        assert((a + ":"@ + w).drop_last() =~= a + ":"@ + w.drop_last());
        assert((a + ":"@ + w).last() == w.last());
        lemma_find_last_after(a, w.drop_last());
    }
}

/// A window target's stored form reads back as the same target, wherever the window name
/// holds no `:`.
pub proof fn lemma_render_parse_round_trip(t: TargetText)
    requires
        t.session.len() > 0,
        t.window.len() > 0,
        forall|j: int| 0 <= j < t.window.len() ==> t.window[j] != ':',
    ensures
        target_reading(render_spec(t)) == Ok::<TargetText, Seq<char>>(t),
{
    reveal_strlit(":");
    lemma_find_last_after(t.session, t.window);
    let v = render_spec(t);
    let i = t.session.len() as int;
    assert(v.take(i) =~= t.session);
    assert(v.skip(i + 1) =~= t.window);
}

/// Where tmux is asked to type: a worker window, or the lead's own `%N` pane.
#[derive(Clone, Debug, PartialEq, Eq)]
pub struct PaneTarget {
    target: String,
}

impl PaneTarget {
    pub closed spec fn view(&self) -> Seq<char> {
        self.target@
    }

    pub fn window(target: &WindowTarget) -> (r: PaneTarget)
        ensures
            r@ == exact_spec(target@.session) + ":"@ + exact_spec(target@.window),
    {
        PaneTarget { target: target.target_arg() }
    }

    /// A `%N` pane id, as tmux reports it in `$TMUX_PANE`.
    pub fn pane(id: &str) -> (r: Result<PaneTarget, String>)
        ensures
            trim(id@).len() > 0 ==> (r matches Ok(p) && p@ == trim(id@)),
            trim(id@).len() == 0 ==> (r matches Err(e) && e@ == "tmux pane id cannot be empty"@),
    {
        let id = trim_str(id);
        if is_empty_str(id.as_str()) {
            Err(owned("tmux pane id cannot be empty"))
        } else {
            Ok(PaneTarget { target: id })
        }
    }

    pub fn as_str(&self) -> (r: &str)
        ensures
            r@ == self@,
    {
        self.target.as_str()
    }
}

/// What became of a worker's recorded window.
#[derive(Clone, Debug, PartialEq, Eq)]
pub enum TargetState {
    Live,
    /// The window is still there but its agent has exited; it is kept so its output stays
    /// readable.
    PaneExited,
    WindowDead,
    OrphanRecovered { actual: WindowTarget },
    OrphanGone,
    OrphanLegacyCandidate { candidate: WindowTarget },
    Unknown { error: String },
}

/// The word a target state is reported with.
pub open spec fn state_text(s: TargetState) -> Seq<char> {
    match s {
        TargetState::Live => "live"@,
        TargetState::PaneExited => "agent-exited"@,
        TargetState::WindowDead => "window-dead"@,
        TargetState::OrphanRecovered { actual } => "orphan-recovered:"@ + render_spec(actual@),
        TargetState::OrphanGone => "orphan-gone"@,
        TargetState::OrphanLegacyCandidate { candidate } => "orphan-legacy-candidate:"@
            + render_spec(candidate@),
        TargetState::Unknown { error } => "unknown:"@ + error@,
    }
}

impl TargetState {
    pub fn text(&self) -> (r: String)
        ensures
            r@ == state_text(*self),
    {
        match self {
            TargetState::Live => owned("live"),
            TargetState::PaneExited => owned("agent-exited"),
            TargetState::WindowDead => owned("window-dead"),
            TargetState::OrphanRecovered { actual } => {
                let mut r = owned("orphan-recovered:");
                push_str(&mut r, actual.render().as_str());
                r
            },
            TargetState::OrphanGone => owned("orphan-gone"),
            TargetState::OrphanLegacyCandidate { candidate } => {
                let mut r = owned("orphan-legacy-candidate:");
                push_str(&mut r, candidate.render().as_str());
                r
            },
            TargetState::Unknown { error } => {
                let mut r = owned("unknown:");
                push_str(&mut r, error.as_str());
                r
            },
        }
    }
}

/// A window listed across sessions, with the worker tags niles sets on its windows.
#[derive(Clone, Debug, PartialEq, Eq)]
pub struct TaggedWindow {
    pub target: WindowTarget,
    pub project: Option<String>,
    pub worker_id: Option<String>,
}

pub open spec fn opt_text(o: Option<String>) -> Option<Seq<char>> {
    match o {
        Some(s) => Some(s@),
        None => None,
    }
}

pub open spec fn is_tagged_for(w: TaggedWindow, project: Seq<char>, id: Seq<char>) -> bool {
    opt_text(w.project) == Some(project) && opt_text(w.worker_id) == Some(id)
}

pub open spec fn is_legacy_for(w: TaggedWindow, window: Seq<char>) -> bool {
    w.target@.window == window && w.project is None && w.worker_id is None
}

/// The targets of the windows tagged with this project and worker id, in listing order.
pub open spec fn tagged_matches(ws: Seq<TaggedWindow>, project: Seq<char>, id: Seq<char>) -> Seq<
    TargetText,
>
    decreases ws.len(),
{
    if ws.len() == 0 {
        Seq::empty()
    } else {
        let r = tagged_matches(ws.drop_last(), project, id);
        if is_tagged_for(ws.last(), project, id) {
            r.push(ws.last().target@)
        } else {
            r
        }
    }
}

/// The targets of the untagged windows named like the recorded one, in listing order.
pub open spec fn legacy_matches(ws: Seq<TaggedWindow>, window: Seq<char>) -> Seq<TargetText>
    decreases ws.len(),
{
    if ws.len() == 0 {
        Seq::empty()
    } else {
        let r = legacy_matches(ws.drop_last(), window);
        if is_legacy_for(ws.last(), window) {
            r.push(ws.last().target@)
        } else {
            r
        }
    }
}

/// A window carries this worker's tags when both its project tag and its worker-id tag are
/// set and equal the workspace's project and the worker's id.
pub open spec fn carries_tags(w: TaggedWindow, project: Seq<char>, id: Seq<char>) -> bool {
    &&& w.project is Some && w.project.unwrap()@ == project
    &&& w.worker_id is Some && w.worker_id.unwrap()@ == id
}

proof fn lemma_tagged_matches_carry_tags(ws: Seq<TaggedWindow>, project: Seq<char>, id: Seq<char>)
    ensures
        forall|k: int| 0 <= k < tagged_matches(ws, project, id).len() ==> exists|i: int|
            0 <= i < ws.len() && #[trigger] ws[i].target@ == #[trigger] tagged_matches(ws, project, id)[k]
                && carries_tags(ws[i], project, id),
    decreases ws.len(),
{
    if ws.len() > 0 {
        let rest = ws.drop_last();
        lemma_tagged_matches_carry_tags(rest, project, id);
        let t = tagged_matches(ws, project, id);
        let r = tagged_matches(rest, project, id);
        assert forall|k: int| 0 <= k < t.len() implies exists|i: int|
            0 <= i < ws.len() && #[trigger] ws[i].target@ == #[trigger] t[k] && carries_tags(ws[i], project, id) by {
            if k < r.len() {
                assert(t[k] == r[k]);
                let i = choose|i: int| 0 <= i < rest.len() && #[trigger] rest[i].target@ == #[trigger] r[k]
                    && carries_tags(rest[i], project, id);
                assert(ws[i] == rest[i]);
            } else {
                let i = ws.len() - 1;
                assert(ws[i] == ws.last());
                assert(ws[i].target@ == t[k]);
            }
        }
    }
}

proof fn lemma_legacy_matches_are_untagged(ws: Seq<TaggedWindow>, window: Seq<char>)
    ensures
        forall|k: int| 0 <= k < legacy_matches(ws, window).len() ==> exists|i: int|
            0 <= i < ws.len() && #[trigger] ws[i].target@ == #[trigger] legacy_matches(ws, window)[k]
                && ws[i].target@.window == window && ws[i].project is None && ws[i].worker_id is None,
    decreases ws.len(),
{
    if ws.len() > 0 {
        let rest = ws.drop_last();
        lemma_legacy_matches_are_untagged(rest, window);
        let t = legacy_matches(ws, window);
        let r = legacy_matches(rest, window);
        assert forall|k: int| 0 <= k < t.len() implies exists|i: int|
            0 <= i < ws.len() && #[trigger] ws[i].target@ == #[trigger] t[k] && ws[i].target@.window
                == window && ws[i].project is None && ws[i].worker_id is None by {
            if k < r.len() {
                assert(t[k] == r[k]);
                let i = choose|i: int| 0 <= i < rest.len() && #[trigger] rest[i].target@ == #[trigger] r[k]
                    && rest[i].target@.window == window && rest[i].project is None && rest[i].worker_id
                    is None;
                assert(ws[i] == rest[i]);
            } else {
                let i = ws.len() - 1;
                assert(ws[i] == ws.last());
                assert(ws[i].target@ == t[k]);
            }
        }
    }
}

/// A legacy candidate is only ever an untagged window named like the recorded one, and only
/// where no window carries this worker's tags.
pub proof fn lemma_legacy_candidate_is_untagged(
    ws: Seq<TaggedWindow>,
    recorded: TargetText,
    project: Seq<char>,
    id: Seq<char>,
    session_missing: bool,
)
    ensures
        recovery_spec(Ok(ws), recorded, project, id, session_missing) is OrphanLegacyCandidate ==> (exists|i: int|
            0 <= i < ws.len() && ws[i].target@.window == recorded.window && ws[i].project is None
                && ws[i].worker_id is None && StateView::OrphanLegacyCandidate(#[trigger] ws[i].target@)
                == recovery_spec(Ok(ws), recorded, project, id, session_missing)) && tagged_matches(
            ws,
            project,
            id,
        ).len() == 0,
{
    lemma_legacy_matches_are_untagged(ws, recorded.window);
    let t = legacy_matches(ws, recorded.window);
    if tagged_matches(ws, project, id).len() == 0 && t.len() == 1 {
        let i = choose|i: int| 0 <= i < ws.len() && #[trigger] ws[i].target@ == #[trigger] t[0]
            && ws[i].target@.window == recorded.window && ws[i].project is None && ws[i].worker_id is None;
        assert(StateView::OrphanLegacyCandidate(ws[i].target@) == recovery_spec(Ok(ws), recorded, project, id, session_missing));
    }
}

/// A missing window is recovered only to a window that carries both of this worker's tags:
/// the workspace's project and the worker's id. A window of another project's worker of the
/// same id, or an untagged one, is never taken as this worker's.
pub proof fn lemma_recovered_window_carries_both_tags(
    ws: Seq<TaggedWindow>,
    recorded: TargetText,
    project: Seq<char>,
    id: Seq<char>,
    session_missing: bool,
)
    ensures
        recovery_spec(Ok(ws), recorded, project, id, session_missing) is OrphanRecovered ==> exists|i: int|
            0 <= i < ws.len() && carries_tags(ws[i], project, id) && StateView::OrphanRecovered(
                #[trigger] ws[i].target@,
            ) == recovery_spec(Ok(ws), recorded, project, id, session_missing),
{
    lemma_tagged_matches_carry_tags(ws, project, id);
    let t = tagged_matches(ws, project, id);
    if t.len() == 1 {
        let i = choose|i: int| 0 <= i < ws.len() && #[trigger] ws[i].target@ == #[trigger] t[0]
            && carries_tags(ws[i], project, id);
        assert(StateView::OrphanRecovered(ws[i].target@) == recovery_spec(Ok(ws), recorded, project, id, session_missing));
    }
}

/// Rendered targets joined with `, `.
pub open spec fn joined_targets(ts: Seq<TargetText>) -> Seq<char>
    decreases ts.len(),
{
    if ts.len() == 0 {
        Seq::empty()
    } else if ts.len() == 1 {
        render_spec(ts[0])
    } else {
        joined_targets(ts.drop_last()) + ", "@ + render_spec(ts.last())
    }
}

/// A target state as plain values.
pub enum StateView {
    Live,
    PaneExited,
    WindowDead,
    OrphanRecovered(TargetText),
    OrphanGone,
    OrphanLegacyCandidate(TargetText),
    Unknown(Seq<char>),
}

pub open spec fn state_view(s: TargetState) -> StateView {
    match s {
        TargetState::Live => StateView::Live,
        TargetState::PaneExited => StateView::PaneExited,
        TargetState::WindowDead => StateView::WindowDead,
        TargetState::OrphanRecovered { actual } => StateView::OrphanRecovered(actual@),
        TargetState::OrphanGone => StateView::OrphanGone,
        TargetState::OrphanLegacyCandidate { candidate } => StateView::OrphanLegacyCandidate(
            candidate@,
        ),
        TargetState::Unknown { error } => StateView::Unknown(error@),
    }
}

/// Where a missing recorded window is looked for: a window carrying this worker's tags is
/// a positive identity match; failing that, one untagged window of the recorded name is a
/// candidate; more than one match of either kind is reported rather than guessed at.
pub open spec fn recovery_spec(
    windows: Result<Seq<TaggedWindow>, Seq<char>>,
    recorded: TargetText,
    project: Seq<char>,
    id: Seq<char>,
    session_missing: bool,
) -> StateView {
    match windows {
        Err(e) => StateView::Unknown(e),
        Ok(ws) => {
            let tagged = tagged_matches(ws, project, id);
            let legacy = legacy_matches(ws, recorded.window);
            if tagged.len() == 1 {
                StateView::OrphanRecovered(tagged[0])
            } else if tagged.len() >= 2 {
                StateView::Unknown(
                    "multiple tmux windows carry worker tags: "@ + joined_targets(tagged),
                )
            } else if legacy.len() == 1 {
                StateView::OrphanLegacyCandidate(legacy[0])
            } else if legacy.len() == 0 {
                if session_missing {
                    StateView::OrphanGone
                } else {
                    StateView::WindowDead
                }
            } else {
                StateView::Unknown(
                    "multiple untagged tmux windows match recorded name: "@ + joined_targets(
                        legacy,
                    ),
                )
            }
        },
    }
}

fn opt_eq(o: &Option<String>, v: &str) -> (r: bool)
    ensures
        r == (opt_text(*o) == Some(v@)),
{
    match o {
        Some(s) => str_eq(s.as_str(), v),
        None => false,
    }
}

fn join_targets(ts: &Vec<WindowTarget>) -> (r: String)
    ensures
        r@ == joined_targets(ts@.map_values(|t: WindowTarget| t@)),
{
    let ghost views = ts@.map_values(|t: WindowTarget| t@);
    let mut r = String::new();
    let mut i: usize = 0;
    while i < ts.len()
        invariant
            i <= ts@.len(),
            views == ts@.map_values(|t: WindowTarget| t@),
            r@ == joined_targets(views.take(i as int)),
        decreases ts.len() - i,
    {
        proof {
            assert(views.take(i + 1).drop_last() =~= views.take(i as int));
            assert(views.take(i + 1).last() == ts@[i as int]@);
        }
        if i > 0 {
            push_str(&mut r, ", ");
        }
        push_str(&mut r, ts[i].render().as_str());
        proof {
            if i == 0 {
                assert(r@ =~= joined_targets(views.take(1)));
            }
        }
        i += 1;
    }
    assert(views.take(ts@.len() as int) =~= views);
    r
}

/// What became of a recorded window that tmux no longer lists, given the windows it lists
/// across sessions (or why they could not be listed).
pub fn recover_missing_target(
    windows: Result<Vec<TaggedWindow>, String>,
    recorded: &WindowTarget,
    project: &str,
    id: &str,
    session_missing: bool,
) -> (r: TargetState)
    ensures
        state_view(r) == recovery_spec(
            match windows {
                Ok(v) => Ok(v@),
                Err(e) => Err(e@),
            },
            recorded@,
            project@,
            id@,
            session_missing,
        ),
{
    let windows = match windows {
        Ok(v) => v,
        Err(error) => return TargetState::Unknown { error },
    };
    let mut tagged: Vec<WindowTarget> = Vec::new();
    let mut legacy: Vec<WindowTarget> = Vec::new();
    let mut i: usize = 0;
    while i < windows.len()
        invariant
            i <= windows@.len(),
            tagged@.map_values(|t: WindowTarget| t@) == tagged_matches(
                windows@.take(i as int),
                project@,
                id@,
            ),
            legacy@.map_values(|t: WindowTarget| t@) == legacy_matches(
                windows@.take(i as int),
                recorded@.window,
            ),
        decreases windows.len() - i,
    {
        let w = &windows[i];
        proof {
            assert(windows@.take(i + 1).drop_last() =~= windows@.take(i as int));
            assert(windows@.take(i + 1).last() == windows@[i as int]);
        }
        let ghost t0 = tagged@.map_values(|t: WindowTarget| t@);
        let ghost l0 = legacy@.map_values(|t: WindowTarget| t@);
        if opt_eq(&w.project, project) && opt_eq(&w.worker_id, id) {
            tagged.push(w.target.duplicate());
            assert(tagged@.map_values(|t: WindowTarget| t@) =~= t0.push(w.target@));
        }
        if str_eq(w.target.window(), recorded.window()) && w.project.is_none()
            && w.worker_id.is_none() {
            legacy.push(w.target.duplicate());
            assert(legacy@.map_values(|t: WindowTarget| t@) =~= l0.push(w.target@));
        }
        i += 1;
    }
    assert(windows@.take(windows@.len() as int) =~= windows@);
    if tagged.len() == 1 {
        return TargetState::OrphanRecovered { actual: tagged[0].duplicate() };
    }
    if tagged.len() >= 2 {
        let mut e = owned("multiple tmux windows carry worker tags: ");
        push_str(&mut e, join_targets(&tagged).as_str());
        return TargetState::Unknown { error: e };
    }
    if legacy.len() == 1 {
        return TargetState::OrphanLegacyCandidate { candidate: legacy[0].duplicate() };
    }
    if legacy.len() == 0 {
        return if session_missing {
            TargetState::OrphanGone
        } else {
            TargetState::WindowDead
        };
    }
    let mut e = owned("multiple untagged tmux windows match recorded name: ");
    push_str(&mut e, join_targets(&legacy).as_str());
    TargetState::Unknown { error: e }
}

/// A tagged window as plain values.
pub struct TaggedView {
    pub target: TargetText,
    pub project: Option<Seq<char>>,
    pub worker_id: Option<Seq<char>>,
}

pub open spec fn tagged_view(w: TaggedWindow) -> TaggedView {
    TaggedView { target: w.target@, project: opt_text(w.project), worker_id: opt_text(w.worker_id) }
}

pub open spec fn nonempty_text(value: Seq<char>) -> Option<Seq<char>> {
    if value.len() == 0 {
        None
    } else {
        Some(value)
    }
}

/// A `pane_dead` field that says the pane's process has exited.
pub open spec fn dead_pane(field: Seq<char>) -> bool {
    trim(field) == "1"@
}

/// One row of the tagged listing: `None` for a window whose pane has exited, which is kept for
/// its output but is nowhere a worker can be recovered to.
pub open spec fn tagged_line_reading(n: nat, line: Seq<char>) -> Result<Option<TaggedView>, Seq<char>> {
    let f = split_spec(line, '\t');
    if f.len() != 4 {
        Err("malformed tmux tagged window line "@ + decimal(n) + ": expected 4 fields, got "@
            + decimal(f.len()))
    } else if dead_pane(f[3]) {
        Ok(None)
    } else {
        match target_reading(f[0]) {
            Err(e) => Err("invalid tmux target on tagged window line "@ + decimal(n) + ": "@ + e),
            Ok(t) => Ok(
                Some(
                    TaggedView {
                        target: t,
                        project: nonempty_text(f[1]),
                        worker_id: nonempty_text(f[2]),
                    },
                ),
            ),
        }
    }
}

/// The rows of `lines`, numbered from `base + 1`; empty lines are skipped but counted.
pub open spec fn tagged_lines_reading(lines: Seq<Seq<char>>, base: nat) -> Result<Seq<TaggedView>, Seq<char>>
    decreases lines.len(),
{
    if lines.len() == 0 {
        Ok(Seq::empty())
    } else if lines[0].len() == 0 {
        tagged_lines_reading(lines.drop_first(), base + 1)
    } else {
        match tagged_line_reading(base + 1, lines[0]) {
            Err(e) => Err(e),
            Ok(row) => match tagged_lines_reading(lines.drop_first(), base + 1) {
                Err(e) => Err(e),
                Ok(rows) => Ok(
                    match row {
                        Some(r) => seq![r] + rows,
                        None => rows,
                    },
                ),
            },
        }
    }
}

pub fn is_dead_pane(field: &str) -> (r: bool)
    ensures
        r == dead_pane(field@),
{
    str_eq(trim_str(field).as_str(), "1")
}

fn nonempty(value: &str) -> (r: Option<String>)
    ensures
        opt_text(r) == nonempty_text(value@),
{
    if is_empty_str(value) {
        None
    } else {
        Some(owned(value))
    }
}

fn parse_tagged_line(line_number: usize, line: &str) -> (r: Result<Option<TaggedWindow>, String>)
    ensures
        match tagged_line_reading(line_number as nat, line@) {
            Ok(Some(v)) => r matches Ok(Some(w)) && tagged_view(w) == v,
            Ok(None) => r matches Ok(None),
            Err(e) => r matches Err(m) && m@ == e,
        },
{
    let fields = split_char(line, '\t');
    let ghost f = split_spec(line@, '\t');
    assert(fields@.len() == f.len());
    if fields.len() != 4 {
        let mut e = owned("malformed tmux tagged window line ");
        push_decimal(&mut e, line_number as u64);
        push_str(&mut e, ": expected 4 fields, got ");
        push_decimal(&mut e, fields.len() as u64);
        return Err(e);
    }
    proof {
        assert forall|k: int| 0 <= k < 4 implies fields@[k]@ == f[k] by {
            assert(fields@.map_values(|p: String| p@)[k] == fields@[k]@);
        }
    }
    if is_dead_pane(fields[3].as_str()) {
        return Ok(None);
    }
    match WindowTarget::parse(fields[0].as_str()) {
        Ok(target) => Ok(
            Some(
                TaggedWindow {
                    target,
                    project: nonempty(fields[1].as_str()),
                    worker_id: nonempty(fields[2].as_str()),
                },
            ),
        ),
        Err(inner) => {
            let mut e = owned("invalid tmux target on tagged window line ");
            push_decimal(&mut e, line_number as u64);
            push_str(&mut e, ": ");
            push_str(&mut e, inner.as_str());
            Err(e)
        },
    }
}

/// Reads the tagged listing across sessions: one row per live window.
pub fn parse_tagged_windows(stdout: &Vec<u8>) -> (r: Result<Vec<TaggedWindow>, String>)
    ensures
        match tagged_lines_reading(lines_of(utf8_lossy(stdout@)), 0) {
            Ok(rows) => r matches Ok(v) && v@.map_values(|w: TaggedWindow| tagged_view(w)) == rows,
            Err(e) => r matches Err(m) && m@ == e,
        },
{
    let text = lossy_text(stdout, 0, stdout.len());
    assert(stdout@.subrange(0, stdout@.len() as int) =~= stdout@);
    let lines = lines_of_chars(&chars_of(text.as_str()));
    let ghost all = lines@.map_values(|l: String| l@);
    let mut rows: Vec<TaggedWindow> = Vec::new();
    let mut i: usize = 0;
    assert(all.skip(0) =~= all);
    assert(rows@.map_values(|w: TaggedWindow| tagged_view(w)) + Seq::<TaggedView>::empty() =~= Seq::<TaggedView>::empty());
    while i < lines.len()
        invariant
            i <= lines@.len(),
            all == lines@.map_values(|l: String| l@),
            all == lines_of(utf8_lossy(stdout@)),
            tagged_lines_reading(all, 0) == match tagged_lines_reading(all.skip(i as int), i as nat) {
                Ok(rest) => Ok(rows@.map_values(|w: TaggedWindow| tagged_view(w)) + rest),
                Err(e) => Err(e),
            },
        decreases lines.len() - i,
    {
        let ghost rest = all.skip(i as int);
        proof {
            assert(rest.drop_first() =~= all.skip(i + 1));
            assert(rest[0] == lines@[i as int]@);
        }
        if !is_empty_str(lines[i].as_str()) {
            let ghost before = rows@.map_values(|w: TaggedWindow| tagged_view(w));
            match parse_tagged_line(i + 1, lines[i].as_str()) {
                Ok(Some(w)) => {
                    rows.push(w);
                    proof {
                        assert(rows@.map_values(|w: TaggedWindow| tagged_view(w)) =~= before.push(
                            tagged_view(w),
                        ));
                        match tagged_lines_reading(all.skip(i + 1), (i + 1) as nat) {
                            Ok(more) => {
                                assert(before + (seq![tagged_view(w)] + more) =~= before.push(
                                    tagged_view(w),
                                ) + more);
                            },
                            Err(_) => {},
                        }
                    }
                },
                Ok(None) => {},
                Err(e) => {
                    return Err(e);
                },
            }
        }
        i += 1;
    }
    assert(all.skip(i as int) =~= Seq::<Seq<char>>::empty());
    assert(rows@.map_values(|w: TaggedWindow| tagged_view(w)) + Seq::<TaggedView>::empty()
        =~= rows@.map_values(|w: TaggedWindow| tagged_view(w)));
    Ok(rows)
}

/// The `-F` format whose rows `window_presence` reads: each window's name and whether its pane
/// has exited.
pub const LIVE_WINDOW_FORMAT: &'static str = "#{window_name}\t#{pane_dead}";

/// The `-F` format whose rows `parse_tagged_windows` reads, across sessions.
pub const TAGGED_WINDOW_FORMAT: &'static str = "#{session_name}:#{window_name}\t#{@niles-project}\t#{@niles-worker-id}\t#{pane_dead}";

/// Whether a window is listed, and whether anything still runs in it.
#[derive(Clone, Copy, Debug, PartialEq, Eq, Structural)]
pub enum WindowPresence {
    Live,
    PaneExited,
    Absent,
}

/// The first listed `name\tpane_dead` row naming `window` decides; a row without the dead
/// column is a listing from before that column existed, and counts as live.
pub open spec fn presence_in(lines: Seq<Seq<char>>, window: Seq<char>) -> WindowPresence
    decreases lines.len(),
{
    if lines.len() == 0 {
        WindowPresence::Absent
    } else {
        let l = lines[0];
        match find_first(l, '\t') {
            Some(i) => if l.take(i) == window {
                if dead_pane(l.skip(i + 1)) {
                    WindowPresence::PaneExited
                } else {
                    WindowPresence::Live
                }
            } else {
                presence_in(lines.drop_first(), window)
            },
            None => if l == window {
                WindowPresence::Live
            } else {
                presence_in(lines.drop_first(), window)
            },
        }
    }
}

pub fn window_presence(stdout: &Vec<u8>, window_name: &str) -> (r: WindowPresence)
    ensures
        r == presence_in(lines_of(utf8_lossy(stdout@)), window_name@),
{
    let text = lossy_text(stdout, 0, stdout.len());
    assert(stdout@.subrange(0, stdout@.len() as int) =~= stdout@);
    let lines = lines_of_chars(&chars_of(text.as_str()));
    let ghost all = lines@.map_values(|l: String| l@);
    let mut i: usize = 0;
    assert(all.skip(0) =~= all);
    while i < lines.len()
        invariant
            i <= lines@.len(),
            all == lines@.map_values(|l: String| l@),
            presence_in(all.skip(i as int), window_name@) == presence_in(all, window_name@),
            all == lines_of(utf8_lossy(stdout@)),
        decreases lines.len() - i,
    {
        let ghost rest = all.skip(i as int);
        proof {
            assert(rest.drop_first() =~= all.skip(i + 1));
            assert(rest[0] == lines@[i as int]@);
        }
        let chars = chars_of(lines[i].as_str());
        let n = chars.len();
        match crate::text::index_of(&chars, '\t') {
            Some(k) => {
                assert(k < n);
                let name = string_of_range(&chars, 0, k);
                proof {
                    assert(name@ =~= chars@.take(k as int));
                }
                if str_eq(name.as_str(), window_name) {
                    let dead = string_of_range(&chars, k + 1, n);
                    proof {
                        assert(dead@ =~= chars@.skip(k + 1));
                    }
                    return if is_dead_pane(dead.as_str()) {
                        WindowPresence::PaneExited
                    } else {
                        WindowPresence::Live
                    };
                }
            },
            None => {
                if str_eq(lines[i].as_str(), window_name) {
                    return WindowPresence::Live;
                }
            },
        }
        i += 1;
    }
    WindowPresence::Absent
}

/// tmux's stderr with its whitespace runs collapsed to single spaces.
pub open spec fn normalized_stderr(stderr: Seq<u8>) -> Seq<char> {
    squash_whitespace(utf8_lossy(stderr))
}

pub fn normalize_stderr(stderr: &Vec<u8>) -> (r: String)
    ensures
        r@ == normalized_stderr(stderr@),
{
    let text = lossy_text(stderr, 0, stderr.len());
    assert(stderr@.subrange(0, stderr@.len() as int) =~= stderr@);
    squash_whitespace_exec(text.as_str())
}

pub fn is_missing_session_error(stderr: &str) -> (r: bool)
    ensures
        r == contains_text(stderr@, "can't find session"@),
{
    contains_str(stderr, "can't find session")
}

/// What listing the recorded window's session says about it.
#[derive(Clone, Debug, PartialEq, Eq)]
pub enum RecordedWindowState {
    Live,
    PaneExited,
    WindowMissing,
    SessionMissing,
    Unknown { error: String },
}

/// Reads the listing of the recorded window's session: the window's presence where tmux
/// answered, a missing session where tmux says it cannot find it, and anything else as
/// unknown.
pub fn recorded_window_state(
    output: &Result<crate::tmux::CommandOutput, String>,
    recorded: &WindowTarget,
) -> (r: RecordedWindowState)
    ensures
        match output {
            Err(e) => r == RecordedWindowState::Unknown { error: *e },
            Ok(out) => if out.success {
                match presence_in(lines_of(utf8_lossy(out.stdout@)), recorded@.window) {
                    WindowPresence::Live => r == RecordedWindowState::Live,
                    WindowPresence::PaneExited => r == RecordedWindowState::PaneExited,
                    WindowPresence::Absent => r == RecordedWindowState::WindowMissing,
                }
            } else if contains_text(normalized_stderr(out.stderr@), "can't find session"@) {
                r == RecordedWindowState::SessionMissing
            } else {
                r matches RecordedWindowState::Unknown { error } && error@
                    == "tmux list-windows failed for session "@ + recorded@.session + ": "@
                    + normalized_stderr(out.stderr@)
            },
        },
{
    match output {
        Err(e) => RecordedWindowState::Unknown { error: e.clone() },
        Ok(out) => {
            if out.success {
                match window_presence(&out.stdout, recorded.window()) {
                    WindowPresence::Live => RecordedWindowState::Live,
                    WindowPresence::PaneExited => RecordedWindowState::PaneExited,
                    WindowPresence::Absent => RecordedWindowState::WindowMissing,
                }
            } else {
                let stderr = normalize_stderr(&out.stderr);
                if is_missing_session_error(stderr.as_str()) {
                    RecordedWindowState::SessionMissing
                } else {
                    let mut e = owned("tmux list-windows failed for session ");
                    push_str(&mut e, recorded.session().as_str());
                    push_str(&mut e, ": ");
                    push_str(&mut e, stderr.as_str());
                    RecordedWindowState::Unknown { error: e }
                }
            }
        },
    }
}

/// The state a recorded window is settled in, or, where tmux no longer lists it, whether
/// its whole session is gone: recovery then looks across sessions.
pub fn target_state(state: RecordedWindowState) -> (r: Result<TargetState, bool>)
    ensures
        match state {
            RecordedWindowState::Live => r == Ok::<TargetState, bool>(TargetState::Live),
            RecordedWindowState::PaneExited => r == Ok::<TargetState, bool>(TargetState::PaneExited),
            RecordedWindowState::WindowMissing => r == Err::<TargetState, bool>(false),
            RecordedWindowState::SessionMissing => r == Err::<TargetState, bool>(true),
            RecordedWindowState::Unknown { error } => r == Ok::<TargetState, bool>(
                TargetState::Unknown { error },
            ),
        },
{
    match state {
        RecordedWindowState::Live => Ok(TargetState::Live),
        RecordedWindowState::PaneExited => Ok(TargetState::PaneExited),
        RecordedWindowState::WindowMissing => Err(false),
        RecordedWindowState::SessionMissing => Err(true),
        RecordedWindowState::Unknown { error } => Ok(TargetState::Unknown { error }),
    }
}

} // verus!
