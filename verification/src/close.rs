//! Closing workers: the steps one close takes, which failures stop it and which it only
//! reports, and what a group close answers once every worker in it was tried.
use vstd::prelude::*;

use crate::digits::decimal;
use crate::paths::{join_path, joined_path};
use crate::text::{owned, push_str, texts};
use crate::wake::{line, wake_line, WakeKind};
use crate::worker::{close_group_result, joined_ids, WorkerCloseOutcome, FINAL_PANE_FILE};

verus! {

/// How far one worker's close has got.
#[derive(Clone, Copy, Debug, PartialEq, Eq, Structural)]
pub enum ClosePhase {
    /// Appending `closed: <id>` to the status log, so a wait on the worker returns.
    Sentinel,
    /// Saving the final pane into the worker's directory.
    Pane,
    /// Closing the worker's tmux window.
    Window,
    /// Moving the worker's directory into the archive.
    Archive,
    /// Forgetting where the worker lived.
    Unregister,
    /// Done, one way or the other.
    Finished,
}

/// What the step just taken came to.
#[derive(Debug, PartialEq, Eq)]
pub enum CloseEvent {
    SentinelAppended(Result<(), String>),
    /// `Ok(true)` where a pane was saved, `Ok(false)` where there was nothing to save.
    PaneCaptured(Result<bool, String>),
    WindowClosed(Result<(), String>),
    /// The directory the worker was archived to.
    Archived(Result<String, String>),
    Unregistered(Result<(), String>),
}

/// What to do next.
pub enum CloseAction {
    /// Append this status line to the worker's log.
    AppendSentinel(String),
    CapturePane,
    CloseWindow,
    Archive,
    Unregister,
    /// The close is over: what it did, or the error that stopped it.
    Finish(Result<WorkerCloseOutcome, String>),
}

/// One worker's close in progress.
pub struct WorkerClose {
    pub id: String,
    pub window_name: String,
    pub phase: ClosePhase,
    pub pane_saved: bool,
    pub pane_error: Option<String>,
    pub window_error: Option<String>,
    pub archive_dir: Option<String>,
    pub pane_path: Option<String>,
}

/// The event each phase waits for.
pub open spec fn close_accepts(phase: ClosePhase, event: CloseEvent) -> bool {
    match (phase, event) {
        (ClosePhase::Sentinel, CloseEvent::SentinelAppended(_)) => true,
        (ClosePhase::Pane, CloseEvent::PaneCaptured(_)) => true,
        (ClosePhase::Window, CloseEvent::WindowClosed(_)) => true,
        (ClosePhase::Archive, CloseEvent::Archived(_)) => true,
        (ClosePhase::Unregister, CloseEvent::Unregistered(_)) => true,
        _ => false,
    }
}

/// Everything but the phase and what the step sets stays as it was.
pub open spec fn same_close(s: WorkerClose, t: WorkerClose) -> bool {
    &&& t.id == s.id
    &&& t.window_name == s.window_name
    &&& t.pane_saved == s.pane_saved
    &&& t.pane_error == s.pane_error
    &&& t.window_error == s.window_error
    &&& t.archive_dir == s.archive_dir
    &&& t.pane_path == s.pane_path
}

/// The outcome a close that got through every step reports.
pub open spec fn close_outcome(s: WorkerClose, o: WorkerCloseOutcome) -> bool {
    &&& o.id == s.id
    &&& o.window_name == s.window_name
    &&& o.pane_error == s.pane_error
    &&& o.window_error == s.window_error
    &&& s.archive_dir == Some(o.archive_dir)
    &&& o.pane_path == s.pane_path
}

/// One step of a close. Failing to append the sentinel, to archive or to unregister stops the
/// close with that error. A pane that could not be captured and a window that could not be
/// closed are only recorded: the window may already be gone, and that must not strand the
/// worker's metadata. The final pane's path is the archived copy's, where a pane was saved.
pub open spec fn close_follows(s: WorkerClose, e: CloseEvent, t: WorkerClose, a: CloseAction) -> bool {
    match e {
        CloseEvent::SentinelAppended(r) => match r {
            Ok(()) => same_close(s, t) && t.phase == ClosePhase::Pane && a is CapturePane,
            Err(m) => same_close(s, t) && t.phase == ClosePhase::Finished && a == CloseAction::Finish(
                Err(m),
            ),
        },
        CloseEvent::PaneCaptured(r) => {
            &&& t.id == s.id && t.window_name == s.window_name && t.window_error == s.window_error
            &&& t.archive_dir == s.archive_dir && t.pane_path == s.pane_path
            &&& t.phase == ClosePhase::Window && a is CloseWindow
            &&& match r {
                Ok(saved) => t.pane_saved == saved && t.pane_error == s.pane_error,
                Err(m) => !t.pane_saved && t.pane_error == Some(m),
            }
        },
        CloseEvent::WindowClosed(r) => {
            &&& t.id == s.id && t.window_name == s.window_name && t.pane_saved == s.pane_saved
            &&& t.pane_error == s.pane_error && t.archive_dir == s.archive_dir
            &&& t.pane_path == s.pane_path
            &&& t.phase == ClosePhase::Archive && a is Archive
            &&& t.window_error == match r {
                Ok(()) => None::<String>,
                Err(m) => Some(m),
            }
        },
        CloseEvent::Archived(r) => match r {
            Ok(dir) => {
                &&& t.id == s.id && t.window_name == s.window_name && t.pane_saved == s.pane_saved
                &&& t.pane_error == s.pane_error && t.window_error == s.window_error
                &&& t.phase == ClosePhase::Unregister && a is Unregister
                &&& t.archive_dir == Some(dir)
                &&& (t.pane_path is Some <==> s.pane_saved)
                &&& (t.pane_path matches Some(p) ==> p@ == joined_path(dir@, FINAL_PANE_FILE@))
            },
            Err(m) => same_close(s, t) && t.phase == ClosePhase::Finished && a == CloseAction::Finish(
                Err(m),
            ),
        },
        CloseEvent::Unregistered(r) => {
            &&& same_close(s, t) && t.phase == ClosePhase::Finished
            &&& match r {
                Ok(()) => a matches CloseAction::Finish(Ok(o)) && close_outcome(s, o),
                Err(m) => a == CloseAction::Finish(Err(m)),
            }
        },
    }
}

/// A close that has reached unregistering knows where the worker was archived.
pub open spec fn close_wf(s: WorkerClose) -> bool {
    s.phase == ClosePhase::Unregister ==> s.archive_dir is Some
}

fn copied(o: &Option<String>) -> (r: Option<String>)
    ensures
        r == *o,
{
    match o {
        Some(v) => Some(v.clone()),
        None => None,
    }
}

impl WorkerClose {
    /// A close of `id`, whose window is `window_name`: it starts by appending `closed: <id>`.
    pub fn start(id: String, window_name: String) -> (r: (WorkerClose, CloseAction))
        ensures
            r.0.id == id && r.0.window_name == window_name,
            r.0.phase == ClosePhase::Sentinel,
            !r.0.pane_saved && r.0.pane_error is None && r.0.window_error is None,
            r.0.archive_dir is None && r.0.pane_path is None,
            close_wf(r.0),
            r.1 matches CloseAction::AppendSentinel(l) && l@ == wake_line(WakeKind::Closed, id@),
    {
        let l = line(WakeKind::Closed, id.as_str());
        (
            WorkerClose {
                id,
                window_name,
                phase: ClosePhase::Sentinel,
                pane_saved: false,
                pane_error: None,
                window_error: None,
                archive_dir: None,
                pane_path: None,
            },
            CloseAction::AppendSentinel(l),
        )
    }

    /// Whether `event` is the one this close waits for.
    pub fn accepts(&self, event: &CloseEvent) -> (r: bool)
        ensures
            r == close_accepts(self.phase, *event),
    {
        match (self.phase, event) {
            (ClosePhase::Sentinel, CloseEvent::SentinelAppended(_)) => true,
            (ClosePhase::Pane, CloseEvent::PaneCaptured(_)) => true,
            (ClosePhase::Window, CloseEvent::WindowClosed(_)) => true,
            (ClosePhase::Archive, CloseEvent::Archived(_)) => true,
            (ClosePhase::Unregister, CloseEvent::Unregistered(_)) => true,
            _ => false,
        }
    }

    /// Takes in what the last step came to and says what to do next.
    pub fn step(self, event: CloseEvent) -> (r: (WorkerClose, CloseAction))
        requires
            close_wf(self),
            close_accepts(self.phase, event),
        ensures
            close_wf(r.0),
            close_follows(self, event, r.0, r.1),
    {
        let mut t = self;
        match event {
            CloseEvent::SentinelAppended(r) => match r {
                Ok(()) => {
                    t.phase = ClosePhase::Pane;
                    (t, CloseAction::CapturePane)
                },
                Err(m) => {
                    t.phase = ClosePhase::Finished;
                    (t, CloseAction::Finish(Err(m)))
                },
            },
            CloseEvent::PaneCaptured(r) => {
                t.phase = ClosePhase::Window;
                match r {
                    Ok(saved) => {
                        t.pane_saved = saved;
                    },
                    Err(m) => {
                        t.pane_saved = false;
                        t.pane_error = Some(m);
                    },
                }
                (t, CloseAction::CloseWindow)
            },
            CloseEvent::WindowClosed(r) => {
                t.phase = ClosePhase::Archive;
                t.window_error = match r {
                    Ok(()) => None,
                    Err(m) => Some(m),
                };
                (t, CloseAction::Archive)
            },
            CloseEvent::Archived(r) => match r {
                Ok(dir) => {
                    t.phase = ClosePhase::Unregister;
                    t.pane_path = if t.pane_saved {
                        Some(join_path(dir.as_str(), FINAL_PANE_FILE))
                    } else {
                        None
                    };
                    t.archive_dir = Some(dir);
                    (t, CloseAction::Unregister)
                },
                Err(m) => {
                    t.phase = ClosePhase::Finished;
                    (t, CloseAction::Finish(Err(m)))
                },
            },
            CloseEvent::Unregistered(r) => {
                t.phase = ClosePhase::Finished;
                match r {
                    Ok(()) => {
                        let archive_dir = match &t.archive_dir {
                            Some(d) => d.clone(),
                            None => String::new(),
                        };
                        let o = WorkerCloseOutcome {
                            id: t.id.clone(),
                            archive_dir,
                            pane_path: copied(&t.pane_path),
                            pane_error: copied(&t.pane_error),
                            window_name: t.window_name.clone(),
                            window_error: copied(&t.window_error),
                        };
                        (t, CloseAction::Finish(Ok(o)))
                    },
                    Err(m) => (t, CloseAction::Finish(Err(m))),
                }
            },
        }
    }
}

/// The ids of the closes that failed, in the order they were tried.
pub open spec fn failed_closes(closed: Seq<(String, Result<WorkerCloseOutcome, String>)>) -> Seq<Seq<char>>
    decreases closed.len(),
{
    if closed.len() == 0 {
        Seq::empty()
    } else {
        failed_closes(closed.drop_last()) + if closed.last().1 is Err {
            seq![closed.last().0@]
        } else {
            Seq::empty()
        }
    }
}

/// The ids of the workers whose metadata could not be read while the group was selected.
pub open spec fn selection_failure_ids(failures: Seq<(String, String)>) -> Seq<Seq<char>> {
    failures.map_values(|f: (String, String)| f.0@)
}

/// No close failed exactly where every one came back `Ok`.
pub proof fn lemma_no_failed_closes(closed: Seq<(String, Result<WorkerCloseOutcome, String>)>)
    ensures
        failed_closes(closed).len() == 0 <==> forall|i: int| 0 <= i < closed.len() ==> (#[trigger] closed[i]).1 is Ok,
    decreases closed.len(),
{
    if closed.len() > 0 {
        lemma_no_failed_closes(closed.drop_last());
        if failed_closes(closed).len() == 0 {
            assert forall|i: int| 0 <= i < closed.len() implies (#[trigger] closed[i]).1 is Ok by {
                if i < closed.len() - 1 {
                    assert(closed[i] == closed.drop_last()[i]);
                }
            }
        } else {
            if forall|i: int| 0 <= i < closed.len() ==> (#[trigger] closed[i]).1 is Ok {
                assert forall|i: int| 0 <= i < closed.drop_last().len() implies (
                #[trigger] closed.drop_last()[i]).1 is Ok by {
                    assert(closed.drop_last()[i] == closed[i]);
                }
                assert(closed[closed.len() - 1].1 is Ok);
            }
        }
    }
}

/// What a group close answers once every worker in it was tried: success where nothing failed,
/// otherwise an error that counts the failures and names them, the workers whose metadata could
/// not be read first, then those whose close failed, each in the order given.
pub fn group_close_result(
    selection: &str,
    selection_failures: &Vec<(String, String)>,
    closed: &Vec<(String, Result<WorkerCloseOutcome, String>)>,
) -> (r: Result<(), String>)
    ensures
        r is Ok <==> (selection_failures@.len() == 0 && forall|i: int|
            0 <= i < closed@.len() ==> (#[trigger] closed@[i]).1 is Ok),
        ({
            let failed = selection_failure_ids(selection_failures@) + failed_closes(closed@);
            failed.len() > 0 ==> (r matches Err(e) && e@ == "worker-close "@ + selection@
                + " failed for "@ + decimal(failed.len()) + " worker(s): "@ + joined_ids(failed))
        }),
{
    let mut failures: Vec<String> = Vec::new();
    let mut i: usize = 0;
    while i < selection_failures.len()
        invariant
            i <= selection_failures@.len(),
            texts(failures@) == selection_failure_ids(selection_failures@.take(i as int)),
        decreases selection_failures.len() - i,
    {
        failures.push(selection_failures[i].0.clone());
        proof {
            assert(selection_failure_ids(selection_failures@.take(i + 1)) =~= selection_failure_ids(
                selection_failures@.take(i as int),
            ).push(selection_failures@[i as int].0@));
            assert(texts(failures@) =~= selection_failure_ids(selection_failures@.take(i as int)).push(
                selection_failures@[i as int].0@,
            ));
        }
        i += 1;
    }
    assert(selection_failures@.take(selection_failures@.len() as int) =~= selection_failures@);
    let ghost first = texts(failures@);
    let mut j: usize = 0;
    while j < closed.len()
        invariant
            j <= closed@.len(),
            first == selection_failure_ids(selection_failures@),
            texts(failures@) == first + failed_closes(closed@.take(j as int)),
        decreases closed.len() - j,
    {
        proof {
            assert(closed@.take(j + 1).drop_last() =~= closed@.take(j as int));
        }
        match &closed[j].1 {
            Err(_) => {
                let ghost before = texts(failures@);
                failures.push(closed[j].0.clone());
                proof {
                    assert(closed@.take(j + 1).last() == closed@[j as int]);
                    assert(failed_closes(closed@.take(j + 1)) =~= failed_closes(closed@.take(j as int)).push(
                        closed@[j as int].0@,
                    ));
                    assert(texts(failures@) =~= before.push(closed@[j as int].0@));
                    assert(texts(failures@) =~= first + failed_closes(closed@.take(j + 1)));
                }
            },
            Ok(_) => {
                proof {
                    assert(closed@.take(j + 1).last() == closed@[j as int]);
                    assert(failed_closes(closed@.take(j + 1)) =~= failed_closes(closed@.take(j as int)));
                }
            },
        }
        j += 1;
    }
    assert(closed@.take(closed@.len() as int) =~= closed@);
    proof {
        lemma_no_failed_closes(closed@);
    }
    close_group_result(selection, &failures)
}

/// The lines one worker adds to a group close: on stdout its row or rows, and on stderr why it
/// failed, where it did.
pub fn group_rows(id: &str, result: &Result<WorkerCloseOutcome, String>) -> (r: (Vec<String>, Option<String>))
    ensures
        result matches Ok(o) ==> texts(r.0@) == crate::worker::group_success_spec(*o) && r.1 is None,
        result matches Err(e) ==> texts(r.0@) == seq!["  "@ + id@ + ",failed,-"@] && (r.1 matches Some(m)
            && m@ == "worker "@ + id@ + " close failed: "@ + e@),
{
    match result {
        Ok(o) => (crate::worker::group_success_lines(o), None),
        Err(e) => {
            let mut v: Vec<String> = Vec::new();
            v.push(crate::worker::group_failure_line(id));
            let mut m = owned("worker ");
            push_str(&mut m, id);
            push_str(&mut m, " close failed: ");
            push_str(&mut m, e.as_str());
            assert(texts(v@) =~= seq!["  "@ + id@ + ",failed,-"@]);
            (v, Some(m))
        },
    }
}

/// A window that cannot be closed does not stop a close. Once `closed: <id>` is appended and
/// the pane was or was not saved, a failed window close is still followed by the archive and
/// the unregistration, and the close succeeds, reporting the window's error beside the
/// archive it made.
pub proof fn lemma_window_error_still_closes(
    s0: WorkerClose,
    pane: Result<bool, String>,
    window_error: String,
    dir: String,
    s1: WorkerClose,
    a1: CloseAction,
    s2: WorkerClose,
    a2: CloseAction,
    s3: WorkerClose,
    a3: CloseAction,
    s4: WorkerClose,
    a4: CloseAction,
    s5: WorkerClose,
    a5: CloseAction,
)
    requires
        close_follows(s0, CloseEvent::SentinelAppended(Ok(())), s1, a1),
        close_follows(s1, CloseEvent::PaneCaptured(pane), s2, a2),
        close_follows(s2, CloseEvent::WindowClosed(Err(window_error)), s3, a3),
        close_follows(s3, CloseEvent::Archived(Ok(dir)), s4, a4),
        close_follows(s4, CloseEvent::Unregistered(Ok(())), s5, a5),
    ensures
        a1 is CapturePane && a2 is CloseWindow && a3 is Archive && a4 is Unregister,
        s5.phase == ClosePhase::Finished,
        a5 matches CloseAction::Finish(Ok(o)) && o.id == s0.id && o.window_name == s0.window_name
            && o.window_error == Some(window_error) && o.archive_dir == dir,
{
}

} // verus!
