//! The watcher's decisions between reads and sends: whether it starts, which check-ins a tick
//! works from, whether a delivery still applies, and what it writes to its own log.
use vstd::prelude::*;

use crate::checkin::Checkin;
use crate::decide::{ArmedCheckin, WorkerSnapshot};
use crate::text::{owned, push_str, trim};
use crate::tmux::target::PaneTarget;
use crate::digits::{decimal, push_decimal};

verus! {

/// Why a watcher is not started for a session that recorded no pane.
pub const NO_PANE_NOTE: &'static str = "watcher not started: this session recorded no lead pane, so there is nothing to type into; niles works without it";

/// What is logged when the lead exits with nudges still undelivered.
pub const EXITING_NOTE: &'static str = "the foreground agent is exiting: the rest of this plan waits for next time";

/// What is logged when the watcher's thread ends.
pub const STOPPED_NOTE: &'static str = "watcher stopped: the foreground agent exited";

/// Before each nudge: once the lead is exiting, the rest of the plan is left undelivered and
/// uncommitted, with a note; otherwise the nudge goes out.
pub fn before_nudge(stopping: bool) -> (r: Option<&'static str>)
    ensures
        stopping ==> r == Some(EXITING_NOTE),
        !stopping ==> r is None,
{
    if stopping {
        Some(EXITING_NOTE)
    } else {
        None
    }
}

/// The pane the watcher types into: the recorded one, trimmed, or the note saying why there is
/// none.
pub fn watch_pane(lead_pane: Option<&str>) -> (r: Result<PaneTarget, String>)
    ensures
        match lead_pane {
            Some(p) => trim(p@).len() > 0,
            None => false,
        } ==> (r matches Ok(t) && t@ == trim(lead_pane.unwrap()@)),
        !(match lead_pane {
            Some(p) => trim(p@).len() > 0,
            None => false,
        }) ==> (r matches Err(e) && e@ == NO_PANE_NOTE@),
{
    match lead_pane {
        Some(p) => match PaneTarget::pane(p) {
            Ok(t) => Ok(t),
            Err(_) => Err(owned(NO_PANE_NOTE)),
        },
        None => Err(owned(NO_PANE_NOTE)),
    }
}

/// The note that opens a watcher's log.
pub fn started_note(pane: &str, workspace: &str) -> (r: String)
    ensures
        r@ == "watcher started: pane="@ + pane@ + " workspace="@ + workspace@,
{
    let mut r = owned("watcher started: pane=");
    push_str(&mut r, pane);
    push_str(&mut r, " workspace=");
    push_str(&mut r, workspace);
    r
}

/// Each armed check-in as its worker's id and its state.
pub open spec fn armed_pairs(s: Seq<ArmedCheckin>) -> Seq<(Seq<char>, Checkin)> {
    s.map_values(|a: ArmedCheckin| (a.id@, a.checkin))
}

/// Notes as text.
pub open spec fn note_texts(s: Seq<String>) -> Seq<Seq<char>> {
    s.map_values(|n: String| n@)
}

/// The note for a check-in that could not be read.
pub open spec fn unreadable_note(id: Seq<char>, e: Seq<char>) -> Seq<char> {
    "ignoring the unreadable check-in for "@ + id + ": "@ + e
}

/// The check-ins read for the first workers of a snapshot, in snapshot order: each worker
/// whose check-in file held one, with it.
pub open spec fn armed_from(snapshot: Seq<WorkerSnapshot>, reads: Seq<Result<Option<Checkin>, String>>) -> Seq<
    (Seq<char>, Checkin),
>
    decreases snapshot.len(),
{
    if snapshot.len() == 0 {
        Seq::empty()
    } else {
        let rest = armed_from(snapshot.drop_last(), reads.take(snapshot.len() - 1));
        match reads[snapshot.len() - 1] {
            Ok(Some(c)) => rest.push((snapshot.last().id@, c)),
            _ => rest,
        }
    }
}

/// The notes for the check-ins that could not be read, in snapshot order.
pub open spec fn notes_from(snapshot: Seq<WorkerSnapshot>, reads: Seq<Result<Option<Checkin>, String>>) -> Seq<
    Seq<char>,
>
    decreases snapshot.len(),
{
    if snapshot.len() == 0 {
        Seq::empty()
    } else {
        let rest = notes_from(snapshot.drop_last(), reads.take(snapshot.len() - 1));
        match reads[snapshot.len() - 1] {
            Err(e) => rest.push(unreadable_note(snapshot.last().id@, e@)),
            _ => rest,
        }
    }
}

/// The check-ins one tick works from: each worker's that could be read, in snapshot order. An
/// unreadable one disarms and nudges nothing; it is noted and read again next tick.
pub fn collect_checkins(
    snapshot: &[WorkerSnapshot],
    reads: Vec<Result<Option<Checkin>, String>>,
) -> (r: (Vec<ArmedCheckin>, Vec<String>))
    requires
        reads@.len() == snapshot@.len(),
    ensures
        armed_pairs(r.0@) == armed_from(snapshot@, reads@),
        note_texts(r.1@) == notes_from(snapshot@, reads@),
{
    let mut armed: Vec<ArmedCheckin> = Vec::new();
    let mut notes: Vec<String> = Vec::new();
    assert(armed_pairs(armed@) =~= Seq::<(Seq<char>, Checkin)>::empty());
    assert(note_texts(notes@) =~= Seq::<Seq<char>>::empty());
    let mut i: usize = 0;
    while i < snapshot.len()
        invariant
            i <= snapshot@.len(),
            reads@.len() == snapshot@.len(),
            armed_pairs(armed@) == armed_from(snapshot@.take(i as int), reads@.take(i as int)),
            note_texts(notes@) == notes_from(snapshot@.take(i as int), reads@.take(i as int)),
        decreases snapshot.len() - i,
    {
        let ghost pairs = armed_pairs(armed@);
        let ghost texts = note_texts(notes@);
        assert(snapshot@.take(i + 1).drop_last() =~= snapshot@.take(i as int));
        assert(reads@.take(i + 1).take(i as int) =~= reads@.take(i as int));
        assert(snapshot@.take(i + 1).last() == snapshot@[i as int]);
        assert(reads@.take(i + 1)[i as int] == reads@[i as int]);
        match &reads[i] {
            Ok(Some(c)) => {
                armed.push(ArmedCheckin { id: owned(snapshot[i].id.as_str()), checkin: *c });
                assert(armed_pairs(armed@) =~= pairs.push((snapshot@[i as int].id@, *c)));
            },
            Ok(None) => {},
            Err(e) => {
                let mut note = owned("ignoring the unreadable check-in for ");
                push_str(&mut note, snapshot[i].id.as_str());
                push_str(&mut note, ": ");
                push_str(&mut note, e.as_str());
                notes.push(note);
                assert(note_texts(notes@) =~= texts.push(unreadable_note(snapshot@[i as int].id@, e@)));
            },
        }
        i += 1;
    }
    assert(snapshot@.take(snapshot@.len() as int) =~= snapshot@);
    assert(reads@.take(reads@.len() as int) =~= reads@);
    (armed, notes)
}

/// Whether an action a plan took on a check-in still applies to the file as it is now.
pub enum PlannedCheckin {
    /// Still the state the plan was built from: the action goes ahead.
    Proceed,
    /// Nothing armed any more: the lead quieted it or the worker reported twice.
    Gone,
    /// Re-armed or unreadable since: left alone, with this note.
    LeaveAlone(String),
}

/// The note for a check-in that was re-armed while a tick was delivering.
pub open spec fn rearmed_note(id: Seq<char>, current: u64, planned: u64) -> Seq<char> {
    "left the check-in for "@ + id
        + " alone: it was re-armed while this tick was delivering (armed_len "@
        + decimal(current as nat) + " where this tick planned on "@ + decimal(planned as nat) + ")"@
}

/// An action on a check-in runs only over the state its plan was built from.
pub fn planned_checkin(id: &str, current: Result<Option<Checkin>, String>, planned: Checkin) -> (r:
    PlannedCheckin)
    ensures
        match current {
            Ok(Some(c)) => if c == planned {
                r is Proceed
            } else {
                r matches PlannedCheckin::LeaveAlone(n) && n@ == rearmed_note(
                    id@,
                    c.armed_len,
                    planned.armed_len,
                )
            },
            Ok(None) => r is Gone,
            Err(e) => r matches PlannedCheckin::LeaveAlone(n) && n@
                == "failed to re-read the check-in for "@ + id@ + ": "@ + e@,
        },
{
    match current {
        Ok(Some(c)) => {
            if c == planned {
                PlannedCheckin::Proceed
            } else {
                let mut n = owned("left the check-in for ");
                push_str(&mut n, id);
                push_str(
                    &mut n,
                    " alone: it was re-armed while this tick was delivering (armed_len ",
                );
                push_decimal(&mut n, c.armed_len);
                push_str(&mut n, " where this tick planned on ");
                push_decimal(&mut n, planned.armed_len);
                push_str(&mut n, ")");
                PlannedCheckin::LeaveAlone(n)
            }
        },
        Ok(None) => PlannedCheckin::Gone,
        Err(e) => {
            let mut n = owned("failed to re-read the check-in for ");
            push_str(&mut n, id);
            push_str(&mut n, ": ");
            push_str(&mut n, e.as_str());
            PlannedCheckin::LeaveAlone(n)
        },
    }
}

/// What is logged after an answered check-in was disarmed: nothing where it was already gone.
pub fn disarm_note(id: &str, result: Result<bool, String>) -> (r: Option<String>)
    ensures
        match result {
            Ok(true) => r matches Some(n) && n@ == "check-in disarmed: "@ + id@ + " answered it"@,
            Ok(false) => r is None,
            Err(e) => r matches Some(n) && n@ == "failed to disarm the check-in for "@ + id@
                + ": "@ + e@,
        },
{
    match result {
        Ok(true) => {
            let mut n = owned("check-in disarmed: ");
            push_str(&mut n, id);
            push_str(&mut n, " answered it");
            Some(n)
        },
        Ok(false) => None,
        Err(e) => {
            let mut n = owned("failed to disarm the check-in for ");
            push_str(&mut n, id);
            push_str(&mut n, ": ");
            push_str(&mut n, e.as_str());
            Some(n)
        },
    }
}

/// What is logged when the next check-in could not be written: the old one fires again.
pub fn rearm_failure_note(id: &str, err: &str) -> (r: String)
    ensures
        r@ == "the check-in for "@ + id@
            + " is still armed at its old deadline, so it fires again: "@ + err@,
{
    let mut n = owned("the check-in for ");
    push_str(&mut n, id);
    push_str(&mut n, " is still armed at its old deadline, so it fires again: ");
    push_str(&mut n, err);
    n
}

/// What is logged after a nudge was typed, or failed to land and waits for the next tick.
pub fn nudge_note(id: &str, text: &str, result: Result<(), String>) -> (r: String)
    ensures
        match result {
            Ok(()) => r@ == "nudged "@ + id@ + ": "@ + text@,
            Err(e) => r@ == "the nudge for "@ + id@ + " did not land, retrying next tick: "@ + e@,
        },
{
    match result {
        Ok(()) => {
            let mut n = owned("nudged ");
            push_str(&mut n, id);
            push_str(&mut n, ": ");
            push_str(&mut n, text);
            n
        },
        Err(e) => {
            let mut n = owned("the nudge for ");
            push_str(&mut n, id);
            push_str(&mut n, " did not land, retrying next tick: ");
            push_str(&mut n, e.as_str());
            n
        },
    }
}

} // verus!
