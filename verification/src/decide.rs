//! The watcher's decision: given the workspace now, what has been accounted for, and which
//! check-ins are armed, what should be said to the lead.
use vstd::prelude::*;

use crate::checkin::{can_rearm, delay_text, rearmed_spec, Checkin};
use crate::statuslog::{find_last_actionable, last_actionable};
use crate::text::{owned, push_str, str_eq};
use crate::time::{time_le, UtcTime};
use crate::wake::{wake_kind_name, ActionableWake, WakeKind};

verus! {

/// One live worker, as the watcher reads it on a tick.
#[derive(Clone, Debug)]
pub struct WorkerSnapshot {
    pub id: String,
    pub worker_dir: String,
    /// The status log's length in bytes.
    pub log_len: u64,
    /// The last complete actionable line in the log, if any.
    pub last_actionable: Option<ActionableWake>,
}

impl WorkerSnapshot {
    /// A worker as the watcher reads it: its status log's bytes, or `None` where it has none.
    pub fn new(id: String, worker_dir: String, log: Option<Vec<u8>>) -> (r: WorkerSnapshot)
        ensures
            r.id == id,
            r.worker_dir == worker_dir,
            r.log_len == match log {
                Some(bytes) => bytes@.len(),
                None => 0,
            },
            r.last_actionable == match log {
                Some(bytes) => last_actionable(bytes@),
                None => None,
            },
    {
        match log {
            Some(bytes) => {
                let last = find_last_actionable(&bytes);
                WorkerSnapshot { id, worker_dir, log_len: bytes.len() as u64, last_actionable: last }
            },
            None => WorkerSnapshot { id, worker_dir, log_len: 0, last_actionable: None },
        }
    }
}

/// A check-in armed for one worker.
#[derive(Clone, Debug)]
pub struct ArmedCheckin {
    pub id: String,
    pub checkin: Checkin,
}

/// The state a delivered nudge moves forward.
#[derive(Clone, Copy, Debug, PartialEq, Eq, Structural)]
pub enum Commit {
    /// Everything up to this log length has been reported.
    Seen(u64),
    /// This check-in landed: `next` replaces `planned`.
    Checkin { planned: Checkin, next: Checkin },
}

/// One line to type into the lead's pane, and what to record once it has landed.
#[derive(Clone, Debug)]
pub struct Nudge {
    pub id: String,
    pub worker_dir: String,
    pub text: String,
    pub commit: Commit,
}

/// A check-in the worker answered, and the state it was read from.
#[derive(Clone, Debug)]
pub struct Disarm {
    pub id: String,
    pub worker_dir: String,
    pub planned: Checkin,
}

/// What one tick should do.
#[derive(Clone, Debug)]
pub struct Plan {
    pub nudges: Vec<Nudge>,
    pub disarms: Vec<Disarm>,
}

/// A nudge as plain values.
pub struct NudgeView {
    pub id: Seq<char>,
    pub worker_dir: Seq<char>,
    pub text: Seq<char>,
    pub commit: Commit,
}

/// A disarm as plain values.
pub struct DisarmView {
    pub id: Seq<char>,
    pub worker_dir: Seq<char>,
    pub planned: Checkin,
}

/// A worker snapshot as plain values.
pub struct WorkerView {
    pub id: Seq<char>,
    pub worker_dir: Seq<char>,
    pub log_len: u64,
    pub last_actionable: Option<ActionableWake>,
}

pub open spec fn nudge_view(n: Nudge) -> NudgeView {
    NudgeView { id: n.id@, worker_dir: n.worker_dir@, text: n.text@, commit: n.commit }
}

pub open spec fn disarm_view(d: Disarm) -> DisarmView {
    DisarmView { id: d.id@, worker_dir: d.worker_dir@, planned: d.planned }
}

pub open spec fn worker_view(w: WorkerSnapshot) -> WorkerView {
    WorkerView {
        id: w.id@,
        worker_dir: w.worker_dir@,
        log_len: w.log_len,
        last_actionable: w.last_actionable,
    }
}

pub open spec fn workers_view(s: Seq<WorkerSnapshot>) -> Seq<WorkerView> {
    s.map_values(|w: WorkerSnapshot| worker_view(w))
}

/// `niles: <id> reported (<kind>) — check workers`
pub open spec fn report_text(id: Seq<char>, kind: WakeKind) -> Seq<char> {
    "niles: "@ + id + " reported ("@ + wake_kind_name(kind) + ") — check workers"@
}

/// `niles: no report from <id> in <elapsed> — check it`
pub open spec fn no_report_text(id: Seq<char>, elapsed: Seq<char>) -> Seq<char> {
    "niles: no report from "@ + id + " in "@ + elapsed + " — check it"@
}

pub fn report_text_exec(id: &str, kind: WakeKind) -> (r: String)
    ensures
        r@ == report_text(id@, kind),
{
    let mut r = owned("niles: ");
    push_str(&mut r, id);
    push_str(&mut r, " reported (");
    push_str(&mut r, kind.as_str());
    push_str(&mut r, ") — check workers");
    r
}

pub fn no_report_text_exec(id: &str, elapsed: &str) -> (r: String)
    ensures
        r@ == no_report_text(id@, elapsed@),
{
    let mut r = owned("niles: no report from ");
    push_str(&mut r, id);
    push_str(&mut r, " in ");
    push_str(&mut r, elapsed);
    push_str(&mut r, " — check it");
    r
}

/// The check-in armed for `id`: the first entry that names it.
pub open spec fn checkin_for(checkins: Seq<ArmedCheckin>, id: Seq<char>) -> Option<Checkin>
    decreases checkins.len(),
{
    if checkins.len() == 0 {
        None
    } else if checkins[0].id@ == id {
        Some(checkins[0].checkin)
    } else {
        checkin_for(checkins.drop_first(), id)
    }
}

/// What a tick has decided so far: the memory, the nudges and the disarms.
pub struct PlanState {
    pub seen: Map<Seq<char>, u64>,
    pub nudges: Seq<NudgeView>,
    pub disarms: Seq<DisarmView>,
}

/// One worker's share of a tick.
///
/// A log shorter than what was accounted for is a new log, read from its start. A check-in the
/// last actionable line answers (it ends past the armed length) is disarmed; one that is due and
/// unanswered nudges and carries its re-arm. A log that grew past what was accounted for, whose
/// last actionable line ends past it, is a report.
pub open spec fn plan_worker(
    st: PlanState,
    w: WorkerView,
    checkin: Option<Checkin>,
    now: UtcTime,
) -> PlanState {
    let seen0: u64 = if st.seen.contains_key(w.id) {
        st.seen[w.id]
    } else {
        0
    };
    let accounted: u64 = if w.log_len < seen0 {
        0
    } else {
        seen0
    };
    let seen = st.seen.insert(w.id, accounted);
    let (nudges, disarms) = match checkin {
        Some(c) => match w.last_actionable {
            Some(wake) if wake.end > c.armed_len => (
                st.nudges,
                st.disarms.push(DisarmView { id: w.id, worker_dir: w.worker_dir, planned: c }),
            ),
            _ => if time_le(c.deadline, now) {
                (
                    st.nudges.push(
                        NudgeView {
                            id: w.id,
                            worker_dir: w.worker_dir,
                            text: no_report_text(w.id, delay_text(c.step)),
                            commit: Commit::Checkin { planned: c, next: rearmed_spec(c, now) },
                        },
                    ),
                    st.disarms,
                )
            } else {
                (st.nudges, st.disarms)
            },
        },
        None => (st.nudges, st.disarms),
    };
    let nudges = match w.last_actionable {
        Some(wake) if w.log_len > accounted && wake.end > accounted => nudges.push(
            NudgeView {
                id: w.id,
                worker_dir: w.worker_dir,
                text: report_text(w.id, wake.kind),
                commit: Commit::Seen(w.log_len),
            },
        ),
        _ => nudges,
    };
    PlanState { seen, nudges, disarms }
}

/// The workers of a snapshot, in order.
pub open spec fn plan_workers(
    st: PlanState,
    workers: Seq<WorkerView>,
    checkins: Seq<ArmedCheckin>,
    now: UtcTime,
) -> PlanState
    decreases workers.len(),
{
    if workers.len() == 0 {
        st
    } else {
        plan_workers(
            plan_worker(
                st,
                workers[0],
                checkin_for(checkins, workers[0].id),
                now,
            ),
            workers.drop_first(),
            checkins,
            now,
        )
    }
}

pub open spec fn snapshot_ids(workers: Seq<WorkerView>) -> Set<Seq<char>> {
    Set::new(|id: Seq<char>| exists|i: int| 0 <= i < workers.len() && workers[i].id == id)
}

/// A whole tick: every worker in order, then the memory forgets workers that are gone.
pub open spec fn plan_spec(
    seen: Map<Seq<char>, u64>,
    workers: Seq<WorkerView>,
    checkins: Seq<ArmedCheckin>,
    now: UtcTime,
) -> PlanState {
    let st = plan_workers(
        PlanState { seen, nudges: Seq::empty(), disarms: Seq::empty() },
        workers,
        checkins,
        now,
    );
    PlanState {
        seen: st.seen.restrict(snapshot_ids(workers)),
        nudges: st.nudges,
        disarms: st.disarms,
    }
}

/// The memory of a watcher starting now: each live worker's current log length.
pub open spec fn at_start_seen(workers: Seq<WorkerView>) -> Map<Seq<char>, u64>
    decreases workers.len(),
{
    if workers.len() == 0 {
        Map::empty()
    } else {
        at_start_seen(workers.drop_last()).insert(workers.last().id, workers.last().log_len)
    }
}

/// Every check-in armed in `checkins` can be re-armed at `now`.
pub open spec fn all_rearmable(checkins: Seq<ArmedCheckin>, now: UtcTime) -> bool {
    forall|i: int| 0 <= i < checkins.len() ==> can_rearm(#[trigger] checkins[i].checkin, now)
}

/// One remembered log length.
#[derive(Clone, Debug)]
struct SeenEntry {
    id: String,
    len: u64,
}

/// What the watcher thread remembers between ticks: how much of each live worker's log has
/// been accounted for. Keyed by worker id, a `String`, for which vstd's `BTreeMap`
/// specification has no order model; the entries are held as a list with distinct ids.
pub struct WatchMemory {
    seen: Vec<SeenEntry>,
}

impl WatchMemory {
    /// The memory as a map from worker id to accounted log length.
    pub closed spec fn view(&self) -> Map<Seq<char>, u64> {
        Map::new(
            |id: Seq<char>| exists|i: int| 0 <= i < self.seen@.len() && self.seen@[i].id@ == id,
            |id: Seq<char>|
                self.seen@[choose|i: int| 0 <= i < self.seen@.len() && self.seen@[i].id@ == id].len,
        )
    }

    /// No id is remembered twice.
    pub closed spec fn wf(&self) -> bool {
        forall|i: int, j: int|
            0 <= i < self.seen@.len() && 0 <= j < self.seen@.len() && i != j ==> self.seen@[i].id@
                != self.seen@[j].id@
    }

    proof fn lemma_view_at(&self, i: int)
        requires
            self.wf(),
            0 <= i < self.seen@.len(),
        ensures
            self.view().contains_key(self.seen@[i].id@),
            self.view()[self.seen@[i].id@] == self.seen@[i].len,
    {
        let id = self.seen@[i].id@;
        let j = choose|j: int| 0 <= j < self.seen@.len() && self.seen@[j].id@ == id;
        assert(self.seen@[j].id@ == id);
    }

    /// A watcher with nothing accounted for.
    pub fn new() -> (r: WatchMemory)
        ensures
            r.wf(),
            r.view() == Map::<Seq<char>, u64>::empty(),
    {
        let r = WatchMemory { seen: Vec::new() };
        assert(r.view() =~= Map::<Seq<char>, u64>::empty());
        r
    }

    fn find(&self, id: &str) -> (r: Option<usize>)
        requires
            self.wf(),
        ensures
            r matches Some(i) ==> i < self.seen@.len() && self.seen@[i as int].id@ == id@,
            r is None ==> !self.view().contains_key(id@),
    {
        let mut i: usize = 0;
        while i < self.seen.len()
            invariant
                i <= self.seen@.len(),
                forall|j: int| 0 <= j < i ==> self.seen@[j].id@ != id@,
            decreases self.seen.len() - i,
        {
            if str_eq(self.seen[i].id.as_str(), id) {
                return Some(i);
            }
            i += 1;
        }
        None
    }

    /// The accounted length for `id`, if it is remembered.
    pub fn get(&self, id: &str) -> (r: Option<u64>)
        requires
            self.wf(),
        ensures
            r matches Some(v) ==> self.view().contains_key(id@) && self.view()[id@] == v,
            r is None ==> !self.view().contains_key(id@),
    {
        match self.find(id) {
            Some(i) => {
                proof {
                    self.lemma_view_at(i as int);
                }
                Some(self.seen[i].len)
            },
            None => None,
        }
    }

    /// Records `len` for `id`.
    pub fn set(&mut self, id: &str, len: u64)
        requires
            old(self).wf(),
        ensures
            final(self).wf(),
            final(self).view() == old(self).view().insert(id@, len),
    {
        let ghost before = self.view();
        match self.find(id) {
            Some(i) => {
                let entry = SeenEntry { id: self.seen[i].id.clone(), len };
                self.seen.set(i, entry);
                proof {
                    assert forall|k: Seq<char>| #[trigger] self.view().contains_key(k)
                        == before.insert(id@, len).contains_key(k) by {
                        if before.contains_key(k) {
                            let j = choose|j: int|
                                0 <= j < old(self).seen@.len() && old(self).seen@[j].id@ == k;
                            assert(self.seen@[j].id@ == k);
                        }
                        if self.view().contains_key(k) {
                            let j = choose|j: int|
                                0 <= j < self.seen@.len() && self.seen@[j].id@ == k;
                            if j != i {
                                assert(old(self).seen@[j].id@ == k);
                            }
                        }
                    }
                    assert forall|k: Seq<char>| #[trigger] self.view().contains_key(k) implies self.view()[k]
                        == before.insert(id@, len)[k] by {
                        let j = choose|j: int| 0 <= j < self.seen@.len() && self.seen@[j].id@ == k;
                        self.lemma_view_at(j);
                        if j != i {
                            old(self).lemma_view_at(j);
                        }
                    }
                    assert(self.view() =~= before.insert(id@, len));
                }
            },
            None => {
                self.seen.push(SeenEntry { id: owned(id), len });
                proof {
                    let n = self.seen@.len() - 1;
                    assert forall|k: Seq<char>| #[trigger] self.view().contains_key(k)
                        == before.insert(id@, len).contains_key(k) by {
                        if before.contains_key(k) {
                            let j = choose|j: int|
                                0 <= j < old(self).seen@.len() && old(self).seen@[j].id@ == k;
                            assert(self.seen@[j].id@ == k);
                        }
                        if k == id@ {
                            assert(self.seen@[n].id@ == k);
                        }
                        if self.view().contains_key(k) {
                            let j = choose|j: int|
                                0 <= j < self.seen@.len() && self.seen@[j].id@ == k;
                            if j != n {
                                assert(old(self).seen@[j].id@ == k);
                            }
                        }
                    }
                    assert forall|k: Seq<char>| #[trigger] self.view().contains_key(k) implies self.view()[k]
                        == before.insert(id@, len)[k] by {
                        let j = choose|j: int| 0 <= j < self.seen@.len() && self.seen@[j].id@ == k;
                        self.lemma_view_at(j);
                        if j != n {
                            old(self).lemma_view_at(j);
                        }
                    }
                    assert(self.view() =~= before.insert(id@, len));
                }
            },
        }
    }

    /// Forgets every worker not in `workers`.
    fn retain_live(&mut self, workers: &[WorkerSnapshot])
        requires
            old(self).wf(),
        ensures
            final(self).wf(),
            final(self).view() == old(self).view().restrict(
                snapshot_ids(workers_view(workers@)),
            ),
    {
        let ghost before = self.view();
        let ghost live = snapshot_ids(workers_view(workers@));
        let mut kept = WatchMemory::new();
        let mut i: usize = 0;
        while i < self.seen.len()
            invariant
                i <= self.seen@.len(),
                self.wf(),
                kept.wf(),
                before == self.view(),
                live == snapshot_ids(workers_view(workers@)),
                kept.view() == before.restrict(live.intersect(self.ids_before(i as int))),
            decreases self.seen.len() - i,
        {
            let ghost prev = self.ids_before(i as int);
            let ghost id = self.seen@[i as int].id@;
            proof {
                self.lemma_view_at(i as int);
                assert(self.ids_before(i + 1) =~= prev.insert(id));
            }
            if contains_id(workers, self.seen[i].id.as_str()) {
                kept.set(self.seen[i].id.as_str(), self.seen[i].len);
                assert(kept.view() =~= before.restrict(live.intersect(self.ids_before(i + 1))));
            } else {
                assert(before.restrict(live.intersect(self.ids_before(i + 1)))
                    =~= before.restrict(live.intersect(prev)));
            }
            i += 1;
        }
        proof {
            assert forall|k: Seq<char>| before.contains_key(k) implies #[trigger] self.ids_before(
                self.seen@.len() as int,
            ).contains(k) by {
                let j = choose|j: int| 0 <= j < self.seen@.len() && self.seen@[j].id@ == k;
                assert(self.ids_before(self.seen@.len() as int).contains(self.seen@[j].id@));
            }
            assert(before.restrict(live.intersect(self.ids_before(self.seen@.len() as int)))
                =~= before.restrict(live));
        }
        *self = kept;
    }

    /// The ids of the first `i` entries.
    spec fn ids_before(&self, i: int) -> Set<Seq<char>> {
        Set::new(|id: Seq<char>| exists|j: int| 0 <= j < i && self.seen@[j].id@ == id)
    }
}

impl WatchMemory {
    /// Memory for a watcher that is starting now: everything already in a live worker's log
    /// is history.
    pub fn at_start(snapshot: &[WorkerSnapshot]) -> (r: WatchMemory)
        ensures
            r.wf(),
            r.view() == at_start_seen(workers_view(snapshot@)),
    {
        let ghost wv = workers_view(snapshot@);
        let mut r = WatchMemory::new();
        let mut i: usize = 0;
        while i < snapshot.len()
            invariant
                i <= snapshot@.len(),
                wv == workers_view(snapshot@),
                r.wf(),
                r.view() == at_start_seen(wv.take(i as int)),
            decreases snapshot.len() - i,
        {
            r.set(snapshot[i].id.as_str(), snapshot[i].log_len);
            proof {
                let t = wv.take(i + 1);
                assert(t.drop_last() =~= wv.take(i as int));
                assert(t.last() == wv[i as int]);
            }
            i += 1;
        }
        assert(wv.take(snapshot@.len() as int) =~= wv);
        r
    }

    /// One worker's share of a tick, as `plan_worker` states it.
    fn plan_one(
        &mut self,
        worker: &WorkerSnapshot,
        checkin: Option<Checkin>,
        now: UtcTime,
        nudges: &mut Vec<Nudge>,
        disarms: &mut Vec<Disarm>,
    )
        requires
            old(self).wf(),
            checkin matches Some(c) ==> (time_le(c.deadline, now) ==> can_rearm(c, now)),
        ensures
            final(self).wf(),
            plan_worker(
                PlanState {
                    seen: old(self).view(),
                    nudges: nudges_view(old(nudges)@),
                    disarms: disarms_view(old(disarms)@),
                },
                worker_view(*worker),
                checkin,
                now,
            ) == (PlanState {
                seen: final(self).view(),
                nudges: nudges_view(final(nudges)@),
                disarms: disarms_view(final(disarms)@),
            }),
    {
        let ghost n0 = nudges@;
        let ghost d0 = disarms@;
        let seen0: u64 = match self.get(worker.id.as_str()) {
            Some(v) => v,
            None => 0,
        };
        let accounted: u64 = if worker.log_len < seen0 {
            0
        } else {
            seen0
        };
        self.set(worker.id.as_str(), accounted);
        match checkin {
            Some(c) => {
                let answered = match worker.last_actionable {
                    Some(wake) => c.answered_by(wake),
                    None => false,
                };
                if answered {
                    disarms.push(
                        Disarm {
                            id: owned(worker.id.as_str()),
                            worker_dir: owned(worker.worker_dir.as_str()),
                            planned: c,
                        },
                    );
                    assert(disarms_view(disarms@) =~= disarms_view(d0).push(
                        DisarmView { id: worker.id@, worker_dir: worker.worker_dir@, planned: c },
                    ));
                } else if now.at_or_after(&c.deadline) {
                    let label = c.elapsed_label();
                    let text = no_report_text_exec(worker.id.as_str(), label.as_str());
                    let next = c.rearmed(now);
                    nudges.push(
                        Nudge {
                            id: owned(worker.id.as_str()),
                            worker_dir: owned(worker.worker_dir.as_str()),
                            text,
                            commit: Commit::Checkin { planned: c, next },
                        },
                    );
                    assert(nudges_view(nudges@) =~= nudges_view(n0).push(
                        NudgeView {
                            id: worker.id@,
                            worker_dir: worker.worker_dir@,
                            text: no_report_text(worker.id@, delay_text(c.step)),
                            commit: Commit::Checkin { planned: c, next: rearmed_spec(c, now) },
                        },
                    ));
                }
            },
            None => {},
        }
        let ghost n1 = nudges@;
        match worker.last_actionable {
            Some(wake) => {
                if worker.log_len > accounted && wake.end > accounted {
                    let text = report_text_exec(worker.id.as_str(), wake.kind);
                    nudges.push(
                        Nudge {
                            id: owned(worker.id.as_str()),
                            worker_dir: owned(worker.worker_dir.as_str()),
                            text,
                            commit: Commit::Seen(worker.log_len),
                        },
                    );
                    assert(nudges_view(nudges@) =~= nudges_view(n1).push(
                        NudgeView {
                            id: worker.id@,
                            worker_dir: worker.worker_dir@,
                            text: report_text(worker.id@, wake.kind),
                            commit: Commit::Seen(worker.log_len),
                        },
                    ));
                }
            },
            None => {},
        }
    }

    /// Decides this tick's nudges and disarms, and forgets workers that are gone.
    pub fn plan(&mut self, snapshot: &[WorkerSnapshot], checkins: &[ArmedCheckin], now: UtcTime) -> (r:
        Plan)
        requires
            old(self).wf(),
            due_rearmable(checkins@, now),
        ensures
            final(self).wf(),
            ({
                let st = plan_spec(old(self).view(), workers_view(snapshot@), checkins@, now);
                &&& final(self).view() == st.seen
                &&& nudges_view(r.nudges@) == st.nudges
                &&& disarms_view(r.disarms@) == st.disarms
            }),
    {
        let ghost wv = workers_view(snapshot@);
        let ghost init = PlanState { seen: self.view(), nudges: Seq::empty(), disarms: Seq::empty() };
        let mut nudges: Vec<Nudge> = Vec::new();
        let mut disarms: Vec<Disarm> = Vec::new();
        assert(nudges_view(nudges@) =~= Seq::<NudgeView>::empty());
        assert(disarms_view(disarms@) =~= Seq::<DisarmView>::empty());
        assert(wv.skip(0) =~= wv);
        let mut i: usize = 0;
        while i < snapshot.len()
            invariant
                i <= snapshot@.len(),
                wv == workers_view(snapshot@),
                self.wf(),
                due_rearmable(checkins@, now),
                plan_workers(
                    PlanState {
                        seen: self.view(),
                        nudges: nudges_view(nudges@),
                        disarms: disarms_view(disarms@),
                    },
                    wv.skip(i as int),
                    checkins@,
                    now,
                ) == plan_workers(init, wv, checkins@, now),
            decreases snapshot.len() - i,
        {
            let checkin = lookup_checkin(checkins, snapshot[i].id.as_str());
            proof {
                lemma_checkin_for_is_armed(checkins@, snapshot@[i as int].id@);
                assert(wv.skip(i as int).drop_first() =~= wv.skip(i + 1));
                assert(wv.skip(i as int)[0] == wv[i as int]);
            }
            self.plan_one(&snapshot[i], checkin, now, &mut nudges, &mut disarms);
            i += 1;
        }
        assert(wv.skip(snapshot@.len() as int) =~= Seq::<WorkerView>::empty());
        self.retain_live(snapshot);
        Plan { nudges, disarms }
    }

    /// Records a nudge that landed: a report moves the accounted length forward; a check-in
    /// nudge records nothing here.
    pub fn commit(&mut self, nudge: &Nudge)
        requires
            old(self).wf(),
        ensures
            final(self).wf(),
            final(self).view() == match nudge.commit {
                Commit::Seen(len) => old(self).view().insert(nudge.id@, len),
                Commit::Checkin { .. } => old(self).view(),
            },
    {
        match nudge.commit {
            Commit::Seen(len) => self.set(nudge.id.as_str(), len),
            Commit::Checkin { .. } => {},
        }
    }

    /// What a delivery attempt leaves behind. Only a nudge that landed moves the memory
    /// forward, and only a landed check-in nudge hands back the check-in to re-arm (the state
    /// it was planned on, and the next); a nudge that did not land changes nothing, so the next
    /// tick plans it again.
    pub fn land(&mut self, nudge: &Nudge, sent: &Result<(), String>) -> (r: Option<(Checkin, Checkin)>)
        requires
            old(self).wf(),
        ensures
            final(self).wf(),
            sent is Ok ==> final(self).view() == match nudge.commit {
                Commit::Seen(len) => old(self).view().insert(nudge.id@, len),
                Commit::Checkin { .. } => old(self).view(),
            } && r == match nudge.commit {
                Commit::Checkin { planned, next } => Some((planned, next)),
                Commit::Seen(_) => None,
            },
            sent is Err ==> final(self).view() == old(self).view() && r is None,
    {
        match sent {
            Ok(()) => {
                self.commit(nudge);
                match nudge.commit {
                    Commit::Checkin { planned, next } => Some((planned, next)),
                    Commit::Seen(_) => None,
                }
            },
            Err(_) => None,
        }
    }
}

/// Every check-in that is due at `now` can be re-armed at `now`.
pub open spec fn due_rearmable(checkins: Seq<ArmedCheckin>, now: UtcTime) -> bool {
    forall|i: int|
        0 <= i < checkins.len() && time_le(#[trigger] checkins[i].checkin.deadline, now)
            ==> can_rearm(checkins[i].checkin, now)
}

pub open spec fn nudges_view(s: Seq<Nudge>) -> Seq<NudgeView> {
    s.map_values(|n: Nudge| nudge_view(n))
}

pub open spec fn disarms_view(s: Seq<Disarm>) -> Seq<DisarmView> {
    s.map_values(|d: Disarm| disarm_view(d))
}

proof fn lemma_checkin_for_is_armed(checkins: Seq<ArmedCheckin>, id: Seq<char>)
    ensures
        checkin_for(checkins, id) matches Some(c) ==> exists|i: int|
            0 <= i < checkins.len() && #[trigger] checkins[i].checkin == c,
    decreases checkins.len(),
{
    if checkins.len() > 0 && checkins[0].id@ != id {
        lemma_checkin_for_is_armed(checkins.drop_first(), id);
        if checkin_for(checkins, id) is Some {
            let c = checkin_for(checkins, id)->0;
            let i = choose|i: int|
                0 <= i < checkins.drop_first().len() && #[trigger] checkins.drop_first()[i].checkin
                    == c;
            assert(checkins[i + 1].checkin == c);
        }
    } else if checkins.len() > 0 {
        assert(checkins[0].checkin == checkin_for(checkins, id)->0);
    }
}

/// The check-in armed for `id`, if any.
fn lookup_checkin(checkins: &[ArmedCheckin], id: &str) -> (r: Option<Checkin>)
    ensures
        r == checkin_for(checkins@, id@),
{
    let mut i: usize = 0;
    assert(checkins@.skip(0) =~= checkins@);
    while i < checkins.len()
        invariant
            i <= checkins@.len(),
            checkin_for(checkins@.skip(i as int), id@) == checkin_for(checkins@, id@),
        decreases checkins.len() - i,
    {
        assert(checkins@.skip(i as int).drop_first() =~= checkins@.skip(i + 1));
        if str_eq(checkins[i].id.as_str(), id) {
            return Some(checkins[i].checkin);
        }
        i += 1;
    }
    None
}

/// Every worker's whole log is accounted for in `seen`.
pub open spec fn all_accounted(seen: Map<Seq<char>, u64>, workers: Seq<WorkerView>) -> bool {
    forall|i: int|
        0 <= i < workers.len() ==> seen.contains_key(#[trigger] workers[i].id) && seen[workers[i].id]
            == workers[i].log_len
}

/// No two workers share an id.
pub open spec fn unique_ids(workers: Seq<WorkerView>) -> bool {
    forall|i: int, j: int|
        0 <= i < workers.len() && 0 <= j < workers.len() && i != j ==> workers[i].id
            != workers[j].id
}

/// Every nudge in `nudges` is a check-in nudge.
pub open spec fn only_checkin_nudges(nudges: Seq<NudgeView>) -> bool {
    forall|k: int| 0 <= k < nudges.len() ==> (#[trigger] nudges[k]).commit is Checkin
}

proof fn lemma_accounted_fold(st: PlanState, workers: Seq<WorkerView>, checkins: Seq<ArmedCheckin>, now: UtcTime)
    requires
        all_accounted(st.seen, workers),
        only_checkin_nudges(st.nudges),
    ensures
        only_checkin_nudges(plan_workers(st, workers, checkins, now).nudges),
    decreases workers.len(),
{
    if workers.len() > 0 {
        let w = workers[0];
        let next = plan_worker(st, w, checkin_for(checkins, w.id), now);
        assert(st.seen.insert(w.id, w.log_len) =~= st.seen);
        assert(next.seen == st.seen);
        assert forall|i: int| 0 <= i < workers.drop_first().len() implies next.seen.contains_key(
            #[trigger] workers.drop_first()[i].id,
        ) && next.seen[workers.drop_first()[i].id] == workers.drop_first()[i].log_len by {
            assert(workers.drop_first()[i] == workers[i + 1]);
        }
        assert forall|k: int| 0 <= k < next.nudges.len() implies (#[trigger] next.nudges[k]).commit is Checkin by {
            if k < st.nudges.len() {
                assert(next.nudges[k] == st.nudges[k]);
            }
        }
        lemma_accounted_fold(next, workers.drop_first(), checkins, now);
    }
}

/// A tick over logs whose whole length is already accounted for reports nothing: every nudge
/// it plans is a check-in nudge. This is why the same state is never reported twice once its
/// report has landed, and why history present when a watcher starts never nudges.
pub proof fn lemma_accounted_logs_report_nothing(
    seen: Map<Seq<char>, u64>,
    workers: Seq<WorkerView>,
    checkins: Seq<ArmedCheckin>,
    now: UtcTime,
)
    requires
        all_accounted(seen, workers),
    ensures
        only_checkin_nudges(plan_spec(seen, workers, checkins, now).nudges),
{
    lemma_accounted_fold(
        PlanState { seen, nudges: Seq::empty(), disarms: Seq::empty() },
        workers,
        checkins,
        now,
    );
}

/// A watcher starting now has every live worker's whole log accounted for, where worker ids
/// are distinct.
pub proof fn lemma_at_start_accounts_everything(workers: Seq<WorkerView>)
    requires
        unique_ids(workers),
    ensures
        all_accounted(at_start_seen(workers), workers),
    decreases workers.len(),
{
    if workers.len() > 0 {
        let rest = workers.drop_last();
        assert forall|i: int, j: int|
            0 <= i < rest.len() && 0 <= j < rest.len() && i != j implies rest[i].id != rest[j].id by {
            assert(rest[i] == workers[i] && rest[j] == workers[j]);
        }
        lemma_at_start_accounts_everything(rest);
        assert forall|i: int| 0 <= i < workers.len() implies at_start_seen(workers).contains_key(
            #[trigger] workers[i].id,
        ) && at_start_seen(workers)[workers[i].id] == workers[i].log_len by {
            if i < workers.len() - 1 {
                assert(rest[i] == workers[i]);
                assert(workers[i].id != workers[workers.len() - 1].id);
            }
        }
    }
}

proof fn lemma_quiet_fold(st: PlanState, workers: Seq<WorkerView>, now: UtcTime)
    requires
        all_accounted(st.seen, workers),
    ensures
        plan_workers(st, workers, Seq::empty(), now).nudges == st.nudges,
        plan_workers(st, workers, Seq::empty(), now).disarms == st.disarms,
    decreases workers.len(),
{
    if workers.len() > 0 {
        let w = workers[0];
        let next = plan_worker(st, w, checkin_for(Seq::<ArmedCheckin>::empty(), w.id), now);
        assert(st.seen.insert(w.id, w.log_len) =~= st.seen);
        assert(next.seen == st.seen);
        assert forall|i: int| 0 <= i < workers.drop_first().len() implies next.seen.contains_key(
            #[trigger] workers.drop_first()[i].id,
        ) && next.seen[workers.drop_first()[i].id] == workers.drop_first()[i].log_len by {
            assert(workers.drop_first()[i] == workers[i + 1]);
        }
        lemma_quiet_fold(next, workers.drop_first(), now);
    }
}

/// A watcher that starts with no check-in armed plans nothing on its first look: whatever the
/// logs already hold is history, where worker ids are distinct.
pub proof fn lemma_start_with_no_checkins_plans_nothing(workers: Seq<WorkerView>, now: UtcTime)
    requires
        unique_ids(workers),
    ensures
        plan_spec(at_start_seen(workers), workers, Seq::empty(), now).nudges.len() == 0,
        plan_spec(at_start_seen(workers), workers, Seq::empty(), now).disarms.len() == 0,
{
    lemma_at_start_accounts_everything(workers);
    lemma_quiet_fold(
        PlanState { seen: at_start_seen(workers), nudges: Seq::empty(), disarms: Seq::empty() },
        workers,
        now,
    );
}

/// A worker whose log grew without a new actionable line, and whose log was accounted for
/// through its old end, gets the same share of a tick as before it grew: no report, and the
/// same disarm and check-in decisions. Progress notes neither answer a check-in nor nudge.
pub proof fn lemma_quiet_growth_changes_nothing(
    st: PlanState,
    w: WorkerView,
    grown_len: u64,
    checkin: Option<Checkin>,
    now: UtcTime,
)
    requires
        st.seen.contains_key(w.id),
        st.seen[w.id] == w.log_len,
        w.log_len <= grown_len,
        w.last_actionable matches Some(k) ==> k.end <= w.log_len,
    ensures
        plan_worker(st, WorkerView { log_len: grown_len, ..w }, checkin, now) == plan_worker(
            st,
            w,
            checkin,
            now,
        ),
{
}

/// A check-in nudge is owed only to an unanswered check-in: the nudged worker is one of the
/// tick's workers, the check-in it carries is the one armed for that worker, and the worker's
/// last actionable line, if any, ends within the log as it was when the check-in was armed.
pub open spec fn owed_checkin_nudge(n: NudgeView, workers: Seq<WorkerView>, checkins: Seq<ArmedCheckin>) -> bool {
    n.commit is Checkin ==> exists|j: int|
        0 <= j < workers.len() && #[trigger] workers[j].id == n.id && checkin_for(checkins, n.id)
            == Some(n.commit->planned) && (workers[j].last_actionable is None
            || workers[j].last_actionable.unwrap().end <= n.commit->planned.armed_len)
}

proof fn lemma_checkin_nudges_fold(
    st: PlanState,
    all: Seq<WorkerView>,
    off: int,
    checkins: Seq<ArmedCheckin>,
    now: UtcTime,
)
    requires
        0 <= off <= all.len(),
        forall|k: int| 0 <= k < st.nudges.len() ==> owed_checkin_nudge(#[trigger] st.nudges[k], all, checkins),
    ensures
        forall|k: int| 0 <= k < plan_workers(st, all.skip(off), checkins, now).nudges.len() ==> owed_checkin_nudge(
            #[trigger] plan_workers(st, all.skip(off), checkins, now).nudges[k],
            all,
            checkins,
        ),
    decreases all.len() - off,
{
    if off < all.len() {
        let w = all[off];
        assert(all.skip(off)[0] == w);
        assert(all.skip(off).drop_first() =~= all.skip(off + 1));
        let c = checkin_for(checkins, w.id);
        let next = plan_worker(st, w, c, now);
        assert forall|k: int| 0 <= k < next.nudges.len() implies owed_checkin_nudge(
            #[trigger] next.nudges[k],
            all,
            checkins,
        ) by {
            if k < st.nudges.len() {
                assert(next.nudges[k] == st.nudges[k]);
            } else {
                let n = next.nudges[k];
                if n.commit is Checkin {
                    assert(n.id == w.id);
                    assert(all[off].id == n.id);
                }
            }
        }
        lemma_checkin_nudges_fold(next, all, off + 1, checkins, now);
        assert(plan_workers(st, all.skip(off), checkins, now) == plan_workers(
            next,
            all.skip(off + 1),
            checkins,
            now,
        ));
    } else {
        assert(all.skip(off) =~= Seq::<WorkerView>::empty());
        assert(plan_workers(st, all.skip(off), checkins, now) == st);
    }
}

/// An answered check-in never nudges: in any tick, every check-in nudge goes to a worker whose
/// armed check-in it carries and whose last actionable line does not end past the armed length.
/// A worker that reported since arming gets its check-in disarmed and, at most, a report.
pub proof fn lemma_answered_checkin_never_nudges(
    seen: Map<Seq<char>, u64>,
    workers: Seq<WorkerView>,
    checkins: Seq<ArmedCheckin>,
    now: UtcTime,
)
    ensures
        forall|k: int| 0 <= k < plan_spec(seen, workers, checkins, now).nudges.len() ==> owed_checkin_nudge(
            #[trigger] plan_spec(seen, workers, checkins, now).nudges[k],
            workers,
            checkins,
        ),
{
    assert(workers.skip(0) =~= workers);
    lemma_checkin_nudges_fold(
        PlanState { seen, nudges: Seq::empty(), disarms: Seq::empty() },
        workers,
        0,
        checkins,
        now,
    );
}

/// A worker's last actionable line answers a check-in when it ends past the log's length at
/// arming, that is, when it was written after the check-in was armed.
pub open spec fn answers(w: WorkerView, c: Checkin) -> bool {
    w.last_actionable is Some && w.last_actionable.unwrap().end > c.armed_len
}

/// What a tick owes `w` for the check-in armed for it: a disarm where the check-in was
/// answered, and a no-report nudge carrying its re-arm where it is unanswered and due.
pub open spec fn checkin_handled(w: WorkerView, checkins: Seq<ArmedCheckin>, now: UtcTime, st: PlanState) -> bool {
    match checkin_for(checkins, w.id) {
        Some(c) => {
            &&& answers(w, c) ==> st.disarms.contains(
                DisarmView { id: w.id, worker_dir: w.worker_dir, planned: c },
            )
            &&& (!answers(w, c) && time_le(c.deadline, now)) ==> st.nudges.contains(
                NudgeView {
                    id: w.id,
                    worker_dir: w.worker_dir,
                    text: no_report_text(w.id, delay_text(c.step)),
                    commit: Commit::Checkin { planned: c, next: rearmed_spec(c, now) },
                },
            )
        },
        None => true,
    }
}

proof fn lemma_handled_grows(w: WorkerView, checkins: Seq<ArmedCheckin>, now: UtcTime, a: PlanState, b: PlanState)
    requires
        checkin_handled(w, checkins, now, a),
        b.nudges.len() >= a.nudges.len(),
        b.disarms.len() >= a.disarms.len(),
        forall|k: int| 0 <= k < a.nudges.len() ==> b.nudges[k] == a.nudges[k],
        forall|k: int| 0 <= k < a.disarms.len() ==> b.disarms[k] == a.disarms[k],
    ensures
        checkin_handled(w, checkins, now, b),
{
    match checkin_for(checkins, w.id) {
        Some(c) => {
            let d = DisarmView { id: w.id, worker_dir: w.worker_dir, planned: c };
            if answers(w, c) {
                let k = choose|k: int| 0 <= k < a.disarms.len() && a.disarms[k] == d;
                assert(b.disarms[k] == d);
            }
            let n = NudgeView {
                id: w.id,
                worker_dir: w.worker_dir,
                text: no_report_text(w.id, delay_text(c.step)),
                commit: Commit::Checkin { planned: c, next: rearmed_spec(c, now) },
            };
            if !answers(w, c) && time_le(c.deadline, now) {
                let k = choose|k: int| 0 <= k < a.nudges.len() && a.nudges[k] == n;
                assert(b.nudges[k] == n);
            }
        },
        None => {},
    }
}

proof fn lemma_checkins_handled_fold(
    st: PlanState,
    all: Seq<WorkerView>,
    off: int,
    checkins: Seq<ArmedCheckin>,
    now: UtcTime,
)
    requires
        0 <= off <= all.len(),
        forall|j: int| 0 <= j < off ==> checkin_handled(#[trigger] all[j], checkins, now, st),
    ensures
        forall|j: int| 0 <= j < all.len() ==> checkin_handled(
            #[trigger] all[j],
            checkins,
            now,
            plan_workers(st, all.skip(off), checkins, now),
        ),
    decreases all.len() - off,
{
    if off < all.len() {
        let w = all[off];
        assert(all.skip(off)[0] == w);
        assert(all.skip(off).drop_first() =~= all.skip(off + 1));
        let c = checkin_for(checkins, w.id);
        let next = plan_worker(st, w, c, now);
        assert(forall|k: int| 0 <= k < st.nudges.len() ==> next.nudges[k] == st.nudges[k]);
        assert(forall|k: int| 0 <= k < st.disarms.len() ==> next.disarms[k] == st.disarms[k]);
        assert forall|j: int| 0 <= j < off + 1 implies checkin_handled(#[trigger] all[j], checkins, now, next) by {
            if j < off {
                lemma_handled_grows(all[j], checkins, now, st, next);
            } else {
                match c {
                    Some(cc) => {
                        if answers(w, cc) {
                            assert(next.disarms[st.disarms.len() as int] == DisarmView {
                                id: w.id,
                                worker_dir: w.worker_dir,
                                planned: cc,
                            });
                        } else if time_le(cc.deadline, now) {
                            assert(next.nudges[st.nudges.len() as int] == NudgeView {
                                id: w.id,
                                worker_dir: w.worker_dir,
                                text: no_report_text(w.id, delay_text(cc.step)),
                                commit: Commit::Checkin { planned: cc, next: rearmed_spec(cc, now) },
                            });
                        }
                    },
                    None => {},
                }
            }
        }
        lemma_checkins_handled_fold(next, all, off + 1, checkins, now);
        assert(plan_workers(st, all.skip(off), checkins, now) == plan_workers(
            next,
            all.skip(off + 1),
            checkins,
            now,
        ));
    } else {
        assert(all.skip(off) =~= Seq::<WorkerView>::empty());
        assert(plan_workers(st, all.skip(off), checkins, now) == st);
    }
}

/// Every armed check-in is dealt with in each tick: one its worker answered is disarmed, and
/// one that is due and unanswered nudges with its re-arm.
pub proof fn lemma_every_checkin_handled(
    seen: Map<Seq<char>, u64>,
    workers: Seq<WorkerView>,
    checkins: Seq<ArmedCheckin>,
    now: UtcTime,
)
    ensures
        forall|j: int| 0 <= j < workers.len() ==> checkin_handled(
            #[trigger] workers[j],
            checkins,
            now,
            plan_spec(seen, workers, checkins, now),
        ),
{
    assert(workers.skip(0) =~= workers);
    lemma_checkins_handled_fold(
        PlanState { seen, nudges: Seq::empty(), disarms: Seq::empty() },
        workers,
        0,
        checkins,
        now,
    );
}

/// Whether any worker in `workers` has id `id`.
fn contains_id(workers: &[WorkerSnapshot], id: &str) -> (r: bool)
    ensures
        r == snapshot_ids(workers_view(workers@)).contains(id@),
{
    let ghost views = workers_view(workers@);
    let mut i: usize = 0;
    while i < workers.len()
        invariant
            i <= workers@.len(),
            views == workers_view(workers@),
            forall|j: int| 0 <= j < i ==> views[j].id != id@,
        decreases workers.len() - i,
    {
        if str_eq(workers[i].id.as_str(), id) {
            assert(views[i as int].id == id@);
            return true;
        }
        i += 1;
    }
    false
}

} // verus!
