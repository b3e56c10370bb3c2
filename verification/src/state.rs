//! A run's recorded state: its steps, the status words and the step kinds.
use vstd::prelude::*;

use crate::digits::{decimal, push_decimal};
use crate::text::owned;
use crate::time::UtcTime;

verus! {

/// Where a run is.
#[derive(Clone, Copy, Debug, PartialEq, Eq, Structural)]
pub enum RunStatus {
    Created,
    Running,
    Completed,
    Failed,
}

/// What a step ran.
#[derive(Clone, Copy, Debug, PartialEq, Eq, Structural)]
pub enum StepKind {
    Agent,
    Command,
}

/// How a step ended.
#[derive(Clone, Copy, Debug, PartialEq, Eq, Structural)]
pub enum StepStatus {
    Completed,
    Failed,
}

pub open spec fn run_status_text(status: RunStatus) -> Seq<char> {
    match status {
        RunStatus::Created => "created"@,
        RunStatus::Running => "running"@,
        RunStatus::Completed => "completed"@,
        RunStatus::Failed => "failed"@,
    }
}

pub open spec fn step_kind_text(kind: StepKind) -> Seq<char> {
    match kind {
        StepKind::Agent => "agent"@,
        StepKind::Command => "command"@,
    }
}

pub open spec fn step_status_text(status: StepStatus) -> Seq<char> {
    match status {
        StepStatus::Completed => "completed"@,
        StepStatus::Failed => "failed"@,
    }
}

pub fn run_status_label(status: &RunStatus) -> (r: &'static str)
    ensures
        r@ == run_status_text(*status),
{
    match status {
        RunStatus::Created => "created",
        RunStatus::Running => "running",
        RunStatus::Completed => "completed",
        RunStatus::Failed => "failed",
    }
}

pub fn step_kind_label(kind: &StepKind) -> (r: &'static str)
    ensures
        r@ == step_kind_text(*kind),
{
    match kind {
        StepKind::Agent => "agent",
        StepKind::Command => "command",
    }
}

pub fn step_status_label(status: &StepStatus) -> (r: &'static str)
    ensures
        r@ == step_status_text(*status),
{
    match status {
        StepStatus::Completed => "completed",
        StepStatus::Failed => "failed",
    }
}

/// One step a run has recorded.
pub struct StepRecord {
    pub index: usize,
    pub kind: StepKind,
    pub label: String,
    pub status: StepStatus,
    pub started_at: UtcTime,
    pub finished_at: UtcTime,
    pub exit_code: Option<i32>,
    pub stdout: String,
    pub stderr: String,
    pub diff: Option<String>,
}

/// A run as its `state.json` records it.
pub struct RunState {
    pub id: String,
    pub goal: String,
    pub task_file: Option<String>,
    pub created_at: UtcTime,
    pub updated_at: UtcTime,
    pub status: RunStatus,
    pub steps: Vec<StepRecord>,
}

/// Position `k` holds the first step recorded with index `n`.
pub open spec fn first_step_at(steps: Seq<StepRecord>, n: usize, k: int) -> bool {
    &&& 0 <= k < steps.len()
    &&& steps[k].index == n
    &&& forall|j: int| 0 <= j < k ==> (#[trigger] steps[j]).index != n
}

/// The step asked for, or the last one recorded where none is named.
pub fn selected_step(state: &RunState, step: Option<usize>) -> (r: Result<&StepRecord, String>)
    ensures
        match step {
            Some(n) => {
                &&& (r is Ok <==> exists|k: int| 0 <= k < state.steps@.len() && #[trigger] state.steps@[k].index == n)
                &&& (r matches Ok(rec) ==> exists|k: int| first_step_at(state.steps@, n, k) && *rec == state.steps@[k])
                &&& (r matches Err(e) ==> e@ == "step "@ + decimal(n as nat) + " not found"@)
            },
            None => {
                &&& (r is Ok <==> state.steps@.len() > 0)
                &&& (r matches Ok(rec) ==> *rec == state.steps@.last())
                &&& (r matches Err(e) ==> e@ == "run has no recorded steps"@)
            },
        },
{
    match step {
        Some(n) => {
            let mut k: usize = 0;
            while k < state.steps.len()
                invariant
                    k <= state.steps@.len(),
                    step == Some(n),
                    forall|j: int| 0 <= j < k ==> (#[trigger] state.steps@[j]).index != n,
                decreases state.steps.len() - k,
            {
                if state.steps[k].index == n {
                    let rec = &state.steps[k];
                    assert(first_step_at(state.steps@, n, k as int));
                    assert(*rec == state.steps@[k as int]);
                    assert(state.steps@[k as int].index == n);
                    return Ok(rec);
                }
                k += 1;
            }
            let mut e = owned("step ");
            push_decimal(&mut e, n as u64);
            crate::text::push_str(&mut e, " not found");
            Err(e)
        },
        None => {
            let len = state.steps.len();
            if len == 0 {
                Err(owned("run has no recorded steps"))
            } else {
                Ok(&state.steps[len - 1])
            }
        },
    }
}

} // verus!
