//! A job is one buildable attribute produced by evaluating a jobset.
//!
//! Its state machine is monotonic: `ToBeBuilt` when created, `Building` once
//! handed to the build scheduler, then exactly one of `Done` or `Failed`.
//! `job_can_transition` is the whole transition relation; the coordinator
//! applies no state change outside it.

use vstd::prelude::*;

verus! {

/// The lifecycle state of a job.
#[derive(Debug, Clone, Copy, PartialEq, Eq, Structural)]
pub enum JobState {
    ToBeBuilt,
    Building,
    Failed,
    Done,
}

/// The allowed state changes of a job: forward along
/// `ToBeBuilt -> Building -> {Done | Failed}`, nothing else.
pub open spec fn job_can_transition(from: JobState, to: JobState) -> bool {
    ||| (from is ToBeBuilt && to is Building)
    ||| (from is Building && (to is Done || to is Failed))
}

/// Position of a state along the job lifecycle; it strictly grows on every
/// allowed transition.
pub open spec fn job_state_rank(s: JobState) -> int {
    match s {
        JobState::ToBeBuilt => 0,
        JobState::Building => 1,
        JobState::Failed => 2,
        JobState::Done => 2,
    }
}

/// Job state transitions are monotonic: every allowed transition strictly
/// increases the lifecycle rank, a terminal state is entered only from
/// `Building`, and the only way out of `ToBeBuilt` is `Building`. In
/// particular no allowed transition leaves `Done` or `Failed`, and none
/// skips `Building`.
pub proof fn lemma_job_transition_monotonic(from: JobState, to: JobState)
    requires
        job_can_transition(from, to),
    ensures
        job_state_rank(from) < job_state_rank(to),
        (to is Done || to is Failed) ==> from is Building,
        from is ToBeBuilt ==> to is Building,
{
}

/// A sequence of states is a run of the job state machine when each step is
/// an allowed transition.
pub open spec fn valid_job_run(s: Seq<JobState>) -> bool {
    forall|i: int| 0 <= i && i + 1 < s.len() ==> #[trigger] job_can_transition(s[i], s[i + 1])
}

/// A run that starts at `ToBeBuilt` and ends in a terminal state passes
/// through `Building`: no implementation of the transition relation can
/// observe a jump straight from `ToBeBuilt` to `Done` or `Failed`.
pub proof fn lemma_job_run_passes_building(s: Seq<JobState>)
    requires
        valid_job_run(s),
        s.len() >= 2,
        s[0] is ToBeBuilt,
        s.last() is Done || s.last() is Failed,
    ensures
        exists|i: int| 0 <= i < s.len() && s[i] is Building,
{
    let i: int = 0;
    assert(job_can_transition(s[i], s[i + 1]));
    assert(s[1] is Building);
}

/// A partial-field update of a job; `None` fields are left as they are.
#[derive(Debug, Clone)]
pub struct JobDiff {
    pub evaluation_id: Option<i32>,
    pub attribute_name: Option<String>,
    pub derivation_path: Option<String>,
    pub state: Option<JobState>,
    pub finished: Option<i64>,
}

impl JobDiff {
    pub fn new() -> (r: Self)
        ensures
            r.evaluation_id is None,
            r.attribute_name is None,
            r.derivation_path is None,
            r.state is None,
            r.finished is None,
    {
        JobDiff {
            evaluation_id: None,
            attribute_name: None,
            derivation_path: None,
            state: None,
            finished: None,
        }
    }
}

/// One buildable attribute of an evaluation, with the derivation realizing
/// it and its lifecycle state. `finished` is a Unix timestamp in seconds.
#[derive(Debug, Clone)]
pub struct Job {
    pub id: Option<i32>,
    pub evaluation_id: i32,
    pub attribute_name: String,
    pub derivation_path: String,
    pub state: JobState,
    pub finished: Option<i64>,
}

impl Job {
    pub fn new(evaluation_id: i32, attribute_name: String, derivation_path: String) -> (r: Self)
        ensures
            r.id is None,
            r.evaluation_id == evaluation_id,
            r.attribute_name == attribute_name,
            r.derivation_path == derivation_path,
            r.state is ToBeBuilt,
            r.finished is None,
    {
        Self {
            id: None,
            evaluation_id,
            attribute_name,
            derivation_path,
            state: JobState::ToBeBuilt,
            finished: None,
        }
    }

    /// Applies a partial update: each field set in the diff replaces the
    /// job's field, each unset field is kept. The id never changes. A diff
    /// may only move the state forward along the job lifecycle: writes
    /// outside `job_can_transition` are not accepted, so no caller can
    /// effect a backward or skipping transition through this function.
    pub fn update_job(&mut self, diff: JobDiff)
        requires
            diff.state matches Some(s) ==> job_can_transition(old(self).state, s),
        ensures
            final(self).id == old(self).id,
            final(self).evaluation_id == if diff.evaluation_id is Some {
                diff.evaluation_id->0
            } else {
                old(self).evaluation_id
            },
            final(self).attribute_name == if diff.attribute_name is Some {
                diff.attribute_name->0
            } else {
                old(self).attribute_name
            },
            final(self).derivation_path == if diff.derivation_path is Some {
                diff.derivation_path->0
            } else {
                old(self).derivation_path
            },
            final(self).state == if diff.state is Some {
                diff.state->0
            } else {
                old(self).state
            },
            final(self).finished == if diff.finished is Some {
                Some(diff.finished->0)
            } else {
                old(self).finished
            },
    {
        if let Some(evaluation_id) = diff.evaluation_id {
            self.evaluation_id = evaluation_id;
        }
        if let Some(attribute_name) = diff.attribute_name {
            self.attribute_name = attribute_name;
        }
        if let Some(derivation_path) = diff.derivation_path {
            self.derivation_path = derivation_path;
        }
        if let Some(state) = diff.state {
            self.state = state;
        }
        if let Some(finished) = diff.finished {
            self.finished = Some(finished);
        }
    }
}

} // verus!
