//! A jobset is a named, periodically re-checked build definition inside a
//! project, pointing at a flake reference.
//!
//! Its `state` tracks evaluation only: `Evaluating` while exactly one
//! evaluation runs, then `Idle` on success or `EvalFailed` with the captured
//! error; per-build detail lives at the job level. Timestamps are Unix
//! seconds, `check_interval` is in seconds and `0` disables the periodic
//! re-check.

use vstd::prelude::*;

use crate::errors::DBError;

verus! {

pub type JobsetID = i32;

/// The evaluation state of a jobset.
#[derive(Debug, Clone, Copy, PartialEq, Eq, Structural)]
pub enum JobsetState {
    Unknown,
    Idle,
    Evaluating,
    EvalFailed,
}

impl JobsetState {
    /// The display name of the state.
    pub fn to_string(&self) -> (r: String)
        ensures
            self is Unknown ==> r@ == "unknown"@,
            self is Idle ==> r@ == "idle"@,
            self is Evaluating ==> r@ == "evaluating"@,
            self is EvalFailed ==> r@ == "evaluation failed"@,
    {
        match self {
            JobsetState::Unknown => "unknown".to_owned(),
            JobsetState::Idle => "idle".to_owned(),
            JobsetState::Evaluating => "evaluating".to_owned(),
            JobsetState::EvalFailed => "evaluation failed".to_owned(),
        }
    }
}

/// A partial-field update of a jobset; `None` fields are left as they are.
#[derive(Debug, Clone)]
pub struct JobsetDiff {
    pub name: Option<String>,
    pub flake: Option<String>,
    pub description: Option<String>,
    pub check_interval: Option<i32>,
    pub last_checked: Option<i64>,
    pub last_evaluated: Option<i64>,
    pub evaluation_took: Option<i32>,
    pub state: Option<JobsetState>,
    pub error_message: Option<String>,
}

impl JobsetDiff {
    pub fn new() -> (r: Self)
        ensures
            r.name is None,
            r.flake is None,
            r.description is None,
            r.check_interval is None,
            r.last_checked is None,
            r.last_evaluated is None,
            r.evaluation_took is None,
            r.state is None,
            r.error_message is None,
    {
        Self {
            name: None,
            flake: None,
            description: None,
            check_interval: None,
            last_checked: None,
            last_evaluated: None,
            evaluation_took: None,
            state: None,
            error_message: None,
        }
    }

    pub fn set_name(&mut self, name: String)
        ensures
            *final(self) == (JobsetDiff { name: Some(name), ..*old(self) }),
    {
        self.name = Some(name);
    }

    pub fn set_flake(&mut self, flake: String)
        ensures
            *final(self) == (JobsetDiff { flake: Some(flake), ..*old(self) }),
    {
        self.flake = Some(flake);
    }

    pub fn set_description(&mut self, description: String)
        ensures
            *final(self) == (JobsetDiff { description: Some(description), ..*old(self) }),
    {
        self.description = Some(description);
    }

    pub fn set_check_interval(&mut self, check_interval: i32)
        ensures
            *final(self) == (JobsetDiff { check_interval: Some(check_interval), ..*old(self) }),
    {
        self.check_interval = Some(check_interval);
    }

    pub fn set_last_checked(&mut self, last_checked: i64)
        ensures
            *final(self) == (JobsetDiff { last_checked: Some(last_checked), ..*old(self) }),
    {
        self.last_checked = Some(last_checked);
    }

    pub fn set_last_evaluated(&mut self, last_evaluated: i64)
        ensures
            *final(self) == (JobsetDiff { last_evaluated: Some(last_evaluated), ..*old(self) }),
    {
        self.last_evaluated = Some(last_evaluated);
    }

    pub fn set_evaluation_took(&mut self, evaluation_took: i32)
        ensures
            *final(self) == (JobsetDiff { evaluation_took: Some(evaluation_took), ..*old(self) }),
    {
        self.evaluation_took = Some(evaluation_took);
    }

    pub fn set_state(&mut self, state: JobsetState)
        ensures
            *final(self) == (JobsetDiff { state: Some(state), ..*old(self) }),
    {
        self.state = Some(state);
    }

    pub fn set_error_message(&mut self, error_message: String)
        ensures
            *final(self) == (JobsetDiff { error_message: Some(error_message), ..*old(self) }),
    {
        self.error_message = Some(error_message);
    }
}

/// A periodically checked build definition: a flake reference plus the
/// bookkeeping of its last evaluation.
#[derive(Debug, Clone)]
pub struct Jobset {
    pub id: Option<JobsetID>,
    pub project_id: i32,
    pub name: String,
    pub flake: String,
    pub description: String,
    pub check_interval: i32,
    pub last_checked: Option<i64>,
    pub last_evaluated: Option<i64>,
    pub evaluation_took: Option<i32>,
    pub state: Option<JobsetState>,
    pub error_message: Option<String>,
}

impl Jobset {
    /// Applies a partial update: each field set in the diff replaces the
    /// jobset's field, each unset field is kept. The id and owning project
    /// never change.
    pub fn update_jobset(&mut self, diff: JobsetDiff)
        ensures
            final(self).id == old(self).id,
            final(self).project_id == old(self).project_id,
            final(self).name == if diff.name is Some {
                diff.name->0
            } else {
                old(self).name
            },
            final(self).flake == if diff.flake is Some {
                diff.flake->0
            } else {
                old(self).flake
            },
            final(self).description == if diff.description is Some {
                diff.description->0
            } else {
                old(self).description
            },
            final(self).check_interval == if diff.check_interval is Some {
                diff.check_interval->0
            } else {
                old(self).check_interval
            },
            final(self).last_checked == if diff.last_checked is Some {
                Some(diff.last_checked->0)
            } else {
                old(self).last_checked
            },
            final(self).last_evaluated == if diff.last_evaluated is Some {
                Some(diff.last_evaluated->0)
            } else {
                old(self).last_evaluated
            },
            final(self).evaluation_took == if diff.evaluation_took is Some {
                Some(diff.evaluation_took->0)
            } else {
                old(self).evaluation_took
            },
            final(self).state == if diff.state is Some {
                Some(diff.state->0)
            } else {
                old(self).state
            },
            final(self).error_message == if diff.error_message is Some {
                Some(diff.error_message->0)
            } else {
                old(self).error_message
            },
    {
        if let Some(name) = diff.name {
            self.name = name;
        }
        if let Some(description) = diff.description {
            self.description = description;
        }
        if let Some(flake) = diff.flake {
            self.flake = flake;
        }
        if let Some(check_interval) = diff.check_interval {
            self.check_interval = check_interval;
        }
        if let Some(last_checked) = diff.last_checked {
            self.last_checked = Some(last_checked);
        }
        if let Some(evaluation_took) = diff.evaluation_took {
            self.evaluation_took = Some(evaluation_took);
        }
        if let Some(state) = diff.state {
            self.state = Some(state);
        }
        if let Some(last_evaluated) = diff.last_evaluated {
            self.last_evaluated = Some(last_evaluated);
        }
        if let Some(error_message) = diff.error_message {
            self.error_message = Some(error_message);
        }
    }

    /// Records an error message on the jobset, leaving everything else
    /// untouched.
    pub fn update_error(&mut self, error: &str)
        ensures
            *final(self) == (Jobset {
                error_message: Some(final(self).error_message->0),
                ..*old(self)
            }),
            final(self).error_message matches Some(m) && m@ == error@,
    {
        let mut diff = JobsetDiff::new();
        diff.set_error_message(error.to_owned());
        self.update_jobset(diff);
    }

    /// How long the periodic re-check timer sleeps between runs: `None`
    /// disables the timer, exactly when the interval is zero or negative.
    pub fn timer_seconds(&self) -> (r: Option<u64>)
        ensures
            r is None <==> self.check_interval <= 0,
            r matches Some(secs) ==> secs == self.check_interval,
    {
        if self.check_interval <= 0 {
            None
        } else {
            Some(self.check_interval as u64)
        }
    }

    /// Moves the jobset to a new state. A jobset that was never persisted
    /// has no id and cannot be updated: that is the one error case, and the
    /// jobset is then left untouched.
    pub fn update_state(&mut self, state: JobsetState) -> (r: Result<(), DBError>)
        ensures
            old(self).id is None <==> r is Err,
            r matches Err(e) ==> *final(self) == *old(self) && e@
                == "Cannot update state: ID is not set!"@,
            r is Ok ==> *final(self) == (Jobset { state: Some(state), ..*old(self) }),
    {
        if self.id.is_none() {
            return Err(DBError::new("Cannot update state: ID is not set!".to_owned()));
        }
        let mut diff = JobsetDiff::new();
        diff.set_state(state);
        self.update_jobset(diff);
        Ok(())
    }
}

} // verus!
