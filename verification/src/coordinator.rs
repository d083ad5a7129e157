//! The coordinator: sole owner of the in-memory jobset, evaluation and job
//! state, and the only place state transitions are applied.
//!
//! Every public operation is a step of the coordination state machine: it
//! takes plain values in — a jobset id to schedule, an evaluation
//! notification, a build result — mutates the owned state, and hands back
//! the actions the caller must perform: the evaluation to spawn, the
//! builds to queue. Spawning processes, sleeping between periodic checks
//! and persisting entities durably all happen outside this crate, with the
//! coordinator's state as the reference the persisted rows must follow.

use vstd::prelude::*;

use crate::drv::DrvBasic;
use crate::errors::{DBError, EvaluationError};
use crate::eval::EvalDoneNotification;
use crate::models::{Evaluation, Job, JobState, Jobset, JobsetID, JobsetState};
use crate::models::job::job_can_transition;
use crate::scheduler::BuildResult;

verus! {

/// The action `schedule_jobset` hands back: spawn one evaluation process
/// for this flake and report its outcome for this jobset.
#[derive(Debug, Clone)]
pub struct EvalRequest {
    pub jobset_id: JobsetID,
    pub flake: String,
}

/// The action `on_eval_done` hands back for each created job: resolve this
/// derivation path's dependency tree and submit it to the build scheduler.
#[derive(Debug, Clone)]
pub struct QueuedBuild {
    pub job_id: i32,
    pub derivation_path: String,
}

/// The first position holding the jobset with the given id, `-1` when none
/// does.
pub open spec fn jobset_at(s: Seq<Jobset>, id: JobsetID) -> int
    decreases s.len(),
{
    if s.len() == 0 {
        -1
    } else if s[0].id == Some(id) {
        0
    } else if jobset_at(s.drop_first(), id) < 0 {
        -1
    } else {
        jobset_at(s.drop_first(), id) + 1
    }
}

/// The first position holding the job with the given id, `-1` when none
/// does.
pub open spec fn job_at(s: Seq<Job>, id: i32) -> int
    decreases s.len(),
{
    if s.len() == 0 {
        -1
    } else if s[0].id == Some(id) {
        0
    } else if job_at(s.drop_first(), id) < 0 {
        -1
    } else {
        job_at(s.drop_first(), id) + 1
    }
}

/// `jobset_at` finds the first position with the id, and nothing when no
/// jobset carries it.
pub proof fn lemma_jobset_at(s: Seq<Jobset>, id: JobsetID)
    ensures
        jobset_at(s, id) < 0 ==> forall|m: int|
            0 <= m < s.len() ==> (#[trigger] s[m].id) != Some(id),
        jobset_at(s, id) >= 0 ==> jobset_at(s, id) < s.len() && s[jobset_at(s, id)].id == Some(id)
            && (forall|m: int| 0 <= m < jobset_at(s, id) ==> (#[trigger] s[m].id) != Some(id)),
    decreases s.len(),
{
    if s.len() == 0 {
    } else if s[0].id == Some(id) {
    } else {
        lemma_jobset_at(s.drop_first(), id);
        let rt = jobset_at(s.drop_first(), id);
        if rt < 0 {
            assert forall|m: int| 0 <= m < s.len() implies (#[trigger] s[m].id) != Some(id) by {
                if m > 0 {
                    assert(s.drop_first()[m - 1] == s[m]);
                    assert(s.drop_first()[m - 1].id != Some(id));
                }
            }
        } else {
            assert(s.drop_first()[rt] == s[rt + 1]);
            assert forall|m: int| 0 <= m < rt + 1 implies (#[trigger] s[m].id) != Some(id) by {
                if m > 0 {
                    assert(s.drop_first()[m - 1] == s[m]);
                    assert(s.drop_first()[m - 1].id != Some(id));
                }
            }
        }
    }
}

/// `job_at` finds the first position with the id, and nothing when no job
/// carries it.
pub proof fn lemma_job_at(s: Seq<Job>, id: i32)
    ensures
        job_at(s, id) < 0 ==> forall|m: int| 0 <= m < s.len() ==> (#[trigger] s[m].id) != Some(id),
        job_at(s, id) >= 0 ==> job_at(s, id) < s.len() && s[job_at(s, id)].id == Some(id) && (
        forall|m: int| 0 <= m < job_at(s, id) ==> (#[trigger] s[m].id) != Some(id)),
    decreases s.len(),
{
    if s.len() == 0 {
    } else if s[0].id == Some(id) {
    } else {
        lemma_job_at(s.drop_first(), id);
        let rt = job_at(s.drop_first(), id);
        if rt < 0 {
            assert forall|m: int| 0 <= m < s.len() implies (#[trigger] s[m].id) != Some(id) by {
                if m > 0 {
                    assert(s.drop_first()[m - 1] == s[m]);
                    assert(s.drop_first()[m - 1].id != Some(id));
                }
            }
        } else {
            assert(s.drop_first()[rt] == s[rt + 1]);
            assert forall|m: int| 0 <= m < rt + 1 implies (#[trigger] s[m].id) != Some(id) by {
                if m > 0 {
                    assert(s.drop_first()[m - 1] == s[m]);
                    assert(s.drop_first()[m - 1].id != Some(id));
                }
            }
        }
    }
}

/// Replacing a jobset by one with the same id moves no position:
/// `jobset_at` sees only the ids.
pub proof fn lemma_jobset_at_update(s: Seq<Jobset>, j: int, x: Jobset, id: JobsetID)
    requires
        0 <= j < s.len(),
        x.id == s[j].id,
    ensures
        jobset_at(s.update(j, x), id) == jobset_at(s, id),
    decreases s.len(),
{
    if j == 0 {
        assert(s.update(0, x)[0] == x);
        assert(s.update(0, x).drop_first() =~= s.drop_first());
    } else {
        assert(s.update(j, x)[0] == s[0]);
        assert(s.update(j, x).drop_first() =~= s.drop_first().update(j - 1, x));
        lemma_jobset_at_update(s.drop_first(), j - 1, x, id);
    }
}

/// Once a jobset is moved to `Evaluating`, scheduling it again is
/// rejected: the very next schedule of the same id finds it at the same
/// position, already evaluating, so at most one evaluation per jobset
/// runs at a time.
pub proof fn lemma_schedule_jobset_twice(s: Seq<Jobset>, id: JobsetID)
    requires
        jobset_at(s, id) >= 0,
    ensures
        ({
            let j = jobset_at(s, id);
            let s2 = s.update(j, Jobset { state: Some(JobsetState::Evaluating), ..s[j] });
            jobset_at(s2, id) == j && s2[j].state == Some(JobsetState::Evaluating)
        }),
{
    let j = jobset_at(s, id);
    lemma_jobset_at(s, id);
    lemma_jobset_at_update(s, j, Jobset { state: Some(JobsetState::Evaluating), ..s[j] }, id);
}

/// The coordinator's exclusively-owned state: the known jobsets, the
/// evaluation records, the jobs, and the id counters standing in for the
/// storage engine's key assignment.
#[derive(Debug)]
pub struct Coordinator {
    jobsets: Vec<Jobset>,
    evaluations: Vec<Evaluation>,
    jobs: Vec<Job>,
    next_jobset_id: JobsetID,
    next_evaluation_id: i32,
    next_job_id: i32,
}

impl Coordinator {
    pub closed spec fn jobsets_spec(&self) -> Seq<Jobset> {
        self.jobsets@
    }

    pub closed spec fn evaluations_spec(&self) -> Seq<Evaluation> {
        self.evaluations@
    }

    pub closed spec fn jobs_spec(&self) -> Seq<Job> {
        self.jobs@
    }

    pub closed spec fn next_jobset_id_spec(&self) -> JobsetID {
        self.next_jobset_id
    }

    pub closed spec fn next_evaluation_id_spec(&self) -> i32 {
        self.next_evaluation_id
    }

    pub closed spec fn next_job_id_spec(&self) -> i32 {
        self.next_job_id
    }

    /// Every stored entity has an id below the corresponding counter, and
    /// no id is held twice: lookups by id are unambiguous and fresh ids
    /// never collide.
    pub open spec fn wf(&self) -> bool {
        &&& 0 <= self.next_jobset_id_spec()
        &&& 0 <= self.next_evaluation_id_spec()
        &&& 0 <= self.next_job_id_spec()
        &&& forall|i: int|
            0 <= i < self.jobsets_spec().len() ==> ((#[trigger] self.jobsets_spec()[i].id) matches
            Some(id) && 0 <= id < self.next_jobset_id_spec())
        &&& forall|i: int, j: int|
            0 <= i < j < self.jobsets_spec().len() ==> (#[trigger] self.jobsets_spec()[i].id) != (
            #[trigger] self.jobsets_spec()[j].id)
        &&& forall|i: int|
            0 <= i < self.evaluations_spec().len() ==> ((
            #[trigger] self.evaluations_spec()[i].id) matches Some(id) && 0 <= id
                < self.next_evaluation_id_spec())
        &&& forall|i: int|
            0 <= i < self.jobs_spec().len() ==> ((#[trigger] self.jobs_spec()[i].id) matches Some(
                id,
            ) && 0 <= id < self.next_job_id_spec())
        &&& forall|i: int, j: int|
            0 <= i < j < self.jobs_spec().len() ==> (#[trigger] self.jobs_spec()[i].id) != (
            #[trigger] self.jobs_spec()[j].id)
    }

    pub fn new() -> (r: Self)
        ensures
            r.wf(),
            r.jobsets_spec() == Seq::<Jobset>::empty(),
            r.evaluations_spec() == Seq::<Evaluation>::empty(),
            r.jobs_spec() == Seq::<Job>::empty(),
    {
        Coordinator {
            jobsets: Vec::new(),
            evaluations: Vec::new(),
            jobs: Vec::new(),
            next_jobset_id: 0,
            next_evaluation_id: 0,
            next_job_id: 0,
        }
    }

    /// Takes ownership of a jobset, assigning it a fresh id; its state
    /// starts as the jobset carries it. Fails only when the id space is
    /// exhausted, leaving everything unchanged.
    pub fn add_jobset(&mut self, jobset: Jobset) -> (r: Result<JobsetID, DBError>)
        requires
            old(self).wf(),
        ensures
            final(self).wf(),
            old(self).next_jobset_id_spec() == i32::MAX <==> r is Err,
            r is Err ==> *final(self) == *old(self),
            r matches Ok(id) ==> {
                &&& id == old(self).next_jobset_id_spec()
                &&& final(self).jobsets_spec() == old(self).jobsets_spec().push(
                    Jobset { id: Some(id), ..jobset },
                )
                &&& final(self).jobs_spec() == old(self).jobs_spec()
                &&& final(self).evaluations_spec() == old(self).evaluations_spec()
            },
    {
        if self.next_jobset_id == i32::MAX {
            return Err(DBError::new("jobset id space exhausted".to_owned()));
        }
        let id = self.next_jobset_id;
        self.next_jobset_id = self.next_jobset_id + 1;
        self.jobsets.push(Jobset { id: Some(id), ..jobset });
        Ok(id)
    }

    /// The position of the jobset with the given id.
    fn find_jobset(&self, id: JobsetID) -> (r: Option<usize>)
        ensures
            match r {
                Some(j) => j as int == jobset_at(self.jobsets_spec(), id),
                None => jobset_at(self.jobsets_spec(), id) < 0,
            },
    {
        let n = self.jobsets.len();
        for k in 0..n
            invariant
                n == self.jobsets.len(),
                forall|m: int| 0 <= m < k ==> (#[trigger] self.jobsets@[m].id) != Some(id),
        {
            let found = match self.jobsets[k].id {
                Some(jid) => jid == id,
                None => false,
            };
            if found {
                proof {
                    lemma_jobset_at(self.jobsets@, id);
                    let ja = jobset_at(self.jobsets@, id);
                    if ja < 0 {
                        assert(self.jobsets@[k as int].id != Some(id));
                    }
                    if ja > k {
                        assert(self.jobsets@[k as int].id != Some(id));
                    }
                    if 0 <= ja < k {
                        assert(self.jobsets@[ja].id != Some(id));
                    }
                }
                return Some(k);
            }
        }
        proof {
            lemma_jobset_at(self.jobsets@, id);
            let ja = jobset_at(self.jobsets@, id);
            if ja >= 0 {
                assert(self.jobsets@[ja].id != Some(id));
            }
        }
        None
    }

    /// A read-only view of the jobset with the given id: `None` exactly
    /// when the coordinator knows no such jobset.
    pub fn get_jobset(&self, id: JobsetID) -> (r: Option<&Jobset>)
        ensures
            match r {
                Some(js) => ({
                    let j = jobset_at(self.jobsets_spec(), id);
                    j >= 0 && *js == self.jobsets_spec()[j]
                }),
                None => jobset_at(self.jobsets_spec(), id) < 0,
            },
    {
        match self.find_jobset(id) {
            Some(j) => {
                proof {
                    lemma_jobset_at(self.jobsets@, id);
                }
                Some(&self.jobsets[j])
            },
            None => None,
        }
    }

    /// The jobsets the coordinator owns, for iteration by the caller.
    pub fn jobsets(&self) -> (r: &Vec<Jobset>)
        ensures
            r@ == self.jobsets_spec(),
    {
        &self.jobsets
    }

    /// Starts one evaluation for the jobset: rejected while an evaluation
    /// for it is already running — at most one runs per jobset at a time —
    /// and otherwise moves the jobset to `Evaluating` and hands back the
    /// evaluation to spawn. Rejection and an unknown id change nothing.
    pub fn schedule_jobset(&mut self, jobset_id: JobsetID) -> (r: Result<
        EvalRequest,
        EvaluationError,
    >)
        requires
            old(self).wf(),
        ensures
            final(self).wf(),
            final(self).jobs_spec() == old(self).jobs_spec(),
            final(self).evaluations_spec() == old(self).evaluations_spec(),
            ({
                let s = old(self).jobsets_spec();
                let j = jobset_at(s, jobset_id);
                &&& j < 0 ==> r is Err && *final(self) == *old(self)
                &&& (j >= 0 && s[j].state == Some(JobsetState::Evaluating)) ==> (r matches Err(e)
                    && e@ == "Evaluation already running"@) && *final(self) == *old(self)
                &&& (j >= 0 && s[j].state != Some(JobsetState::Evaluating)) ==> (r matches Ok(req)
                    && req.jobset_id == jobset_id && req.flake == s[j].flake
                    && final(self).jobsets_spec() == s.update(
                    j,
                    Jobset { state: Some(JobsetState::Evaluating), ..s[j] },
                ))
            }),
    {
        let j = match self.find_jobset(jobset_id) {
            Some(j) => j,
            None => {
                return Err(EvaluationError::from_str("jobset not found"));
            },
        };
        proof {
            lemma_jobset_at(self.jobsets@, jobset_id);
        }
        let evaluating = match self.jobsets[j].state {
            Some(JobsetState::Evaluating) => true,
            _ => false,
        };
        if evaluating {
            return Err(EvaluationError::from_str("Evaluation already running"));
        }
        let flake = self.jobsets[j].flake.clone();
        let updated = Jobset {
            id: self.jobsets[j].id,
            project_id: self.jobsets[j].project_id,
            name: self.jobsets[j].name.clone(),
            flake: self.jobsets[j].flake.clone(),
            description: self.jobsets[j].description.clone(),
            check_interval: self.jobsets[j].check_interval,
            last_checked: self.jobsets[j].last_checked,
            last_evaluated: self.jobsets[j].last_evaluated,
            evaluation_took: self.jobsets[j].evaluation_took,
            state: Some(JobsetState::Evaluating),
            error_message: match &self.jobsets[j].error_message {
                Some(e) => Some(e.clone()),
                None => None,
            },
        };
        proof {
            assert(updated == (Jobset {
                state: Some(JobsetState::Evaluating),
                ..self.jobsets@[j as int]
            }));
        }
        self.jobsets.set(j, updated);
        proof {
            let s = old(self).jobsets_spec();
            let jj = j as int;
            assert(self.jobsets@ =~= s.update(
                jj,
                Jobset { state: Some(JobsetState::Evaluating), ..s[jj] },
            ));
        }
        Ok(EvalRequest { jobset_id, flake })
    }
}

/// How long an evaluation took, in whole seconds, clamped into the range
/// the jobset records: never negative, never more than the field can hold.
pub open spec fn took_spec(started: int, finished: int) -> int {
    if finished <= started {
        0
    } else if finished - started > i32::MAX {
        i32::MAX as int
    } else {
        finished - started
    }
}

/// A job as `on_eval_done` stores it: freshly keyed, tied to the new
/// evaluation, and already handed to the build scheduler.
pub open spec fn queued_job(src: Job, id: i32, evaluation_id: i32) -> Job {
    Job { id: Some(id), evaluation_id, state: JobState::Building, ..src }
}

/// Rewrites a job descriptor with its resolved derivation: the evaluator
/// may report an output path that needs one more resolution hop, so the
/// path is replaced by the owning derivation's, and a descriptor with no
/// attribute name takes the derivation's name.
pub fn resolve_job_path(job: &mut Job, resolved: &DrvBasic)
    ensures
        final(job).id == old(job).id,
        final(job).evaluation_id == old(job).evaluation_id,
        final(job).state == old(job).state,
        final(job).finished == old(job).finished,
        final(job).derivation_path@ == resolved.drv_path@,
        old(job).attribute_name@.len() == 0 ==> final(job).attribute_name@ == resolved.name@,
        old(job).attribute_name@.len() > 0 ==> final(job).attribute_name == old(
            job,
        ).attribute_name,
{
    job.derivation_path = resolved.drv_path.clone();
    if job.attribute_name.as_str().is_empty() {
        job.attribute_name = resolved.name.clone();
    }
}

/// A field-for-field copy of a jobset.
fn dup_jobset(js: &Jobset) -> (r: Jobset)
    ensures
        r == *js,
{
    Jobset {
        id: js.id,
        project_id: js.project_id,
        name: js.name.clone(),
        flake: js.flake.clone(),
        description: js.description.clone(),
        check_interval: js.check_interval,
        last_checked: js.last_checked,
        last_evaluated: js.last_evaluated,
        evaluation_took: js.evaluation_took,
        state: js.state,
        error_message: match &js.error_message {
            Some(e) => Some(e.clone()),
            None => None,
        },
    }
}

/// A field-for-field copy of a job.
fn dup_job(j: &Job) -> (r: Job)
    ensures
        r == *j,
{
    Job {
        id: j.id,
        evaluation_id: j.evaluation_id,
        attribute_name: j.attribute_name.clone(),
        derivation_path: j.derivation_path.clone(),
        state: j.state,
        finished: j.finished,
    }
}

impl Coordinator {
    /// The position of the job with the given id.
    fn find_job(&self, id: i32) -> (r: Option<usize>)
        ensures
            match r {
                Some(j) => j as int == job_at(self.jobs_spec(), id),
                None => job_at(self.jobs_spec(), id) < 0,
            },
    {
        let n = self.jobs.len();
        for k in 0..n
            invariant
                n == self.jobs.len(),
                forall|m: int| 0 <= m < k ==> (#[trigger] self.jobs@[m].id) != Some(id),
        {
            let found = match self.jobs[k].id {
                Some(jid) => jid == id,
                None => false,
            };
            if found {
                proof {
                    lemma_job_at(self.jobs@, id);
                    let ja = job_at(self.jobs@, id);
                    if ja < 0 {
                        assert(self.jobs@[k as int].id != Some(id));
                    }
                    if ja > k {
                        assert(self.jobs@[k as int].id != Some(id));
                    }
                    if 0 <= ja < k {
                        assert(self.jobs@[ja].id != Some(id));
                    }
                }
                return Some(k);
            }
        }
        proof {
            lemma_job_at(self.jobs@, id);
            let ja = job_at(self.jobs@, id);
            if ja >= 0 {
                assert(self.jobs@[ja].id != Some(id));
            }
        }
        None
    }

    /// A read-only view of the job with the given id.
    pub fn get_job(&self, id: i32) -> (r: Option<&Job>)
        ensures
            match r {
                Some(job) => ({
                    let j = job_at(self.jobs_spec(), id);
                    j >= 0 && *job == self.jobs_spec()[j]
                }),
                None => job_at(self.jobs_spec(), id) < 0,
            },
    {
        match self.find_job(id) {
            Some(j) => {
                proof {
                    lemma_job_at(self.jobs@, id);
                }
                Some(&self.jobs[j])
            },
            None => None,
        }
    }

    /// The jobs the coordinator owns, for iteration by the caller.
    pub fn jobs(&self) -> (r: &Vec<Job>)
        ensures
            r@ == self.jobs_spec(),
    {
        &self.jobs
    }

    /// Applies one evaluation notification, the single verdict each run
    /// delivers. The jobset's timing fields are stamped with `now` and the
    /// clamped duration either way. On failure the jobset moves straight
    /// to `EvalFailed` carrying the run's error text, and no job is
    /// created. On success it moves to `Idle`, one evaluation record is
    /// created, and each notified job — its path already resolved to a
    /// derivation — is stored as `Building` under a fresh id and handed
    /// back as a build to queue. The errors, which change nothing, are an
    /// unknown jobset id and an exhausted id space.
    pub fn on_eval_done(&mut self, n: EvalDoneNotification, now: i64) -> (r: Result<
        Vec<QueuedBuild>,
        DBError,
    >)
        requires
            old(self).wf(),
        ensures
            final(self).wf(),
            ({
                let s = old(self).jobsets_spec();
                let j = jobset_at(s, n.jobset_id);
                let js_in = if n.jobs is Some {
                    n.jobs->0@
                } else {
                    Seq::<Job>::empty()
                };
                let took = took_spec(n.started as int, n.finished as int);
                let eval_id = old(self).next_evaluation_id_spec();
                let base = old(self).next_job_id_spec();
                &&& j < 0 ==> r is Err && *final(self) == *old(self)
                &&& (j >= 0 && !n.successful) ==> {
                    &&& r matches Ok(b) && b@.len() == 0
                    &&& final(self).jobsets_spec() == s.update(
                        j,
                        Jobset {
                            state: Some(JobsetState::EvalFailed),
                            error_message: Some(final(self).jobsets_spec()[j].error_message->0),
                            last_checked: Some(now),
                            last_evaluated: Some(now),
                            evaluation_took: Some(took as i32),
                            ..s[j]
                        },
                    )
                    &&& (n.error_msg matches Some(m) ==>
                        final(self).jobsets_spec()[j].error_message == Some(m))
                    &&& (n.error_msg is None ==> (final(self).jobsets_spec()[j].error_message
                        matches Some(m) && m@ == Seq::<char>::empty()))
                    &&& final(self).jobs_spec() == old(self).jobs_spec()
                    &&& final(self).evaluations_spec() == old(self).evaluations_spec()
                }
                &&& (j >= 0 && n.successful && (eval_id == i32::MAX || js_in.len() > i32::MAX
                    - base)) ==> r is Err && *final(self) == *old(self)
                &&& (j >= 0 && n.successful && eval_id < i32::MAX && js_in.len() <= i32::MAX
                    - base) ==> {
                    &&& final(self).jobsets_spec() == s.update(
                        j,
                        Jobset {
                            state: Some(JobsetState::Idle),
                            last_checked: Some(now),
                            last_evaluated: Some(now),
                            evaluation_took: Some(took as i32),
                            ..s[j]
                        },
                    )
                    &&& final(self).evaluations_spec() == old(self).evaluations_spec().push(
                        Evaluation { id: Some(eval_id), jobset_id: n.jobset_id },
                    )
                    &&& final(self).jobs_spec() == old(self).jobs_spec() + Seq::new(
                        js_in.len(),
                        |k: int| queued_job(js_in[k], (base + k) as i32, eval_id),
                    )
                    &&& r matches Ok(b) && b@.len() == js_in.len() && (forall|k: int|
                        0 <= k < js_in.len() ==> (#[trigger] b@[k]).job_id == base + k
                            && b@[k].derivation_path == js_in[k].derivation_path)
                }
            }),
    {
        let j = match self.find_jobset(n.jobset_id) {
            Some(j) => j,
            None => {
                return Err(DBError::new("jobset not found".to_owned()));
            },
        };
        proof {
            lemma_jobset_at(self.jobsets@, n.jobset_id);
        }
        let took: i32 = match n.finished.checked_sub(n.started) {
            Some(d) => {
                if d <= 0 {
                    0
                } else if d > i32::MAX as i64 {
                    i32::MAX
                } else {
                    d as i32
                }
            },
            None => {
                if n.finished >= n.started {
                    i32::MAX
                } else {
                    0
                }
            },
        };
        if !n.successful {
            let msg = match n.error_msg {
                Some(m) => m,
                None => String::new(),
            };
            let mut jobset = dup_jobset(&self.jobsets[j]);
            let mut diff = crate::models::JobsetDiff::new();
            diff.set_state(JobsetState::EvalFailed);
            diff.set_error_message(msg);
            diff.set_last_checked(now);
            diff.set_last_evaluated(now);
            diff.set_evaluation_took(took);
            jobset.update_jobset(diff);
            self.jobsets.set(j, jobset);
            proof {
                assert(self.jobsets@ =~= old(self).jobsets_spec().update(
                    j as int,
                    self.jobsets@[j as int],
                ));
            }
            return Ok(Vec::new());
        }
        let jobs_in: Vec<Job> = match n.jobs {
            Some(v) => v,
            None => Vec::new(),
        };
        if self.next_evaluation_id == i32::MAX {
            return Err(DBError::new("evaluation id space exhausted".to_owned()));
        }
        if jobs_in.len() >= (i32::MAX - self.next_job_id) as usize + 1 {
            return Err(DBError::new("job id space exhausted".to_owned()));
        }
        let mut jobset = dup_jobset(&self.jobsets[j]);
        let mut diff = crate::models::JobsetDiff::new();
        diff.set_state(JobsetState::Idle);
        diff.set_last_checked(now);
        diff.set_last_evaluated(now);
        diff.set_evaluation_took(took);
        jobset.update_jobset(diff);
        self.jobsets.set(j, jobset);
        proof {
            assert(self.jobsets@ =~= old(self).jobsets_spec().update(
                j as int,
                self.jobsets@[j as int],
            ));
        }
        let eval_id = self.next_evaluation_id;
        self.next_evaluation_id = self.next_evaluation_id + 1;
        self.evaluations.push(Evaluation { id: Some(eval_id), jobset_id: n.jobset_id });
        let ghost jobsets1 = self.jobsets@;
        let ghost evals1 = self.evaluations@;
        let ghost js_in = jobs_in@;
        let ghost base = old(self).next_job_id_spec();
        let ghost jobs0 = old(self).jobs_spec();
        let total = jobs_in.len();
        let mut builds: Vec<QueuedBuild> = Vec::new();
        for k in 0..total
            invariant
                total == jobs_in.len(),
                js_in == jobs_in@,
                self.jobsets@ == jobsets1,
                self.evaluations@ == evals1,
                self.next_evaluation_id == eval_id + 1,
                self.next_jobset_id == old(self).next_jobset_id_spec(),
                base == self.next_job_id - k,
                0 <= base,
                base + total <= i32::MAX,
                forall|m: int|
                    0 <= m < jobs0.len() ==> ((#[trigger] jobs0[m].id) matches Some(id) && 0 <= id
                        < base),
                forall|m: int, m2: int|
                    0 <= m < m2 < jobs0.len() ==> (#[trigger] jobs0[m].id) != (
                    #[trigger] jobs0[m2].id),
                self.jobs@.len() == jobs0.len() + k,
                forall|m: int| 0 <= m < jobs0.len() ==> (#[trigger] self.jobs@[m]) == jobs0[m],
                forall|m: int|
                    0 <= m < k ==> (#[trigger] self.jobs@[jobs0.len() + m]) == queued_job(
                        js_in[m],
                        (base + m) as i32,
                        eval_id,
                    ),
                builds@.len() == k,
                forall|m: int|
                    0 <= m < k ==> (#[trigger] builds@[m]).job_id == base + m
                        && builds@[m].derivation_path == js_in[m].derivation_path,
        {
            let id = self.next_job_id;
            self.next_job_id = self.next_job_id + 1;
            let src = &jobs_in[k];
            self.jobs.push(
                Job {
                    id: Some(id),
                    evaluation_id: eval_id,
                    attribute_name: src.attribute_name.clone(),
                    derivation_path: src.derivation_path.clone(),
                    state: JobState::Building,
                    finished: src.finished,
                },
            );
            builds.push(QueuedBuild { job_id: id, derivation_path: src.derivation_path.clone() });
        }
        proof {
            let appended = Seq::new(js_in.len(), |k: int| queued_job(js_in[k], (base + k) as i32, eval_id));
            assert forall|i: int| 0 <= i < self.jobs@.len() implies self.jobs@[i] == (jobs0
                + appended)[i] by {
                if i < jobs0.len() {
                    assert(self.jobs@[i] == jobs0[i]);
                } else {
                    let m = i - jobs0.len();
                    assert(self.jobs@[jobs0.len() + m] == queued_job(
                        js_in[m],
                        (base + m) as i32,
                        eval_id,
                    ));
                }
            }
            assert(self.jobs@ =~= jobs0 + appended);
            assert forall|i: int, i2: int|
                0 <= i < i2 < self.jobs@.len() implies (#[trigger] self.jobs@[i].id) != (
            #[trigger] self.jobs@[i2].id) by {
                if i2 >= jobs0.len() {
                    let m2 = i2 - jobs0.len();
                    assert(self.jobs@[jobs0.len() + m2] == queued_job(
                        js_in[m2],
                        (base + m2) as i32,
                        eval_id,
                    ));
                }
                if i >= jobs0.len() {
                    let m = i - jobs0.len();
                    assert(self.jobs@[jobs0.len() + m] == queued_job(
                        js_in[m],
                        (base + m) as i32,
                        eval_id,
                    ));
                }
            }
            assert forall|i: int|
                0 <= i < self.jobsets@.len() implies ((#[trigger] self.jobsets@[i].id) matches
            Some(x) && 0 <= x < self.next_jobset_id) by {
                assert(self.jobsets@[i].id == old(self).jobsets_spec()[i].id);
            }
            assert forall|i: int, i2: int|
                0 <= i < i2 < self.jobsets@.len() implies (#[trigger] self.jobsets@[i].id) != (
            #[trigger] self.jobsets@[i2].id) by {
                assert(self.jobsets@[i].id == old(self).jobsets_spec()[i].id);
                assert(self.jobsets@[i2].id == old(self).jobsets_spec()[i2].id);
            }
            assert forall|i: int|
                0 <= i < self.evaluations@.len() implies ((
            #[trigger] self.evaluations@[i].id) matches Some(x) && 0 <= x
                < self.next_evaluation_id) by {
                if i < old(self).evaluations_spec().len() {
                    assert(self.evaluations@[i] == old(self).evaluations_spec()[i]);
                }
            }
        }
        Ok(builds)
    }

    /// Applies one build completion notification: the job moves from
    /// `Building` to `Done` on success or `Failed` on failure — an allowed
    /// transition of the job state machine — and its finish time is
    /// stamped with `now`. A result naming an unknown job, or one whose
    /// job is not building, is an inconsistency: it is reported as the
    /// error and changes nothing.
    pub fn on_build_done(&mut self, result: &BuildResult, now: i64) -> (r: Result<(), DBError>)
        requires
            old(self).wf(),
        ensures
            final(self).wf(),
            final(self).jobsets_spec() == old(self).jobsets_spec(),
            final(self).evaluations_spec() == old(self).evaluations_spec(),
            ({
                let s = old(self).jobs_spec();
                let j = job_at(s, result.id);
                let target = if result.success {
                    JobState::Done
                } else {
                    JobState::Failed
                };
                &&& (j < 0 || !(s[j].state is Building)) ==> r is Err && *final(self) == *old(
                    self,
                )
                &&& (j >= 0 && s[j].state is Building) ==> {
                    &&& r is Ok
                    &&& job_can_transition(s[j].state, target)
                    &&& final(self).jobs_spec() == s.update(
                        j,
                        Job { state: target, finished: Some(now), ..s[j] },
                    )
                }
            }),
    {
        let j = match self.find_job(result.id) {
            Some(j) => j,
            None => {
                return Err(DBError::new("job not found".to_owned()));
            },
        };
        proof {
            lemma_job_at(self.jobs@, result.id);
        }
        let building = match self.jobs[j].state {
            JobState::Building => true,
            _ => false,
        };
        if !building {
            return Err(DBError::new("job is not building".to_owned()));
        }
        let mut job = dup_job(&self.jobs[j]);
        let mut diff = crate::models::JobDiff::new();
        diff.state = Some(
            if result.success {
                JobState::Done
            } else {
                JobState::Failed
            },
        );
        diff.finished = Some(now);
        job.update_job(diff);
        self.jobs.set(j, job);
        proof {
            assert(self.jobs@ =~= old(self).jobs_spec().update(j as int, self.jobs@[j as int]));
        }
        Ok(())
    }
}

} // verus!
