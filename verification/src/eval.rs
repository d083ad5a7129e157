//! The evaluator's result handling: turning one finished evaluation
//! process into exactly one notification.
//!
//! A successful evaluation prints a JSON attribute set whose leaves are
//! store or derivation path strings. Flattening walks that tree depth
//! first, joining object keys with `.` into each job's `attribute_name` and
//! taking every string leaf as the job's path; empty objects contribute no
//! leaf, and a leaf of any other JSON type means the output cannot be
//! trusted. A failed process, unparsable output or such a leaf each produce
//! a failure notification instead — never a crash, so the coordinator
//! always receives a verdict.

use vstd::prelude::*;
use vstd::string::StringExecFns;

use crate::json::{parse_json_tree, parsed_json_of, JsonEntry, JsonTree};
use crate::models::{Job, JobsetID};
use crate::text::{append_decimal, dec_int_spec};

verus! {

/// The attribute name of a child: object keys joined with `.`, with no
/// leading dot at the root.
pub open spec fn join_attr(prefix: Seq<char>, key: Seq<char>) -> Seq<char> {
    if prefix.len() == 0 {
        key
    } else {
        prefix + "."@ + key
    }
}

/// The job descriptors of an evaluation result: one `(attribute_name,
/// path)` pair per string leaf, depth first, or `None` when some leaf is
/// not a string.
pub open spec fn flatten_spec(prefix: Seq<char>, t: JsonTree) -> Option<
    Seq<(Seq<char>, Seq<char>)>,
>
    decreases t,
{
    match t {
        JsonTree::Leaf(s) => Some(seq![(prefix, s@)]),
        JsonTree::Other => None,
        JsonTree::Obj(entries) => flatten_entries_spec(prefix, entries@),
    }
}

/// Flattening of an object's entries, in order.
pub open spec fn flatten_entries_spec(prefix: Seq<char>, es: Seq<JsonEntry>) -> Option<
    Seq<(Seq<char>, Seq<char>)>,
>
    decreases es,
{
    if es.len() == 0 {
        Some(Seq::empty())
    } else {
        match (
            flatten_spec(join_attr(prefix, es[0].key@), es[0].value),
            flatten_entries_spec(prefix, es.drop_first()),
        ) {
            (Some(a), Some(b)) => Some(a + b),
            _ => None,
        }
    }
}

/// Flattening distributes over concatenation of entry lists: the left part
/// is flattened first, and a failure on either side fails the whole.
pub proof fn lemma_flatten_entries_concat(prefix: Seq<char>, es1: Seq<JsonEntry>, es2: Seq<
    JsonEntry,
>)
    ensures
        flatten_entries_spec(prefix, es1 + es2) == match (
            flatten_entries_spec(prefix, es1),
            flatten_entries_spec(prefix, es2),
        ) {
            (Some(a), Some(b)) => Some(a + b),
            _ => None::<Seq<(Seq<char>, Seq<char>)>>,
        },
    decreases es1,
{
    if es1.len() == 0 {
        assert(es1 + es2 =~= es2);
        match flatten_entries_spec(prefix, es2) {
            Some(b) => {
                assert(Seq::<(Seq<char>, Seq<char>)>::empty() + b =~= b);
            },
            None => {},
        }
    } else {
        assert((es1 + es2).drop_first() =~= es1.drop_first() + es2);
        assert((es1 + es2)[0] == es1[0]);
        lemma_flatten_entries_concat(prefix, es1.drop_first(), es2);
        match (
            flatten_spec(join_attr(prefix, es1[0].key@), es1[0].value),
            flatten_entries_spec(prefix, es1.drop_first()),
            flatten_entries_spec(prefix, es2),
        ) {
            (Some(a), Some(b), Some(c)) => {
                assert(a + (b + c) =~= (a + b) + c);
            },
            _ => {},
        }
    }
}

/// The views of a list of `(attribute_name, path)` pairs.
pub open spec fn pairs_view(s: Seq<(String, String)>) -> Seq<(Seq<char>, Seq<char>)> {
    s.map_values(|p: (String, String)| (p.0@, p.1@))
}

/// Appends the descriptors of one subtree to `out`; `false` when the
/// subtree holds a non-string leaf, in which case `out` is meaningless and
/// the caller discards it.
fn flatten_into(prefix: &str, t: &JsonTree, out: &mut Vec<(String, String)>) -> (ok: bool)
    ensures
        match flatten_spec(prefix@, *t) {
            Some(fl) => ok && pairs_view(final(out)@) == pairs_view(old(out)@) + fl,
            None => !ok,
        },
    decreases *t,
{
    match t {
        JsonTree::Leaf(s) => {
            out.push((prefix.to_owned(), s.clone()));
            proof {
                assert(pairs_view(final(out)@) =~= pairs_view(old(out)@) + seq![
                    (prefix@, s@),
                ]);
            }
            true
        },
        JsonTree::Other => false,
        JsonTree::Obj(entries) => {
            let ghost all = entries@;
            let n = entries.len();
            let mut i: usize = 0;
            let mut ok = true;
            while i < n && ok
                invariant
                    n == entries.len(),
                    all == entries@,
                    *t == JsonTree::Obj(*entries),
                    i <= n,
                    ok ==> (flatten_entries_spec(prefix@, all.take(i as int)) matches Some(fl)
                        && pairs_view(out@) == pairs_view(old(out)@) + fl),
                    !ok ==> flatten_entries_spec(prefix@, all) is None,
                decreases n - i,
            {
                let e = &entries[i];
                let child_prefix: String = if prefix.is_empty() {
                    e.key.clone()
                } else {
                    let mut p = prefix.to_owned();
                    p.append(".");
                    p.append(e.key.as_str());
                    p
                };
                assert(child_prefix@ == join_attr(prefix@, e.key@));
                proof {
                    assert(decreases_to!(*t => t->Obj_0));
                    assert(t->Obj_0 == *entries);
                    assert(decreases_to!(*entries => entries@));
                    assert(decreases_to!(entries@ => entries@[i as int]));
                    assert(decreases_to!(entries@[i as int] => entries@[i as int].value));
                    assert(decreases_to!(*t => entries@[i as int].value));
                }
                let child_ok = flatten_into(child_prefix.as_str(), &e.value, out);
                proof {
                    assert(all.take(i + 1) =~= all.take(i as int) + seq![all[i as int]]);
                    lemma_flatten_entries_concat(prefix@, all.take(i as int), seq![
                        all[i as int],
                    ]);
                    assert(seq![all[i as int]].drop_first() =~= Seq::<JsonEntry>::empty());
                    if !child_ok {
                        assert(flatten_entries_spec(prefix@, all.take(i + 1)) is None);
                        assert(all =~= all.take(i + 1) + all.skip(i + 1));
                        lemma_flatten_entries_concat(prefix@, all.take(i + 1), all.skip(i + 1));
                    }
                }
                if !child_ok {
                    ok = false;
                } else {
                    proof {
                        let e0 = all[i as int];
                        let a = flatten_spec(join_attr(prefix@, e0.key@), e0.value)->Some_0;
                        let fl_i = flatten_entries_spec(prefix@, all.take(i as int))->Some_0;
                        assert(seq![e0][0] == e0);
                        assert(flatten_entries_spec(prefix@, Seq::<JsonEntry>::empty()) == Some(
                            Seq::<(Seq<char>, Seq<char>)>::empty(),
                        ));
                        assert(flatten_spec(join_attr(prefix@, e0.key@), e0.value) is Some);
                        assert(flatten_entries_spec(prefix@, seq![e0]) == Some(
                            a + Seq::<(Seq<char>, Seq<char>)>::empty(),
                        ));
                        assert(a + Seq::<(Seq<char>, Seq<char>)>::empty() =~= a);
                        assert(flatten_entries_spec(prefix@, all.take(i + 1)) == Some(fl_i + a));
                        assert(pairs_view(out@) =~= (pairs_view(old(out)@) + fl_i) + a);
                        assert((pairs_view(old(out)@) + fl_i) + a =~= pairs_view(old(out)@) + (
                        fl_i + a));
                    }
                }
                i = i + 1;
            }
            proof {
                assert(flatten_spec(prefix@, *t) == flatten_entries_spec(prefix@, all));
                if ok {
                    assert(all.take(n as int) =~= all);
                }
            }
            ok
        },
    }
}

/// Flattens an evaluation result into its job descriptors, depth first:
/// `None` exactly when some leaf is not a string.
pub fn flatten(t: &JsonTree) -> (r: Option<Vec<(String, String)>>)
    ensures
        match r {
            Some(v) => flatten_spec(Seq::<char>::empty(), *t) == Some(pairs_view(v@)),
            None => flatten_spec(Seq::<char>::empty(), *t) is None,
        },
{
    let mut out: Vec<(String, String)> = Vec::new();
    proof {
        reveal_strlit("");
        assert(""@ =~= Seq::<char>::empty());
    }
    let ok = flatten_into("", t, &mut out);
    if ok {
        proof {
            assert(pairs_view(Seq::<(String, String)>::empty()) =~= Seq::<
                (Seq<char>, Seq<char>),
            >::empty());
        }
        Some(out)
    } else {
        None
    }
}

/// The attribute/path views of a list of jobs, for relating built jobs to
/// the flattening of the evaluation output.
pub open spec fn jobs_pairs(js: Seq<Job>) -> Seq<(Seq<char>, Seq<char>)> {
    js.map_values(|j: Job| (j.attribute_name@, j.derivation_path@))
}

/// A job as the evaluator creates it: unpersisted, not yet built, tied to
/// the given evaluation.
pub open spec fn fresh_job(j: Job, evaluation_id: i32) -> bool {
    &&& j.id is None
    &&& j.state is ToBeBuilt
    &&& j.finished is None
    &&& j.evaluation_id == evaluation_id
}

/// One job per descriptor, in order, each tied to the given evaluation.
fn jobs_from_pairs(evaluation_id: i32, pairs: &Vec<(String, String)>) -> (r: Vec<Job>)
    ensures
        jobs_pairs(r@) == pairs_view(pairs@),
        forall|k: int| 0 <= k < r@.len() ==> fresh_job(#[trigger] r@[k], evaluation_id),
{
    let mut out: Vec<Job> = Vec::new();
    let n = pairs.len();
    for k in 0..n
        invariant
            n == pairs.len(),
            out@.len() == k,
            forall|m: int| 0 <= m < k ==> fresh_job(#[trigger] out@[m], evaluation_id),
            forall|m: int|
                0 <= m < k ==> (#[trigger] out@[m]).attribute_name@ == pairs@[m].0@
                    && out@[m].derivation_path@ == pairs@[m].1@,
    {
        out.push(Job::new(evaluation_id, pairs[k].0.clone(), pairs[k].1.clone()));
    }
    proof {
        assert(jobs_pairs(out@) =~= pairs_view(pairs@));
    }
    out
}

/// How the evaluation process ended, as the supervisor observed it: a
/// normal exit with its status code, or death by a signal, with or
/// without a core dump. Plain values, so the distinguishing cause
/// survives into the failure notification.
#[derive(Debug, Clone, Copy, PartialEq, Eq, Structural)]
pub enum ProcessExit {
    /// Exited normally with this status code; only `0` is success.
    Exited(i32),
    /// Killed by this signal.
    Signalled(i32),
    /// Killed by this signal, dumping core.
    CoreDumped(i32),
}

/// The one successful ending: a normal exit with status zero.
pub open spec fn exit_ok(exit: ProcessExit) -> bool {
    exit == ProcessExit::Exited(0)
}

/// The error text of an evaluation process that ended unsuccessfully:
/// the distinguishing cause — status code, killing signal, core dump —
/// followed by the captured stderr.
pub open spec fn eval_exit_error_msg(exit: ProcessExit, stderr: Seq<char>) -> Seq<char> {
    match exit {
        ProcessExit::Exited(code) => "Nix eval failed to run successfully: Code "@ + dec_int_spec(
            code as int,
        ) + " | Stderr: "@ + stderr,
        ProcessExit::Signalled(sig) => "Nix eval failed to run successfully: Killed by signal "@
            + dec_int_spec(sig as int) + " | Stderr: "@ + stderr,
        ProcessExit::CoreDumped(sig) => "Nix eval failed to run successfully: Core dumped by signal "@
            + dec_int_spec(sig as int) + " | Stderr: "@ + stderr,
    }
}

/// The error text of an evaluation whose stdout is not valid JSON,
/// carrying that output.
pub open spec fn eval_parse_error_msg(stdout: Seq<char>) -> Seq<char> {
    "Failed to parse nix eval output: "@ + stdout
}

/// The error text of an evaluation whose output holds a leaf that is not a
/// path string.
pub open spec fn eval_leaf_error_msg() -> Seq<char> {
    "Nix eval output is not an attribute set of path strings"@
}

/// The single notification one evaluation run delivers to the coordinator:
/// either success with the flattened jobs, or failure with the captured
/// error text. Timestamps are Unix seconds.
#[derive(Debug, Clone)]
pub struct EvalDoneNotification {
    pub started: i64,
    pub finished: i64,
    pub successful: bool,
    pub error_msg: Option<String>,
    pub jobs: Option<Vec<Job>>,
    pub jobset_id: JobsetID,
}

impl EvalDoneNotification {
    pub fn new(
        started: i64,
        finished: i64,
        successful: bool,
        error_msg: Option<String>,
        jobs: Option<Vec<Job>>,
        jobset_id: JobsetID,
    ) -> (r: Self)
        ensures
            r == (EvalDoneNotification { started, finished, successful, error_msg, jobs, jobset_id }),
    {
        Self { started, finished, successful, error_msg, jobs, jobset_id }
    }

    pub fn set_success(&mut self, value: bool)
        ensures
            *final(self) == (EvalDoneNotification { successful: value, ..*old(self) }),
    {
        self.successful = value;
    }

    pub fn set_error(&mut self, error: String)
        ensures
            *final(self) == (EvalDoneNotification { error_msg: Some(error), ..*old(self) }),
    {
        self.error_msg = Some(error);
    }

    pub fn set_derivations(&mut self, derivations: Vec<Job>)
        ensures
            *final(self) == (EvalDoneNotification { jobs: Some(derivations), ..*old(self) }),
    {
        self.jobs = Some(derivations);
    }

    pub fn get_started(&self) -> (r: i64)
        ensures
            r == self.started,
    {
        self.started
    }

    pub fn get_finished(&self) -> (r: i64)
        ensures
            r == self.finished,
    {
        self.finished
    }

    pub fn is_successful(&self) -> (r: bool)
        ensures
            r == self.successful,
    {
        self.successful
    }

    pub fn get_err(&self) -> (r: &Option<String>)
        ensures
            r == &self.error_msg,
    {
        &self.error_msg
    }

    pub fn get_derivations(&self) -> (r: &Option<Vec<Job>>)
        ensures
            r == &self.jobs,
    {
        &self.jobs
    }

    /// A copy of the notified jobs, field for field.
    pub fn get_derivations_copy(&self) -> (r: Option<Vec<Job>>)
        ensures
            self.jobs is None <==> r is None,
            r matches Some(v) ==> (self.jobs matches Some(b) && v@ == b@),
    {
        let list = match &self.jobs {
            None => {
                return None;
            },
            Some(list) => list,
        };
        let mut out: Vec<Job> = Vec::new();
        let n = list.len();
        for k in 0..n
            invariant
                n == list.len(),
                out@.len() == k,
                forall|m: int| 0 <= m < k ==> (#[trigger] out@[m]) == list@[m],
        {
            let j = &list[k];
            out.push(
                Job {
                    id: j.id,
                    evaluation_id: j.evaluation_id,
                    attribute_name: j.attribute_name.clone(),
                    derivation_path: j.derivation_path.clone(),
                    state: j.state,
                    finished: j.finished,
                },
            );
        }
        proof {
            assert(out@ =~= self.jobs->0@);
        }
        Some(out)
    }

    pub fn jobset_id(&self) -> (r: JobsetID)
        ensures
            r == self.jobset_id,
    {
        self.jobset_id
    }
}

/// One evaluation run. Spawning the process and waiting on it happen
/// outside this crate; [`Evaluation::outcome`] turns what came back into
/// the one notification the run owes the coordinator.
pub struct Evaluation {}

impl Evaluation {
    /// Computes the notification for a finished evaluation process, from
    /// how it ended and its captured output:
    ///
    /// - an unsuccessful ending is a failure whose text carries the
    ///   distinguishing cause and the captured stderr;
    /// - stdout that is not valid JSON is a failure carrying that output;
    /// - output holding a leaf that is not a path string is a failure;
    /// - otherwise the run succeeded and the notification carries one
    ///   not-yet-built job per flattened descriptor, in order.
    pub fn outcome(
        jobset_id: JobsetID,
        exit: ProcessExit,
        stdout: &str,
        stderr: &str,
        started: i64,
        finished: i64,
    ) -> (r: EvalDoneNotification)
        ensures
            r.jobset_id == jobset_id,
            r.started == started,
            r.finished == finished,
            r.successful ==> r.error_msg is None,
            !r.successful ==> r.jobs is None,
            !exit_ok(exit) ==> !r.successful && (r.error_msg matches Some(m) && m@
                == eval_exit_error_msg(exit, stderr@)),
            exit_ok(exit) ==> match parsed_json_of(stdout@) {
                None => !r.successful && (r.error_msg matches Some(m) && m@
                    == eval_parse_error_msg(stdout@)),
                Some(t) => match flatten_spec(Seq::<char>::empty(), t) {
                    None => !r.successful && (r.error_msg matches Some(m) && m@
                        == eval_leaf_error_msg()),
                    Some(fl) => r.successful && (r.jobs matches Some(js) && jobs_pairs(js@) == fl
                        && (forall|k: int|
                        0 <= k < js@.len() ==> fresh_job(#[trigger] js@[k], jobset_id))),
                },
            },
    {
        let succeeded = match exit {
            ProcessExit::Exited(code) => code == 0,
            _ => false,
        };
        if !succeeded {
            let mut msg = match exit {
                ProcessExit::Exited(code) => {
                    let mut m = "Nix eval failed to run successfully: Code ".to_owned();
                    append_decimal(&mut m, code as i64);
                    m
                },
                ProcessExit::Signalled(sig) => {
                    let mut m = "Nix eval failed to run successfully: Killed by signal ".to_owned();
                    append_decimal(&mut m, sig as i64);
                    m
                },
                ProcessExit::CoreDumped(sig) => {
                    let mut m =
                        "Nix eval failed to run successfully: Core dumped by signal ".to_owned();
                    append_decimal(&mut m, sig as i64);
                    m
                },
            };
            msg.append(" | Stderr: ");
            msg.append(stderr);
            proof {
                assert(msg@ =~= eval_exit_error_msg(exit, stderr@));
            }
            return EvalDoneNotification::new(started, finished, false, Some(msg), None, jobset_id);
        }
        match parse_json_tree(stdout) {
            None => {
                let mut msg = "Failed to parse nix eval output: ".to_owned();
                msg.append(stdout);
                EvalDoneNotification::new(started, finished, false, Some(msg), None, jobset_id)
            },
            Some(tree) => {
                match flatten(&tree) {
                    None => {
                        let msg = "Nix eval output is not an attribute set of path strings"
                            .to_owned();
                        EvalDoneNotification::new(
                            started,
                            finished,
                            false,
                            Some(msg),
                            None,
                            jobset_id,
                        )
                    },
                    Some(pairs) => {
                        let jobs = jobs_from_pairs(jobset_id, &pairs);
                        EvalDoneNotification::new(
                            started,
                            finished,
                            true,
                            None,
                            Some(jobs),
                            jobset_id,
                        )
                    },
                }
            },
        }
    }
}

/// One evaluation target: a flake and the attribute to evaluate within it.
/// Running it is the supervisor's affair; this only knows how the two name
/// one installable.
pub struct Eval<'a> {
    pub flake: &'a str,
    pub attribute: &'a str,
}

impl<'a> Eval<'a> {
    pub fn new(flake: &'a str, attribute: &'a str) -> (r: Self)
        ensures
            r.flake@ == flake@,
            r.attribute@ == attribute@,
    {
        Eval { flake, attribute }
    }

    /// The installable the evaluation is invoked on: `flake#attribute`.
    pub fn uri(&self) -> (r: String)
        ensures
            r@ == self.flake@ + "#"@ + self.attribute@,
    {
        let mut s = self.flake.to_owned();
        s.append("#");
        s.append(self.attribute);
        s
    }
}

} // verus!
