use hydracore::coordinator::{resolve_job_path, Coordinator};
use hydracore::drv::DrvBasic;
use hydracore::eval::{EvalDoneNotification, Evaluation, ProcessExit};
use hydracore::models::{Job, JobState, Jobset, JobsetState};
use hydracore::scheduler::BuildResult;

fn jobset(name: &str, interval: i32) -> Jobset {
    Jobset {
        id: None,
        project_id: 1,
        name: name.to_string(),
        flake: format!("github:example/{}", name),
        description: String::new(),
        check_interval: interval,
        last_checked: None,
        last_evaluated: None,
        evaluation_took: None,
        state: Some(JobsetState::Unknown),
        error_message: None,
    }
}

/// Scheduling twice in immediate succession: the second call fails with
/// the already-running rejection and hands back no second evaluation to
/// spawn.
#[test]
fn second_schedule_is_rejected() {
    let mut c = Coordinator::new();
    let id = c.add_jobset(jobset("web", 0)).unwrap();

    let req = c.schedule_jobset(id).unwrap();
    assert_eq!(req.jobset_id, id);
    assert_eq!(req.flake, "github:example/web");
    assert_eq!(c.get_jobset(id).unwrap().state, Some(JobsetState::Evaluating));

    let second = c.schedule_jobset(id);
    assert_eq!(second.unwrap_err().message(), "Evaluation already running");
    assert_eq!(c.get_jobset(id).unwrap().state, Some(JobsetState::Evaluating));

    assert!(c.schedule_jobset(id + 1).is_err());
}

/// A nonzero evaluation exit moves the jobset straight to `EvalFailed`
/// with the error message populated, and zero jobs are created.
#[test]
fn failed_evaluation_creates_no_jobs() {
    let mut c = Coordinator::new();
    let id = c.add_jobset(jobset("web", 0)).unwrap();
    c.schedule_jobset(id).unwrap();

    let n = Evaluation::outcome(id, ProcessExit::Exited(1), "", "exit status 1", 50, 53);
    let builds = c.on_eval_done(n, 60).unwrap();
    assert!(builds.is_empty());

    let js = c.get_jobset(id).unwrap();
    assert_eq!(js.state, Some(JobsetState::EvalFailed));
    assert_eq!(
        js.error_message.as_ref().unwrap().as_str(),
        "Nix eval failed to run successfully: Code 1 | Stderr: exit status 1"
    );
    assert_eq!(js.last_checked, Some(60));
    assert_eq!(js.last_evaluated, Some(60));
    assert_eq!(js.evaluation_took, Some(3));
    assert_eq!(c.jobs().len(), 0);
}

/// A successful evaluation moves the jobset to `Idle`, records one
/// evaluation, stores every job as `Building` and hands each back as a
/// build to queue.
#[test]
fn successful_evaluation_queues_jobs() {
    let mut c = Coordinator::new();
    let id = c.add_jobset(jobset("web", 0)).unwrap();
    c.schedule_jobset(id).unwrap();

    let n = Evaluation::outcome(id, ProcessExit::Exited(0), "{\"a\":\"/p1\",\"b\":\"/p2\"}", "", 50, 51);
    let builds = c.on_eval_done(n, 55).unwrap();
    assert_eq!(builds.len(), 2);
    assert_eq!(builds[0].derivation_path, "/p1");
    assert_eq!(builds[1].derivation_path, "/p2");
    assert_ne!(builds[0].job_id, builds[1].job_id);

    let js = c.get_jobset(id).unwrap();
    assert_eq!(js.state, Some(JobsetState::Idle));
    assert!(js.error_message.is_none());
    assert_eq!(js.evaluation_took, Some(1));

    assert_eq!(c.jobs().len(), 2);
    for job in c.jobs().iter() {
        assert!(matches!(job.state, JobState::Building));
        assert!(job.id.is_some());
    }
}

/// Job state transitions are monotonic: `ToBeBuilt` to `Building` when
/// queued, `Building` to `Done` on a successful build; a second completion
/// for the same job is an inconsistency and changes nothing.
#[test]
fn job_states_move_forward_only() {
    let mut c = Coordinator::new();
    let id = c.add_jobset(jobset("web", 0)).unwrap();
    c.schedule_jobset(id).unwrap();
    let n = Evaluation::outcome(id, ProcessExit::Exited(0), "{\"a\":\"/p1\"}", "", 0, 1);
    let builds = c.on_eval_done(n, 5).unwrap();
    let job_id = builds[0].job_id;
    assert!(matches!(c.get_job(job_id).unwrap().state, JobState::Building));

    let done = BuildResult {
        id: job_id,
        path: "/p1".to_string(),
        success: true,
        took_secs: 42,
    };
    c.on_build_done(&done, 99).unwrap();
    let job = c.get_job(job_id).unwrap();
    assert!(matches!(job.state, JobState::Done));
    assert_eq!(job.finished, Some(99));

    assert!(c.on_build_done(&done, 100).is_err());
    let job = c.get_job(job_id).unwrap();
    assert!(matches!(job.state, JobState::Done));
    assert_eq!(job.finished, Some(99));
}

/// A failed build marks the job `Failed`; other jobs are untouched.
#[test]
fn failed_build_marks_job_failed() {
    let mut c = Coordinator::new();
    let id = c.add_jobset(jobset("web", 0)).unwrap();
    c.schedule_jobset(id).unwrap();
    let n = Evaluation::outcome(id, ProcessExit::Exited(0), "{\"a\":\"/p1\",\"b\":\"/p2\"}", "", 0, 1);
    let builds = c.on_eval_done(n, 5).unwrap();

    let failed = BuildResult {
        id: builds[0].job_id,
        path: "/p1".to_string(),
        success: false,
        took_secs: 7,
    };
    c.on_build_done(&failed, 50).unwrap();
    assert!(matches!(c.get_job(builds[0].job_id).unwrap().state, JobState::Failed));
    assert!(matches!(c.get_job(builds[1].job_id).unwrap().state, JobState::Building));

    let unknown = BuildResult { id: 999, path: String::new(), success: true, took_secs: 0 };
    assert!(c.on_build_done(&unknown, 51).is_err());
}

/// An unknown jobset in a notification changes nothing.
#[test]
fn notification_for_unknown_jobset_is_an_error() {
    let mut c = Coordinator::new();
    let n = EvalDoneNotification::new(0, 1, true, None, Some(Vec::new()), 42);
    assert!(c.on_eval_done(n, 5).is_err());
    assert_eq!(c.jobs().len(), 0);
}

/// An output path is rewritten to its owning derivation; an empty
/// attribute name takes the derivation's name.
#[test]
fn resolution_rewrites_path_and_names() {
    let mut job = Job::new(1, String::new(), "/nix/store/out-path".to_string());
    let resolved = DrvBasic {
        drv_path: "/nix/store/abc-foo.drv".to_string(),
        name: "foo".to_string(),
    };
    resolve_job_path(&mut job, &resolved);
    assert_eq!(job.derivation_path, "/nix/store/abc-foo.drv");
    assert_eq!(job.attribute_name, "foo");

    let mut named = Job::new(1, "pkgs.foo".to_string(), "/out".to_string());
    resolve_job_path(&mut named, &resolved);
    assert_eq!(named.attribute_name, "pkgs.foo");
    assert_eq!(named.derivation_path, "/nix/store/abc-foo.drv");
}

/// The duration is clamped: never negative.
#[test]
fn evaluation_duration_is_clamped() {
    let mut c = Coordinator::new();
    let id = c.add_jobset(jobset("web", 0)).unwrap();
    c.schedule_jobset(id).unwrap();
    let n = Evaluation::outcome(id, ProcessExit::Exited(1), "", "x", 100, 40);
    c.on_eval_done(n, 1).unwrap();
    assert_eq!(c.get_jobset(id).unwrap().evaluation_took, Some(0));
}
