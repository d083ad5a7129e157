use hydracore::text::decimal_string;
use hydracore::errors::{DBError, DerivationError, EvalError, EvaluationError, StoreError};
use hydracore::models::{Evaluation, Job, JobDiff, JobState, Jobset, JobsetDiff, JobsetState};

fn jobset() -> Jobset {
    Jobset {
        id: Some(4),
        project_id: 1,
        name: "web".to_string(),
        flake: "github:example/web".to_string(),
        description: "frontend".to_string(),
        check_interval: 300,
        last_checked: None,
        last_evaluated: None,
        evaluation_took: None,
        state: Some(JobsetState::Unknown),
        error_message: None,
    }
}

#[test]
fn jobset_state_names() {
    assert_eq!(JobsetState::Unknown.to_string(), "unknown");
    assert_eq!(JobsetState::Idle.to_string(), "idle");
    assert_eq!(JobsetState::Evaluating.to_string(), "evaluating");
    assert_eq!(JobsetState::EvalFailed.to_string(), "evaluation failed");
}

/// A diff replaces exactly the fields it sets.
#[test]
fn jobset_diff_is_partial() {
    let mut js = jobset();
    let mut diff = JobsetDiff::new();
    diff.set_description("new description".to_string());
    diff.set_evaluation_took(9);
    diff.set_last_checked(1234);
    js.update_jobset(diff);
    assert_eq!(js.description, "new description");
    assert_eq!(js.evaluation_took, Some(9));
    assert_eq!(js.last_checked, Some(1234));
    assert_eq!(js.name, "web");
    assert_eq!(js.flake, "github:example/web");
    assert_eq!(js.check_interval, 300);
    assert_eq!(js.state, Some(JobsetState::Unknown));

    let mut diff = JobsetDiff::new();
    diff.set_name("renamed".to_string());
    diff.set_flake("github:example/renamed".to_string());
    diff.set_check_interval(0);
    diff.set_last_evaluated(5678);
    diff.set_state(JobsetState::Idle);
    diff.set_error_message("oops".to_string());
    js.update_jobset(diff);
    assert_eq!(js.name, "renamed");
    assert_eq!(js.flake, "github:example/renamed");
    assert_eq!(js.check_interval, 0);
    assert_eq!(js.last_evaluated, Some(5678));
    assert_eq!(js.state, Some(JobsetState::Idle));
    assert_eq!(js.error_message.as_deref(), Some("oops"));
    assert_eq!(js.description, "new description");
}

#[test]
fn jobset_state_updates_need_an_id() {
    let mut js = jobset();
    js.update_state(JobsetState::Evaluating).unwrap();
    assert_eq!(js.state, Some(JobsetState::Evaluating));

    js.id = None;
    let err = js.update_state(JobsetState::Idle).unwrap_err();
    assert_eq!(err.message(), "Cannot update state: ID is not set!");
    assert_eq!(js.state, Some(JobsetState::Evaluating));

    js.update_error("evaluation timed out");
    assert_eq!(js.error_message.as_deref(), Some("evaluation timed out"));
}

#[test]
fn timer_is_disabled_at_zero_interval() {
    let mut js = jobset();
    assert_eq!(js.timer_seconds(), Some(300));
    js.check_interval = 0;
    assert_eq!(js.timer_seconds(), None);
    js.check_interval = -5;
    assert_eq!(js.timer_seconds(), None);
}

#[test]
fn new_job_is_to_be_built() {
    let j = Job::new(8, "pkgs.hello".to_string(), "/nix/store/h.drv".to_string());
    assert!(j.id.is_none());
    assert_eq!(j.evaluation_id, 8);
    assert_eq!(j.attribute_name, "pkgs.hello");
    assert_eq!(j.derivation_path, "/nix/store/h.drv");
    assert!(matches!(j.state, JobState::ToBeBuilt));
    assert!(j.finished.is_none());
}

#[test]
fn job_diff_is_partial() {
    let mut j = Job::new(8, "a".to_string(), "/d".to_string());
    let mut diff = JobDiff::new();
    diff.state = Some(JobState::Building);
    j.update_job(diff);
    assert!(matches!(j.state, JobState::Building));
    assert_eq!(j.attribute_name, "a");

    let mut diff = JobDiff::new();
    diff.state = Some(JobState::Done);
    diff.finished = Some(777);
    diff.attribute_name = Some("b".to_string());
    diff.derivation_path = Some("/e".to_string());
    diff.evaluation_id = Some(9);
    j.update_job(diff);
    assert!(matches!(j.state, JobState::Done));
    assert_eq!(j.finished, Some(777));
    assert_eq!(j.attribute_name, "b");
    assert_eq!(j.derivation_path, "/e");
    assert_eq!(j.evaluation_id, 9);
}

#[test]
fn evaluation_record_points_at_jobset() {
    let e = Evaluation::new(3);
    assert!(e.id.is_none());
    assert_eq!(e.jobset_id, 3);
}

#[test]
fn decimal_rendering_is_exact() {
    assert_eq!(decimal_string(0), "0");
    assert_eq!(decimal_string(7), "7");
    assert_eq!(decimal_string(10), "10");
    assert_eq!(decimal_string(1984), "1984");
    assert_eq!(decimal_string(-1), "-1");
    assert_eq!(decimal_string(-127), "-127");
    assert_eq!(decimal_string(i64::MAX), "9223372036854775807");
    assert_eq!(decimal_string(i64::MIN), "-9223372036854775808");
}

#[test]
fn error_types_carry_their_message() {
    assert_eq!(DBError::new("d".to_string()).message(), "d");
    assert_eq!(EvaluationError::new("e".to_string()).message(), "e");
    assert_eq!(EvaluationError::from_str("f").message(), "f");
    assert_eq!(DerivationError::from_str("g").message(), "g");
    assert_eq!(StoreError::from_str("h").message(), "h");
    assert_eq!(EvalError::from_str("i").message(), "i");
}
