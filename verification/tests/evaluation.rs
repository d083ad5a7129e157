use hydracore::eval::{flatten, Eval, Evaluation, ProcessExit};
use hydracore::json::JsonTree;
use hydracore::models::JobState;

/// Flattening the nested evaluation result yields exactly three job
/// descriptors with dotted attribute names and their paths.
#[test]
fn flatten_nested_result() {
    let out = Evaluation::outcome(
        1,
        ProcessExit::Exited(0),
        "{\"a\":{\"b\":\"path1\",\"c\":\"path2\"},\"d\":\"path3\"}",
        "",
        100,
        105,
    );
    assert!(out.is_successful());
    assert_eq!(out.get_started(), 100);
    assert_eq!(out.get_finished(), 105);
    assert_eq!(out.jobset_id(), 1);
    assert!(out.get_err().is_none());
    let jobs = out.jobs.as_ref().unwrap();
    assert_eq!(jobs.len(), 3);
    assert_eq!(jobs[0].attribute_name, "a.b");
    assert_eq!(jobs[0].derivation_path, "path1");
    assert_eq!(jobs[1].attribute_name, "a.c");
    assert_eq!(jobs[1].derivation_path, "path2");
    assert_eq!(jobs[2].attribute_name, "d");
    assert_eq!(jobs[2].derivation_path, "path3");
    for job in jobs.iter() {
        assert!(matches!(job.state, JobState::ToBeBuilt));
        assert!(job.id.is_none());
        assert_eq!(job.evaluation_id, 1);
        assert!(job.finished.is_none());
    }
}

/// A failed exit carries its status code and the captured stderr, and
/// creates no jobs.
#[test]
fn failed_exit_reports_stderr() {
    let out = Evaluation::outcome(
        3,
        ProcessExit::Exited(1),
        "ignored",
        "error: attribute missing",
        10,
        12,
    );
    assert!(!out.is_successful());
    assert!(out.jobs.is_none());
    assert_eq!(
        out.get_err().as_ref().unwrap().as_str(),
        "Nix eval failed to run successfully: Code 1 | Stderr: error: attribute missing"
    );
}

/// The distinguishing cause of an abnormal ending is preserved: a killing
/// signal and a core dump read differently from a nonzero exit.
#[test]
fn abnormal_endings_name_their_cause() {
    let killed = Evaluation::outcome(3, ProcessExit::Signalled(9), "", "gone", 0, 1);
    assert!(!killed.is_successful());
    assert_eq!(
        killed.get_err().as_ref().unwrap().as_str(),
        "Nix eval failed to run successfully: Killed by signal 9 | Stderr: gone"
    );

    let dumped = Evaluation::outcome(3, ProcessExit::CoreDumped(11), "", "boom", 0, 1);
    assert!(!dumped.is_successful());
    assert_eq!(
        dumped.get_err().as_ref().unwrap().as_str(),
        "Nix eval failed to run successfully: Core dumped by signal 11 | Stderr: boom"
    );

    let code = Evaluation::outcome(3, ProcessExit::Exited(-127), "", "", 0, 1);
    assert_eq!(
        code.get_err().as_ref().unwrap().as_str(),
        "Nix eval failed to run successfully: Code -127 | Stderr: "
    );
}

/// Output that is not valid JSON is a failure notification, not a crash.
#[test]
fn unparsable_output_reports_failure() {
    let out = Evaluation::outcome(3, ProcessExit::Exited(0), "error: infinite recursion", "", 0, 1);
    assert!(!out.is_successful());
    assert!(out.jobs.is_none());
    assert_eq!(
        out.get_err().as_ref().unwrap().as_str(),
        "Failed to parse nix eval output: error: infinite recursion"
    );
}

/// A leaf that is not a path string is a failure notification.
#[test]
fn non_string_leaf_reports_failure() {
    let out = Evaluation::outcome(3, ProcessExit::Exited(0), "{\"a\":5}", "", 0, 1);
    assert!(!out.is_successful());
    assert!(out.jobs.is_none());
    assert_eq!(
        out.get_err().as_ref().unwrap().as_str(),
        "Nix eval output is not an attribute set of path strings"
    );
}

/// Empty objects along the path contribute no leaf.
#[test]
fn empty_objects_contribute_nothing() {
    let out = Evaluation::outcome(3, ProcessExit::Exited(0), "{\"a\":{},\"b\":\"p\"}", "", 0, 1);
    assert!(out.is_successful());
    let jobs = out.jobs.as_ref().unwrap();
    assert_eq!(jobs.len(), 1);
    assert_eq!(jobs[0].attribute_name, "b");
    assert_eq!(jobs[0].derivation_path, "p");

    let empty = Evaluation::outcome(3, ProcessExit::Exited(0), "{}", "", 0, 1);
    assert!(empty.is_successful());
    assert_eq!(empty.jobs.as_ref().unwrap().len(), 0);
}

/// A bare string result is one descriptor with an empty attribute name.
#[test]
fn bare_string_result_has_empty_attribute() {
    let out = Evaluation::outcome(3, ProcessExit::Exited(0), "\"/nix/store/abc\"", "", 0, 1);
    assert!(out.is_successful());
    let jobs = out.jobs.as_ref().unwrap();
    assert_eq!(jobs.len(), 1);
    assert_eq!(jobs[0].attribute_name, "");
    assert_eq!(jobs[0].derivation_path, "/nix/store/abc");
}

/// Flattening a hand-built tree walks depth first in entry order.
#[test]
fn flatten_hand_built_tree() {
    let tree = JsonTree::Obj(vec![
        hydracore::json::JsonEntry {
            key: "x".to_string(),
            value: JsonTree::Obj(vec![hydracore::json::JsonEntry {
                key: "y".to_string(),
                value: JsonTree::Leaf("p1".to_string()),
            }]),
        },
        hydracore::json::JsonEntry {
            key: "z".to_string(),
            value: JsonTree::Leaf("p2".to_string()),
        },
    ]);
    let pairs = flatten(&tree).unwrap();
    assert_eq!(pairs.len(), 2);
    assert_eq!(pairs[0].0, "x.y");
    assert_eq!(pairs[0].1, "p1");
    assert_eq!(pairs[1].0, "z");
    assert_eq!(pairs[1].1, "p2");

    assert!(flatten(&JsonTree::Other).is_none());
}

#[test]
fn notified_jobs_can_be_copied() {
    let out = Evaluation::outcome(1, ProcessExit::Exited(0), "{\"a\":\"/p1\"}", "", 0, 1);
    let copy = out.get_derivations_copy().unwrap();
    assert_eq!(copy.len(), 1);
    assert_eq!(copy[0].attribute_name, "a");
    assert_eq!(copy[0].derivation_path, "/p1");

    let failed = Evaluation::outcome(1, ProcessExit::Exited(1), "", "x", 0, 1);
    assert!(failed.get_derivations_copy().is_none());
}

#[test]
fn eval_uri_joins_flake_and_attribute() {
    let e = Eval::new("github:example/repo", "hydraJobs");
    assert_eq!(e.uri(), "github:example/repo#hydraJobs");
}
