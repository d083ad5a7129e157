use hydracore::drv::{DependencyTree, DrvBasic, DrvDepTree};
use hydracore::scheduler::{build_order, Tickets};

fn node(path: &str, children: Vec<DrvDepTree>) -> DrvDepTree {
    DependencyTree {
        children,
        data: DrvBasic { drv_path: path.to_string(), name: path.to_string() },
        built: false,
    }
}

/// Root R with children A (having child C) and B: the realize order has C
/// before A, and both A and B before R.
#[test]
fn children_are_realized_before_parents() {
    let tree = node("/r", vec![node("/a", vec![node("/c", vec![])]), node("/b", vec![])]);
    let order = build_order(&tree);
    assert_eq!(order, vec!["/c", "/a", "/b", "/r"]);
}

/// A diamond — two parents sharing one child path — schedules the shared
/// path only once, before both parents.
#[test]
fn diamond_dependency_is_realized_once() {
    let tree = node(
        "/r",
        vec![
            node("/a", vec![node("/shared", vec![])]),
            node("/b", vec![node("/shared", vec![])]),
        ],
    );
    let order = build_order(&tree);
    assert_eq!(order, vec!["/shared", "/a", "/b", "/r"]);
}

/// Nodes already marked built are skipped; their children are still
/// walked.
#[test]
fn built_nodes_are_skipped() {
    let mut sub = node("/a", vec![node("/c", vec![])]);
    sub.built = true;
    let tree = node("/r", vec![sub, node("/b", vec![])]);
    let order = build_order(&tree);
    assert_eq!(order, vec!["/c", "/b", "/r"]);
}

/// With one concurrency ticket, a second admission is refused until the
/// first realization hands its ticket back: no two realize operations run
/// at once.
#[test]
fn single_ticket_admits_one_at_a_time() {
    let mut t = Tickets::new(1);
    assert!(t.try_acquire());
    assert!(!t.try_acquire());
    assert!(!t.try_acquire());
    t.release();
    assert!(t.try_acquire());
    t.release();
}

#[test]
fn tickets_bound_admission_by_capacity() {
    let mut t = Tickets::new(3);
    assert!(t.try_acquire());
    assert!(t.try_acquire());
    assert!(t.try_acquire());
    assert!(!t.try_acquire());
    t.release();
    assert!(t.try_acquire());
    let mut none = Tickets::new(0);
    assert!(!none.try_acquire());
}
