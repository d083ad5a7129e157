use hydracore::drv::{drv_basic_from_show, DependencyTree, DrvShow, DrvStore};

fn show(path: &str, name: &str, inputs: &[&str]) -> DrvShow {
    DrvShow {
        drv_path: path.to_string(),
        name: name.to_string(),
        input_drvs: inputs.iter().map(|s| s.to_string()).collect(),
    }
}

/// A metadata reply is keyed by the derivation's own path and lists its
/// name and input derivations.
#[test]
fn decode_metadata_reply() {
    let stdout = "{\"/nix/store/abc-foo.drv\":{\"name\":\"foo\",\"system\":\"x86_64-linux\",\
                  \"inputDrvs\":{\"/nix/store/d1.drv\":{\"outputs\":[\"out\"]},\
                  \"/nix/store/d2.drv\":{}},\"args\":[\"-e\"]}}";
    let b = drv_basic_from_show(stdout).unwrap();
    assert_eq!(b.drv_path, "/nix/store/abc-foo.drv");
    assert_eq!(b.name, "foo");
}

#[test]
fn undecodable_metadata_names_its_defect() {
    assert_eq!(
        drv_basic_from_show("not json").unwrap_err().message(),
        "derivation metadata is not valid JSON"
    );
    assert_eq!(
        drv_basic_from_show("{}").unwrap_err().message(),
        "derivation metadata holds no derivation"
    );
    assert_eq!(
        drv_basic_from_show("{\"/nix/store/x.drv\":{\"name\":\"x\"}}").unwrap_err().message(),
        "derivation metadata has no inputDrvs"
    );
    assert_eq!(
        drv_basic_from_show("{\"/nix/store/x.drv\":{\"inputDrvs\":{}}}").unwrap_err().message(),
        "derivation metadata has no name"
    );
    assert_eq!(
        drv_basic_from_show("{\"/nix/store/x.drv\":\"oops\"}").unwrap_err().message(),
        "derivation entry is not a JSON object"
    );
    assert_eq!(
        drv_basic_from_show("[1,2]").unwrap_err().message(),
        "derivation metadata is not a JSON object"
    );
}

/// The store keeps the first reply for each path.
#[test]
fn store_keeps_first_reply() {
    let mut store = DrvStore::new();
    assert!(!store.contains("/p"));
    store.insert(show("/p", "first", &[]));
    store.insert(show("/p", "second", &[]));
    assert!(store.contains("/p"));
    let tree = DependencyTree::generate(&store, "/p", 4).unwrap();
    assert_eq!(tree.data.name, "first");
}

/// Expansion builds children in reply order, recursively, nothing marked
/// built.
#[test]
fn generate_expands_children() {
    let mut store = DrvStore::new();
    store.insert(show("/r", "root", &["/a", "/b"]));
    store.insert(show("/a", "alpha", &["/c"]));
    store.insert(show("/b", "beta", &[]));
    store.insert(show("/c", "gamma", &[]));
    let tree = DependencyTree::generate(&store, "/r", 8).unwrap();
    assert_eq!(tree.data.drv_path, "/r");
    assert_eq!(tree.data.name, "root");
    assert!(!tree.built);
    assert_eq!(tree.children.len(), 2);
    assert_eq!(tree.children[0].data.drv_path, "/a");
    assert_eq!(tree.children[0].children.len(), 1);
    assert_eq!(tree.children[0].children[0].data.drv_path, "/c");
    assert_eq!(tree.children[1].data.drv_path, "/b");
    assert_eq!(tree.children[1].children.len(), 0);
}

/// A missing reply aborts the whole expansion, naming the failing path.
#[test]
fn generate_aborts_on_missing_reply() {
    let mut store = DrvStore::new();
    store.insert(show("/r", "root", &["/missing"]));
    let err = DependencyTree::generate(&store, "/r", 8).unwrap_err();
    assert_eq!(err.message(), "missing derivation metadata for /missing");
}

/// The depth budget caps expansion.
#[test]
fn generate_respects_depth_budget() {
    let mut store = DrvStore::new();
    store.insert(show("/1", "one", &["/2"]));
    store.insert(show("/2", "two", &["/3"]));
    store.insert(show("/3", "three", &[]));
    assert_eq!(
        DependencyTree::generate(&store, "/1", 0).unwrap_err().message(),
        "dependency tree deeper than the depth budget"
    );
    assert_eq!(
        DependencyTree::generate(&store, "/1", 2).unwrap_err().message(),
        "dependency tree deeper than the depth budget"
    );
    assert!(DependencyTree::generate(&store, "/1", 3).is_ok());
}

#[test]
fn new_tree_is_a_leaf() {
    let t = DependencyTree::new(7u32);
    assert_eq!(t.data, 7);
    assert!(!t.built);
    assert!(t.children.is_empty());
}
