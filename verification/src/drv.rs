//! Derivation metadata and the dependency-tree resolver.
//!
//! For each store path the build tool reports a single-entry JSON object
//! keyed by the derivation's own path, holding at least its `name` and its
//! `inputDrvs` — the derivation paths it needs built first. Querying the
//! tool is the supervisor's affair; this module decodes the reply and,
//! once the replies for a job's whole dependency closure are collected in
//! a [`DrvStore`], expands them into the job's [`DependencyTree`]. Any
//! missing reply aborts the expansion: partial trees are never returned.

use vstd::prelude::*;

use crate::errors::DerivationError;
use crate::json::{parse_json_tree, parsed_json_of, JsonEntry, JsonTree};

verus! {

/// A derivation named by its store path.
#[derive(Debug, Clone)]
pub struct DrvBasic {
    pub drv_path: String,
    pub name: String,
}

/// What one `show derivation metadata` reply decodes to: the derivation's
/// path and name, and the derivation paths of its build-time inputs, in
/// the order the reply lists them.
#[derive(Debug, Clone)]
pub struct DrvShow {
    pub drv_path: String,
    pub name: String,
    pub input_drvs: Vec<String>,
}

/// The mathematical content of a [`DrvShow`].
pub struct DrvShowData {
    pub drv_path: Seq<char>,
    pub name: Seq<char>,
    pub input_drvs: Seq<Seq<char>>,
}

impl View for DrvShow {
    type V = DrvShowData;

    open spec fn view(&self) -> DrvShowData {
        DrvShowData {
            drv_path: self.drv_path@,
            name: self.name@,
            input_drvs: self.input_drvs@.map_values(|s: String| s@),
        }
    }
}

/// The value under the first entry with the given key, searching in order.
pub open spec fn obj_lookup(es: Seq<JsonEntry>, key: Seq<char>) -> Option<JsonTree>
    decreases es,
{
    if es.len() == 0 {
        None
    } else if es[0].key@ == key {
        Some(es[0].value)
    } else {
        obj_lookup(es.drop_first(), key)
    }
}

/// `obj_lookup` finds the first entry carrying the key, and nothing when
/// no entry carries it.
pub proof fn lemma_obj_lookup_at(es: Seq<JsonEntry>, key: Seq<char>, j: int)
    requires
        0 <= j < es.len(),
        es[j].key@ == key,
        forall|m: int| 0 <= m < j ==> (#[trigger] es[m].key)@ != key,
    ensures
        obj_lookup(es, key) == Some(es[j].value),
    decreases j,
{
    if j == 0 {
    } else {
        assert(es[0].key@ != key);
        lemma_obj_lookup_at(es.drop_first(), key, j - 1);
        assert(es.drop_first()[j - 1] == es[j]);
    }
}

/// With no entry carrying the key, `obj_lookup` finds nothing.
pub proof fn lemma_obj_lookup_none(es: Seq<JsonEntry>, key: Seq<char>)
    requires
        forall|m: int| 0 <= m < es.len() ==> (#[trigger] es[m].key)@ != key,
    ensures
        obj_lookup(es, key) is None,
    decreases es.len(),
{
    if es.len() == 0 {
    } else {
        assert(es[0].key@ != key);
        lemma_obj_lookup_none(es.drop_first(), key);
    }
}

/// The keys of an object's entries, in order.
pub open spec fn keys_of(es: Seq<JsonEntry>) -> Seq<Seq<char>> {
    es.map_values(|e: JsonEntry| e.key@)
}

/// What a metadata reply means: the reply must be an object whose first
/// entry is keyed by the derivation's path and holds an object with a
/// string `name` and an object `inputDrvs`, whose keys are the input
/// derivation paths. Anything else is `None`: an undecodable reply.
pub open spec fn drv_show_spec(t: JsonTree) -> Option<DrvShowData> {
    match t {
        JsonTree::Obj(entries) => {
            if entries@.len() == 0 {
                None
            } else {
                match entries@[0].value {
                    JsonTree::Obj(fields) => {
                        match (obj_lookup(fields@, "name"@), obj_lookup(fields@, "inputDrvs"@)) {
                            (Some(JsonTree::Leaf(nm)), Some(JsonTree::Obj(inputs))) => Some(
                                DrvShowData {
                                    drv_path: entries@[0].key@,
                                    name: nm@,
                                    input_drvs: keys_of(inputs@),
                                },
                            ),
                            _ => None,
                        }
                    },
                    _ => None,
                }
            }
        },
        _ => None,
    }
}

/// The error text [`parse_drv_show`] reports for an undecodable reply,
/// case by case: `None` exactly when the reply decodes.
pub open spec fn drv_show_err_spec(t: JsonTree) -> Option<Seq<char>> {
    match t {
        JsonTree::Obj(entries) => {
            if entries@.len() == 0 {
                Some("derivation metadata holds no derivation"@)
            } else {
                match entries@[0].value {
                    JsonTree::Obj(fields) => {
                        if !(obj_lookup(fields@, "name"@) matches Some(JsonTree::Leaf(_))) {
                            Some("derivation metadata has no name"@)
                        } else if !(obj_lookup(fields@, "inputDrvs"@) matches Some(
                            JsonTree::Obj(_),
                        )) {
                            Some("derivation metadata has no inputDrvs"@)
                        } else {
                            None
                        }
                    },
                    _ => Some("derivation entry is not a JSON object"@),
                }
            }
        },
        _ => Some("derivation metadata is not a JSON object"@),
    }
}

/// Whether a string holds exactly the given text.
pub(crate) fn string_is(a: &String, lit: &str) -> (r: bool)
    ensures
        r == (a@ == lit@),
{
    let s = lit.to_owned();
    *a == s
}

/// The value under the first entry with the given key.
fn obj_get<'a>(es: &'a Vec<JsonEntry>, key: &str) -> (r: Option<&'a JsonTree>)
    ensures
        match r {
            Some(v) => obj_lookup(es@, key@) == Some(*v),
            None => obj_lookup(es@, key@) is None,
        },
{
    let n = es.len();
    for k in 0..n
        invariant
            n == es.len(),
            forall|m: int| 0 <= m < k ==> (#[trigger] es@[m].key)@ != key@,
    {
        if string_is(&es[k].key, key) {
            proof {
                lemma_obj_lookup_at(es@, key@, k as int);
            }
            return Some(&es[k].value);
        }
    }
    proof {
        lemma_obj_lookup_none(es@, key@);
    }
    None
}

/// The keys of an object's entries, in order.
fn collect_keys(es: &Vec<JsonEntry>) -> (r: Vec<String>)
    ensures
        r@.map_values(|s: String| s@) == keys_of(es@),
{
    let mut out: Vec<String> = Vec::new();
    let n = es.len();
    for k in 0..n
        invariant
            n == es.len(),
            out@.len() == k,
            forall|m: int| 0 <= m < k ==> (#[trigger] out@[m])@ == es@[m].key@,
    {
        out.push(es[k].key.clone());
    }
    proof {
        assert(out@.map_values(|s: String| s@) =~= keys_of(es@));
    }
    out
}

/// Decodes one metadata reply, already parsed as JSON: the error comes
/// exactly when the reply has no usable first entry, `name` or
/// `inputDrvs`.
pub fn parse_drv_show(t: &JsonTree) -> (r: Result<DrvShow, DerivationError>)
    ensures
        match r {
            Ok(d) => drv_show_spec(*t) == Some(d@),
            Err(e) => drv_show_spec(*t) is None && drv_show_err_spec(*t) == Some(e@),
        },
{
    let entries = match t {
        JsonTree::Obj(entries) => entries,
        _ => {
            return Err(DerivationError::from_str("derivation metadata is not a JSON object"));
        },
    };
    if entries.len() == 0 {
        return Err(DerivationError::from_str("derivation metadata holds no derivation"));
    }
    let fields = match &entries[0].value {
        JsonTree::Obj(fields) => fields,
        _ => {
            return Err(DerivationError::from_str("derivation entry is not a JSON object"));
        },
    };
    let name = match obj_get(fields, "name") {
        Some(JsonTree::Leaf(nm)) => nm.clone(),
        _ => {
            return Err(DerivationError::from_str("derivation metadata has no name"));
        },
    };
    let inputs = match obj_get(fields, "inputDrvs") {
        Some(JsonTree::Obj(inputs)) => collect_keys(inputs),
        _ => {
            return Err(DerivationError::from_str("derivation metadata has no inputDrvs"));
        },
    };
    let d = DrvShow { drv_path: entries[0].key.clone(), name, input_drvs: inputs };
    Ok(d)
}

/// Decodes a raw metadata reply in full: path, name and input derivation
/// paths. The error comes exactly when the reply is not valid JSON or not
/// a usable metadata object.
pub fn drv_show_from_output(stdout: &str) -> (r: Result<DrvShow, DerivationError>)
    ensures
        match r {
            Ok(d) => parsed_json_of(stdout@) matches Some(t) && drv_show_spec(t) == Some(d@),
            Err(e) => match parsed_json_of(stdout@) {
                Some(t) => drv_show_spec(t) is None && drv_show_err_spec(t) == Some(e@),
                None => e@ == "derivation metadata is not valid JSON"@,
            },
        },
{
    let tree = match parse_json_tree(stdout) {
        Some(tree) => tree,
        None => {
            return Err(DerivationError::from_str("derivation metadata is not valid JSON"));
        },
    };
    parse_drv_show(&tree)
}

/// Decodes a raw metadata reply into the derivation's path and name: the
/// one extra resolution hop from an output path to its owning derivation.
/// The error comes exactly when the reply is not valid JSON or not a
/// usable metadata object.
pub fn drv_basic_from_show(stdout: &str) -> (r: Result<DrvBasic, DerivationError>)
    ensures
        match r {
            Ok(b) => parsed_json_of(stdout@) matches Some(t) && (drv_show_spec(t) matches Some(m)
                && b.drv_path@ == m.drv_path && b.name@ == m.name),
            Err(e) => match parsed_json_of(stdout@) {
                Some(t) => drv_show_spec(t) is None && drv_show_err_spec(t) == Some(e@),
                None => e@ == "derivation metadata is not valid JSON"@,
            },
        },
{
    let tree = match parse_json_tree(stdout) {
        Some(tree) => tree,
        None => {
            return Err(DerivationError::from_str("derivation metadata is not valid JSON"));
        },
    };
    let d = parse_drv_show(&tree)?;
    Ok(DrvBasic { drv_path: d.drv_path, name: d.name })
}

/// A dependency tree rooted at one derivation: children are the build-time
/// dependencies, recursively expanded. Transient: it exists for one
/// scheduling pass and is owned by the task realizing it.
#[derive(Debug)]
pub struct DependencyTree<T> {
    pub children: Vec<DependencyTree<T>>,
    pub data: T,
    pub built: bool,
}

impl<T> DependencyTree<T> {
    pub fn new(data: T) -> (r: Self)
        ensures
            r.children@ == Seq::<DependencyTree<T>>::empty(),
            r.data == data,
            !r.built,
    {
        Self { children: Vec::new(), data, built: false }
    }
}

pub type DrvDepTree = DependencyTree<DrvBasic>;

/// The metadata under the first reply for the given derivation path,
/// searching in insertion order.
pub open spec fn store_lookup(s: Seq<DrvShow>, p: Seq<char>) -> Option<DrvShow>
    decreases s,
{
    if s.len() == 0 {
        None
    } else if s[0].drv_path@ == p {
        Some(s[0])
    } else {
        store_lookup(s.drop_first(), p)
    }
}

/// `store_lookup` finds the first reply for the path, and nothing when no
/// reply carries it.
pub proof fn lemma_store_lookup_at(s: Seq<DrvShow>, p: Seq<char>, j: int)
    requires
        0 <= j < s.len(),
        s[j].drv_path@ == p,
        forall|m: int| 0 <= m < j ==> (#[trigger] s[m].drv_path)@ != p,
    ensures
        store_lookup(s, p) == Some(s[j]),
    decreases j,
{
    if j == 0 {
    } else {
        assert(s[0].drv_path@ != p);
        lemma_store_lookup_at(s.drop_first(), p, j - 1);
        assert(s.drop_first()[j - 1] == s[j]);
    }
}

/// With no reply for the path, `store_lookup` finds nothing.
pub proof fn lemma_store_lookup_none(s: Seq<DrvShow>, p: Seq<char>)
    requires
        forall|m: int| 0 <= m < s.len() ==> (#[trigger] s[m].drv_path)@ != p,
    ensures
        store_lookup(s, p) is None,
    decreases s.len(),
{
    if s.len() == 0 {
    } else {
        assert(s[0].drv_path@ != p);
        lemma_store_lookup_none(s.drop_first(), p);
    }
}

/// The collected metadata replies for one resolution pass, keyed by
/// derivation path; a duplicate reply for a path already present is
/// ignored, so the first reply for each path wins.
#[derive(Debug)]
pub struct DrvStore {
    entries: Vec<DrvShow>,
}

impl View for DrvStore {
    type V = Seq<DrvShow>;

    closed spec fn view(&self) -> Seq<DrvShow> {
        self.entries@
    }
}

impl DrvStore {
    pub fn new() -> (r: Self)
        ensures
            r@ == Seq::<DrvShow>::empty(),
    {
        Self { entries: Vec::new() }
    }

    /// The first reply for the given derivation path.
    fn get<'a>(&'a self, path: &str) -> (r: Option<&'a DrvShow>)
        ensures
            match r {
                Some(d) => store_lookup(self@, path@) == Some(*d),
                None => store_lookup(self@, path@) is None,
            },
    {
        let n = self.entries.len();
        for k in 0..n
            invariant
                n == self.entries.len(),
                forall|m: int| 0 <= m < k ==> (#[trigger] self.entries@[m].drv_path)@ != path@,
        {
            if string_is(&self.entries[k].drv_path, path) {
                proof {
                    lemma_store_lookup_at(self@, path@, k as int);
                }
                return Some(&self.entries[k]);
            }
        }
        proof {
            lemma_store_lookup_none(self@, path@);
        }
        None
    }

    /// Whether a reply for the given derivation path was collected.
    pub fn contains(&self, path: &str) -> (r: bool)
        ensures
            r == (store_lookup(self@, path@) is Some),
    {
        self.get(path).is_some()
    }

    /// Records one metadata reply; a reply for a path already present is
    /// ignored.
    pub fn insert(&mut self, d: DrvShow)
        ensures
            store_lookup(old(self)@, d.drv_path@) is Some ==> *final(self) == *old(self),
            store_lookup(old(self)@, d.drv_path@) is None ==> final(self)@ == old(self)@.push(d),
    {
        if self.get(d.drv_path.as_str()).is_none() {
            self.entries.push(d);
        }
    }
}

/// Whether the full dependency tree of a path can be expanded from the
/// collected replies within the given depth: the path's own reply is
/// present and every input is buildable one level deeper.
pub open spec fn buildable(s: Seq<DrvShow>, p: Seq<char>, fuel: nat) -> bool
    decreases fuel, 0int,
{
    if fuel == 0 {
        false
    } else {
        match store_lookup(s, p) {
            Some(d) => inputs_buildable(s, d@.input_drvs, (fuel - 1) as nat),
            None => false,
        }
    }
}

/// Whether every path of a list is buildable at the given depth.
pub open spec fn inputs_buildable(s: Seq<DrvShow>, ins: Seq<Seq<char>>, fuel: nat) -> bool
    decreases fuel, ins.len() + 1,
{
    if ins.len() == 0 {
        true
    } else {
        buildable(s, ins[0], fuel) && inputs_buildable(s, ins.drop_first(), fuel)
    }
}

/// The abort error [`DependencyTree::generate`] reports, mirroring its
/// walk: the depth budget runs out, or the first reply missing in
/// depth-first input order is named. `None` exactly on the successful
/// expansions.
pub open spec fn generate_error_spec(s: Seq<DrvShow>, p: Seq<char>, fuel: nat) -> Option<
    Seq<char>,
>
    decreases fuel, 0int,
{
    if fuel == 0 {
        Some("dependency tree deeper than the depth budget"@)
    } else {
        match store_lookup(s, p) {
            Some(d) => inputs_error_spec(s, d@.input_drvs, (fuel - 1) as nat),
            None => Some("missing derivation metadata for "@ + p),
        }
    }
}

/// The first abort error among a list of paths, in order.
pub open spec fn inputs_error_spec(s: Seq<DrvShow>, ins: Seq<Seq<char>>, fuel: nat) -> Option<
    Seq<char>,
>
    decreases fuel, ins.len() + 1,
{
    if ins.len() == 0 {
        None
    } else {
        match generate_error_spec(s, ins[0], fuel) {
            Some(e) => Some(e),
            None => inputs_error_spec(s, ins.drop_first(), fuel),
        }
    }
}

/// A buildable path expands without an abort error.
pub proof fn lemma_buildable_no_error(s: Seq<DrvShow>, p: Seq<char>, fuel: nat)
    requires
        buildable(s, p, fuel),
    ensures
        generate_error_spec(s, p, fuel) is None,
    decreases fuel, 0int,
{
    let d = store_lookup(s, p)->Some_0;
    lemma_inputs_buildable_no_error(s, d@.input_drvs, (fuel - 1) as nat);
}

/// Buildable paths contribute no abort error.
proof fn lemma_inputs_buildable_no_error(s: Seq<DrvShow>, ins: Seq<Seq<char>>, fuel: nat)
    requires
        inputs_buildable(s, ins, fuel),
    ensures
        inputs_error_spec(s, ins, fuel) is None,
    decreases fuel, ins.len() + 1,
{
    if ins.len() == 0 {
    } else {
        lemma_buildable_no_error(s, ins[0], fuel);
        lemma_inputs_buildable_no_error(s, ins.drop_first(), fuel);
    }
}

/// When every path before position `i` is buildable and the path at `i`
/// aborts, its error is the first one.
proof fn lemma_inputs_error_at(s: Seq<DrvShow>, ins: Seq<Seq<char>>, fuel: nat, i: int)
    requires
        0 <= i < ins.len(),
        forall|m: int| 0 <= m < i ==> buildable(s, #[trigger] ins[m], fuel),
        generate_error_spec(s, ins[i], fuel) is Some,
    ensures
        inputs_error_spec(s, ins, fuel) == generate_error_spec(s, ins[i], fuel),
    decreases i,
{
    if i == 0 {
    } else {
        lemma_buildable_no_error(s, ins[0], fuel);
        assert forall|m: int| 0 <= m < i - 1 implies buildable(
            s,
            #[trigger] ins.drop_first()[m],
            fuel,
        ) by {
            assert(ins.drop_first()[m] == ins[m + 1]);
            assert(buildable(s, ins[m + 1], fuel));
        }
        assert(ins.drop_first()[i - 1] == ins[i]);
        lemma_inputs_error_at(s, ins.drop_first(), fuel, i - 1);
    }
}

/// A list of paths is buildable exactly when each of its paths is.
pub proof fn lemma_inputs_buildable_index(s: Seq<DrvShow>, ins: Seq<Seq<char>>, fuel: nat)
    ensures
        inputs_buildable(s, ins, fuel) <==> (forall|i: int|
            0 <= i < ins.len() ==> #[trigger] buildable(s, ins[i], fuel)),
    decreases ins.len(),
{
    if ins.len() == 0 {
    } else {
        lemma_inputs_buildable_index(s, ins.drop_first(), fuel);
        if inputs_buildable(s, ins, fuel) {
            assert forall|i: int| 0 <= i < ins.len() implies #[trigger] buildable(
                s,
                ins[i],
                fuel,
            ) by {
                if i > 0 {
                    assert(ins.drop_first()[i - 1] == ins[i]);
                    assert(buildable(s, ins.drop_first()[i - 1], fuel));
                }
            }
        }
        if forall|i: int| 0 <= i < ins.len() ==> #[trigger] buildable(s, ins[i], fuel) {
            assert forall|j: int| 0 <= j < ins.drop_first().len() implies #[trigger] buildable(
                s,
                ins.drop_first()[j],
                fuel,
            ) by {
                assert(ins.drop_first()[j] == ins[j + 1]);
                assert(buildable(s, ins[j + 1], fuel));
            }
            assert(inputs_buildable(s, ins.drop_first(), fuel));
            assert(buildable(s, ins[0], fuel));
        }
    }
}

/// A correctly expanded tree: nothing is marked built yet, every node's
/// name comes from its own reply, and its children are exactly its
/// reply's inputs, in order, each correctly expanded in turn.
pub open spec fn tree_ok(s: Seq<DrvShow>, t: DependencyTree<DrvBasic>) -> bool
    decreases t,
{
    &&& !t.built
    &&& match store_lookup(s, t.data.drv_path@) {
        Some(d) => t.data.name@ == d.name@ && children_match(s, t.children@, d@.input_drvs),
        None => false,
    }
}

/// The children expand the given input paths, in order.
pub open spec fn children_match(
    s: Seq<DrvShow>,
    cs: Seq<DependencyTree<DrvBasic>>,
    ins: Seq<Seq<char>>,
) -> bool
    decreases cs,
{
    if cs.len() != ins.len() {
        false
    } else if cs.len() == 0 {
        true
    } else {
        cs[0].data.drv_path@ == ins[0] && tree_ok(s, cs[0]) && children_match(
            s,
            cs.drop_first(),
            ins.drop_first(),
        )
    }
}

/// Appending a correctly expanded child for one more input keeps the
/// children matching.
proof fn lemma_children_match_snoc(
    s: Seq<DrvShow>,
    cs: Seq<DependencyTree<DrvBasic>>,
    ins: Seq<Seq<char>>,
    c: DependencyTree<DrvBasic>,
    p: Seq<char>,
)
    requires
        children_match(s, cs, ins),
        c.data.drv_path@ == p,
        tree_ok(s, c),
    ensures
        children_match(s, cs.push(c), ins.push(p)),
    decreases cs,
{
    if cs.len() == 0 {
        assert(cs.push(c)[0] == c);
        assert(ins.push(p)[0] == p);
        assert(cs.push(c).drop_first() =~= Seq::<DependencyTree<DrvBasic>>::empty());
        assert(ins.push(p).drop_first() =~= Seq::<Seq<char>>::empty());
        assert(children_match(
            s,
            Seq::<DependencyTree<DrvBasic>>::empty(),
            Seq::<Seq<char>>::empty(),
        ));
    } else {
        lemma_children_match_snoc(s, cs.drop_first(), ins.drop_first(), c, p);
        assert(cs.push(c).drop_first() =~= cs.drop_first().push(c));
        assert(ins.push(p).drop_first() =~= ins.drop_first().push(p));
        assert(cs.push(c)[0] == cs[0]);
        assert(ins.push(p)[0] == ins[0]);
    }
}

impl DependencyTree<DrvBasic> {
    /// Expands the full dependency tree of a derivation from the collected
    /// replies, children before parents never marked built. Succeeds
    /// exactly when every reply the tree needs is present within `depth`
    /// levels; any missing reply or an exhausted depth budget aborts the
    /// whole expansion, naming the failing path.
    pub fn generate(store: &DrvStore, path: &str, depth: u32) -> (r: Result<
        DrvDepTree,
        DerivationError,
    >)
        ensures
            r is Ok <==> buildable(store@, path@, depth as nat),
            r matches Ok(t) ==> tree_ok(store@, t) && t.data.drv_path@ == path@,
            r matches Err(e) ==> generate_error_spec(store@, path@, depth as nat) == Some(e@),
        decreases depth,
    {
        if depth == 0 {
            return Err(DerivationError::from_str("dependency tree deeper than the depth budget"));
        }
        let d = match store.get(path) {
            Some(d) => d,
            None => {
                let mut msg = "missing derivation metadata for ".to_owned();
                msg.append(path);
                return Err(DerivationError::new(msg));
            },
        };
        let mut children: Vec<DrvDepTree> = Vec::new();
        let n = d.input_drvs.len();
        for i in 0..n
            invariant
                1 <= depth,
                n == d.input_drvs@.len(),
                store_lookup(store@, path@) == Some(*d),
                children_match(store@, children@, d@.input_drvs.take(i as int)),
                forall|m: int|
                    0 <= m < i ==> #[trigger] buildable(
                        store@,
                        d@.input_drvs[m],
                        (depth - 1) as nat,
                    ),
        {
            proof {
                assert(d@.input_drvs[i as int] == d.input_drvs@[i as int]@);
            }
            let child = match Self::generate(store, d.input_drvs[i].as_str(), depth - 1) {
                Ok(c) => c,
                Err(e) => {
                    proof {
                        lemma_inputs_buildable_index(store@, d@.input_drvs, (depth - 1) as nat);
                        lemma_inputs_error_at(store@, d@.input_drvs, (depth - 1) as nat, i as int);
                    }
                    return Err(e);
                },
            };
            proof {
                assert(d@.input_drvs.take(i + 1) =~= d@.input_drvs.take(i as int).push(
                    d@.input_drvs[i as int],
                ));
                lemma_children_match_snoc(
                    store@,
                    children@,
                    d@.input_drvs.take(i as int),
                    child,
                    d@.input_drvs[i as int],
                );
            }
            children.push(child);
        }
        proof {
            assert(d@.input_drvs.take(n as int) =~= d@.input_drvs);
            lemma_inputs_buildable_index(store@, d@.input_drvs, (depth - 1) as nat);
        }
        Ok(
            DependencyTree {
                children,
                data: DrvBasic { drv_path: path.to_owned(), name: d.name.clone() },
                built: false,
            },
        )
    }
}

} // verus!
