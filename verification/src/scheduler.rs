//! The build scheduler's decisions: in what order a dependency tree is
//! realized, and how many realizations may run at once.
//!
//! One submitted tree is realized children before parent. A node already
//! marked built is skipped, and a path reached twice — a shared
//! sub-dependency under two parents — is realized only once per pass:
//! [`build_order`] returns the deduplicated post-order schedule. The
//! process-wide [`Tickets`] counter bounds how many realization processes
//! run at once; running them, and waiting for a ticket, happen outside
//! this crate.

use vstd::prelude::*;

use crate::drv::{string_is, DependencyTree, DrvBasic, DrvDepTree};

verus! {

/// The completion notification of one submitted job: the realized root
/// path, the verdict, and how long realization took, in seconds.
#[derive(Debug, Clone)]
pub struct BuildResult {
    /// The id of the job the tree was submitted for.
    pub id: i32,
    /// The root derivation path that was realized.
    pub path: String,
    /// Whether the root realization exited successfully.
    pub success: bool,
    /// Elapsed seconds of the realization.
    pub took_secs: i64,
}

/// The views of a list of paths.
pub open spec fn strs_view(v: Seq<String>) -> Seq<Seq<char>> {
    v.map_values(|s: String| s@)
}

/// The realize schedule of one tree before deduplication: every child's
/// schedule first, then the node's own path unless it is already built.
pub open spec fn walk_spec(t: DependencyTree<DrvBasic>) -> Seq<Seq<char>>
    decreases t,
{
    walk_children_spec(t.children@) + (if t.built {
        Seq::<Seq<char>>::empty()
    } else {
        seq![t.data.drv_path@]
    })
}

/// The schedules of a list of subtrees, in order.
pub open spec fn walk_children_spec(cs: Seq<DependencyTree<DrvBasic>>) -> Seq<Seq<char>>
    decreases cs,
{
    if cs.len() == 0 {
        Seq::<Seq<char>>::empty()
    } else {
        walk_spec(cs[0]) + walk_children_spec(cs.drop_first())
    }
}

/// Appends a path unless it is already scheduled.
pub open spec fn dedup_push(acc: Seq<Seq<char>>, x: Seq<char>) -> Seq<Seq<char>> {
    if acc.contains(x) {
        acc
    } else {
        acc.push(x)
    }
}

/// Appends each path of `s` in order, keeping only first occurrences.
pub open spec fn dedup_extend(acc: Seq<Seq<char>>, s: Seq<Seq<char>>) -> Seq<Seq<char>>
    decreases s.len(),
{
    if s.len() == 0 {
        acc
    } else {
        dedup_extend(dedup_push(acc, s[0]), s.drop_first())
    }
}

/// What [`build_order`] returns: the tree's walk, first occurrences only.
pub open spec fn build_order_spec(t: DependencyTree<DrvBasic>) -> Seq<Seq<char>> {
    dedup_extend(Seq::<Seq<char>>::empty(), walk_spec(t))
}

/// Deduplicating a concatenation deduplicates the parts in turn.
pub proof fn lemma_dedup_extend_concat(acc: Seq<Seq<char>>, s1: Seq<Seq<char>>, s2: Seq<
    Seq<char>,
>)
    ensures
        dedup_extend(acc, s1 + s2) == dedup_extend(dedup_extend(acc, s1), s2),
    decreases s1.len(),
{
    if s1.len() == 0 {
        assert(s1 + s2 =~= s2);
    } else {
        assert((s1 + s2)[0] == s1[0]);
        assert((s1 + s2).drop_first() =~= s1.drop_first() + s2);
        lemma_dedup_extend_concat(dedup_push(acc, s1[0]), s1.drop_first(), s2);
    }
}

/// Deduplicating a single path is one conditional append.
proof fn lemma_dedup_extend_one(acc: Seq<Seq<char>>, x: Seq<char>)
    ensures
        dedup_extend(acc, seq![x]) == dedup_push(acc, x),
{
    assert(seq![x].len() == 1);
    assert(seq![x][0] == x);
    assert(seq![x].drop_first() =~= Seq::<Seq<char>>::empty());
    assert(dedup_extend(dedup_push(acc, x), seq![x].drop_first()) == dedup_push(acc, x));
}

/// A path is scheduled after deduplication exactly when it was already
/// scheduled or occurs in the appended part.
pub proof fn lemma_dedup_extend_membership(acc: Seq<Seq<char>>, s: Seq<Seq<char>>, y: Seq<char>)
    ensures
        dedup_extend(acc, s).contains(y) <==> (acc.contains(y) || s.contains(y)),
    decreases s.len(),
{
    if s.len() == 0 {
    } else {
        lemma_dedup_extend_membership(dedup_push(acc, s[0]), s.drop_first(), y);
        if s.contains(y) {
            let i = choose|i: int| 0 <= i < s.len() && s[i] == y;
            if i > 0 {
                assert(s.drop_first()[i - 1] == y);
            }
        }
        if s.drop_first().contains(y) {
            let i = choose|i: int| 0 <= i < s.drop_first().len() && s.drop_first()[i] == y;
            assert(s[i + 1] == y);
        }
        if dedup_push(acc, s[0]).contains(y) && !acc.contains(y) {
            assert(acc.push(s[0]).contains(y));
            let i = choose|i: int| 0 <= i < acc.push(s[0]).len() && acc.push(s[0])[i] == y;
            assert(y == s[0]);
        }
        if acc.contains(y) {
            let i = choose|i: int| 0 <= i < acc.len() && acc[i] == y;
            if !acc.contains(s[0]) {
                assert(acc.push(s[0])[i] == y);
            }
        }
        if y == s[0] && !acc.contains(s[0]) {
            assert(acc.push(s[0]).last() == y);
        }
    }
}

/// No path occurs twice.
pub open spec fn distinct_paths(s: Seq<Seq<char>>) -> bool {
    forall|i: int, j: int| 0 <= i < j < s.len() ==> s[i] != s[j]
}

/// Deduplication keeps a schedule free of repeats.
pub proof fn lemma_dedup_extend_distinct(acc: Seq<Seq<char>>, s: Seq<Seq<char>>)
    requires
        distinct_paths(acc),
    ensures
        distinct_paths(dedup_extend(acc, s)),
    decreases s.len(),
{
    if s.len() == 0 {
    } else {
        if !acc.contains(s[0]) {
            assert forall|i: int, j: int|
                0 <= i < j < acc.push(s[0]).len() implies acc.push(s[0])[i] != acc.push(
                s[0],
            )[j] by {
                if j < acc.len() {
                } else {
                    assert(acc.push(s[0])[j] == s[0]);
                    assert(acc.push(s[0])[i] == acc[i]);
                    assert(!acc.contains(s[0]));
                }
            }
        }
        lemma_dedup_extend_distinct(dedup_push(acc, s[0]), s.drop_first());
    }
}

/// The realize order of one pass never holds the same path twice: a
/// shared sub-dependency reached through two parents is realized once.
pub proof fn lemma_build_order_distinct(t: DependencyTree<DrvBasic>)
    ensures
        distinct_paths(build_order_spec(t)),
{
    lemma_dedup_extend_distinct(Seq::<Seq<char>>::empty(), walk_spec(t));
}

/// The realize order is complete and tight: a path is scheduled exactly
/// when some unbuilt node of the tree carries it.
pub proof fn lemma_build_order_complete(t: DependencyTree<DrvBasic>, y: Seq<char>)
    ensures
        build_order_spec(t).contains(y) <==> walk_spec(t).contains(y),
{
    lemma_dedup_extend_membership(Seq::<Seq<char>>::empty(), walk_spec(t), y);
}

/// An unbuilt root whose own path is not shared with any of its
/// sub-dependencies is realized exactly last: everything its children
/// need comes before it.
pub proof fn lemma_build_order_root_last(t: DependencyTree<DrvBasic>)
    requires
        !t.built,
        !walk_children_spec(t.children@).contains(t.data.drv_path@),
    ensures
        build_order_spec(t).len() > 0,
        build_order_spec(t).last() == t.data.drv_path@,
        forall|i: int|
            0 <= i < build_order_spec(t).len() - 1 ==> build_order_spec(t)[i]
                != t.data.drv_path@,
{
    let p = t.data.drv_path@;
    let wc = walk_children_spec(t.children@);
    let acc = dedup_extend(Seq::<Seq<char>>::empty(), wc);
    lemma_dedup_extend_concat(Seq::<Seq<char>>::empty(), wc, seq![p]);
    lemma_dedup_extend_one(acc, p);
    lemma_dedup_extend_membership(Seq::<Seq<char>>::empty(), wc, p);
    assert(!acc.contains(p));
    assert(build_order_spec(t) == acc.push(p));
    assert forall|i: int|
        0 <= i < build_order_spec(t).len() - 1 implies build_order_spec(t)[i] != p by {
        assert(build_order_spec(t)[i] == acc[i]);
        assert(acc.contains(acc[i]));
    }
}

/// The position of the first occurrence of a path in a schedule; the
/// length when the path never occurs.
pub open spec fn first_index(s: Seq<Seq<char>>, y: Seq<char>) -> int
    decreases s.len(),
{
    if s.len() == 0 {
        0
    } else if s[0] == y {
        0
    } else {
        1 + first_index(s.drop_first(), y)
    }
}

/// `first_index` is an occurrence of the path, before which none occurs.
pub proof fn lemma_first_index(s: Seq<Seq<char>>, y: Seq<char>)
    requires
        s.contains(y),
    ensures
        0 <= first_index(s, y) < s.len(),
        s[first_index(s, y)] == y,
        forall|m: int| 0 <= m < first_index(s, y) ==> s[m] != y,
    decreases s.len(),
{
    if s[0] == y {
    } else {
        assert(s.drop_first().contains(y)) by {
            let i = choose|i: int| 0 <= i < s.len() && s[i] == y;
            assert(s.drop_first()[i - 1] == y);
        }
        lemma_first_index(s.drop_first(), y);
        assert forall|m: int| 0 <= m < first_index(s, y) implies s[m] != y by {
            if m > 0 {
                assert(s.drop_first()[m - 1] == s[m]);
                assert(s.drop_first()[m - 1] != y);
            }
        }
    }
}

/// In a schedule without repeats, any occurrence is the first one.
pub proof fn lemma_first_index_unique(s: Seq<Seq<char>>, i: int)
    requires
        distinct_paths(s),
        0 <= i < s.len(),
    ensures
        first_index(s, s[i]) == i,
{
    assert(s.contains(s[i]));
    lemma_first_index(s, s[i]);
    let fi = first_index(s, s[i]);
    if fi < i {
        assert(s[fi] == s[i]);
    }
    if fi > i {
        assert(s[i] != s[i]);
    }
}

/// Deduplicating paths that are all new and themselves free of repeats
/// just appends them.
proof fn lemma_dedup_extend_all_new(acc: Seq<Seq<char>>, s: Seq<Seq<char>>)
    requires
        distinct_paths(s),
        forall|i: int| 0 <= i < s.len() ==> !acc.contains(#[trigger] s[i]),
    ensures
        dedup_extend(acc, s) == acc + s,
    decreases s.len(),
{
    if s.len() == 0 {
        assert(acc + s =~= acc);
    } else {
        assert(!acc.contains(s[0]));
        let acc2 = acc.push(s[0]);
        assert forall|i: int| 0 <= i < s.drop_first().len() implies !acc2.contains(
            #[trigger] s.drop_first()[i],
        ) by {
            assert(s.drop_first()[i] == s[i + 1]);
            assert(s[i + 1] != s[0]);
            if acc2.contains(s[i + 1]) {
                let m = choose|m: int| 0 <= m < acc2.len() && acc2[m] == s[i + 1];
                if m < acc.len() {
                    assert(acc[m] == s[i + 1]);
                } else {
                    assert(acc2[m] == s[0]);
                }
            }
        }
        assert(distinct_paths(s.drop_first())) by {
            assert(forall|m: int| 0 <= m < s.len() - 1 ==> s.drop_first()[m] == s[m + 1]);
        }
        lemma_dedup_extend_all_new(acc2, s.drop_first());
        assert(acc2 + s.drop_first() =~= acc + s);
    }
}

/// A schedule realizes a tree's dependencies in order when every unbuilt
/// node's path comes after everything its children schedule, at every
/// level of the tree.
pub open spec fn realized_after_dependencies(
    order: Seq<Seq<char>>,
    t: DependencyTree<DrvBasic>,
) -> bool
    decreases t,
{
    &&& (!t.built ==> forall|q: Seq<char>|
        walk_children_spec(t.children@).contains(q) ==> #[trigger] first_index(order, q)
            < first_index(order, t.data.drv_path@))
    &&& children_ordered(order, t.children@)
}

/// Every subtree of the list is realized after its own dependencies.
pub open spec fn children_ordered(order: Seq<Seq<char>>, cs: Seq<DependencyTree<DrvBasic>>) -> bool
    decreases cs,
{
    if cs.len() == 0 {
        true
    } else {
        realized_after_dependencies(order, cs[0]) && children_ordered(order, cs.drop_first())
    }
}

/// A subtree standing as a segment of a repeat-free schedule is realized
/// after its dependencies: its children's walk fills the segment before
/// its own path.
proof fn lemma_walk_ordered_in(
    order: Seq<Seq<char>>,
    t: DependencyTree<DrvBasic>,
    pre: Seq<Seq<char>>,
    post: Seq<Seq<char>>,
)
    requires
        order == pre + walk_spec(t) + post,
        distinct_paths(order),
    ensures
        realized_after_dependencies(order, t),
    decreases t, 1int,
{
    let wc = walk_children_spec(t.children@);
    if !t.built {
        let p = t.data.drv_path@;
        assert(walk_spec(t) == wc + seq![p]);
        assert(order[pre.len() + wc.len() as int] == p) by {
            assert((wc + seq![p])[wc.len() as int] == p);
        }
        lemma_first_index_unique(order, pre.len() + wc.len() as int);
        assert forall|q: Seq<char>| wc.contains(q) implies #[trigger] first_index(order, q)
            < first_index(order, p) by {
            lemma_first_index(wc, q);
            let k = first_index(wc, q);
            assert(order[pre.len() + k] == q) by {
                assert((wc + seq![p])[k] == q);
            }
            lemma_first_index_unique(order, pre.len() + k);
        }
    }
    assert(order =~= pre + wc + (if t.built {
        Seq::<Seq<char>>::empty()
    } else {
        seq![t.data.drv_path@]
    } + post));
    lemma_children_ordered_in(
        order,
        t.children@,
        pre,
        (if t.built {
            Seq::<Seq<char>>::empty()
        } else {
            seq![t.data.drv_path@]
        } + post),
    );
}

/// Each subtree of a list standing as consecutive segments of a
/// repeat-free schedule is realized after its dependencies.
proof fn lemma_children_ordered_in(
    order: Seq<Seq<char>>,
    cs: Seq<DependencyTree<DrvBasic>>,
    pre: Seq<Seq<char>>,
    post: Seq<Seq<char>>,
)
    requires
        order == pre + walk_children_spec(cs) + post,
        distinct_paths(order),
    ensures
        children_ordered(order, cs),
    decreases cs, 0int,
{
    if cs.len() == 0 {
    } else {
        assert(walk_children_spec(cs) == walk_spec(cs[0]) + walk_children_spec(cs.drop_first()));
        assert(order =~= pre + walk_spec(cs[0]) + (walk_children_spec(cs.drop_first()) + post));
        lemma_walk_ordered_in(order, cs[0], pre, walk_children_spec(cs.drop_first()) + post);
        assert(order =~= (pre + walk_spec(cs[0])) + walk_children_spec(cs.drop_first()) + post);
        lemma_children_ordered_in(order, cs.drop_first(), pre + walk_spec(cs[0]), post);
    }
}

/// For a tree in which no two nodes share a path, the realize order
/// respects dependency order at every level: no node is realized before
/// everything its children schedule, the concrete shape of children
/// before parents.
pub proof fn lemma_build_order_respects_dependencies(t: DependencyTree<DrvBasic>)
    requires
        distinct_paths(walk_spec(t)),
    ensures
        realized_after_dependencies(build_order_spec(t), t),
{
    assert(forall|i: int|
        0 <= i < walk_spec(t).len() ==> !Seq::<Seq<char>>::empty().contains(
            #[trigger] walk_spec(t)[i],
        ));
    lemma_dedup_extend_all_new(Seq::<Seq<char>>::empty(), walk_spec(t));
    assert(build_order_spec(t) == Seq::<Seq<char>>::empty() + walk_spec(t));
    assert(Seq::<Seq<char>>::empty() + walk_spec(t) =~= walk_spec(t));
    assert(walk_spec(t) =~= Seq::<Seq<char>>::empty() + walk_spec(t) + Seq::<Seq<char>>::empty());
    lemma_walk_ordered_in(
        build_order_spec(t),
        t,
        Seq::<Seq<char>>::empty(),
        Seq::<Seq<char>>::empty(),
    );
}

/// Appends the deduplicated schedule of one subtree to `out`.
fn walk_into(t: &DrvDepTree, out: &mut Vec<String>)
    ensures
        strs_view(final(out)@) == dedup_extend(strs_view(old(out)@), walk_spec(*t)),
    decreases *t,
{
    let n = t.children.len();
    for i in 0..n
        invariant
            n == t.children.len(),
            strs_view(out@) == dedup_extend(
                strs_view(old(out)@),
                walk_children_spec(t.children@.take(i as int)),
            ),
    {
        proof {
            assert(decreases_to!(*t => t.children));
            assert(decreases_to!(t.children => t.children@));
            assert(decreases_to!(t.children@ => t.children@[i as int]));
            assert(decreases_to!(*t => t.children@[i as int]));
        }
        let ghost pre = strs_view(out@);
        walk_into(&t.children[i], out);
        proof {
            assert(t.children@.take(i + 1) =~= t.children@.take(i as int).push(
                t.children@[i as int],
            ));
            lemma_walk_children_snoc(t.children@.take(i as int), t.children@[i as int]);
            lemma_dedup_extend_concat(
                strs_view(old(out)@),
                walk_children_spec(t.children@.take(i as int)),
                walk_spec(t.children@[i as int]),
            );
        }
    }
    proof {
        assert(t.children@.take(n as int) =~= t.children@);
    }
    if !t.built {
        let ghost acc = strs_view(out@);
        let scheduled = contains_path(out, t.data.drv_path.as_str());
        if !scheduled {
            out.push(t.data.drv_path.clone());
            proof {
                assert(strs_view(out@) =~= acc.push(t.data.drv_path@));
            }
        }
        proof {
            assert(walk_spec(*t) == walk_children_spec(t.children@) + seq![t.data.drv_path@]);
            lemma_dedup_extend_concat(
                strs_view(old(out)@),
                walk_children_spec(t.children@),
                seq![t.data.drv_path@],
            );
            lemma_dedup_extend_one(acc, t.data.drv_path@);
            assert(strs_view(out@) == dedup_push(acc, t.data.drv_path@));
        }
    } else {
        proof {
            assert(walk_spec(*t) =~= walk_children_spec(t.children@));
        }
    }
}

/// The walk of one more subtree extends the walk of those before it.
proof fn lemma_walk_children_snoc(cs: Seq<DependencyTree<DrvBasic>>, c: DependencyTree<DrvBasic>)
    ensures
        walk_children_spec(cs.push(c)) == walk_children_spec(cs) + walk_spec(c),
    decreases cs,
{
    if cs.len() == 0 {
        assert(cs.push(c).len() == 1);
        assert(cs.push(c)[0] == c);
        assert(cs.push(c).drop_first() =~= Seq::<DependencyTree<DrvBasic>>::empty());
        assert(walk_children_spec(cs.push(c).drop_first()) == Seq::<Seq<char>>::empty());
        assert(walk_children_spec(cs.push(c)) == walk_spec(c) + Seq::<Seq<char>>::empty());
        assert(Seq::<Seq<char>>::empty() + walk_spec(c) =~= walk_spec(c));
        assert(walk_spec(c) + Seq::<Seq<char>>::empty() =~= walk_spec(c));
    } else {
        lemma_walk_children_snoc(cs.drop_first(), c);
        assert(cs.push(c)[0] == cs[0]);
        assert(cs.push(c).drop_first() =~= cs.drop_first().push(c));
        assert(walk_spec(cs[0]) + (walk_children_spec(cs.drop_first()) + walk_spec(c)) =~= (
        walk_spec(cs[0]) + walk_children_spec(cs.drop_first())) + walk_spec(c));
    }
}

/// Whether the path is already scheduled.
fn contains_path(v: &Vec<String>, x: &str) -> (r: bool)
    ensures
        r == strs_view(v@).contains(x@),
{
    let n = v.len();
    for k in 0..n
        invariant
            n == v.len(),
            forall|m: int| 0 <= m < k ==> (#[trigger] v@[m])@ != x@,
    {
        if string_is(&v[k], x) {
            proof {
                assert(strs_view(v@)[k as int] == x@);
            }
            return true;
        }
    }
    proof {
        if strs_view(v@).contains(x@) {
            let i = choose|i: int| 0 <= i < v@.len() && strs_view(v@)[i] == x@;
            assert(v@[i]@ == x@);
        }
    }
    false
}

/// The realize schedule of one submitted tree: children before parents,
/// already-built nodes skipped, each path at most once.
pub fn build_order(t: &DrvDepTree) -> (r: Vec<String>)
    ensures
        strs_view(r@) == build_order_spec(*t),
{
    let mut out: Vec<String> = Vec::new();
    proof {
        assert(strs_view(Seq::<String>::empty()) =~= Seq::<Seq<char>>::empty());
    }
    walk_into(t, &mut out);
    out
}

/// The process-wide admission counter for realizations: at most
/// `capacity` tickets are ever out at once, shared by every submitted
/// tree. Waiting for a ticket is the caller's affair; the counter only
/// decides admission.
#[derive(Debug, Clone)]
pub struct Tickets {
    max: u32,
    in_use: u32,
}

impl Tickets {
    /// How many realizations may run at once.
    pub closed spec fn capacity(&self) -> u32 {
        self.max
    }

    /// How many tickets are currently out.
    pub closed spec fn outstanding(&self) -> u32 {
        self.in_use
    }

    /// The counter never hands out more tickets than its capacity.
    pub open spec fn wf(&self) -> bool {
        self.outstanding() <= self.capacity()
    }

    pub fn new(max: u32) -> (r: Self)
        ensures
            r.capacity() == max,
            r.outstanding() == 0,
            r.wf(),
    {
        Tickets { max, in_use: 0 }
    }

    /// Takes one ticket when one is free: admission succeeds exactly when
    /// fewer realizations run than the capacity allows.
    pub fn try_acquire(&mut self) -> (r: bool)
        requires
            old(self).wf(),
        ensures
            final(self).wf(),
            final(self).capacity() == old(self).capacity(),
            r <==> old(self).outstanding() < old(self).capacity(),
            r ==> final(self).outstanding() == old(self).outstanding() + 1,
            !r ==> final(self).outstanding() == old(self).outstanding(),
    {
        if self.in_use < self.max {
            self.in_use = self.in_use + 1;
            true
        } else {
            false
        }
    }

    /// Hands one ticket back.
    pub fn release(&mut self)
        requires
            old(self).wf(),
            old(self).outstanding() > 0,
        ensures
            final(self).wf(),
            final(self).capacity() == old(self).capacity(),
            final(self).outstanding() == old(self).outstanding() - 1,
    {
        self.in_use = self.in_use - 1;
    }
}

/// With a capacity of one, no two realizations are ever admitted at the
/// same time: at most one ticket is out at any instant.
pub proof fn lemma_single_builder(t: Tickets)
    requires
        t.wf(),
        t.capacity() == 1,
    ensures
        t.outstanding() <= 1,
{
}

} // verus!
