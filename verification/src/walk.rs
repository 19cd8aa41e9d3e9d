//! Whole walks over a tree given by its children lists, driven by the
//! traversal machines of `visit`, with the order they produce stated as a
//! recursive definition.
//!
//! Nodes are numbered by position: `children[n]` lists the children of node
//! `n`. The visitor's answers are given per node: `stops[n]` says whether
//! the visitor asks to exit when it is called on `n`.
use vstd::prelude::*;
use crate::visit::{child_entries, child_frames_rev, DepthFirst, ReverseBreadthFirst, VisitFrame};

verus! {

/// The children lists as sequences.
pub open spec fn tree_view(children: Seq<Vec<u64>>) -> Seq<Seq<u64>> {
    Seq::new(children.len(), |i: int| children[i]@)
}

/// Every path downwards from `node` stays inside `t` and has fewer than `d`
/// nodes.
pub open spec fn bounded_tree(t: Seq<Seq<u64>>, node: u64, d: nat) -> bool
    decreases d,
{
    if d == 0 {
        false
    } else {
        &&& node < t.len()
        &&& forall|k: int|
            0 <= k < t[node as int].len() ==> bounded_tree(
                t,
                #[trigger] t[node as int][k],
                (d - 1) as nat,
            )
    }
}

/// The nodes under `root` form a finite tree inside `t`.
pub open spec fn is_finite_tree(t: Seq<Seq<u64>>, root: u64) -> bool {
    exists|d: nat| bounded_tree(t, root, d)
}

/// A depth bound of the tree under `root`.
pub open spec fn tree_depth(t: Seq<Seq<u64>>, root: u64) -> nat {
    choose|d: nat| bounded_tree(t, root, d)
}

/// The frames of a depth-first walk of the subtree at `node`: the node is
/// visited, then the subtrees of its children in their stored order, then
/// the node is left.
pub open spec fn subtree_frames(t: Seq<Seq<u64>>, node: u64, parent: Option<u64>, d: nat) -> Seq<
    VisitFrame,
>
    decreases d, 0nat,
{
    if d == 0 || node >= t.len() {
        Seq::empty()
    } else {
        seq![VisitFrame { element: node, parent, exit: false }] + forest_frames(
            t,
            node,
            t[node as int],
            (d - 1) as nat,
        ) + seq![VisitFrame { element: node, parent, exit: true }]
    }
}

/// The frames of the subtrees at `nodes`, children of `parent`, one after
/// the other.
pub open spec fn forest_frames(t: Seq<Seq<u64>>, parent: u64, nodes: Seq<u64>, d: nat) -> Seq<
    VisitFrame,
>
    decreases d, nodes.len(),
{
    if nodes.len() == 0 {
        Seq::empty()
    } else {
        subtree_frames(t, nodes[0], Some(parent), d) + forest_frames(
            t,
            parent,
            nodes.drop_first(),
            d,
        )
    }
}

/// The frames of a whole depth-first walk from `root`: each node is
/// visited before its descendants (pre-order, children in stored order),
/// and left after all of them.
pub open spec fn depth_first_order(t: Seq<Seq<u64>>, root: u64) -> Seq<VisitFrame> {
    subtree_frames(t, root, None, tree_depth(t, root))
}

/// The frames of `s` up to and including the first visit of a node at which
/// the visitor asks to exit; all of `s` where it never does.
pub open spec fn until_exit(s: Seq<VisitFrame>, stops: Seq<bool>) -> Seq<VisitFrame>
    decreases s.len(),
{
    if s.len() == 0 {
        s
    } else if !s[0].exit && stops[s[0].element as int] {
        seq![s[0]]
    } else {
        seq![s[0]] + until_exit(s.drop_first(), stops)
    }
}

/// The frames that a stack of frames still produces, the top (last) first;
/// `ds[i]` is the depth bound of `s[i]`.
pub open spec fn pending_frames(t: Seq<Seq<u64>>, s: Seq<VisitFrame>, ds: Seq<nat>) -> Seq<
    VisitFrame,
>
    decreases s.len(),
{
    if s.len() == 0 {
        Seq::empty()
    } else {
        let f = s.last();
        let here = if f.exit {
            seq![f]
        } else {
            subtree_frames(t, f.element, f.parent, ds.last())
        };
        here + pending_frames(t, s.drop_last(), ds.drop_last())
    }
}

/// Every frame of `s` that is still to be entered roots a bounded subtree.
pub open spec fn frames_bounded(t: Seq<Seq<u64>>, s: Seq<VisitFrame>, ds: Seq<nat>) -> bool {
    &&& ds.len() == s.len()
    &&& forall|i: int| 0 <= i < s.len() && !s[i].exit ==> bounded_tree(t, s[i].element, #[trigger] ds[i])
}

proof fn lemma_children_pending(
    t: Seq<Seq<u64>>,
    s: Seq<VisitFrame>,
    ds: Seq<nat>,
    parent: u64,
    cs: Seq<u64>,
    d: nat,
)
    requires
        s.len() == ds.len(),
    ensures
        pending_frames(t, s + child_frames_rev(parent, cs), ds + Seq::new(cs.len(), |k: int| d))
            == forest_frames(t, parent, cs, d) + pending_frames(t, s, ds),
    decreases cs.len(),
{
    if cs.len() == 0 {
        assert(s + child_frames_rev(parent, cs) =~= s);
        assert(ds + Seq::new(cs.len(), |k: int| d) =~= ds);
        assert(forest_frames(t, parent, cs, d) + pending_frames(t, s, ds) =~= pending_frames(t, s, ds));
    } else {
        let rest = cs.drop_first();
        lemma_children_pending(t, s, ds, parent, rest, d);
        let s2 = s + child_frames_rev(parent, rest);
        let ds2 = ds + Seq::new(rest.len(), |k: int| d);
        let top = VisitFrame { element: cs[0], parent: Some(parent), exit: false };
        assert(s + child_frames_rev(parent, cs) =~= s2.push(top));
        assert(ds + Seq::new(cs.len(), |k: int| d) =~= ds2.push(d));
        assert(s2.push(top).drop_last() =~= s2);
        assert(ds2.push(d).drop_last() =~= ds2);
        assert(forest_frames(t, parent, cs, d) == subtree_frames(t, cs[0], Some(parent), d)
            + forest_frames(t, parent, rest, d));
        assert(subtree_frames(t, cs[0], Some(parent), d) + (forest_frames(t, parent, rest, d)
            + pending_frames(t, s, ds)) =~= forest_frames(t, parent, cs, d) + pending_frames(
            t,
            s,
            ds,
        ));
    }
}

/// Runs a whole depth-first walk from `root` and returns the frames in the
/// order the visitors are called: a frame with `exit` unset is a call of the
/// visitor, one with `exit` set a call of the exit-children visitor. Each
/// node is visited once, before its descendants, with children in their
/// stored order, and left once, after all its descendants; the walk ends
/// right after the first visit at which the visitor asks to exit, with no
/// further calls (pending exit calls of its ancestors are skipped). Nothing
/// is deferred, so this is also the deferring walk where no node is
/// deferred: it ends after its first pass.
pub fn depth_first_walk(children: &Vec<Vec<u64>>, root: u64, stops: &Vec<bool>) -> (r: Vec<
    VisitFrame,
>)
    requires
        is_finite_tree(tree_view(children@), root),
        stops.len() == children.len(),
    ensures
        r@ == until_exit(depth_first_order(tree_view(children@), root), stops@),
{
    let ghost t = tree_view(children@);
    let ghost d0 = tree_depth(t, root);
    let ghost full = until_exit(depth_first_order(t, root), stops@);
    let mut walk = DepthFirst::new(root);
    let mut out: Vec<VisitFrame> = Vec::new();
    let ghost mut ds: Seq<nat> = seq![d0];
    proof {
        let s = walk.stack();
        assert(s.drop_last() =~= Seq::<VisitFrame>::empty());
        assert(ds.drop_last() =~= Seq::<nat>::empty());
        assert(s.last() == VisitFrame { element: root, parent: None, exit: false });
        assert(pending_frames(t, s.drop_last(), ds.drop_last()) == Seq::<VisitFrame>::empty());
        assert(pending_frames(t, s, ds) == subtree_frames(t, root, None, d0) + Seq::<
            VisitFrame,
        >::empty());
        assert(pending_frames(t, s, ds) =~= depth_first_order(t, root));
        assert(out@ + full =~= full);
    }
    loop
        invariant_except_break
            t == tree_view(children@),
            stops.len() == children.len(),
            frames_bounded(t, walk.stack(), ds),
            full == out@ + until_exit(pending_frames(t, walk.stack(), ds), stops@),
        ensures
            out@ == full,
        decreases pending_frames(t, walk.stack(), ds).len(),
    {
        let ghost s = walk.stack();
        let ghost before = pending_frames(t, s, ds);
        match walk.next() {
            None => {
                assert(out@ + Seq::<VisitFrame>::empty() =~= out@);
                break;
            },
            Some(f) => {
                let ghost d = ds.last();
                let ghost base = s.drop_last();
                let ghost dbase = ds.drop_last();
                if f.exit {
                    proof {
                        assert(before =~= seq![f] + pending_frames(t, base, dbase));
                        assert(before.drop_first() =~= pending_frames(t, base, dbase));
                        assert(out@.push(f) + until_exit(before.drop_first(), stops@) =~= out@
                            + until_exit(before, stops@));
                        ds = dbase;
                    }
                    out.push(f);
                } else {
                    proof {
                        assert(bounded_tree(t, f.element, d)) by {
                            assert(s[s.len() - 1] == f);
                        }
                    }
                    let n = f.element as usize;
                    if stops[n] {
                        proof {
                            assert(before == subtree_frames(t, f.element, f.parent, d)
                                + pending_frames(t, base, dbase));
                            assert(before[0] == f);
                            assert(out@.push(f) =~= out@ + until_exit(before, stops@));
                        }
                        out.push(f);
                        break;
                    }
                    let cs = children[n].as_slice();
                    walk.enter(f, cs);
                    proof {
                        let exit_f = VisitFrame { exit: true, ..f };
                        let cd = (d - 1) as nat;
                        let tail = forest_frames(t, f.element, t[f.element as int], cd);
                        assert(cs@ == t[f.element as int]);
                        assert(f == VisitFrame { element: f.element, parent: f.parent, exit: false });
                        assert(before == (seq![f] + tail + seq![exit_f]) + pending_frames(
                            t,
                            base,
                            dbase,
                        ));
                        let dpush = dbase.push(0);
                        let ds2 = dpush + Seq::new(cs@.len(), |k: int| cd);
                        lemma_children_pending(t, base.push(exit_f), dpush, f.element, cs@, cd);
                        assert(base.push(exit_f).drop_last() =~= base);
                        assert(dpush.drop_last() =~= dbase);
                        assert(pending_frames(t, base.push(exit_f), dpush) == seq![exit_f]
                            + pending_frames(t, base, dbase));
                        assert(before.drop_first() =~= tail + (seq![exit_f] + pending_frames(
                            t,
                            base,
                            dbase,
                        )));
                        assert(before[0] == f);
                        assert(out@.push(f) + until_exit(before.drop_first(), stops@) =~= out@
                            + until_exit(before, stops@));
                        let s2 = walk.stack();
                        assert(s2 == base.push(exit_f) + child_frames_rev(f.element, cs@));
                        assert forall|i: int|
                            0 <= i < s2.len() && !s2[i].exit implies bounded_tree(
                            t,
                            s2[i].element,
                            #[trigger] ds2[i],
                        ) by {
                            if i < base.len() {
                                assert(s2[i] == s[i]);
                                assert(ds2[i] == ds[i]);
                            } else if i > base.len() {
                                let k = i - base.len() - 1;
                                assert(s2[i] == child_frames_rev(f.element, cs@)[k]);
                                assert(s2[i].element == t[f.element as int][cs@.len() - 1 - k]);
                                assert(ds2[i] == cd);
                            }
                        }
                        ds = ds2;
                    }
                    out.push(f);
                }
            },
        }
    }
    out
}

/// The entries for the children of each entry of `es`, in order.
pub open spec fn next_level(t: Seq<Seq<u64>>, es: Seq<(u64, Option<u64>)>) -> Seq<(u64, Option<u64>)>
    decreases es.len(),
{
    if es.len() == 0 {
        Seq::empty()
    } else {
        let x = es.last().0;
        next_level(t, es.drop_last()) + child_entries(x, t[x as int])
    }
}

/// The entries of the nodes `i` steps below `root`, each with its parent,
/// in breadth-first order.
pub open spec fn level(t: Seq<Seq<u64>>, root: u64, i: nat) -> Seq<(u64, Option<u64>)>
    decreases i,
{
    if i == 0 {
        seq![(root, None::<u64>)]
    } else {
        next_level(t, level(t, root, (i - 1) as nat))
    }
}

/// The levels `0..n` one after the other.
pub open spec fn levels_upto(t: Seq<Seq<u64>>, root: u64, n: nat) -> Seq<(u64, Option<u64>)>
    decreases n,
{
    if n == 0 {
        Seq::empty()
    } else {
        levels_upto(t, root, (n - 1) as nat) + level(t, root, (n - 1) as nat)
    }
}

/// Breadth-first order from `root`: level by level, children in their
/// stored order, each node with its parent (`None` for `root`).
pub open spec fn breadth_first_order(t: Seq<Seq<u64>>, root: u64) -> Seq<(u64, Option<u64>)> {
    levels_upto(t, root, tree_depth(t, root))
}

proof fn lemma_next_level_bounded(t: Seq<Seq<u64>>, es: Seq<(u64, Option<u64>)>, b: nat)
    requires
        forall|j: int| 0 <= j < es.len() ==> bounded_tree(t, #[trigger] es[j].0, b),
    ensures
        forall|j: int|
            0 <= j < next_level(t, es).len() ==> bounded_tree(t, #[trigger] next_level(t, es)[j].0, (b - 1) as nat),
    decreases es.len(),
{
    if es.len() > 0 {
        let front = es.drop_last();
        lemma_next_level_bounded(t, front, b);
        let x = es.last().0;
        assert(bounded_tree(t, es[es.len() - 1].0, b));
        let a = next_level(t, front);
        let c = child_entries(x, t[x as int]);
        assert forall|j: int| 0 <= j < next_level(t, es).len() implies bounded_tree(
            t,
            #[trigger] next_level(t, es)[j].0,
            (b - 1) as nat,
        ) by {
            if j < a.len() {
                assert(next_level(t, es)[j] == a[j]);
            } else {
                let k = j - a.len();
                assert(next_level(t, es)[j] == c[k]);
                assert(c[k].0 == t[x as int][k]);
            }
        }
    }
}

proof fn lemma_level_bounded(t: Seq<Seq<u64>>, root: u64, d: nat, i: nat)
    requires
        bounded_tree(t, root, d),
        i < d,
    ensures
        forall|j: int|
            0 <= j < level(t, root, i).len() ==> bounded_tree(t, #[trigger] level(t, root, i)[j].0, (d - i) as nat),
    decreases i,
{
    if i > 0 {
        lemma_level_bounded(t, root, d, (i - 1) as nat);
        lemma_next_level_bounded(t, level(t, root, (i - 1) as nat), (d - (i - 1)) as nat);
    }
}

proof fn lemma_level_empty(t: Seq<Seq<u64>>, root: u64, d: nat, i: nat)
    requires
        bounded_tree(t, root, d),
        i >= d,
    ensures
        level(t, root, i).len() == 0,
    decreases i,
{
    if i == d {
        lemma_level_bounded(t, root, d, (d - 1) as nat);
        lemma_next_level_bounded(t, level(t, root, (d - 1) as nat), 1);
        if level(t, root, i).len() > 0 {
            assert(bounded_tree(t, level(t, root, i)[0].0, 0));
        }
    } else {
        lemma_level_empty(t, root, d, (i - 1) as nat);
    }
}

proof fn lemma_levels_stable(t: Seq<Seq<u64>>, root: u64, a: nat, n: nat)
    requires
        level(t, root, a).len() == 0,
        a <= n,
    ensures
        levels_upto(t, root, n) == levels_upto(t, root, a),
        level(t, root, n).len() == 0,
    decreases n - a,
{
    if n > a {
        lemma_levels_stable(t, root, a, (n - 1) as nat);
        assert(level(t, root, (n - 1) as nat) =~= Seq::<(u64, Option<u64>)>::empty());
        assert(levels_upto(t, root, n) =~= levels_upto(t, root, (n - 1) as nat));
    }
}

proof fn lemma_next_level_parents(t: Seq<Seq<u64>>, es: Seq<(u64, Option<u64>)>)
    ensures
        forall|j: int|
            0 <= j < next_level(t, es).len() ==> (#[trigger] next_level(t, es)[j]).1 is Some && exists|k: int|
                0 <= k < es.len() && es[k].0 == next_level(t, es)[j].1->Some_0,
    decreases es.len(),
{
    if es.len() > 0 {
        let front = es.drop_last();
        lemma_next_level_parents(t, front);
        let x = es.last().0;
        let a = next_level(t, front);
        let c = child_entries(x, t[x as int]);
        assert forall|j: int| 0 <= j < next_level(t, es).len() implies (#[trigger] next_level(
            t,
            es,
        )[j]).1 is Some && exists|k: int|
            0 <= k < es.len() && es[k].0 == next_level(t, es)[j].1->Some_0 by {
            if j < a.len() {
                assert(next_level(t, es)[j] == a[j]);
                let k = choose|k: int| 0 <= k < front.len() && front[k].0 == a[j].1->Some_0;
                assert(es[k] == front[k]);
            } else {
                assert(next_level(t, es)[j] == c[j - a.len()]);
                assert(es[es.len() - 1].0 == x);
            }
        }
    }
}

/// In breadth-first order every entry but the root's comes after an entry
/// of its parent.
proof fn lemma_parents_come_first(t: Seq<Seq<u64>>, root: u64, n: nat)
    ensures
        forall|j: int|
            0 <= j < levels_upto(t, root, n).len() && (#[trigger] levels_upto(t, root, n)[j]).1 is Some
                ==> exists|k: int|
                0 <= k < j && levels_upto(t, root, n)[k].0 == levels_upto(t, root, n)[j].1->Some_0,
    decreases n,
{
    if n > 0 {
        let m = (n - 1) as nat;
        lemma_parents_come_first(t, root, m);
        let b = levels_upto(t, root, n);
        let before = levels_upto(t, root, m);
        assert forall|j: int| 0 <= j < b.len() && (#[trigger] b[j]).1 is Some implies exists|k: int|
            0 <= k < j && b[k].0 == b[j].1->Some_0 by {
            if j < before.len() {
                assert(b[j] == before[j]);
                let k = choose|k: int| 0 <= k < j && before[k].0 == before[j].1->Some_0;
                assert(b[k] == before[k]);
            } else {
                let jj = j - before.len();
                assert(b[j] == level(t, root, m)[jj]);
                if m == 0 {
                    assert(level(t, root, 0)[jj].1 is None);
                } else {
                    let pm = (m - 1) as nat;
                    let prev = level(t, root, pm);
                    lemma_next_level_parents(t, prev);
                    assert(level(t, root, m) == next_level(t, prev));
                    assert(next_level(t, prev)[jj] == b[j]);
                    let k = choose|k: int| 0 <= k < prev.len() && prev[k].0 == b[j].1->Some_0;
                    let below = levels_upto(t, root, pm);
                    assert(before == below + prev);
                    assert(b[below.len() + k] == before[below.len() + k]);
                    assert(before[below.len() + k] == prev[k]);
                }
            }
        }
    }
}

/// Runs a whole reverse breadth-first walk from `root` and returns the
/// entries in the order the visitor is called: the exact reverse of
/// breadth-first order, each node with its parent. So `root` comes last,
/// and every other entry comes before an entry of its parent, hence after
/// everything below it.
pub fn reverse_breadth_first_walk(children: &Vec<Vec<u64>>, root: u64) -> (r: Vec<(u64, Option<u64>)>)
    requires
        is_finite_tree(tree_view(children@), root),
    ensures
        r@ == breadth_first_order(tree_view(children@), root).reverse(),
        r@.last() == (root, None::<u64>),
        forall|j: int|
            0 <= j < r@.len() && (#[trigger] r@[j]).1 is Some ==> exists|k: int|
                j < k < r@.len() && r@[k].0 == r@[j].1->Some_0,
{
    let ghost t = tree_view(children@);
    let ghost d = tree_depth(t, root);
    let mut walk = ReverseBreadthFirst::new(root);
    let ghost mut lv: nat = 0;
    let ghost mut p: nat = 0;
    proof {
        assert(walk.queue() =~= level(t, root, 0).skip(0) + next_level(t, level(t, root, 0).take(0)));
        assert(walk.order() =~= levels_upto(t, root, 0) + level(t, root, 0).take(0));
    }
    loop
        invariant_except_break
            t == tree_view(children@),
            d == tree_depth(t, root),
            bounded_tree(t, root, d),
            lv <= d,
            p <= level(t, root, lv).len(),
            walk.queue() == level(t, root, lv).skip(p as int) + next_level(t, level(t, root, lv).take(p as int)),
            walk.order() == levels_upto(t, root, lv) + level(t, root, lv).take(p as int),
        ensures
            walk.order() == breadth_first_order(t, root),
        decreases d - lv, level(t, root, lv).len() - p,
    {
        proof {
            let l = level(t, root, lv);
            if p == l.len() {
                assert(l.take(p as int) =~= l);
                assert(l.skip(p as int) =~= Seq::<(u64, Option<u64>)>::empty());
                assert(l.skip(p as int) + next_level(t, l.take(p as int)) =~= level(t, root, lv + 1));
                assert(levels_upto(t, root, lv) + l.take(p as int) =~= levels_upto(t, root, lv + 1));
                if walk.queue().len() > 0 {
                    if lv + 1 >= d {
                        lemma_level_empty(t, root, d, lv + 1);
                    }
                    lv = lv + 1;
                    p = 0;
                    let l2 = level(t, root, lv);
                    assert(l2.skip(0) + next_level(t, l2.take(0)) =~= l2);
                    assert(levels_upto(t, root, lv) + l2.take(0) =~= levels_upto(t, root, lv));
                }
            }
        }
        let ghost q = walk.queue();
        let ghost l = level(t, root, lv);
        match walk.next_to_expand() {
            None => {
                proof {
                    assert(l.skip(p as int).len() == 0);
                    assert(p == l.len());
                    assert(l.take(p as int) =~= l);
                    assert(level(t, root, lv + 1).len() == 0);
                    assert(walk.order() == levels_upto(t, root, lv + 1));
                    if lv + 1 <= d {
                        lemma_levels_stable(t, root, lv + 1, d);
                        assert(walk.order() == levels_upto(t, root, d));
                    } else {
                        lemma_level_empty(t, root, d, lv);
                        assert(levels_upto(t, root, lv) + l =~= levels_upto(t, root, d));
                        assert(walk.order() == levels_upto(t, root, d));
                    }
                    assert(walk.order() == breadth_first_order(t, root));
                }
                break;
            },
            Some(e) => {
                proof {
                    assert(p < l.len());
                    assert(q[0] == l[p as int]);
                    if lv >= d {
                        lemma_level_empty(t, root, d, lv);
                    }
                    lemma_level_bounded(t, root, d, lv);
                    assert(bounded_tree(t, l[p as int].0, (d - lv) as nat));
                    assert(e == l[p as int]);
                    assert(d - lv > 0);
                    assert(e.0 < t.len());
                    assert(t.len() == children@.len());
                    assert(e.0 < children.len());
                }
                let n = e.0 as usize;
                let cs = children[n].as_slice();
                walk.expand(e.0, cs);
                proof {
                    assert(n as int == e.0 as int);
                    assert(cs@ == children@[n as int]@);
                    assert(cs@ == t[e.0 as int]);
                    let tp1 = l.take(p as int + 1);
                    assert(tp1.drop_last() =~= l.take(p as int));
                    assert(tp1.last() == e);
                    assert(next_level(t, tp1) == next_level(t, l.take(p as int)) + child_entries(e.0, t[e.0 as int]));
                    assert(q.drop_first() =~= l.skip(p as int + 1) + next_level(t, l.take(p as int)));
                    assert(walk.queue() =~= l.skip(p as int + 1) + next_level(t, tp1));
                    assert(walk.order() =~= levels_upto(t, root, lv) + tp1);
                    p = p + 1;
                }
            },
        }
    }
    let r = walk.into_visit_order();
    proof {
        assert(levels_upto(t, root, 1) =~= seq![(root, None::<u64>)]);
        assert(d >= 1);
        lemma_levels_prefix(t, root, 1, d);
        let b = breadth_first_order(t, root);
        lemma_parents_come_first(t, root, d);
        assert forall|j: int| 0 <= j < r@.len() && (#[trigger] r@[j]).1 is Some implies exists|k: int|
            j < k < r@.len() && r@[k].0 == r@[j].1->Some_0 by {
            let jb = b.len() - 1 - j;
            assert(r@[j] == b[jb]);
            let kb = choose|k: int| 0 <= k < jb && b[k].0 == b[jb].1->Some_0;
            assert(r@[b.len() - 1 - kb] == b[kb]);
        }
    }
    r
}

proof fn lemma_levels_prefix(t: Seq<Seq<u64>>, root: u64, a: nat, n: nat)
    requires
        a <= n,
    ensures
        levels_upto(t, root, n).len() >= levels_upto(t, root, a).len(),
        forall|j: int|
            0 <= j < levels_upto(t, root, a).len() ==> #[trigger] levels_upto(t, root, n)[j] == levels_upto(t, root, a)[j],
    decreases n - a,
{
    if n > a {
        lemma_levels_prefix(t, root, a, (n - 1) as nat);
    }
}

} // verus!
