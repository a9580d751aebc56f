//! Global laws of the backward pass, proved once over arbitrary graphs.

use vstd::prelude::*;

use crate::backward::block_of;
use crate::backward::parent_edge;
use crate::backward::reachable;
use crate::backward::reachable_via;
use crate::backward::sched_prefix;
use crate::backward::schedule;
use crate::backward::steps_of;
use crate::scalar::Scalar;
use crate::scalar::graph_wf;
use crate::scalar::node_wf;
use crate::scalar::same_shape;

verus! {

/// Acyclicity is structural: a node can only name strictly earlier-created
/// nodes as its operands, so every parent edge points strictly downward in
/// creation order and no node can be its own ancestor.
pub proof fn lemma_parent_edges_point_downward(nodes: Seq<Scalar>, c: int, p: int)
    requires
        graph_wf(nodes),
        parent_edge(nodes, c, p),
    ensures
        p < c,
{
    assert(node_wf(nodes[c], c));
}

/// Reachability depends on the expression alone, never on gradient state.
proof fn lemma_shape_via(a: Seq<Scalar>, b: Seq<Scalar>, root: int, thr: int, i: int)
    requires
        same_shape(a, b),
        reachable_via(a, root, thr, i),
    ensures
        reachable_via(b, root, thr, i),
    decreases a.len() - i,
{
    if i != root {
        let c = choose|c: int|
            i < c && thr < c && #[trigger] parent_edge(a, c, i) && reachable_via(a, root, thr, c);
        lemma_shape_via(a, b, root, thr, c);
        assert(parent_edge(b, c, i));
    }
}

/// The accumulation plan depends on the expression alone, block by block.
proof fn lemma_shape_sched_prefix(a: Seq<Scalar>, b: Seq<Scalar>, root: int, j: int)
    requires
        same_shape(a, b),
    ensures
        sched_prefix(a, root, j) == sched_prefix(b, root, j),
    decreases root - j + 1,
{
    if j <= root {
        lemma_shape_sched_prefix(a, b, root, j + 1);
        if reachable(a, root, j) {
            lemma_shape_via(a, b, root, -1, j);
        }
        if reachable(b, root, j) {
            assert(same_shape(b, a));
            lemma_shape_via(b, a, root, -1, j);
        }
        if reachable(a, root, j) {
            assert(a[j].op == b[j].op);
            assert(steps_of(a, j) =~= steps_of(b, j));
        }
        assert(block_of(a, root, j) == block_of(b, root, j));
    }
}

/// Determinism of the backward pass: two graphs that describe the same
/// expression — the same topology, operations and forward values, however
/// their gradient accumulators differ — yield exactly the same accumulation
/// plan.  In particular, resetting every gradient to `0.0` and reseeding the
/// root reproduces the plan of the first run step for step, so a re-run
/// accumulates the same gradients as the first.
pub proof fn lemma_backward_deterministic(a: Seq<Scalar>, b: Seq<Scalar>, root: int)
    requires
        same_shape(a, b),
    ensures
        schedule(a, root) == schedule(b, root),
{
    lemma_shape_sched_prefix(a, b, root, 0);
}

/// Within one node's contribution block, every step propagates from that
/// node, and only downward to its strictly lower parents.
proof fn lemma_steps_of_bounds(nodes: Seq<Scalar>, i: int)
    requires
        graph_wf(nodes),
        nodes.len() <= usize::MAX,
        0 <= i < nodes.len(),
    ensures
        forall|k: int|
            0 <= k < steps_of(nodes, i).len() ==> ((#[trigger] steps_of(nodes, i)[k]).src as int
                == i && (steps_of(nodes, i)[k].dst as int) < i),
{
    assert(node_wf(nodes[i], i));
    assert forall|k: int|
        0 <= k < steps_of(nodes, i).len() implies ((#[trigger] steps_of(nodes, i)[k]).src as int
        == i && (steps_of(nodes, i)[k].dst as int) < i) by {
        let n = nodes[i];
        assert(n.lhs_parent matches Some(l) ==> (l as int) < i);
        assert(n.rhs_parent matches Some(r) ==> (r as int) < i);
        if k == 0 {
            assert(steps_of(nodes, i)[0].src as int == i && (steps_of(nodes, i)[0].dst as int)
                < i);
        } else {
            assert(steps_of(nodes, i)[1].src as int == i && (steps_of(nodes, i)[1].dst as int)
                < i);
        }
    }
}

/// Every step of the plan suffix from `root` down to `j` has its source in
/// `[j, root]` and its destination strictly below its source.
proof fn lemma_prefix_step_bounds(nodes: Seq<Scalar>, root: int, j: int)
    requires
        graph_wf(nodes),
        nodes.len() <= usize::MAX,
    ensures
        forall|k: int|
            0 <= k < sched_prefix(nodes, root, j).len() ==> {
                let s = #[trigger] sched_prefix(nodes, root, j)[k];
                j <= s.src as int <= root && (s.dst as int) < s.src as int
            },
    decreases root - j + 1,
{
    if j <= root {
        lemma_prefix_step_bounds(nodes, root, j + 1);
        if reachable(nodes, root, j) {
            lemma_steps_of_bounds(nodes, j);
        }
        assert forall|k: int| 0 <= k < sched_prefix(nodes, root, j).len() implies {
            let s = #[trigger] sched_prefix(nodes, root, j)[k];
            j <= s.src as int <= root && (s.dst as int) < s.src as int
        } by {
            let hi = sched_prefix(nodes, root, j + 1);
            if k < hi.len() {
                assert(sched_prefix(nodes, root, j)[k] == hi[k]);
            } else {
                assert(sched_prefix(nodes, root, j)[k] == block_of(nodes, root, j)[k - hi.len()]);
            }
        }
    }
}

/// The plan's steps are ordered by non-increasing source index: the sweep
/// emits the blocks of nodes `root`, `root - 1`, ... in turn.
proof fn lemma_prefix_sorted(nodes: Seq<Scalar>, root: int, j: int)
    requires
        graph_wf(nodes),
        nodes.len() <= usize::MAX,
    ensures
        forall|k1: int, k2: int|
            0 <= k1 <= k2 < sched_prefix(nodes, root, j).len() ==> (#[trigger] sched_prefix(
                nodes,
                root,
                j,
            )[k1]).src as int >= (#[trigger] sched_prefix(nodes, root, j)[k2]).src as int,
    decreases root - j + 1,
{
    if j <= root {
        lemma_prefix_sorted(nodes, root, j + 1);
        lemma_prefix_step_bounds(nodes, root, j + 1);
        if reachable(nodes, root, j) {
            lemma_steps_of_bounds(nodes, j);
        }
        assert forall|k1: int, k2: int|
            0 <= k1 <= k2 < sched_prefix(nodes, root, j).len() implies (#[trigger] sched_prefix(
            nodes,
            root,
            j,
        )[k1]).src as int >= (#[trigger] sched_prefix(nodes, root, j)[k2]).src as int by {
            let hi = sched_prefix(nodes, root, j + 1);
            if k1 < hi.len() {
                assert(sched_prefix(nodes, root, j)[k1] == hi[k1]);
            } else {
                assert(sched_prefix(nodes, root, j)[k1] == block_of(nodes, root, j)[k1 - hi.len()]);
            }
            if k2 < hi.len() {
                assert(sched_prefix(nodes, root, j)[k2] == hi[k2]);
            } else {
                assert(sched_prefix(nodes, root, j)[k2] == block_of(nodes, root, j)[k2 - hi.len()]);
            }
        }
    }
}

/// The reverse-topological guarantee of the backward pass: every
/// contribution *into* a node's accumulator stands in the plan strictly
/// before every contribution *out of* that node.  A node consumed by several
/// downstream expressions — a fan-out node — therefore propagates only its
/// fully settled sum, never a partially accumulated gradient.
pub proof fn lemma_settled_before_propagation(nodes: Seq<Scalar>, root: int)
    requires
        graph_wf(nodes),
        nodes.len() <= usize::MAX,
    ensures
        forall|k1: int, k2: int|
            0 <= k1 < schedule(nodes, root).len() && 0 <= k2 < schedule(nodes, root).len() && (
            #[trigger] schedule(nodes, root)[k1]).dst == (#[trigger] schedule(nodes, root)[k2]).src
                ==> k1 < k2,
{
    lemma_prefix_step_bounds(nodes, root, 0);
    lemma_prefix_sorted(nodes, root, 0);
    assert forall|k1: int, k2: int|
        0 <= k1 < schedule(nodes, root).len() && 0 <= k2 < schedule(nodes, root).len() && (
        #[trigger] schedule(nodes, root)[k1]).dst == (#[trigger] schedule(
        nodes,
        root,
    )[k2]).src implies k1 < k2 by {
        if k2 <= k1 {
            assert(schedule(nodes, root)[k2].src as int >= schedule(nodes, root)[k1].src as int);
            assert((schedule(nodes, root)[k1].dst as int) < schedule(nodes, root)[k1].src as int);
            assert(false);
        }
    }
}

} // verus!
