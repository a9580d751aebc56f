//! The backward-pass executor: reachability over parent edges, per-node
//! derivative rules, and the reverse-topological accumulation plan.
//!
//! A backward pass over a graph rooted at `root` is described by a sequence
//! of [`GradStep`]s.  Each step asks the numeric evaluator to perform one
//! additive gradient update `grad[dst] += grad[src] * factor`, where the
//! factor is described symbolically by a [`LocalRule`].  The plan lists the
//! contribution steps of every node reachable from the root, node by node in
//! decreasing arena-index order.  Because every parent has a strictly smaller
//! index than the node it produced, that order is a reverse-topological
//! order: a node's accumulator receives every incoming contribution before
//! the node itself propagates anything, so fan-out nodes push their fully
//! settled gradient sum.

use vstd::prelude::*;

use crate::scalar::Graph;
use crate::scalar::GraphError;
use crate::scalar::Scalar;
use crate::scalar::ScalarOp;
use crate::scalar::graph_wf;
use crate::scalar::node_wf;

verus! {

/// The symbolic factor of one gradient contribution `grad[dst] += grad[src]
/// * factor`.  Node indices inside a rule refer to stored forward values;
/// the evaluator reads them at interpretation time.
#[derive(Clone, Copy, Debug, PartialEq, Eq, Structural)]
pub enum LocalRule {
    /// Factor `1`: an addition passes its gradient through unchanged.
    Identity,
    /// Factor `value[other]`: a multiplication routes to one operand the
    /// gradient scaled by the other operand's value.
    FactorValue { other: usize },
    /// Factor `1 / value[den]`: a division routes to its numerator the
    /// gradient scaled by the reciprocal of the denominator value.
    FactorRecip { den: usize },
    /// Factor `-value[num] / value[den]^2`: a division routes this to its
    /// denominator.
    FactorNegQuot { num: usize, den: usize },
    /// Factor `n * value[dst]^(n - 1)`: an integer power routes this to its
    /// base, which is the step's destination itself.
    FactorPowi { n: i32 },
    /// Factor `1 - value[src]^2`: a hyperbolic tangent routes this to its
    /// argument; `src` is the tanh output node itself.
    FactorTanh,
}

/// One additive gradient update of a backward pass: the accumulator of node
/// `dst` receives the settled gradient of node `src` times the factor that
/// `rule` describes.
#[derive(Clone, Copy, Debug, PartialEq, Eq, Structural)]
pub struct GradStep {
    /// The node whose (already settled) gradient is being propagated.
    pub src: usize,
    /// The parent node whose accumulator receives the contribution.
    pub dst: usize,
    /// The symbolic factor of the contribution.
    pub rule: LocalRule,
}

/// Is node `p` recorded as a parent (left or right operand) of node `c`?
pub open spec fn parent_edge(nodes: Seq<Scalar>, c: int, p: int) -> bool {
    &&& 0 <= c < nodes.len()
    &&& {
        ||| (nodes[c].lhs_parent matches Some(l) && l as int == p)
        ||| (nodes[c].rhs_parent matches Some(r) && r as int == p)
    }
}

/// Node `i` is reachable from `root` along parent edges, restricted to
/// consumer chains whose members all have index greater than `thr`: either
/// `i` is the root itself, or some consumer of `i` with index above `thr` is
/// reachable under the same restriction.  Consumers always have a larger
/// index than their operands, so the chain climbs strictly upward; the
/// threshold mirrors the executor's marking loop, which expands candidate
/// indices downward from the root.
pub open spec fn reachable_via(nodes: Seq<Scalar>, root: int, thr: int, i: int) -> bool
    decreases nodes.len() - i,
{
    &&& 0 <= i < nodes.len()
    &&& {
        ||| i == root
        ||| exists|c: int|
            i < c && thr < c && #[trigger] parent_edge(nodes, c, i) && reachable_via(
                nodes,
                root,
                thr,
                c,
            )
    }
}

/// Node `i` is reachable from `root` along parent edges: `i` is the root, or
/// an operand of a reachable node.
pub open spec fn reachable(nodes: Seq<Scalar>, root: int, i: int) -> bool {
    reachable_via(nodes, root, -1, i)
}

/// Does the node carry every parent that its derivative rule reads?  A node
/// built from a detached constant operand has only one parent recorded; its
/// derivative rule cannot run, and the backward pass reports it as a
/// malformed graph rather than propagating through it.
pub open spec fn full_arity(n: Scalar) -> bool {
    match n.op {
        ScalarOp::Leaf => true,
        ScalarOp::Add | ScalarOp::Mul | ScalarOp::Div => n.lhs_parent is Some
            && n.rhs_parent is Some,
        ScalarOp::Powi(_) | ScalarOp::Tanh => n.lhs_parent is Some,
    }
}

/// The contribution steps that node `i` pushes onto its parents, left
/// parent first: one step per parent, carrying the operation's local
/// derivative rule.  A node missing a required parent contributes nothing
/// here; the executor rejects such a node before this sequence is used.
pub open spec fn steps_of(nodes: Seq<Scalar>, i: int) -> Seq<GradStep> {
    let n = nodes[i];
    if !full_arity(n) {
        Seq::empty()
    } else {
        match n.op {
            ScalarOp::Leaf => Seq::empty(),
            ScalarOp::Add => seq![
                GradStep { src: i as usize, dst: n.lhs_parent->0, rule: LocalRule::Identity },
                GradStep { src: i as usize, dst: n.rhs_parent->0, rule: LocalRule::Identity },
            ],
            ScalarOp::Mul => seq![
                GradStep {
                    src: i as usize,
                    dst: n.lhs_parent->0,
                    rule: LocalRule::FactorValue { other: n.rhs_parent->0 },
                },
                GradStep {
                    src: i as usize,
                    dst: n.rhs_parent->0,
                    rule: LocalRule::FactorValue { other: n.lhs_parent->0 },
                },
            ],
            ScalarOp::Div => seq![
                GradStep {
                    src: i as usize,
                    dst: n.lhs_parent->0,
                    rule: LocalRule::FactorRecip { den: n.rhs_parent->0 },
                },
                GradStep {
                    src: i as usize,
                    dst: n.rhs_parent->0,
                    rule: LocalRule::FactorNegQuot {
                        num: n.lhs_parent->0,
                        den: n.rhs_parent->0,
                    },
                },
            ],
            ScalarOp::Powi(n_exp) => seq![
                GradStep {
                    src: i as usize,
                    dst: n.lhs_parent->0,
                    rule: LocalRule::FactorPowi { n: n_exp },
                },
            ],
            ScalarOp::Tanh => seq![
                GradStep { src: i as usize, dst: n.lhs_parent->0, rule: LocalRule::FactorTanh },
            ],
        }
    }
}

/// The contribution block of node `j` in a pass rooted at `root`: its steps
/// if it is reachable, nothing otherwise.
pub open spec fn block_of(nodes: Seq<Scalar>, root: int, j: int) -> Seq<GradStep> {
    if reachable(nodes, root, j) {
        steps_of(nodes, j)
    } else {
        Seq::empty()
    }
}

/// The concatenated contribution blocks of nodes `root` down to `j`, in
/// decreasing index order.
pub open spec fn sched_prefix(nodes: Seq<Scalar>, root: int, j: int) -> Seq<GradStep>
    decreases root - j + 1,
{
    if j > root {
        Seq::empty()
    } else {
        sched_prefix(nodes, root, j + 1) + block_of(nodes, root, j)
    }
}

/// The full accumulation plan of a backward pass rooted at `root`: the
/// contribution blocks of every node from `root` down to `0`, reachable
/// nodes only.
pub open spec fn schedule(nodes: Seq<Scalar>, root: int) -> Seq<GradStep> {
    sched_prefix(nodes, root, 0)
}

/// Every node reachable from `root` carries the parents its derivative rule
/// reads: the condition under which a backward pass succeeds.
pub open spec fn all_reachable_full(nodes: Seq<Scalar>, root: int) -> bool {
    forall|i: int| #[trigger] reachable(nodes, root, i) ==> full_arity(nodes[i])
}

/// Lowering the threshold only adds consumer chains, so reachability under a
/// threshold is monotone in it.
proof fn lemma_via_mono(nodes: Seq<Scalar>, root: int, thr1: int, thr2: int, i: int)
    requires
        thr2 <= thr1,
        reachable_via(nodes, root, thr1, i),
    ensures
        reachable_via(nodes, root, thr2, i),
    decreases nodes.len() - i,
{
    if i != root {
        let c = choose|c: int|
            i < c && thr1 < c && #[trigger] parent_edge(nodes, c, i) && reachable_via(
                nodes,
                root,
                thr1,
                c,
            );
        lemma_via_mono(nodes, root, thr1, thr2, c);
        assert(parent_edge(nodes, c, i));
    }
}

/// With the threshold at the root index itself, no consumer chain exists at
/// all: only the root is reachable.
proof fn lemma_via_top(nodes: Seq<Scalar>, root: int, i: int)
    ensures
        reachable_via(nodes, root, root, i) <==> (0 <= i < nodes.len() && i == root),
    decreases nodes.len() - i,
{
    if reachable_via(nodes, root, root, i) && i != root {
        let c = choose|c: int|
            i < c && root < c && #[trigger] parent_edge(nodes, c, i) && reachable_via(
                nodes,
                root,
                root,
                c,
            );
        lemma_via_top(nodes, root, c);
    }
}

/// Nothing above the root is reachable: consumer chains climb upward and
/// must end at the root.
proof fn lemma_via_above_root(nodes: Seq<Scalar>, root: int, thr: int, i: int)
    requires
        i > root,
    ensures
        !reachable_via(nodes, root, thr, i),
    decreases nodes.len() - i,
{
    if reachable_via(nodes, root, thr, i) {
        let c = choose|c: int|
            i < c && thr < c && #[trigger] parent_edge(nodes, c, i) && reachable_via(
                nodes,
                root,
                thr,
                c,
            );
        lemma_via_above_root(nodes, root, thr, c);
    }
}

/// Expanding node `j` (lowering the threshold from `j` to `j - 1`) makes
/// reachable exactly the nodes that were already reachable plus, when `j`
/// itself is reachable, the parents of `j`.  This is the step the marking
/// loop performs.
proof fn lemma_via_expand(nodes: Seq<Scalar>, root: int, j: int, i: int)
    requires
        graph_wf(nodes),
    ensures
        reachable_via(nodes, root, j - 1, i) <==> (reachable_via(nodes, root, j, i) || (
        parent_edge(nodes, j, i) && reachable_via(nodes, root, j, j))),
    decreases nodes.len() - i,
{
    if reachable_via(nodes, root, j, i) {
        lemma_via_mono(nodes, root, j, j - 1, i);
    }
    if parent_edge(nodes, j, i) && reachable_via(nodes, root, j, j) {
        assert(node_wf(nodes[j], j));
        assert(i < j);
        lemma_via_mono(nodes, root, j, j - 1, j);
        assert(parent_edge(nodes, j, i) && reachable_via(nodes, root, j - 1, j));
        assert(reachable_via(nodes, root, j - 1, i));
    }
    if reachable_via(nodes, root, j - 1, i) && i != root {
        let c = choose|c: int|
            i < c && j - 1 < c && #[trigger] parent_edge(nodes, c, i) && reachable_via(
                nodes,
                root,
                j - 1,
                c,
            );
        lemma_via_expand(nodes, root, j, c);
        if c == j {
            assert(node_wf(nodes[j], j));
            assert(!parent_edge(nodes, j, j));
            assert(reachable_via(nodes, root, j, j));
        } else {
            if 0 <= j < nodes.len() {
                assert(node_wf(nodes[j], j));
            }
            assert(!parent_edge(nodes, j, c));
            assert(reachable_via(nodes, root, j, c));
            assert(reachable_via(nodes, root, j, i));
        }
    }
}

impl Graph {
    /// Mark every node reachable from `root`, walking candidate indices
    /// downward from the root and expanding the parents of each marked node.
    /// Parents sit strictly below their consumers, so a single downward
    /// sweep reaches closure.
    fn mark(&self, root: usize) -> (visited: Vec<bool>)
        requires
            self.wf(),
            root < self@.len(),
        ensures
            visited@.len() == self@.len(),
            forall|i: int|
                0 <= i < self@.len() ==> (visited@[i] <==> reachable(self@, root as int, i)),
    {
        let n = self.len();
        let mut visited: Vec<bool> = Vec::new();
        let mut t: usize = 0;
        while t < n
            invariant
                t <= n,
                visited@.len() == t,
                forall|i: int| 0 <= i < t ==> !(#[trigger] visited@[i]),
            decreases n - t,
        {
            visited.push(false);
            t = t + 1;
        }
        visited[root] = true;
        proof {
            assert forall|i: int| 0 <= i < self@.len() implies (visited@[i] <==> reachable_via(
                self@,
                root as int,
                root as int,
                i,
            )) by {
                lemma_via_top(self@, root as int, i);
            }
        }
        let mut k: usize = root + 1;
        while k > 0
            invariant
                self.wf(),
                root < self@.len(),
                k <= root + 1,
                visited@.len() == self@.len(),
                forall|i: int|
                    0 <= i < self@.len() ==> (visited@[i] <==> reachable_via(
                        self@,
                        root as int,
                        k as int - 1,
                        i,
                    )),
            decreases k,
        {
            let j = k - 1;
            let ghost pre = visited@;
            if visited[j] {
                if let Some(l) = self.lhs_parent(j) {
                    visited[l] = true;
                }
                if let Some(r) = self.rhs_parent(j) {
                    visited[r] = true;
                }
            }
            proof {
                assert forall|i: int| 0 <= i < self@.len() implies (visited@[i]
                    <==> reachable_via(self@, root as int, j as int - 1, i)) by {
                    lemma_via_expand(self@, root as int, j as int, i);
                    assert(pre[j as int] <==> reachable_via(self@, root as int, j as int, j as int));
                    if visited@[i] && !pre[i] {
                        assert(parent_edge(self@, j as int, i));
                    }
                    if parent_edge(self@, j as int, i) && pre[j as int] {
                        assert(visited@[i]);
                    }
                }
            }
            k = j;
        }
        visited
    }

    /// The contribution steps that node `i` pushes onto its parents: the
    /// local derivative rule of its operation, left parent first.  A node
    /// whose operation requires a parent that is absent — an addition or
    /// multiplication built against a detached constant — has no usable
    /// rule; that is a malformed graph for differentiation purposes, and it
    /// is reported, never repaired.  Exactly the nodes of full arity
    /// succeed.
    pub fn calc_grad(&self, i: usize) -> (r: Result<Vec<GradStep>, GraphError>)
        requires
            self.wf(),
            i < self@.len(),
        ensures
            match r {
                Ok(steps) => full_arity(self@[i as int]) && steps@ == steps_of(self@, i as int),
                Err(e) => e == GraphError::MalformedGraph && !full_arity(self@[i as int]),
            },
    {
        let node = self.node(i);
        let mut steps: Vec<GradStep> = Vec::new();
        match node.op {
            ScalarOp::Leaf => Ok(steps),
            ScalarOp::Add => {
                match (node.lhs_parent, node.rhs_parent) {
                    (Some(l), Some(r)) => {
                        steps.push(GradStep { src: i, dst: l, rule: LocalRule::Identity });
                        steps.push(GradStep { src: i, dst: r, rule: LocalRule::Identity });
                        proof {
                            assert(steps@ =~= steps_of(self@, i as int));
                        }
                        Ok(steps)
                    },
                    _ => Err(GraphError::MalformedGraph),
                }
            },
            ScalarOp::Mul => {
                match (node.lhs_parent, node.rhs_parent) {
                    (Some(l), Some(r)) => {
                        steps.push(
                            GradStep {
                                src: i,
                                dst: l,
                                rule: LocalRule::FactorValue { other: r },
                            },
                        );
                        steps.push(
                            GradStep {
                                src: i,
                                dst: r,
                                rule: LocalRule::FactorValue { other: l },
                            },
                        );
                        proof {
                            assert(steps@ =~= steps_of(self@, i as int));
                        }
                        Ok(steps)
                    },
                    _ => Err(GraphError::MalformedGraph),
                }
            },
            ScalarOp::Div => {
                match (node.lhs_parent, node.rhs_parent) {
                    (Some(l), Some(r)) => {
                        steps.push(
                            GradStep { src: i, dst: l, rule: LocalRule::FactorRecip { den: r } },
                        );
                        steps.push(
                            GradStep {
                                src: i,
                                dst: r,
                                rule: LocalRule::FactorNegQuot { num: l, den: r },
                            },
                        );
                        proof {
                            assert(steps@ =~= steps_of(self@, i as int));
                        }
                        Ok(steps)
                    },
                    _ => Err(GraphError::MalformedGraph),
                }
            },
            ScalarOp::Powi(n) => {
                match node.lhs_parent {
                    Some(l) => {
                        steps.push(GradStep { src: i, dst: l, rule: LocalRule::FactorPowi { n } });
                        proof {
                            assert(steps@ =~= steps_of(self@, i as int));
                        }
                        Ok(steps)
                    },
                    None => Err(GraphError::MalformedGraph),
                }
            },
            ScalarOp::Tanh => {
                match node.lhs_parent {
                    Some(l) => {
                        steps.push(GradStep { src: i, dst: l, rule: LocalRule::FactorTanh });
                        proof {
                            assert(steps@ =~= steps_of(self@, i as int));
                        }
                        Ok(steps)
                    },
                    None => Err(GraphError::MalformedGraph),
                }
            },
        }
    }

    /// Run the backward pass rooted at `root`: compute the reverse-
    /// topological accumulation plan over every node reachable from the
    /// root.  The traversal is derived from the graph's own parent edges,
    /// never from caller-supplied ordering, so a node with several
    /// consumers appears in the plan only after all of its consumers.  The
    /// pass succeeds if and only if every reachable node carries the
    /// parents its derivative rule reads; otherwise the malformed graph is
    /// reported and no partial plan is handed out.
    pub fn backward(&self, root: usize) -> (r: Result<Vec<GradStep>, GraphError>)
        requires
            self.wf(),
            root < self@.len(),
        ensures
            match r {
                Ok(steps) => all_reachable_full(self@, root as int) && steps@ == schedule(
                    self@,
                    root as int,
                ),
                Err(e) => e == GraphError::MalformedGraph && !all_reachable_full(
                    self@,
                    root as int,
                ),
            },
    {
        let n = self.len();
        let visited = self.mark(root);
        let mut steps: Vec<GradStep> = Vec::new();
        proof {
            assert forall|i: int| #[trigger] reachable(self@, root as int, i) && root as int + 1
                <= i implies full_arity(self@[i]) by {
                lemma_via_above_root(self@, root as int, -1, i);
            }
        }
        let mut k: usize = root + 1;
        while k > 0
            invariant
                self.wf(),
                root < self@.len(),
                k <= root + 1,
                visited@.len() == self@.len(),
                forall|i: int|
                    0 <= i < self@.len() ==> (visited@[i] <==> reachable(self@, root as int, i)),
                steps@ == sched_prefix(self@, root as int, k as int),
                forall|i: int|
                    #[trigger] reachable(self@, root as int, i) && k as int <= i ==> full_arity(
                        self@[i],
                    ),
            decreases k,
        {
            let j = k - 1;
            if visited[j] {
                match self.calc_grad(j) {
                    Ok(mut s) => {
                        steps.append(&mut s);
                    },
                    Err(_) => {
                        proof {
                            assert(reachable(self@, root as int, j as int));
                            assert(!all_reachable_full(self@, root as int));
                        }
                        return Err(GraphError::MalformedGraph);
                    },
                }
            } else {
                proof {
                    assert(steps@ + Seq::<GradStep>::empty() =~= steps@);
                }
            }
            proof {
                assert forall|i: int| #[trigger] reachable(self@, root as int, i) && j as int
                    <= i implies full_arity(self@[i]) by {
                    if i == j as int {
                        assert(visited@[i]);
                    }
                }
            }
            k = j;
        }
        proof {
            assert forall|i: int| #[trigger]
                reachable(self@, root as int, i) implies full_arity(self@[i]) by {
                if i < 0 || i >= self@.len() {
                    assert(!reachable(self@, root as int, i));
                }
            }
        }
        Ok(steps)
    }
}

} // verus!
