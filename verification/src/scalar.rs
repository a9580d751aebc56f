//! The scalar node, its operation tag, and the arena that owns the graph.

use vstd::prelude::*;

verus! {

/// Bit pattern of the single-precision value `1.0`, used to seed the root of
/// a backward pass.
pub const ONE_BITS: u32 = 0x3F80_0000;

/// Bit pattern of the single-precision value `+0.0`, the initial content of
/// every gradient accumulator.
pub const ZERO_BITS: u32 = 0;

/// How a node's value was derived, and therefore which local derivative rule
/// applies to it during the backward pass.
#[derive(Clone, Copy, Debug, PartialEq, Eq, Structural)]
pub enum ScalarOp {
    /// An input node: the value was supplied directly, not computed.
    Leaf,
    /// Sum of the two parent values.
    Add,
    /// Left parent value divided by right parent value.
    Div,
    /// Product of the two parent values.
    Mul,
    /// Left parent value raised to this integer power.
    Powi(i32),
    /// Hyperbolic tangent of the left parent value.
    Tanh,
}

/// One node of the computation graph: a scalar value, its gradient
/// accumulator, and its provenance.
///
/// The numeric fields hold the IEEE 754 single-precision bit pattern of the
/// number they stand for.  This core never performs floating-point
/// arithmetic: it treats the patterns as opaque payloads and proves only how
/// they are routed.  Parent fields are indices into the arena that owns the
/// node; they always point at strictly earlier nodes, which makes cycles
/// structurally impossible.
#[derive(Clone, Copy, Debug, PartialEq, Eq)]
pub struct Scalar {
    /// Bit pattern of the forward value; immutable once the node is built.
    pub val_bits: u32,
    /// Bit pattern of the gradient accumulator; `0.0` until a backward pass
    /// writes to it.
    pub grad_bits: u32,
    /// Index of the left operand, absent for leaves and for the detached
    /// constant side of a constant variant.
    pub lhs_parent: Option<usize>,
    /// Index of the right operand, absent for leaves and one-operand nodes.
    pub rhs_parent: Option<usize>,
    /// The operation that produced this node.
    pub op: ScalarOp,
}

/// Everything that can go wrong while building a graph or preparing a
/// backward pass.
#[derive(Clone, Copy, Debug, PartialEq, Eq, Structural)]
pub enum GraphError {
    /// The right operand of a division holds the value zero, so the forward
    /// quotient (and every gradient through it) would be meaningless.
    DivisionByZero,
    /// A node misses a parent that its operation requires: a builder bug,
    /// surfaced instead of being propagated.
    MalformedGraph,
    /// A derivative rule was requested for an operation that has none.  The
    /// operation set of this crate is closed and fully covered, so no input
    /// produces this error; it is part of the surfaced taxonomy.
    UnsupportedOperation,
}

impl Scalar {
    /// Wrap a raw value (given as its bit pattern) into a fresh leaf node
    /// with a cleared gradient accumulator.
    pub fn new(val_bits: u32) -> (s: Scalar)
        ensures
            s == (Scalar {
                val_bits,
                grad_bits: ZERO_BITS,
                lhs_parent: None,
                rhs_parent: None,
                op: ScalarOp::Leaf,
            }),
    {
        Scalar {
            val_bits,
            grad_bits: ZERO_BITS,
            lhs_parent: None,
            rhs_parent: None,
            op: ScalarOp::Leaf,
        }
    }

    /// Build a node recording the given operands and operation, with a
    /// cleared gradient accumulator.  No structural checks happen here; the
    /// arena validates a node when it is inserted.
    pub fn new_with_parents(
        val_bits: u32,
        lhs_parent: Option<usize>,
        rhs_parent: Option<usize>,
        op: ScalarOp,
    ) -> (s: Scalar)
        ensures
            s == (Scalar { val_bits, grad_bits: ZERO_BITS, lhs_parent, rhs_parent, op }),
    {
        Scalar { val_bits, grad_bits: ZERO_BITS, lhs_parent, rhs_parent, op }
    }
}

/// Does this single-precision bit pattern denote the value zero?  A float is
/// zero exactly when every bit below the sign bit is clear, which leaves the
/// two patterns of positive and negative zero.
pub open spec fn spec_is_zero_bits(b: u32) -> bool {
    b == 0 || b == 0x8000_0000
}

/// The arity and ordering constraints a node must satisfy at arena index `i`:
/// parents point strictly below `i`, and the parent pattern fits the
/// operation.  Leaves have no parents; addition and multiplication have at
/// least one (exactly one when the other operand was a detached constant);
/// division has both; integer power and hyperbolic tangent have exactly a
/// left parent.
pub open spec fn node_wf(n: Scalar, i: int) -> bool {
    &&& (n.lhs_parent matches Some(l) ==> (l as int) < i)
    &&& (n.rhs_parent matches Some(r) ==> (r as int) < i)
    &&& match n.op {
        ScalarOp::Leaf => n.lhs_parent is None && n.rhs_parent is None,
        ScalarOp::Add | ScalarOp::Mul => n.lhs_parent is Some || n.rhs_parent is Some,
        ScalarOp::Div => n.lhs_parent is Some && n.rhs_parent is Some,
        ScalarOp::Powi(_) | ScalarOp::Tanh => n.lhs_parent is Some && n.rhs_parent is None,
    }
}

/// Well-formedness of a whole arena: every node satisfies its per-index
/// constraints.
pub open spec fn graph_wf(nodes: Seq<Scalar>) -> bool {
    forall|i: int| 0 <= i < nodes.len() ==> node_wf(#[trigger] nodes[i], i)
}

/// The leaf node wrapping a raw value: no parents, cleared accumulator.
pub open spec fn leaf_node(val_bits: u32) -> Scalar {
    Scalar {
        val_bits,
        grad_bits: ZERO_BITS,
        lhs_parent: None,
        rhs_parent: None,
        op: ScalarOp::Leaf,
    }
}

/// A freshly built operation node: the given provenance, cleared
/// accumulator.
pub open spec fn op_node(
    val_bits: u32,
    lhs_parent: Option<usize>,
    rhs_parent: Option<usize>,
    op: ScalarOp,
) -> Scalar {
    Scalar { val_bits, grad_bits: ZERO_BITS, lhs_parent, rhs_parent, op }
}

/// The same node with its gradient accumulator replaced.
pub open spec fn with_grad(n: Scalar, grad_bits: u32) -> Scalar {
    Scalar {
        val_bits: n.val_bits,
        grad_bits,
        lhs_parent: n.lhs_parent,
        rhs_parent: n.rhs_parent,
        op: n.op,
    }
}

/// Two arenas describe the same expression: node for node, the same
/// operation, operands and forward value; only the gradient accumulators may
/// differ.  Resetting and reseeding gradients preserves this relation, and
/// the backward plan is a function of it alone.
pub open spec fn same_shape(a: Seq<Scalar>, b: Seq<Scalar>) -> bool {
    &&& a.len() == b.len()
    &&& forall|i: int|
        0 <= i < a.len() ==> {
            &&& (#[trigger] a[i]).val_bits == b[i].val_bits
            &&& a[i].lhs_parent == b[i].lhs_parent
            &&& a[i].rhs_parent == b[i].rhs_parent
            &&& a[i].op == b[i].op
        }
}

/// The arena that owns every node of a computation graph and hands out
/// stable indices.  The graph is append-only: building an operation never
/// mutates existing nodes, and after construction only gradient accumulators
/// change.
pub struct Graph {
    nodes: Vec<Scalar>,
}

impl View for Graph {
    type V = Seq<Scalar>;

    closed spec fn view(&self) -> Seq<Scalar> {
        self.nodes@
    }
}

impl Graph {
    /// The arena invariant: see [`graph_wf`].
    pub open spec fn wf(&self) -> bool {
        graph_wf(self@)
    }

    /// An empty graph.
    pub fn new() -> (g: Graph)
        ensures
            g@ == Seq::<Scalar>::empty(),
            g.wf(),
    {
        Graph { nodes: Vec::new() }
    }

    /// Number of nodes in the arena.
    pub fn len(&self) -> (n: usize)
        ensures
            n == self@.len(),
    {
        self.nodes.len()
    }

    /// A copy of the node at index `i`.
    pub fn node(&self, i: usize) -> (s: Scalar)
        requires
            i < self@.len(),
        ensures
            s == self@[i as int],
    {
        self.nodes[i]
    }

    /// The stored forward value (as a bit pattern) of node `i`.
    pub fn val_bits(&self, i: usize) -> (b: u32)
        requires
            i < self@.len(),
        ensures
            b == self@[i as int].val_bits,
    {
        self.nodes[i].val_bits
    }

    /// The gradient accumulator (as a bit pattern) of node `i`.
    pub fn grad_bits(&self, i: usize) -> (b: u32)
        requires
            i < self@.len(),
        ensures
            b == self@[i as int].grad_bits,
    {
        self.nodes[i].grad_bits
    }

    /// The operation tag of node `i`.
    pub fn op(&self, i: usize) -> (o: ScalarOp)
        requires
            i < self@.len(),
        ensures
            o == self@[i as int].op,
    {
        self.nodes[i].op
    }

    /// The left operand of node `i`, if any.
    pub fn lhs_parent(&self, i: usize) -> (p: Option<usize>)
        requires
            i < self@.len(),
        ensures
            p == self@[i as int].lhs_parent,
    {
        self.nodes[i].lhs_parent
    }

    /// The right operand of node `i`, if any.
    pub fn rhs_parent(&self, i: usize) -> (p: Option<usize>)
        requires
            i < self@.len(),
        ensures
            p == self@[i as int].rhs_parent,
    {
        self.nodes[i].rhs_parent
    }

    /// The immediate parent set of node `i` in left-then-right order: what a
    /// tree renderer exposes as the node's children.
    pub fn children(&self, i: usize) -> (c: Vec<usize>)
        requires
            i < self@.len(),
        ensures
            c@ == children_spec(self@[i as int]),
    {
        let mut c: Vec<usize> = Vec::new();
        if let Some(l) = self.nodes[i].lhs_parent {
            c.push(l);
        }
        if let Some(r) = self.nodes[i].rhs_parent {
            c.push(r);
        }
        proof {
            assert(c@ =~= children_spec(self@[i as int]));
        }
        c
    }

    /// Append a node known to satisfy the arena constraints.
    fn push_node(&mut self, s: Scalar) -> (idx: usize)
        requires
            old(self).wf(),
            node_wf(s, old(self)@.len() as int),
        ensures
            final(self).wf(),
            idx == old(self)@.len(),
            final(self)@ == old(self)@.push(s),
    {
        let idx = self.nodes.len();
        self.nodes.push(s);
        proof {
            assert forall|i: int| 0 <= i < self@.len() implies node_wf(
                #[trigger] self@[i],
                i,
            ) by {
                if i < old(self)@.len() {
                    assert(self@[i] == old(self)@[i]);
                }
            }
        }
        idx
    }

    /// Insert an arbitrary pre-built node, validating that its parents exist
    /// in the arena and fit its operation.  A node that would break the
    /// arena's structural invariants is rejected as a malformed graph and
    /// the arena is left unchanged.
    pub fn insert(&mut self, s: Scalar) -> (r: Result<usize, GraphError>)
        requires
            old(self).wf(),
        ensures
            final(self).wf(),
            match r {
                Ok(idx) => node_wf(s, old(self)@.len() as int) && idx == old(self)@.len()
                    && final(self)@ == old(self)@.push(s),
                Err(e) => e == GraphError::MalformedGraph && !node_wf(
                    s,
                    old(self)@.len() as int,
                ) && final(self)@ == old(self)@,
            },
    {
        let n = self.nodes.len();
        let lhs_ok = match s.lhs_parent {
            Some(l) => l < n,
            None => true,
        };
        let rhs_ok = match s.rhs_parent {
            Some(r) => r < n,
            None => true,
        };
        let arity_ok = match s.op {
            ScalarOp::Leaf => s.lhs_parent.is_none() && s.rhs_parent.is_none(),
            ScalarOp::Add | ScalarOp::Mul => s.lhs_parent.is_some() || s.rhs_parent.is_some(),
            ScalarOp::Div => s.lhs_parent.is_some() && s.rhs_parent.is_some(),
            ScalarOp::Powi(_) | ScalarOp::Tanh => s.lhs_parent.is_some()
                && s.rhs_parent.is_none(),
        };
        if lhs_ok && rhs_ok && arity_ok {
            Ok(self.push_node(s))
        } else {
            Err(GraphError::MalformedGraph)
        }
    }

    /// Wrap a raw value into a fresh leaf node of the arena; its gradient
    /// accumulator starts at `0.0`.
    pub fn scalar(&mut self, val_bits: u32) -> (idx: usize)
        requires
            old(self).wf(),
        ensures
            final(self).wf(),
            idx == old(self)@.len(),
            final(self)@ == old(self)@.push(leaf_node(val_bits)),
    {
        self.push_node(Scalar::new(val_bits))
    }

    /// Record the sum of nodes `l` and `r`.  The caller evaluates the
    /// forward value (the sum of the operand values) and passes its bit
    /// pattern; the arena records provenance and leaves both operands
    /// untouched.
    pub fn add(&mut self, l: usize, r: usize, val_bits: u32) -> (idx: usize)
        requires
            old(self).wf(),
            l < old(self)@.len(),
            r < old(self)@.len(),
        ensures
            final(self).wf(),
            idx == old(self)@.len(),
            final(self)@ == old(self)@.push(op_node(val_bits, Some(l), Some(r), ScalarOp::Add)),
    {
        self.push_node(Scalar::new_with_parents(val_bits, Some(l), Some(r), ScalarOp::Add))
    }

    /// Record the sum of node `l` and a detached constant on the right: one
    /// parent only, so the constant never accumulates gradient.
    pub fn add_const(&mut self, l: usize, val_bits: u32) -> (idx: usize)
        requires
            old(self).wf(),
            l < old(self)@.len(),
        ensures
            final(self).wf(),
            idx == old(self)@.len(),
            final(self)@ == old(self)@.push(op_node(val_bits, Some(l), None, ScalarOp::Add)),
    {
        self.push_node(Scalar::new_with_parents(val_bits, Some(l), None, ScalarOp::Add))
    }

    /// Record the sum of a detached constant on the left and node `r`.
    pub fn const_add(&mut self, r: usize, val_bits: u32) -> (idx: usize)
        requires
            old(self).wf(),
            r < old(self)@.len(),
        ensures
            final(self).wf(),
            idx == old(self)@.len(),
            final(self)@ == old(self)@.push(op_node(val_bits, None, Some(r), ScalarOp::Add)),
    {
        self.push_node(Scalar::new_with_parents(val_bits, None, Some(r), ScalarOp::Add))
    }

    /// Record the product of nodes `l` and `r`.
    pub fn mul(&mut self, l: usize, r: usize, val_bits: u32) -> (idx: usize)
        requires
            old(self).wf(),
            l < old(self)@.len(),
            r < old(self)@.len(),
        ensures
            final(self).wf(),
            idx == old(self)@.len(),
            final(self)@ == old(self)@.push(op_node(val_bits, Some(l), Some(r), ScalarOp::Mul)),
    {
        self.push_node(Scalar::new_with_parents(val_bits, Some(l), Some(r), ScalarOp::Mul))
    }

    /// Record the product of node `l` and a detached constant on the right.
    pub fn mul_const(&mut self, l: usize, val_bits: u32) -> (idx: usize)
        requires
            old(self).wf(),
            l < old(self)@.len(),
        ensures
            final(self).wf(),
            idx == old(self)@.len(),
            final(self)@ == old(self)@.push(op_node(val_bits, Some(l), None, ScalarOp::Mul)),
    {
        self.push_node(Scalar::new_with_parents(val_bits, Some(l), None, ScalarOp::Mul))
    }

    /// Record the product of a detached constant on the left and node `r`.
    pub fn const_mul(&mut self, r: usize, val_bits: u32) -> (idx: usize)
        requires
            old(self).wf(),
            r < old(self)@.len(),
        ensures
            final(self).wf(),
            idx == old(self)@.len(),
            final(self)@ == old(self)@.push(op_node(val_bits, None, Some(r), ScalarOp::Mul)),
    {
        self.push_node(Scalar::new_with_parents(val_bits, None, Some(r), ScalarOp::Mul))
    }

    /// Record the quotient of nodes `l` and `r`, failing fast when the
    /// stored value of the denominator node is zero: a gradient through a
    /// non-finite quotient would be meaningless, so no node is built.  The
    /// division succeeds if and only if the denominator value is non-zero.
    pub fn div(&mut self, l: usize, r: usize, val_bits: u32) -> (res: Result<usize, GraphError>)
        requires
            old(self).wf(),
            l < old(self)@.len(),
            r < old(self)@.len(),
        ensures
            final(self).wf(),
            match res {
                Ok(idx) => !spec_is_zero_bits(old(self)@[r as int].val_bits) && idx == old(
                    self,
                )@.len() && final(self)@ == old(self)@.push(
                    op_node(val_bits, Some(l), Some(r), ScalarOp::Div),
                ),
                Err(e) => e == GraphError::DivisionByZero && spec_is_zero_bits(
                    old(self)@[r as int].val_bits,
                ) && final(self)@ == old(self)@,
            },
    {
        let den = self.nodes[r].val_bits;
        if den == 0 || den == 0x8000_0000 {
            Err(GraphError::DivisionByZero)
        } else {
            Ok(self.push_node(Scalar::new_with_parents(val_bits, Some(l), Some(r), ScalarOp::Div)))
        }
    }

    /// Record node `l` raised to the integer power `n`.
    pub fn powi(&mut self, l: usize, n: i32, val_bits: u32) -> (idx: usize)
        requires
            old(self).wf(),
            l < old(self)@.len(),
        ensures
            final(self).wf(),
            idx == old(self)@.len(),
            final(self)@ == old(self)@.push(op_node(val_bits, Some(l), None, ScalarOp::Powi(n))),
    {
        self.push_node(Scalar::new_with_parents(val_bits, Some(l), None, ScalarOp::Powi(n)))
    }

    /// Record the hyperbolic tangent of node `l`.
    pub fn tanh(&mut self, l: usize, val_bits: u32) -> (idx: usize)
        requires
            old(self).wf(),
            l < old(self)@.len(),
        ensures
            final(self).wf(),
            idx == old(self)@.len(),
            final(self)@ == old(self)@.push(op_node(val_bits, Some(l), None, ScalarOp::Tanh)),
    {
        self.push_node(Scalar::new_with_parents(val_bits, Some(l), None, ScalarOp::Tanh))
    }

    /// Overwrite the gradient accumulator of node `i`.  The numeric
    /// evaluator of a backward plan performs each additive update with this;
    /// nothing else about the node or the graph changes.
    pub fn set_grad(&mut self, i: usize, grad_bits: u32)
        requires
            old(self).wf(),
            i < old(self)@.len(),
        ensures
            final(self).wf(),
            final(self)@ == old(self)@.update(i as int, with_grad(old(self)@[i as int], grad_bits)),
            same_shape(old(self)@, final(self)@),
    {
        let mut s = self.nodes[i];
        s.grad_bits = grad_bits;
        self.nodes[i] = s;
        proof {
            assert forall|j: int| 0 <= j < self@.len() implies node_wf(
                #[trigger] self@[j],
                j,
            ) by {
                if j != i {
                    assert(self@[j] == old(self)@[j]);
                }
            }
        }
    }

    /// Seed the root of a backward pass: its gradient accumulator becomes
    /// `1.0`, and nothing else changes.
    pub fn seed(&mut self, root: usize)
        requires
            old(self).wf(),
            root < old(self)@.len(),
        ensures
            final(self).wf(),
            final(self)@ == old(self)@.update(
                root as int,
                with_grad(old(self)@[root as int], ONE_BITS),
            ),
            same_shape(old(self)@, final(self)@),
    {
        self.set_grad(root, ONE_BITS);
    }

    /// Bring the graph into the ready state of a backward pass: every
    /// gradient accumulator cleared to `0.0`, then exactly the chosen root
    /// seeded to `1.0`.
    pub fn prepare(&mut self, root: usize)
        requires
            old(self).wf(),
            root < old(self)@.len(),
        ensures
            final(self).wf(),
            final(self)@.len() == old(self)@.len(),
            final(self)@[root as int] == with_grad(old(self)@[root as int], ONE_BITS),
            forall|i: int|
                0 <= i < old(self)@.len() && i != root ==> final(self)@[i] == with_grad(
                    #[trigger] old(self)@[i],
                    ZERO_BITS,
                ),
            same_shape(old(self)@, final(self)@),
    {
        self.reset_grads();
        self.seed(root);
    }

    /// Clear every gradient accumulator back to `0.0`, leaving values and
    /// topology untouched: the preparation for re-running a backward pass.
    pub fn reset_grads(&mut self)
        requires
            old(self).wf(),
        ensures
            final(self).wf(),
            final(self)@.len() == old(self)@.len(),
            forall|i: int|
                0 <= i < old(self)@.len() ==> final(self)@[i] == with_grad(
                    #[trigger] old(self)@[i],
                    ZERO_BITS,
                ),
            same_shape(old(self)@, final(self)@),
    {
        let n = self.nodes.len();
        let mut t: usize = 0;
        while t < n
            invariant
                self.wf(),
                n == self@.len(),
                t <= n,
                self@.len() == old(self)@.len(),
                forall|i: int|
                    0 <= i < t ==> self@[i] == with_grad(#[trigger] old(self)@[i], ZERO_BITS),
                forall|i: int| t <= i < n ==> self@[i] == #[trigger] old(self)@[i],
            decreases n - t,
        {
            self.set_grad(t, ZERO_BITS);
            t = t + 1;
        }
    }
}

/// The parent set of a node in left-then-right order.
pub open spec fn children_spec(n: Scalar) -> Seq<usize> {
    match (n.lhs_parent, n.rhs_parent) {
        (Some(l), Some(r)) => seq![l, r],
        (Some(l), None) => seq![l],
        (None, Some(r)) => seq![r],
        (None, None) => Seq::empty(),
    }
}

} // verus!
