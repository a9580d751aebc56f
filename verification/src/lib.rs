//! A reverse-mode automatic-differentiation core for scalar expression graphs.
//!
//! Expressions are built as an append-only arena of nodes; every node records
//! the operation that produced it and the arena indices of its operands.  The
//! backward pass is computed as an explicit, verified accumulation plan: a
//! sequence of gradient-contribution steps in reverse-topological order.  The
//! numeric payload of a node (its value and its gradient accumulator) is kept
//! as an opaque 32-bit pattern; an embedding program evaluates the plan over
//! those patterns, while this crate proves which contributions flow where, and
//! in what order.

pub mod backward;
pub mod laws;
pub mod scalar;

pub use backward::GradStep;
pub use backward::LocalRule;
pub use scalar::Graph;
pub use scalar::GraphError;
pub use scalar::Scalar;
pub use scalar::ScalarOp;
