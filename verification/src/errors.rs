//! The errors that the solver, the planner and the executor report.

use vstd::prelude::*;

verus! {

/// Why an operation of this crate failed.
#[derive(Debug, Clone, Copy, PartialEq, Eq, Structural)]
pub enum Error {
    /// Two facts hold different known values and cannot be unified.
    Incompatibility,
    /// A path does not follow the grammar of paths.
    InvalidPath,
    /// A path names a fact or a dimension that does not exist.
    OutOfBounds,
    /// A value of one kind of fact was given where another kind is stored.
    WrongKind,
    /// A scaled integer cannot be inverted: the division leaves a remainder.
    NotDivisible,
    /// An integer that the solver computed does not fit its machine type.
    Overflow,
    /// An operator was called with the wrong number of inputs.
    Arity,
    /// A name is the name of no node; while a model is built, of no node
    /// that was defined before the one that names it.
    UnknownNode,
    /// No evaluation order reaches the target with this id.
    UnreachablePlan(usize),
    /// A node was evaluated before one of its producers.
    DependencyMissing { node: usize, producer: usize },
    /// A node reads an output that its producer did not emit.
    InvalidOutputRef { node: usize, producer: usize },
    /// An operator was asked to work on a datatype that it does not implement.
    UnsupportedType,
    /// An operator was handed the streaming buffer of another operator.
    BufferType,
    /// An operator that takes no part in streams was asked for a step.
    NoStreaming,
    /// A node definition names an operation that there is no operator for.
    UnknownOp,
    /// A node id is not an index into the model's nodes.
    InvalidNode(usize),
    /// The outputs of this node were asked for before it was evaluated.
    NotComputed(usize),
    /// The extents of a tensor do not agree with the number of its elements.
    Shape,
    /// A node definition lacks an attribute, or holds it with another kind of value.
    Attribute,
    /// An input of a node definition is not of the form `name`, `name:k` or `^name`.
    InvalidInput,
}

} // verus!
