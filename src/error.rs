use vstd::prelude::*;

verus! {

/// Why an operation on a vector or a matrix was refused.
#[derive(Debug, Clone, Copy, PartialEq, Eq, Structural)]
pub enum LinalgError {
    /// A container was asked for with a zero dimension.
    InvalidDimension,
    /// An index was zero or past the bound of its axis.
    IndexOutOfBounds,
    /// The operands' shapes do not fit the operation.
    DimensionMismatch,
    /// A norm was asked for with an order that is not positive.
    InvalidNormOrder,
}

} // verus!
