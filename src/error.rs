use vstd::prelude::*;

verus! {

/// Why a matrix operation refused its arguments. Every failure is detected
/// before any storage is touched.
#[derive(Debug, Clone, Copy, PartialEq, Eq, Structural)]
pub enum MatrixError {
    /// A flat value sequence does not hold `rows * cols` elements, or a vector
    /// operand's length differs from the column count.
    DimensionMismatch,
    /// Two matrices combined element by element have different shapes.
    ShapeMismatch,
    /// A row or column index is not below the matching dimension.
    IndexOutOfRange,
}

} // verus!
