//! A dense, row-major matrix value type with verified construction, indexing,
//! element-wise combinators, transpose and integer arithmetic.

mod error;
mod scalar;
mod dense;
mod arith;
pub mod laws;
mod text;

pub use error::MatrixError;
pub use scalar::Scalar;
pub use dense::Matrix;
