//! Linear operators over a scalar type: a dense row-major matrix with its
//! forward map (matrix-vector product) and its adjoint (transpose product).
pub mod scalar;
pub mod kernel;
pub mod operator;
pub mod model;
pub mod boundary;

pub use scalar::Scalar;
pub use kernel::{dot_product, transpose};
pub use operator::{DenseMatrix, LinearOperator};
pub use boundary::{dense_matrix_adjoint, dense_matrix_forward, dense_matrix_new};
