//! Matrix algebra over four representations (dense, sparse, identity and zero)
//! behind one interface, with dimension-checked arithmetic between them.

pub mod scalar;
pub mod error;
pub mod grid;
pub mod matrix;
pub mod vector;
pub mod sparse;
pub mod dense;
pub mod ops;
pub mod laws;

pub use crate::dense::{DenseColumn, DenseMatrix, DenseRow};
pub use crate::error::Error;
pub use crate::grid::Grid;
pub use crate::matrix::{Flag, Matrix, ReadOrder};
pub use crate::scalar::Scalar;
pub use crate::vector::Vector;
pub use crate::sparse::{IdentityMatrix, SparseMatrix, ZeroMatrix};
