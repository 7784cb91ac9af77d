pub mod identity_matrix;
pub mod sparse_matrix;
pub mod zero_matrix;

pub use self::identity_matrix::{IdentityMatrix, IdentityMatrixIntoIterator};
pub use self::sparse_matrix::{SparseMatrix, SparseMatrixIntoIterator};
pub use self::zero_matrix::{ZeroMatrix, ZeroMatrixIntoIterator};
