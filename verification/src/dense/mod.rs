pub mod dense_matrix;
pub mod dense_vector;

pub use self::dense_matrix::{DenseMatrix, DenseMatrixIntoIterator};
pub use self::dense_vector::{DenseColumn, DenseRow};
