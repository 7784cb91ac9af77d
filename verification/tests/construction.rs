#![allow(non_snake_case)]
use rola::{DenseMatrix, Error, Flag, IdentityMatrix, Matrix, ReadOrder, SparseMatrix, ZeroMatrix};

#[test]
fn new_rejects_an_empty_list() {
    let rows: Vec<Vec<i32>> = Vec::new();
    assert_eq!(DenseMatrix::new(&rows).unwrap_err(), Error::InvalidDimensions);
}

#[test]
fn new_rejects_ragged_rows() {
    let e = DenseMatrix::new(&[vec![1, 2, 3], vec![4, 5]]).unwrap_err();
    assert_eq!(e, Error::InvalidDimensions);
    let e = DenseMatrix::new(&[vec![1], vec![4, 5]]).unwrap_err();
    assert_eq!(e, Error::InvalidDimensions);
}

#[test]
fn new_accepts_rows_without_columns() {
    let rows: Vec<Vec<i32>> = vec![Vec::new(), Vec::new()];
    let A = DenseMatrix::new(&rows).unwrap();
    assert_eq!(A.dims(), (2, 0));
    assert_eq!(A.elements(), Vec::<i32>::new());
    assert_eq!(A.get(0, 0), None);
}

#[test]
fn from_vec_checks_the_length() {
    assert_eq!(
        DenseMatrix::from_vec(vec![1, 2, 3, 4, 5], 2, 3, None).unwrap_err(),
        Error::InvalidDimensions
    );
    assert_eq!(
        DenseMatrix::from_vec(vec![1, 2, 3, 4, 5, 6], 3, 3, None).unwrap_err(),
        Error::InvalidDimensions
    );
    assert_eq!(
        DenseMatrix::from_vec(vec![1, 2], usize::MAX, 2, None).unwrap_err(),
        Error::InvalidDimensions
    );
    let A = DenseMatrix::from_vec(vec![1, 2, 3, 4, 5, 6], 2, 3, None).unwrap();
    assert_eq!(A, DenseMatrix::new(&[vec![1, 2, 3], vec![4, 5, 6]]).unwrap());
    assert_eq!(A.read_order(), ReadOrder::RowMajor);
}

#[test]
fn from_vec_read_column_major_is_the_transpose() {
    let A = DenseMatrix::from_vec(vec![1, 2, 3, 4, 5, 6], 2, 3, Some(ReadOrder::ColMajor)).unwrap();
    assert_eq!(A.read_order(), ReadOrder::ColMajor);
    assert_eq!(A.dims(), (3, 2));
    assert_eq!(A, DenseMatrix::new(&[vec![1, 4], vec![2, 5], vec![3, 6]]).unwrap());
    let B = DenseMatrix::from_vec(vec![1, 2, 3, 4, 5, 6], 2, 3, Some(ReadOrder::RowMajor)).unwrap();
    assert_eq!(B.dims(), (2, 3));
    assert_eq!(A.transpose(), B);
}

#[test]
fn error_describes_itself() {
    assert_eq!(Error::InvalidDimensions.description(), "Supplied matrix has invalid dimensions");
}

#[test]
fn read_order_defaults_to_row_major() {
    assert_eq!(ReadOrder::default(), ReadOrder::RowMajor);
    assert_ne!(ReadOrder::RowMajor, ReadOrder::ColMajor);
    assert_ne!(Flag::Symmetric, Flag::Diagonal);
}

#[test]
fn get_and_set_are_absent_outside() {
    let mut D = DenseMatrix::new(&[vec![1, 2, 3], vec![4, 5, 6]]).unwrap();
    assert_eq!(D.get(1, 2), Some(6));
    assert_eq!(D.get(2, 0), None);
    assert_eq!(D.get(0, 3), None);
    assert_eq!(D.set(2, 0, 9), None);
    assert_eq!(D.set(0, 3, 9), None);
    assert_eq!(D.set(1, 0, 9), Some(9));
    assert_eq!(D.elements(), vec![1, 2, 3, 9, 5, 6]);

    let mut S: SparseMatrix<i32> = SparseMatrix::new(2, 3);
    assert_eq!(S.get(1, 2), Some(0));
    assert_eq!(S.get(2, 0), None);
    assert_eq!(S.get(0, 3), None);
    assert_eq!(S.set(2, 0, 9), None);
    assert_eq!(S.set(0, 3, 9), None);
    assert_eq!(S.set(1, 0, 9), Some(9));
    assert_eq!(S.set(1, 0, 8), Some(8));
    assert_eq!(S.elements(), vec![0, 0, 0, 8, 0, 0]);

    let mut I: IdentityMatrix<i32> = IdentityMatrix::new(2);
    assert_eq!(I.get(0, 0), Some(1));
    assert_eq!(I.get(0, 1), Some(0));
    assert_eq!(I.get(2, 0), None);
    assert_eq!(I.get(0, 2), None);
    assert_eq!(I.set(2, 0, 5), None);
    assert_eq!(I.elements(), vec![1, 0, 0, 1]);

    let mut Z: ZeroMatrix<i32> = ZeroMatrix::new(2, 3);
    assert_eq!(Z.get(1, 2), Some(0));
    assert_eq!(Z.get(2, 0), None);
    assert_eq!(Z.get(0, 3), None);
    assert_eq!(Z.set(0, 3, 5), None);
    assert_eq!(Z.elements(), vec![0; 6]);
}

#[test]
fn sparse_takes_the_last_of_repeated_coordinates() {
    let S = SparseMatrix::from_tuple(vec![(0, 1, 5), (1, 1, 2), (0, 1, 7)], 2, 2);
    assert_eq!(S.get(0, 1), Some(7));
    assert_eq!(S.get(1, 1), Some(2));
    assert_eq!(S.elements(), vec![0, 7, 0, 2]);
    assert_eq!(S.read_order(), ReadOrder::RowMajor);
}

#[test]
fn sparse_never_shows_coordinates_outside() {
    let S = SparseMatrix::from_tuple(vec![(5, 0, 1), (0, 9, 2)], 2, 2);
    assert_eq!(S.get(5, 0), None);
    assert_eq!(S.elements(), vec![0; 4]);
    let Z: ZeroMatrix<i32> = ZeroMatrix::new(2, 2);
    assert_eq!(S, Z);
    assert!(S.is_diagonal());
    assert!(S.is_symmetric());
    assert_eq!(S, SparseMatrix::new(2, 2));
    let St = S.transpose();
    assert_eq!(St.elements(), vec![0; 4]);
}

#[test]
fn sparse_keeps_a_stored_zero() {
    let mut S: SparseMatrix<i32> = SparseMatrix::new(2, 2);
    assert_eq!(S.set(0, 1, 0), Some(0));
    assert!(S.is_diagonal());
    let Z: ZeroMatrix<i32> = ZeroMatrix::new(2, 2);
    assert_eq!(S, Z);
    assert_eq!(S, SparseMatrix::new(2, 2));
}

#[test]
fn dense_builders() {
    let Z = DenseMatrix::<i64>::zeros(2, 3);
    assert_eq!(Z.elements(), vec![0; 6]);
    assert_eq!(Z.dims(), (2, 3));
    let I = DenseMatrix::<i64>::identity(3);
    assert_eq!(I.elements(), vec![1, 0, 0, 0, 1, 0, 0, 0, 1]);
    let E = DenseMatrix::<i64>::identity(0);
    assert_eq!(E.dims(), (0, 0));
}

#[test]
fn rows_and_columns_of_a_dense_matrix() {
    let D = DenseMatrix::new(&[vec![1, 2, 3], vec![4, 5, 6]]).unwrap();
    assert_eq!(D.row(1).unwrap(), DenseMatrix::new(&[vec![4, 5, 6]]).unwrap());
    assert_eq!(D.col(2).unwrap(), DenseMatrix::new(&[vec![3], vec![6]]).unwrap());
    assert!(D.row(2).is_none());
    assert!(D.col(3).is_none());
    let Dt = D.transpose();
    assert_eq!(Dt.row(2).unwrap(), DenseMatrix::new(&[vec![3, 6]]).unwrap());
    assert_eq!(Dt.col(0).unwrap(), DenseMatrix::new(&[vec![1], vec![2], vec![3]]).unwrap());
    assert!(Dt.col(2).is_none());
}

#[test]
fn flipping_the_read_order_transposes() {
    let D = DenseMatrix::new(&[vec![1, 2, 3], vec![4, 5, 6]]).unwrap();
    let F = D.flip_read_order();
    assert_eq!(F.read_order(), ReadOrder::ColMajor);
    assert_eq!(F, DenseMatrix::new(&[vec![1, 4], vec![2, 5], vec![3, 6]]).unwrap());
    let S = SparseMatrix::from_tuple(vec![(0, 2, 3)], 2, 3);
    let F = S.flip_read_order();
    assert_eq!(F.read_order(), ReadOrder::ColMajor);
    assert_eq!(F.get(2, 0), Some(3));
    assert_eq!(F.dims(), (3, 2));
}

#[test]
fn iterators_walk_in_row_major_order() {
    let D = DenseMatrix::new(&[vec![1, 2, 3], vec![4, 5, 6]]).unwrap();
    let mut it = D.clone().into_iter();
    for want in [1, 2, 3, 4, 5, 6] {
        assert_eq!(it.next(), Some(want));
    }
    assert_eq!(it.next(), None);
    assert_eq!(it.next(), None);

    let mut it = D.transpose().into_iter();
    for want in [1, 4, 2, 5, 3, 6] {
        assert_eq!(it.next(), Some(want));
    }
    assert_eq!(it.next(), None);

    let S = SparseMatrix::from_tuple(vec![(1, 0, 9), (0, 2, 4)], 2, 3);
    let mut it = S.into_iter();
    for want in [0, 0, 4, 9, 0, 0] {
        assert_eq!(it.next(), Some(want));
    }
    assert_eq!(it.next(), None);

    let E: ZeroMatrix<i32> = ZeroMatrix::new(3, 0);
    assert_eq!(E.into_iter().next(), None);
    let E: IdentityMatrix<i32> = IdentityMatrix::new(0);
    assert_eq!(E.into_iter().next(), None);
}
