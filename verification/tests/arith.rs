#![allow(non_snake_case)]
use rola::{DenseColumn, DenseMatrix, DenseRow, IdentityMatrix, Matrix, SparseMatrix, Vector, ZeroMatrix};

#[test]
fn dense_plus_sparse() {
    let D = DenseMatrix::new(&[vec![1, 2, 3], vec![4, 5, 6]]).unwrap();
    let S = SparseMatrix::from_tuple(vec![(0, 1, 10), (1, 2, -6)], 2, 3);
    let want = DenseMatrix::new(&[vec![1, 12, 3], vec![4, 5, 0]]).unwrap();
    assert_eq!(D.clone() + S.clone(), want);
    assert_eq!(S + D, want);
}

#[test]
fn identity_plus_dense() {
    let D = DenseMatrix::new(&[vec![1, 2], vec![3, 4]]).unwrap();
    let I = IdentityMatrix::new(2);
    let want = DenseMatrix::new(&[vec![2, 2], vec![3, 5]]).unwrap();
    assert_eq!(I + D, want);
}

#[test]
fn dense_sums_follow_a_transpose() {
    let D = DenseMatrix::new(&[vec![1, 2, 3], vec![4, 5, 6]]).unwrap();
    let E = DenseMatrix::new(&[vec![10, 20], vec![30, 40], vec![50, 60]]).unwrap();
    let want = DenseMatrix::new(&[vec![11, 24], vec![32, 45], vec![53, 66]]).unwrap();
    assert_eq!(D.clone().transpose() + E.clone(), want);
    let I = IdentityMatrix::new(2);
    let Q = DenseMatrix::new(&[vec![1, 2], vec![3, 4]]).unwrap().transpose();
    assert_eq!(Q + I, DenseMatrix::new(&[vec![2, 3], vec![2, 5]]).unwrap());
}

#[test]
fn identity_plus_identity() {
    let I: IdentityMatrix<i32> = IdentityMatrix::new(3);
    let J: IdentityMatrix<i32> = IdentityMatrix::new(3);
    let sum = I + J;
    assert_eq!(sum, DenseMatrix::new(&[vec![2, 0, 0], vec![0, 2, 0], vec![0, 0, 2]]).unwrap());
    assert_eq!(sum.trace(), 6);
    assert!(sum.is_diagonal());
    let E: IdentityMatrix<i32> = IdentityMatrix::new(0);
    let F: IdentityMatrix<i32> = IdentityMatrix::new(0);
    assert_eq!((E + F).dims(), (0, 0));
}

#[test]
fn products_with_zero() {
    let D = DenseMatrix::<i32>::new(&[vec![1, 2, 3], vec![4, 5, 6]]).unwrap();
    let S = SparseMatrix::<i32>::from_tuple(vec![(0, 1, 10)], 2, 3);
    let Z: ZeroMatrix<i32> = ZeroMatrix::new(3, 7);
    let W: ZeroMatrix<i32> = ZeroMatrix::new(9, 2);
    assert_eq!(D.clone() * Z.clone(), ZeroMatrix::new(2, 7));
    assert_eq!(S.clone() * Z, ZeroMatrix::new(2, 7));
    assert_eq!(W.clone() * D, ZeroMatrix::new(9, 3));
    assert_eq!(W * S, ZeroMatrix::new(9, 3));
}

#[test]
fn general_products() {
    let A = DenseMatrix::new(&[vec![1, 2, 3], vec![4, 5, 6]]).unwrap();
    let B = DenseMatrix::new(&[vec![7, 8], vec![9, 10], vec![11, 12]]).unwrap();
    let AB = DenseMatrix::new(&[vec![58, 64], vec![139, 154]]).unwrap();
    let BA = DenseMatrix::new(&[vec![39, 54, 69], vec![49, 68, 87], vec![59, 82, 105]]).unwrap();
    assert_eq!(A.clone() * B.clone(), AB);
    assert_eq!(B.clone() * A.clone(), BA);

    let As = SparseMatrix::from_tuple(
        vec![(0, 0, 1), (0, 1, 2), (0, 2, 3), (1, 0, 4), (1, 1, 5), (1, 2, 6)],
        2,
        3,
    );
    let Bs = SparseMatrix::from_tuple(
        vec![(0, 0, 7), (0, 1, 8), (1, 0, 9), (1, 1, 10), (2, 0, 11), (2, 1, 12)],
        3,
        2,
    );
    assert_eq!(A.clone() * Bs.clone(), AB);
    assert_eq!(As.clone() * B.clone(), AB);
    assert_eq!(As.clone() * Bs.clone(), AB);
    assert_eq!(Bs * As, BA);

    // transposes take part by their logical entries
    let At = A.clone().transpose();
    let AAt = DenseMatrix::new(&[vec![14, 32], vec![32, 77]]).unwrap();
    assert_eq!(A * At, AAt);
}

#[test]
fn products_with_an_empty_inner_dimension_are_zero() {
    let A = DenseMatrix::<i32>::from_vec(Vec::new(), 2, 0, None).unwrap();
    let B = DenseMatrix::<i32>::from_vec(Vec::new(), 0, 3, None).unwrap();
    assert_eq!(A * B, DenseMatrix::<i32>::zeros(2, 3));
}

#[test]
fn inner_and_outer_products() {
    let row = DenseRow::from_vec(vec![1, -2, 3]);
    let col = DenseColumn::from_vec(vec![4, 5, 6]);
    assert_eq!(row.clone() * col.clone(), 4 - 10 + 18);
    let outer = col * row;
    assert_eq!(
        outer,
        DenseMatrix::new(&[vec![4, -8, 12], vec![5, -10, 15], vec![6, -12, 18]]).unwrap()
    );
    let e: DenseRow<i32> = DenseRow::from_vec(Vec::new());
    let f: DenseColumn<i32> = DenseColumn::from_vec(Vec::new());
    assert_eq!(e.clone() * f.clone(), 0);
    assert_eq!((f * e).dims(), (0, 0));
}

#[test]
fn vectors() {
    let mut row = DenseRow::from_vec(vec![1, 2, 3]);
    assert_eq!(row.len(), 3);
    assert_eq!(row.get(2), Some(3));
    assert_eq!(row.get(3), None);
    assert_eq!(row.set(3, 9), None);
    assert_eq!(row.set(0, 9), Some(9));
    let mut col = row.clone().transpose();
    assert_eq!(col.len(), 3);
    assert_eq!(col.get(0), Some(9));
    assert_eq!(col.set(1, 8), Some(8));
    assert_eq!(col.set(5, 8), None);
    assert_eq!(row.get(1), Some(2));
    let back = col.transpose();
    assert_eq!(back.get(1), Some(8));
    assert_eq!(back.get(2), Some(3));

    let z: DenseRow<i64> = DenseRow::zeros(4);
    assert_eq!(z.len(), 4);
    assert_eq!(z.get(3), Some(0));
    let z: DenseColumn<i64> = DenseColumn::zeros(0);
    assert_eq!(z.len(), 0);
    assert_eq!(z.get(0), None);
}
