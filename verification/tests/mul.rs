#![allow(non_snake_case)]
use rola::{DenseColumn, DenseMatrix, IdentityMatrix, Matrix, SparseMatrix, Vector, ZeroMatrix};

#[test]
fn test_good_zero_zero_mul() {
    let Z1: ZeroMatrix<usize> = ZeroMatrix::new(69, 21);
    let Z2 = ZeroMatrix::new(21, 42);
    let Z3 = ZeroMatrix::new(69, 42);
    assert_eq!(Z1.clone() * Z2.clone(), Z3);

    let Z4 = Z1.transpose();
    let Z5 = Z3.clone();
    let Z6 = ZeroMatrix::new(21, 42);
    assert_eq!(Z4 * Z5, Z6);
}

#[test]
#[should_panic]
fn test_bad_zero_zero_mul() {
    let Z1: ZeroMatrix<usize> = ZeroMatrix::new(21, 69);
    let Z2 = ZeroMatrix::new(21, 42);
    let _panic = Z1 * Z2;
}

#[test]
fn test_ident_mul() {
    let I: IdentityMatrix<usize> = IdentityMatrix::new(5);
    let mut S = SparseMatrix::new(5, 5);
    for i in 0..5 {
        for j in 0..5 {
            S.set(i, j, 5 * i + j);
        }
    }
    let D = DenseMatrix::new(&[
        vec![0, 1, 2, 3, 4],
        vec![5, 6, 7, 8, 9],
        vec![10, 11, 12, 13, 14],
        vec![15, 16, 17, 18, 19],
        vec![20, 21, 22, 23, 24],
    ])
    .unwrap();
    assert_eq!(I.clone() * S.clone(), S.clone());
    assert_eq!(S.clone() * I.clone(), S);
    assert_eq!(I.clone() * D.clone(), D.clone());
    assert_eq!(D.clone() * I, D);
}

#[test]
fn test_inner_product() {
    let u = DenseColumn::from_vec(vec![1, 2, 3, 4, 5]);
    let v = DenseColumn::from_vec(vec![1, 2, 3, 4, 5]);
    assert_eq!(u.transpose() * v, 1 + 4 + 9 + 16 + 25);
}

#[test]
fn test_outer_product() {
    let u = DenseColumn::from_vec(vec![1, 2, 3, 4]);
    let v = DenseColumn::from_vec(vec![1, 2, 3]);
    let A = DenseMatrix::new(&[vec![1, 2, 3], vec![2, 4, 6], vec![3, 6, 9], vec![4, 8, 12]])
        .unwrap();
    assert_eq!(u * v.transpose(), A);
}
