#![allow(non_snake_case)]
use rola::{DenseMatrix, IdentityMatrix, Matrix, SparseMatrix, ZeroMatrix};

#[test]
fn test_eq_dense_identity() {
    let A1 = DenseMatrix::new(&[vec![1, 0, 0], vec![0, 1, 0], vec![0, 0, 1]]).unwrap();
    assert!(A1.is_diagonal());
    let A2 = DenseMatrix::new(&[vec![1, 1, 0], vec![0, 1, 0], vec![0, 0, 1]]).unwrap();
    assert!(!A2.is_diagonal());
    let I = IdentityMatrix::new(3);
    assert_eq!(A1, I);
    assert_eq!(I, A1);
    assert_ne!(A2, I);
    assert_ne!(I, A2);
}

#[test]
fn test_eq_dense_zero() {
    let A1 = DenseMatrix::new(&[vec![0, 0, 0], vec![0, 0, 0], vec![0, 0, 0]]).unwrap();
    let A2 = DenseMatrix::new(&[vec![0, 0, 0], vec![0, 1, 0], vec![0, 0, 0]]).unwrap();
    let Z = ZeroMatrix::new(3, 3);
    assert_eq!(A1, Z);
    assert_eq!(Z, A1);
    assert_ne!(A2, Z);
    assert_ne!(Z, A2);
}

#[test]
fn test_eq_zero_zero() {
    let Z1: ZeroMatrix<usize> = ZeroMatrix::new(4, 20);
    let Z2 = ZeroMatrix::new(4, 20);
    let Z3 = ZeroMatrix::new(20, 4);
    assert_eq!(Z1, Z2);
    assert_eq!(Z2, Z1);
    assert_ne!(Z1, Z3);
    assert_ne!(Z3, Z1);
}

#[test]
fn test_eq_ident_ident() {
    let I1: IdentityMatrix<usize> = IdentityMatrix::new(10000000);
    let I2 = IdentityMatrix::new(10000000);
    let I3 = IdentityMatrix::new(10000001);
    assert_eq!(I1, I2);
    assert_eq!(I2, I1);
    assert_ne!(I1, I3);
    assert_ne!(I3, I1);
}

#[test]
fn test_eq_ident_zero() {
    let I: IdentityMatrix<usize> = IdentityMatrix::new(100);
    let Z = ZeroMatrix::new(100, 100);
    assert_ne!(I, Z);
    assert_ne!(Z, I);
}

#[test]
fn test_sparse_eq() {
    let v_0: Vec<(usize, usize, usize)> = Vec::new();
    let A_z = SparseMatrix::from_tuple(v_0, 100, 200);
    let Z = ZeroMatrix::new(100, 200);
    assert_eq!(A_z, Z);
    assert_eq!(Z, A_z);

    let mut mat_eye = Vec::new();
    for i in 0..100 {
        mat_eye.push((i, i, 1));
    }
    let A_i = SparseMatrix::from_tuple(mat_eye, 100, 100);
    let I = IdentityMatrix::new(100);
    assert_eq!(A_i, I);
    assert_eq!(I, A_i);

    let mut mat_sparse = Vec::new();
    for j in 0..5 {
        for i in 0..5 {
            mat_sparse.push((i, j, i + j));
        }
    }
    let A_d = DenseMatrix::new(&[
        vec![0, 1, 2, 3, 4],
        vec![1, 2, 3, 4, 5],
        vec![2, 3, 4, 5, 6],
        vec![3, 4, 5, 6, 7],
        vec![4, 5, 6, 7, 8],
    ])
    .unwrap();
    let A_s = SparseMatrix::from_tuple(mat_sparse, 5, 5);
    assert_eq!(A_s, A_d);
    assert_eq!(A_d, A_s);
}
