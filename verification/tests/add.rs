#![allow(non_snake_case)]
use rola::{DenseMatrix, IdentityMatrix, ZeroMatrix};

#[test]
fn test_good_zero_add() {
    let Z1: ZeroMatrix<usize> = ZeroMatrix::new(4, 4);
    let Z2 = ZeroMatrix::new(4, 4);
    let I = IdentityMatrix::new(4);
    let mat = vec![
        vec![1, 2, 3, 4],
        vec![5, 6, 7, 8],
        vec![9, 10, 11, 12],
        vec![13, 14, 15, 16],
    ];
    let A = DenseMatrix::new(&mat).unwrap();
    assert_eq!(Z1.clone() + Z2.clone(), Z2);
    assert_eq!(Z1.clone() + I.clone(), I);
    assert_eq!(Z1 + A.clone(), A);
}

#[test]
#[should_panic]
fn test_bad_zero_add() {
    let Z1: ZeroMatrix<usize> = ZeroMatrix::new(21, 69);
    let Z2 = ZeroMatrix::new(21, 42);
    let _panic = Z1 + Z2;
}

#[test]
fn test_dense_ident_add() {
    let mat1 = vec![
        vec![1, 2, 3, 4],
        vec![5, 6, 7, 8],
        vec![9, 10, 11, 12],
        vec![13, 14, 15, 16],
    ];
    let mat2 = vec![
        vec![2, 2, 3, 4],
        vec![5, 7, 7, 8],
        vec![9, 10, 12, 12],
        vec![13, 14, 15, 17],
    ];
    let A1 = DenseMatrix::new(&mat1).unwrap();
    let A2 = DenseMatrix::new(&mat2).unwrap();
    let I = IdentityMatrix::new(4);
    assert_eq!(A1 + I, A2);
}
