#![allow(non_snake_case)]
use rola::{DenseMatrix, IdentityMatrix, Matrix, ReadOrder, SparseMatrix, ZeroMatrix};

fn sample_dense() -> DenseMatrix<i32> {
    DenseMatrix::new(&[vec![1, 2, 3], vec![4, 5, 6]]).unwrap()
}

fn sample_sparse() -> SparseMatrix<i32> {
    SparseMatrix::from_tuple(vec![(0, 1, -1), (1, 2, 7)], 2, 3)
}

#[test]
fn construction_round_trip() {
    let rows = vec![vec![1, 2, 3], vec![4, 5, 6], vec![7, 8, 9], vec![10, 11, 12]];
    let A = DenseMatrix::new(&rows).unwrap();
    assert_eq!(A.elements(), vec![1, 2, 3, 4, 5, 6, 7, 8, 9, 10, 11, 12]);
    assert_eq!(A.dims(), (4, 3));
    assert_eq!(A.read_order(), ReadOrder::RowMajor);
}

#[test]
fn zero_is_additive_identity() {
    let D = sample_dense();
    let S = sample_sparse();
    let Z: ZeroMatrix<i32> = ZeroMatrix::new(2, 3);
    assert_eq!(Z.clone() + D.clone(), D);
    assert_eq!(D.clone() + Z.clone(), D);
    assert_eq!(Z.clone() + S.clone(), S);
    assert_eq!(S.clone() + Z.clone(), S);
    assert_eq!(Z.clone() + Z.clone(), Z);
    let I: IdentityMatrix<i32> = IdentityMatrix::new(3);
    let Z3: ZeroMatrix<i32> = ZeroMatrix::new(3, 3);
    assert_eq!(Z3.clone() + I.clone(), I);
    assert_eq!(I.clone() + Z3, I);
}

#[test]
fn identity_is_multiplicative_unit() {
    let D = sample_dense();
    let S = sample_sparse();
    let Z: ZeroMatrix<i32> = ZeroMatrix::new(2, 3);
    let I2: IdentityMatrix<i32> = IdentityMatrix::new(2);
    let I3: IdentityMatrix<i32> = IdentityMatrix::new(3);
    assert_eq!(I2.clone() * D.clone(), D);
    assert_eq!(D.clone() * I3.clone(), D);
    assert_eq!(I2.clone() * S.clone(), S);
    assert_eq!(S.clone() * I3.clone(), S);
    assert_eq!(I2.clone() * Z.clone(), Z);
    assert_eq!(Z.clone() * I3.clone(), Z);
    assert_eq!(I2.clone() * I2.clone(), I2);
}

#[test]
fn identity_unit_agrees_with_the_general_product() {
    let D = sample_dense();
    let I2 = DenseMatrix::<i32>::identity(2);
    let I3 = DenseMatrix::<i32>::identity(3);
    assert_eq!(I2 * D.clone(), D);
    assert_eq!(D.clone() * I3, D);
}

#[test]
fn transpose_involution() {
    let D = sample_dense();
    let Dt = D.clone().transpose();
    assert_eq!(Dt.dims(), (3, 2));
    assert_eq!(Dt.read_order(), ReadOrder::ColMajor);
    for i in 0..2 {
        for j in 0..3 {
            assert_eq!(Dt.get(j, i), D.get(i, j));
        }
    }
    assert_eq!(Dt.get(2, 1), Some(6));
    assert_eq!(Dt.get(1, 2), None);
    assert_eq!(Dt.elements(), vec![1, 4, 2, 5, 3, 6]);
    assert_eq!(Dt.transpose(), D);

    let S = sample_sparse();
    let St = S.clone().transpose();
    assert_eq!(St.dims(), (3, 2));
    for i in 0..2 {
        for j in 0..3 {
            assert_eq!(St.get(j, i), S.get(i, j));
        }
    }
    assert_eq!(St.get(2, 1), Some(7));
    assert_eq!(St.transpose(), S);

    let Z: ZeroMatrix<i32> = ZeroMatrix::new(2, 3);
    let Zt = Z.clone().transpose();
    assert_eq!(Zt.dims(), (3, 2));
    assert_eq!(Zt.get(2, 1), Some(0));
    assert_eq!(Zt.transpose(), Z);

    let I: IdentityMatrix<i32> = IdentityMatrix::new(3);
    let It = I.clone().transpose();
    assert_eq!(It.get(1, 1), Some(1));
    assert_eq!(It.get(1, 2), Some(0));
    assert_eq!(It.transpose(), I);
}

#[test]
fn transposed_matrices_can_be_written() {
    let mut Dt = sample_dense().transpose();
    assert_eq!(Dt.set(2, 0, 30), Some(30));
    assert_eq!(Dt.set(0, 2, 30), None);
    let D = Dt.transpose();
    assert_eq!(D, DenseMatrix::new(&[vec![1, 2, 30], vec![4, 5, 6]]).unwrap());

    let mut St = sample_sparse().transpose();
    assert_eq!(St.set(2, 0, 30), Some(30));
    assert_eq!(St.set(0, 2, 30), None);
    let S = St.transpose();
    assert_eq!(S.get(0, 2), Some(30));
    assert_eq!(S.get(0, 1), Some(-1));
}

#[test]
fn equality_is_symmetric() {
    let D = DenseMatrix::<i32>::new(&[vec![1, 0], vec![0, 1]]).unwrap();
    let D0 = DenseMatrix::<i32>::new(&[vec![0, 0], vec![0, 0]]).unwrap();
    let S = SparseMatrix::<i32>::from_tuple(vec![(0, 0, 1), (1, 1, 1)], 2, 2);
    let S0 = SparseMatrix::<i32>::new(2, 2);
    let I: IdentityMatrix<i32> = IdentityMatrix::new(2);
    let Z: ZeroMatrix<i32> = ZeroMatrix::new(2, 2);

    assert_eq!(D == S, S == D);
    assert!(D == S);
    assert_eq!(D == I, I == D);
    assert!(D == I);
    assert_eq!(D == Z, Z == D);
    assert!(D != Z);
    assert_eq!(D0 == Z, Z == D0);
    assert!(D0 == Z);
    assert_eq!(S == I, I == S);
    assert!(S == I);
    assert_eq!(S == Z, Z == S);
    assert!(S != Z);
    assert_eq!(S0 == Z, Z == S0);
    assert!(S0 == Z);
    assert_eq!(S0 == I, I == S0);
    assert!(S0 != I);
    assert_eq!(D0 == S0, S0 == D0);
    assert!(D0 == S0);
    assert_eq!(I == Z, Z == I);
    assert!(I != Z);
    assert_eq!(S == S0, S0 == S);
    assert!(S != S0);
}

#[test]
fn shapes_decide_before_entries() {
    let D23 = DenseMatrix::<i32>::zeros(2, 3);
    let D32 = DenseMatrix::<i32>::zeros(3, 2);
    assert!(D23 != D32);
    let S23 = SparseMatrix::<i32>::new(2, 3);
    let S32 = SparseMatrix::<i32>::new(3, 2);
    assert!(S23 != S32);
    assert!(D23 != S32);
    assert!(S23 != D32);
    let I2: IdentityMatrix<i32> = IdentityMatrix::new(2);
    let D3 = DenseMatrix::<i32>::identity(3);
    assert!(I2 != D3);
    assert!(D3 != I2);
    let Z: ZeroMatrix<i32> = ZeroMatrix::new(3, 2);
    assert!(D23 != Z);
    assert!(S23 != Z);
    assert!(Z != D23);
    assert!(Z != S23);
}

#[test]
fn empty_identity_equals_empty_zero() {
    let I: IdentityMatrix<i32> = IdentityMatrix::new(0);
    let Z: ZeroMatrix<i32> = ZeroMatrix::new(0, 0);
    let D = DenseMatrix::<i32>::from_vec(Vec::new(), 0, 0, None).unwrap();
    assert!(I == D);
    assert!(D == Z);
    assert!(I == Z);
    assert!(Z == I);
    let Z05: ZeroMatrix<i32> = ZeroMatrix::new(0, 5);
    assert!(I != Z05);
}

#[test]
fn trace_is_the_sum_of_the_diagonal() {
    let D = DenseMatrix::<i32>::new(&[vec![1, 2, 3], vec![4, 5, 6]]).unwrap();
    assert_eq!(D.diags(), vec![1, 5]);
    assert_eq!(D.trace(), 6);
    assert_eq!(D.clone().transpose().trace(), 6);

    let S = SparseMatrix::<i32>::from_tuple(vec![(0, 0, 4), (1, 1, -9), (1, 2, 100)], 2, 3);
    assert_eq!(S.diags(), vec![4, -9]);
    assert_eq!(S.trace(), -5);

    let I: IdentityMatrix<i64> = IdentityMatrix::new(1000);
    assert_eq!(I.trace(), 1000);
    let I3: IdentityMatrix<i32> = IdentityMatrix::new(3);
    assert_eq!(I3.diags(), vec![1, 1, 1]);

    let Z: ZeroMatrix<i32> = ZeroMatrix::new(5, 7);
    assert_eq!(Z.trace(), 0);
    assert_eq!(Z.diags(), vec![0; 5]);
}

#[test]
fn scenario_zero_dense_equivalence() {
    let A1 = DenseMatrix::from_vec(vec![0; 4 * 20], 4, 20, None).unwrap();
    let Z = ZeroMatrix::new(4, 20);
    assert_eq!(A1, Z);
    assert_eq!(Z, A1);
}

#[test]
fn scenario_sparse_dense_equivalence() {
    let A3 = DenseMatrix::new(&[vec![0, -1, 0], vec![0, 0, 0], vec![3, 0, 0]]).unwrap();
    let B3 = SparseMatrix::from_tuple(vec![(0, 1, -1), (2, 0, 3)], 3, 3);
    assert_eq!(A3, B3);
    assert_eq!(B3, A3);
}

#[test]
fn clones_do_not_share_cells() {
    let mut D = sample_dense();
    let kept = D.clone();
    D.set(0, 0, 100);
    assert_eq!(kept.get(0, 0), Some(1));
    assert_eq!(D.get(0, 0), Some(100));

    let mut S = sample_sparse();
    let kept = S.clone();
    S.set(0, 0, 100);
    assert_eq!(kept.get(0, 0), Some(0));
    assert_eq!(S.get(0, 0), Some(100));
}
