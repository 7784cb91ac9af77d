#![allow(non_snake_case)]
use rola::{DenseMatrix, IdentityMatrix, Matrix, SparseMatrix, ZeroMatrix};

fn answers<M: Matrix<i32>>(m: &M) -> [bool; 11] {
    [
        m.is_symmetric(),
        m.is_orthogonal(),
        m.is_diagonal(),
        m.is_lower_triangular(),
        m.is_unilower_triangular(),
        m.is_strictly_lower_triangular(),
        m.is_lower_hessenberg(),
        m.is_upper_triangular(),
        m.is_uniupper_triangular(),
        m.is_strictly_upper_triangular(),
        m.is_upper_hessenberg(),
    ]
}

fn sparse_of(rows: &[Vec<i32>]) -> SparseMatrix<i32> {
    let mut triples = Vec::new();
    for (i, row) in rows.iter().enumerate() {
        for (j, v) in row.iter().enumerate() {
            if *v != 0 {
                triples.push((i, j, *v));
            }
        }
    }
    SparseMatrix::from_tuple(triples, rows.len(), rows[0].len())
}

fn both(rows: &[Vec<i32>], want: [bool; 11]) {
    assert_eq!(answers(&DenseMatrix::new(rows).unwrap()), want);
    assert_eq!(answers(&sparse_of(rows)), want);
}

#[test]
fn identity_answers() {
    let I: IdentityMatrix<i32> = IdentityMatrix::new(4);
    let want = [true, true, true, true, true, false, true, true, true, false, true];
    assert_eq!(answers(&I), want);
    assert_eq!(answers(&DenseMatrix::<i32>::identity(4)), want);
    assert!(I.is_square());
    assert!(I.has_unit_diagonal());
    assert!(I.has_zero_above(1));
    assert!(!I.has_zero_above(0));
    assert!(I.has_zero_below(1));
    assert!(!I.has_zero_below(0));
}

#[test]
fn zero_answers() {
    let Z: ZeroMatrix<i32> = ZeroMatrix::new(3, 3);
    let want = [true, false, true, true, false, true, true, true, false, true, true];
    assert_eq!(answers(&Z), want);
    assert_eq!(answers(&DenseMatrix::<i32>::zeros(3, 3)), want);
    assert_eq!(answers(&SparseMatrix::<i32>::new(3, 3)), want);

    let R: ZeroMatrix<i32> = ZeroMatrix::new(2, 3);
    let want = [false, false, true, false, false, false, false, false, false, false, false];
    assert_eq!(answers(&R), want);
    assert_eq!(answers(&DenseMatrix::<i32>::zeros(2, 3)), want);
    assert_eq!(answers(&SparseMatrix::<i32>::new(2, 3)), want);
    assert!(!R.is_square());
    assert!(!R.has_unit_diagonal());
    assert!(R.has_zero_above(0));
    assert!(R.has_zero_below(0));
}

#[test]
fn empty_matrices_answer_yes() {
    let want = [true; 11];
    let I: IdentityMatrix<i32> = IdentityMatrix::new(0);
    assert_eq!(answers(&I), want);
    let Z: ZeroMatrix<i32> = ZeroMatrix::new(0, 0);
    assert_eq!(answers(&Z), want);
    assert_eq!(answers(&DenseMatrix::<i32>::zeros(0, 0)), want);
    assert_eq!(answers(&SparseMatrix::<i32>::new(0, 0)), want);
}

#[test]
fn triangular_shapes() {
    // symmetric, orthogonal, diagonal, lower, unilower, strictly lower, lower
    // Hessenberg, upper, uniupper, strictly upper, upper Hessenberg
    both(
        &[vec![1, 0, 0], vec![2, 1, 0], vec![3, 4, 1]],
        [false, false, false, true, true, false, true, false, false, false, false],
    );
    both(
        &[vec![2, 0, 0], vec![2, 1, 0], vec![0, 4, 1]],
        [false, false, false, true, false, false, true, false, false, false, true],
    );
    both(
        &[vec![0, 0, 0], vec![2, 0, 0], vec![3, 4, 0]],
        [false, false, false, true, false, true, true, false, false, false, false],
    );
    both(
        &[vec![1, 5, 6], vec![0, 1, 7], vec![0, 0, 1]],
        [false, false, false, false, false, false, false, true, true, false, true],
    );
    both(
        &[vec![0, 5, 6], vec![0, 0, 7], vec![0, 0, 0]],
        [false, false, false, false, false, false, false, true, false, true, true],
    );
    both(
        &[vec![1, 5, 0], vec![2, 1, 7], vec![3, 4, 1]],
        [false, false, false, false, false, false, true, false, false, false, false],
    );
    both(
        &[vec![1, 5, 9], vec![2, 1, 7], vec![0, 4, 1]],
        [false, false, false, false, false, false, false, false, false, false, true],
    );
}

#[test]
fn symmetric_and_diagonal() {
    both(
        &[vec![1, 5, 9], vec![5, 2, 7], vec![9, 7, 3]],
        [true, false, false, false, false, false, false, false, false, false, false],
    );
    both(
        &[vec![1, 5, 9], vec![5, 2, 7], vec![9, 8, 3]],
        [false; 11],
    );
    both(
        &[vec![4, 0, 0], vec![0, 5, 0], vec![0, 0, 6]],
        [true, false, true, true, false, false, true, true, false, false, true],
    );
    // a wide matrix can be diagonal, and is nothing that asks for a square
    both(
        &[vec![4, 0, 0], vec![0, 5, 0]],
        [false, false, true, false, false, false, false, false, false, false, false],
    );
    both(&[vec![4, 0, 1], vec![0, 5, 0]], [false; 11]);
}

#[test]
fn orthogonal_matrices_are_signed_permutations() {
    both(
        &[vec![0, 1, 0], vec![0, 0, -1], vec![1, 0, 0]],
        [false, true, false, false, false, false, true, false, false, false, false],
    );
    both(
        &[vec![0, 1], vec![1, 0]],
        [true, true, false, false, false, false, true, false, false, false, true],
    );
    let D = DenseMatrix::<i32>::new(&[vec![1, 1], vec![0, 1]]).unwrap();
    assert!(!D.is_orthogonal());
    let D = DenseMatrix::<i32>::new(&[vec![2, 0], vec![0, 1]]).unwrap();
    assert!(!D.is_orthogonal());
    let D = DenseMatrix::<i32>::new(&[vec![1, 0, 0], vec![0, 1, 0]]).unwrap();
    assert!(!D.is_orthogonal());
}

#[test]
fn predicates_follow_a_transpose() {
    let L = DenseMatrix::<i32>::new(&[vec![1, 0, 0], vec![2, 1, 0], vec![3, 4, 1]]).unwrap();
    assert!(L.is_unilower_triangular());
    let U = L.transpose();
    assert!(U.is_uniupper_triangular());
    assert!(!U.is_lower_triangular());
    let S = sparse_of(&[vec![0, 0, 0], vec![2, 0, 0], vec![3, 4, 0]]);
    assert!(S.is_strictly_lower_triangular());
    let St = S.transpose();
    assert!(St.is_strictly_upper_triangular());
    assert!(!St.is_lower_hessenberg());
    assert!(St.has_zero_below(0));
    assert!(!St.has_zero_above(1));
    assert!(!St.has_zero_above(2));
}
