use vstd::prelude::*;
use vstd::std_specs::cmp::PartialEqSpecImpl;
use crate::dense::DenseMatrix;
use crate::grid::Grid;
use crate::matrix::Matrix;
use crate::scalar::Scalar;
use crate::sparse::{IdentityMatrix, SparseMatrix, ZeroMatrix};

verus! {

/// Compare two matrices entry by entry over the full grid.
pub fn same_entries<T: Scalar, A: Matrix<T>, B: Matrix<T>>(a: &A, b: &B) -> (r: bool)
    ensures
        r == (a@ == b@),
{
    proof {
        a.lemma_view();
        b.lemma_view();
    }
    if a.rows() != b.rows() || a.cols() != b.cols() {
        return false;
    }
    let rows = a.rows();
    let cols = a.cols();
    let mut i: usize = 0;
    while i < rows
        invariant
            i <= rows,
            rows == a@.rows,
            cols == a@.cols,
            rows == b@.rows,
            cols == b@.cols,
            forall|x: int, y: int| 0 <= x < i && 0 <= y < cols ==> a@.at(x, y) == b@.at(x, y),
        decreases rows - i,
    {
        let mut j: usize = 0;
        while j < cols
            invariant
                i < rows,
                j <= cols,
                rows == a@.rows,
                cols == a@.cols,
                rows == b@.rows,
                cols == b@.cols,
                forall|x: int, y: int| 0 <= x < i && 0 <= y < cols ==> a@.at(x, y) == b@.at(x, y),
                forall|y: int| 0 <= y < j ==> a@.at(i as int, y) == b@.at(i as int, y),
            decreases cols - j,
        {
            let x = a.get(i, j);
            let y = b.get(i, j);
            match (x, y) {
                (Some(e), Some(f)) => {
                    if !e.equals(f) {
                        assert(a@.at(i as int, j as int) != b@.at(i as int, j as int));
                        return false;
                    }
                },
                _ => {},
            }
            j += 1;
        }
        i += 1;
    }
    proof {
        Grid::lemma_equal(a@, b@);
    }
    true
}

/// Check that a matrix is square, diagonal, and has ones on its diagonal.
pub fn is_identity<T: Scalar, A: Matrix<T>>(a: &A) -> (r: bool)
    ensures
        r == (a@ == Grid::identity(a@.rows)),
{
    proof {
        a.lemma_view();
    }
    let r = a.is_square() && a.is_diagonal() && a.has_unit_diagonal();
    proof {
        let id = Grid::identity(a@.rows);
        if r {
            assert forall|i: int, j: int| a@.in_range(i, j) implies a@.at(i, j) == id.at(i, j) by {
                if i == j {
                } else if j - i >= 1 {
                } else {
                    assert(i - j >= 1);
                }
            }
            Grid::lemma_equal(a@, id);
        } else if a@ == id {
            assert forall|i: int, j: int| a@.in_range(i, j) && j - i >= 1 implies #[trigger] a@.at(
                i,
                j,
            ) == 0 by {
                assert(id.at(i, j) == 0);
            }
            assert forall|i: int, j: int| a@.in_range(i, j) && i - j >= 1 implies #[trigger] a@.at(
                i,
                j,
            ) == 0 by {
                assert(id.at(i, j) == 0);
            }
            assert forall|i: int| 0 <= i < a@.diag_len() implies #[trigger] a@.at(i, i) == 1 by {
                assert(id.at(i, i) == 1);
            }
        }
    }
    r
}

/// Check that every entry of a matrix is zero.
pub fn is_zero<T: Scalar, A: Matrix<T>>(a: &A) -> (r: bool)
    ensures
        r == (a@ == Grid::zero(a@.rows, a@.cols)),
{
    proof {
        a.lemma_view();
    }
    let r = a.has_zero_above(0) && a.has_zero_below(1);
    proof {
        let zero = Grid::zero(a@.rows, a@.cols);
        if r {
            assert forall|i: int, j: int| a@.in_range(i, j) implies a@.at(i, j) == zero.at(i, j) by {
                if j - i >= 0 {
                } else {
                    assert(i - j >= 1);
                }
            }
            Grid::lemma_equal(a@, zero);
        } else if a@ == zero {
            assert forall|i: int, j: int| a@.in_range(i, j) && j - i >= 0 implies #[trigger] a@.at(
                i,
                j,
            ) == 0 by {
                assert(zero.at(i, j) == 0);
            }
            assert forall|i: int, j: int| a@.in_range(i, j) && i - j >= 1 implies #[trigger] a@.at(
                i,
                j,
            ) == 0 by {
                assert(zero.at(i, j) == 0);
            }
        }
    }
    r
}

/// An identity and a matrix of zeros are equal only where both are empty.
pub proof fn lemma_identity_is_not_zero(n: nat, rows: nat, cols: nat)
    ensures
        (Grid::identity(n) == Grid::zero(rows, cols)) == (n == 0 && rows == 0 && cols == 0),
{
    let id = Grid::identity(n);
    let zero = Grid::zero(rows, cols);
    if n == 0 && rows == 0 && cols == 0 {
        Grid::lemma_equal(id, zero);
    } else if id == zero {
        assert(id.at(0, 0) == 1);
        assert(zero.at(0, 0) == 0);
    }
}

impl<T: Scalar> PartialEq for ZeroMatrix<T> {
    /// Two matrices of zeros are equal when their shapes are.
    fn eq(&self, other: &ZeroMatrix<T>) -> (r: bool) {
        proof {
            self.lemma_value();
            other.lemma_value();
        }
        self.rows() == other.rows() && self.cols() == other.cols()
    }
}

impl<T: Scalar> PartialEqSpecImpl for ZeroMatrix<T> {
    open spec fn obeys_eq_spec() -> bool {
        true
    }

    /// Equal matrices have the same shape and the same entries.
    open spec fn eq_spec(&self, other: &ZeroMatrix<T>) -> bool {
        self@ == other@
    }
}

impl<T: Scalar> PartialEq<IdentityMatrix<T>> for ZeroMatrix<T> {
    /// An identity and a matrix of zeros are equal only where both are empty.
    fn eq(&self, other: &IdentityMatrix<T>) -> (r: bool) {
        proof {
            self.lemma_value();
            other.lemma_value();
            lemma_identity_is_not_zero(other@.rows, self@.rows, self@.cols);
        }
        other.rows() == 0 && self.rows() == 0 && self.cols() == 0
    }
}

impl<T: Scalar> PartialEqSpecImpl<IdentityMatrix<T>> for ZeroMatrix<T> {
    open spec fn obeys_eq_spec() -> bool {
        true
    }

    /// Equal matrices have the same shape and the same entries.
    open spec fn eq_spec(&self, other: &IdentityMatrix<T>) -> bool {
        self@ == other@
    }
}

impl<T: Scalar> PartialEq<DenseMatrix<T>> for ZeroMatrix<T> {
    /// A matrix equals a matrix of zeros when it has its shape and all its
    /// entries are zero.
    fn eq(&self, other: &DenseMatrix<T>) -> (r: bool) {
        proof {
            self.lemma_value();
        }
        self.rows() == other.rows() && self.cols() == other.cols() && is_zero(other)
    }
}

impl<T: Scalar> PartialEqSpecImpl<DenseMatrix<T>> for ZeroMatrix<T> {
    open spec fn obeys_eq_spec() -> bool {
        true
    }

    /// Equal matrices have the same shape and the same entries.
    open spec fn eq_spec(&self, other: &DenseMatrix<T>) -> bool {
        self@ == other@
    }
}

impl<T: Scalar> PartialEq<SparseMatrix<T>> for ZeroMatrix<T> {
    /// A matrix equals a matrix of zeros when it has its shape and all its
    /// entries are zero.
    fn eq(&self, other: &SparseMatrix<T>) -> (r: bool) {
        proof {
            self.lemma_value();
        }
        self.rows() == other.rows() && self.cols() == other.cols() && is_zero(other)
    }
}

impl<T: Scalar> PartialEqSpecImpl<SparseMatrix<T>> for ZeroMatrix<T> {
    open spec fn obeys_eq_spec() -> bool {
        true
    }

    /// Equal matrices have the same shape and the same entries.
    open spec fn eq_spec(&self, other: &SparseMatrix<T>) -> bool {
        self@ == other@
    }
}

impl<T: Scalar> PartialEq<ZeroMatrix<T>> for IdentityMatrix<T> {
    /// An identity and a matrix of zeros are equal only where both are empty.
    fn eq(&self, other: &ZeroMatrix<T>) -> (r: bool) {
        proof {
            self.lemma_value();
            other.lemma_value();
            lemma_identity_is_not_zero(self@.rows, other@.rows, other@.cols);
        }
        self.rows() == 0 && other.rows() == 0 && other.cols() == 0
    }
}

impl<T: Scalar> PartialEqSpecImpl<ZeroMatrix<T>> for IdentityMatrix<T> {
    open spec fn obeys_eq_spec() -> bool {
        true
    }

    /// Equal matrices have the same shape and the same entries.
    open spec fn eq_spec(&self, other: &ZeroMatrix<T>) -> bool {
        self@ == other@
    }
}

impl<T: Scalar> PartialEq for IdentityMatrix<T> {
    /// Two identities are equal when their dimensions are.
    fn eq(&self, other: &IdentityMatrix<T>) -> (r: bool) {
        proof {
            self.lemma_value();
            other.lemma_value();
        }
        self.rows() == other.rows()
    }
}

impl<T: Scalar> PartialEqSpecImpl for IdentityMatrix<T> {
    open spec fn obeys_eq_spec() -> bool {
        true
    }

    /// Equal matrices have the same shape and the same entries.
    open spec fn eq_spec(&self, other: &IdentityMatrix<T>) -> bool {
        self@ == other@
    }
}

impl<T: Scalar> PartialEq<DenseMatrix<T>> for IdentityMatrix<T> {
    /// A matrix equals an identity when it has its dimension, is diagonal, and
    /// has ones on its diagonal.
    fn eq(&self, other: &DenseMatrix<T>) -> (r: bool) {
        proof {
            self.lemma_value();
        }
        self.rows() == other.rows() && is_identity(other)
    }
}

impl<T: Scalar> PartialEqSpecImpl<DenseMatrix<T>> for IdentityMatrix<T> {
    open spec fn obeys_eq_spec() -> bool {
        true
    }

    /// Equal matrices have the same shape and the same entries.
    open spec fn eq_spec(&self, other: &DenseMatrix<T>) -> bool {
        self@ == other@
    }
}

impl<T: Scalar> PartialEq<SparseMatrix<T>> for IdentityMatrix<T> {
    /// A matrix equals an identity when it has its dimension, is diagonal, and
    /// has ones on its diagonal.
    fn eq(&self, other: &SparseMatrix<T>) -> (r: bool) {
        proof {
            self.lemma_value();
        }
        self.rows() == other.rows() && is_identity(other)
    }
}

impl<T: Scalar> PartialEqSpecImpl<SparseMatrix<T>> for IdentityMatrix<T> {
    open spec fn obeys_eq_spec() -> bool {
        true
    }

    /// Equal matrices have the same shape and the same entries.
    open spec fn eq_spec(&self, other: &SparseMatrix<T>) -> bool {
        self@ == other@
    }
}

impl<T: Scalar> PartialEq<ZeroMatrix<T>> for DenseMatrix<T> {
    /// A matrix equals a matrix of zeros when it has its shape and all its
    /// entries are zero.
    fn eq(&self, other: &ZeroMatrix<T>) -> (r: bool) {
        proof {
            other.lemma_value();
        }
        self.rows() == other.rows() && self.cols() == other.cols() && is_zero(self)
    }
}

impl<T: Scalar> PartialEqSpecImpl<ZeroMatrix<T>> for DenseMatrix<T> {
    open spec fn obeys_eq_spec() -> bool {
        true
    }

    /// Equal matrices have the same shape and the same entries.
    open spec fn eq_spec(&self, other: &ZeroMatrix<T>) -> bool {
        self@ == other@
    }
}

impl<T: Scalar> PartialEq<IdentityMatrix<T>> for DenseMatrix<T> {
    /// A matrix equals an identity when it has its dimension, is diagonal, and
    /// has ones on its diagonal.
    fn eq(&self, other: &IdentityMatrix<T>) -> (r: bool) {
        proof {
            other.lemma_value();
        }
        self.rows() == other.rows() && is_identity(self)
    }
}

impl<T: Scalar> PartialEqSpecImpl<IdentityMatrix<T>> for DenseMatrix<T> {
    open spec fn obeys_eq_spec() -> bool {
        true
    }

    /// Equal matrices have the same shape and the same entries.
    open spec fn eq_spec(&self, other: &IdentityMatrix<T>) -> bool {
        self@ == other@
    }
}

impl<T: Scalar> PartialEq for DenseMatrix<T> {
    /// Compared entry by entry over the full grid.
    fn eq(&self, other: &DenseMatrix<T>) -> (r: bool) {
        same_entries(self, other)
    }
}

impl<T: Scalar> PartialEqSpecImpl for DenseMatrix<T> {
    open spec fn obeys_eq_spec() -> bool {
        true
    }

    /// Equal matrices have the same shape and the same entries.
    open spec fn eq_spec(&self, other: &DenseMatrix<T>) -> bool {
        self@ == other@
    }
}

impl<T: Scalar> PartialEq<SparseMatrix<T>> for DenseMatrix<T> {
    /// Compared entry by entry over the full grid.
    fn eq(&self, other: &SparseMatrix<T>) -> (r: bool) {
        same_entries(self, other)
    }
}

impl<T: Scalar> PartialEqSpecImpl<SparseMatrix<T>> for DenseMatrix<T> {
    open spec fn obeys_eq_spec() -> bool {
        true
    }

    /// Equal matrices have the same shape and the same entries.
    open spec fn eq_spec(&self, other: &SparseMatrix<T>) -> bool {
        self@ == other@
    }
}

impl<T: Scalar> PartialEq<ZeroMatrix<T>> for SparseMatrix<T> {
    /// A matrix equals a matrix of zeros when it has its shape and all its
    /// entries are zero.
    fn eq(&self, other: &ZeroMatrix<T>) -> (r: bool) {
        proof {
            other.lemma_value();
        }
        self.rows() == other.rows() && self.cols() == other.cols() && is_zero(self)
    }
}

impl<T: Scalar> PartialEqSpecImpl<ZeroMatrix<T>> for SparseMatrix<T> {
    open spec fn obeys_eq_spec() -> bool {
        true
    }

    /// Equal matrices have the same shape and the same entries.
    open spec fn eq_spec(&self, other: &ZeroMatrix<T>) -> bool {
        self@ == other@
    }
}

impl<T: Scalar> PartialEq<IdentityMatrix<T>> for SparseMatrix<T> {
    /// A matrix equals an identity when it has its dimension, is diagonal, and
    /// has ones on its diagonal.
    fn eq(&self, other: &IdentityMatrix<T>) -> (r: bool) {
        proof {
            other.lemma_value();
        }
        self.rows() == other.rows() && is_identity(self)
    }
}

impl<T: Scalar> PartialEqSpecImpl<IdentityMatrix<T>> for SparseMatrix<T> {
    open spec fn obeys_eq_spec() -> bool {
        true
    }

    /// Equal matrices have the same shape and the same entries.
    open spec fn eq_spec(&self, other: &IdentityMatrix<T>) -> bool {
        self@ == other@
    }
}

impl<T: Scalar> PartialEq<DenseMatrix<T>> for SparseMatrix<T> {
    /// Compared entry by entry over the full grid.
    fn eq(&self, other: &DenseMatrix<T>) -> (r: bool) {
        same_entries(self, other)
    }
}

impl<T: Scalar> PartialEqSpecImpl<DenseMatrix<T>> for SparseMatrix<T> {
    open spec fn obeys_eq_spec() -> bool {
        true
    }

    /// Equal matrices have the same shape and the same entries.
    open spec fn eq_spec(&self, other: &DenseMatrix<T>) -> bool {
        self@ == other@
    }
}

impl<T: Scalar> PartialEq for SparseMatrix<T> {
    /// Two sparse matrices are compared over the entries that either of
    /// them stores; a position that neither stores is zero in both.
    fn eq(&self, other: &SparseMatrix<T>) -> (r: bool) {
        proof {
            self.lemma_view();
            other.lemma_view();
        }
        if self.rows() != other.rows() || self.cols() != other.cols() {
            return false;
        }
        let r = self.entries_agree(other, false) && other.entries_agree(self, false);
        proof {
            if r {
                assert forall|i: int, j: int| self@.in_range(i, j) implies self@.at(i, j)
                    == other@.at(i, j) by {
                    if self.has_entry(i, j) {
                    } else if other.has_entry(i, j) {
                        assert(other@.in_range(i, j));
                    } else {
                        self.lemma_no_entry(i, j);
                        other.lemma_no_entry(i, j);
                    }
                }
                Grid::lemma_equal(self@, other@);
            }
        }
        r
    }
}

impl<T: Scalar> PartialEqSpecImpl for SparseMatrix<T> {
    open spec fn obeys_eq_spec() -> bool {
        true
    }

    /// Equal matrices have the same shape and the same entries.
    open spec fn eq_spec(&self, other: &SparseMatrix<T>) -> bool {
        self@ == other@
    }
}

} // verus!
