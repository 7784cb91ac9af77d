use vstd::prelude::*;
use core::marker::PhantomData;
use crate::grid::Grid;
use crate::matrix::Matrix;
use crate::scalar::Scalar;

verus! {

/// A square matrix with ones on the main diagonal and zeros elsewhere. It
/// holds its dimension and no data.
#[derive(Debug)]
pub struct IdentityMatrix<T> {
    n: usize,
    mat: PhantomData<T>,
}

impl<T: Scalar> IdentityMatrix<T> {
    pub fn new(n: usize) -> (r: IdentityMatrix<T>)
        ensures
            r@ == Grid::identity(n as nat),
    {
        IdentityMatrix { n, mat: PhantomData }
    }

    /// An `IdentityMatrix` is square, with ones on its diagonal and zeros
    /// elsewhere.
    pub proof fn lemma_value(&self)
        ensures
            self@ == Grid::identity(self@.rows),
    {
    }

    /// Start handing out the entries in row major order.
    pub fn into_iter(self) -> (r: IdentityMatrixIntoIterator<T>)
        ensures
            r.grid() == self@,
            r.cursor() == (0nat, 0nat),
    {
        IdentityMatrixIntoIterator { i: 0, j: 0, mat: self }
    }
}

impl<T: Scalar> Clone for IdentityMatrix<T> {
    fn clone(&self) -> (r: Self)
        ensures
            r == *self,
    {
        IdentityMatrix { n: self.n, mat: PhantomData }
    }
}

impl<T: Scalar> Matrix<T> for IdentityMatrix<T> {
    closed spec fn view(&self) -> Grid {
        Grid::identity(self.n as nat)
    }

    open spec fn settable(&self) -> bool {
        false
    }

    open spec fn transposed(self) -> Self {
        self
    }

    proof fn lemma_view(&self) {
        T::lemma_unit_fits();
    }

    proof fn lemma_transposed(self) {
        Grid::lemma_equal(self@, self@.transposed());
    }

    fn is_symmetric(&self) -> (r: bool) {
        true
    }

    fn is_orthogonal(&self) -> (r: bool) {
        proof {
            assert forall|i: int, j: int| self@.in_range(i, j) implies #[trigger] self@.col_dot(
                i,
                j,
                self@.rows,
            ) == (if i == j {
                1int
            } else {
                0int
            }) by {
                lemma_identity_col_dot(self@, i, j, self@.rows);
            }
        }
        true
    }

    fn is_diagonal(&self) -> (r: bool) {
        true
    }

    fn has_zero_above(&self, d: usize) -> (r: bool) {
        proof {
            if self.n > 0 {
                assert(self@.at(0, 0) == 1);
            }
        }
        d >= 1 || self.n == 0
    }

    fn has_zero_below(&self, d: usize) -> (r: bool) {
        proof {
            if self.n > 0 {
                assert(self@.at(0, 0) == 1);
            }
        }
        d >= 1 || self.n == 0
    }

    fn has_unit_diagonal(&self) -> (r: bool) {
        true
    }

    fn trace(&self) -> (r: T) {
        proof {
            lemma_identity_diag_sum(self@, self@.diag_len());
            assert(T::fits(self@.diag_sum(self@.diag_len())));
        }
        let x = T::from_usize(self.n);
        match x {
            Some(e) => e,
            None => vstd::pervasive::unreached(),
        }
    }

    fn transpose(self) -> (r: Self) {
        proof {
            self.lemma_transposed();
        }
        self
    }

    fn rows(&self) -> (r: usize) {
        self.n
    }

    fn cols(&self) -> (r: usize) {
        self.n
    }

    fn get(&self, i: usize, j: usize) -> (r: Option<T>) {
        if i >= self.rows() || j >= self.cols() {
            return None;
        }
        if i != j {
            Some(T::zero())
        } else {
            Some(T::one())
        }
    }

    fn set(&mut self, i: usize, j: usize, val: T) -> (r: Option<T>) {
        if i >= self.rows() || j >= self.cols() {
            return None;
        }
        vstd::pervasive::unreached()
    }
}

/// The first `k` entries of the main diagonal of an identity sum to `k`.
pub proof fn lemma_identity_diag_sum(g: Grid, k: nat)
    requires
        g == Grid::identity(g.rows),
        k <= g.diag_len(),
    ensures
        g.diag_sum(k) == k,
    decreases k,
{
    if k > 0 {
        lemma_identity_diag_sum(g, (k - 1) as nat);
        assert(g.at(k - 1, k - 1) == 1);
    }
}

/// Two columns of an identity are orthogonal, and each has length one once
/// its diagonal entry is counted.
pub proof fn lemma_identity_col_dot(g: Grid, i: int, j: int, k: nat)
    requires
        g == Grid::identity(g.rows),
        0 <= i < g.cols,
        0 <= j < g.cols,
        k <= g.rows,
    ensures
        g.col_dot(i, j, k) == (if i == j && i < k {
            1int
        } else {
            0int
        }),
    decreases k,
{
    if k > 0 {
        lemma_identity_col_dot(g, i, j, (k - 1) as nat);
        let a = g.at(k - 1, i);
        let b = g.at(k - 1, j);
        assert(a == (if k - 1 == i { 1int } else { 0int }));
        assert(b == (if k - 1 == j { 1int } else { 0int }));
        assert(a * b == (if k - 1 == i && k - 1 == j { 1int } else { 0int })) by (nonlinear_arith)
            requires
                a == (if k - 1 == i { 1int } else { 0int }),
                b == (if k - 1 == j { 1int } else { 0int }),
        ;
    }
}

/// Hands out the entries of an `IdentityMatrix` one by one, in row major
/// order.
pub struct IdentityMatrixIntoIterator<T> {
    i: usize,
    j: usize,
    mat: IdentityMatrix<T>,
}

impl<T: Scalar> IdentityMatrixIntoIterator<T> {
    /// The value of the matrix that is walked.
    pub closed spec fn grid(&self) -> Grid {
        self.mat@
    }

    /// The position of the entry that comes next.
    pub closed spec fn cursor(&self) -> (nat, nat) {
        (self.i as nat, self.j as nat)
    }

    /// The entry at the cursor, which then moves on in row major order;
    /// `None` once the cursor has left the matrix.
    pub fn next(&mut self) -> (r: Option<T>)
        ensures
            final(self).grid() == old(self).grid(),
            match r {
                Some(x) => {
                    &&& old(self).grid().in_range(old(self).cursor().0 as int, old(self).cursor().1 as int)
                    &&& x.val() == old(self).grid().at(old(self).cursor().0 as int, old(self).cursor().1 as int)
                    &&& final(self).cursor() == old(self).grid().successor(
                        old(self).cursor().0,
                        old(self).cursor().1,
                    )
                },
                None => {
                    &&& !old(self).grid().in_range(old(self).cursor().0 as int, old(self).cursor().1 as int)
                    &&& final(self).cursor() == old(self).cursor()
                },
            },
    {
        let result = self.mat.get(self.i, self.j);
        if result.is_some() {
            if self.j + 1 < self.mat.cols() {
                self.j += 1;
            } else {
                self.j = 0;
                self.i += 1;
            }
        }
        result
    }
}

} // verus!
