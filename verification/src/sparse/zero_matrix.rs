use vstd::prelude::*;
use core::marker::PhantomData;
use crate::grid::Grid;
use crate::matrix::Matrix;
use crate::scalar::Scalar;

verus! {

/// A matrix of zeros. It holds its dimensions and no data.
#[derive(Debug)]
pub struct ZeroMatrix<T> {
    m: usize,
    n: usize,
    mat: PhantomData<T>,
}

impl<T: Scalar> ZeroMatrix<T> {
    pub fn new(m: usize, n: usize) -> (r: ZeroMatrix<T>)
        ensures
            r@ == Grid::zero(m as nat, n as nat),
            r == Self::of(m as nat, n as nat),
    {
        ZeroMatrix { m, n, mat: PhantomData }
    }
}

impl<T: Scalar> ZeroMatrix<T> {
    /// The matrix of zeros of a given shape.
    pub closed spec fn of(m: nat, n: nat) -> ZeroMatrix<T> {
        ZeroMatrix { m: m as usize, n: n as usize, mat: PhantomData }
    }

    /// The value of the matrix of zeros of a given shape.
    pub proof fn lemma_of(m: nat, n: nat)
        requires
            m <= usize::MAX,
            n <= usize::MAX,
        ensures
            Self::of(m, n)@ == Grid::zero(m, n),
    {
    }

    /// Every entry of a `ZeroMatrix` is zero.
    pub proof fn lemma_value(&self)
        ensures
            self@ == Grid::zero(self@.rows, self@.cols),
            *self == Self::of(self@.rows, self@.cols),
    {
    }

    /// Start handing out the entries in row major order.
    pub fn into_iter(self) -> (r: ZeroMatrixIntoIterator<T>)
        ensures
            r.grid() == self@,
            r.cursor() == (0nat, 0nat),
    {
        ZeroMatrixIntoIterator { i: 0, j: 0, mat: self }
    }
}

impl<T: Scalar> Clone for ZeroMatrix<T> {
    fn clone(&self) -> (r: Self)
        ensures
            r == *self,
    {
        ZeroMatrix { m: self.m, n: self.n, mat: PhantomData }
    }
}

impl<T: Scalar> Matrix<T> for ZeroMatrix<T> {
    closed spec fn view(&self) -> Grid {
        Grid::zero(self.m as nat, self.n as nat)
    }

    open spec fn settable(&self) -> bool {
        false
    }

    closed spec fn transposed(self) -> Self {
        ZeroMatrix { m: self.n, n: self.m, mat: PhantomData }
    }

    proof fn lemma_view(&self) {
        T::lemma_unit_fits();
    }

    proof fn lemma_transposed(self) {
        Grid::lemma_equal(self.transposed()@, self@.transposed());
    }

    fn is_symmetric(&self) -> (r: bool) {
        self.is_square()
    }

    fn is_orthogonal(&self) -> (r: bool) {
        proof {
            if self.m == self.n && self.m > 0 {
                lemma_zero_col_dot(self@, 0, 0, self@.rows);
            }
        }
        self.m == 0 && self.n == 0
    }

    fn is_diagonal(&self) -> (r: bool) {
        true
    }

    fn is_lower_triangular(&self) -> (r: bool) {
        self.is_square()
    }

    fn is_unilower_triangular(&self) -> (r: bool) {
        proof {
            if self.m > 0 && self.n > 0 {
                assert(self@.at(0, 0) == 0);
            }
        }
        self.m == 0 && self.n == 0
    }

    fn is_strictly_lower_triangular(&self) -> (r: bool) {
        self.is_square()
    }

    fn is_lower_hessenberg(&self) -> (r: bool) {
        self.is_square()
    }

    fn is_upper_triangular(&self) -> (r: bool) {
        self.is_square()
    }

    fn is_uniupper_triangular(&self) -> (r: bool) {
        proof {
            if self.m > 0 && self.n > 0 {
                assert(self@.at(0, 0) == 0);
            }
        }
        self.m == 0 && self.n == 0
    }

    fn is_strictly_upper_triangular(&self) -> (r: bool) {
        self.is_square()
    }

    fn is_upper_hessenberg(&self) -> (r: bool) {
        self.is_square()
    }

    fn trace(&self) -> (r: T) {
        proof {
            lemma_zero_diag_sum(self@, self@.diag_len());
        }
        T::zero()
    }

    fn transpose(self) -> (r: Self) {
        proof {
            self.lemma_transposed();
        }
        Self::new(self.n, self.m)
    }

    fn rows(&self) -> (r: usize) {
        self.m
    }

    fn cols(&self) -> (r: usize) {
        self.n
    }

    fn get(&self, i: usize, j: usize) -> (r: Option<T>) {
        if i < self.m && j < self.n {
            Some(T::zero())
        } else {
            None
        }
    }

    fn set(&mut self, i: usize, j: usize, val: T) -> (r: Option<T>) {
        if i < self.m && j < self.n {
            vstd::pervasive::unreached()
        } else {
            None
        }
    }

    fn has_zero_above(&self, d: usize) -> (r: bool) {
        true
    }

    fn has_zero_below(&self, d: usize) -> (r: bool) {
        true
    }

    fn has_unit_diagonal(&self) -> (r: bool) {
        proof {
            if self.m > 0 && self.n > 0 {
                assert(self@.at(0, 0) == 0);
            }
        }
        self.m == 0 || self.n == 0
    }
}

/// The main diagonal of a grid of zeros sums to zero.
pub proof fn lemma_zero_diag_sum(g: Grid, k: nat)
    requires
        g == Grid::zero(g.rows, g.cols),
        k <= g.diag_len(),
    ensures
        g.diag_sum(k) == 0,
    decreases k,
{
    if k > 0 {
        lemma_zero_diag_sum(g, (k - 1) as nat);
    }
}

/// Two columns of a grid of zeros have the dot product zero.
pub proof fn lemma_zero_col_dot(g: Grid, i: int, j: int, k: nat)
    requires
        g == Grid::zero(g.rows, g.cols),
        0 <= i < g.cols,
        0 <= j < g.cols,
        k <= g.rows,
    ensures
        g.col_dot(i, j, k) == 0,
    decreases k,
{
    if k > 0 {
        lemma_zero_col_dot(g, i, j, (k - 1) as nat);
        assert(g.at(k - 1, i) == 0);
        assert(g.at(k - 1, j) == 0);
    }
}

/// Hands out the entries of a `ZeroMatrix` one by one, in row major order.
pub struct ZeroMatrixIntoIterator<T> {
    i: usize,
    j: usize,
    mat: ZeroMatrix<T>,
}

impl<T: Scalar> ZeroMatrixIntoIterator<T> {
    /// The value of the matrix that is walked.
    pub closed spec fn grid(&self) -> Grid {
        self.mat@
    }

    /// The position of the entry that comes next.
    pub closed spec fn cursor(&self) -> (nat, nat) {
        (self.i as nat, self.j as nat)
    }

    /// The entry at the cursor, which then moves on in row major order;
    /// `None` once the cursor has left the matrix.
    pub fn next(&mut self) -> (r: Option<T>)
        ensures
            final(self).grid() == old(self).grid(),
            match r {
                Some(x) => {
                    &&& old(self).grid().in_range(old(self).cursor().0 as int, old(self).cursor().1 as int)
                    &&& x.val() == old(self).grid().at(old(self).cursor().0 as int, old(self).cursor().1 as int)
                    &&& final(self).cursor() == old(self).grid().successor(
                        old(self).cursor().0,
                        old(self).cursor().1,
                    )
                },
                None => {
                    &&& !old(self).grid().in_range(old(self).cursor().0 as int, old(self).cursor().1 as int)
                    &&& final(self).cursor() == old(self).cursor()
                },
            },
    {
        let result = self.mat.get(self.i, self.j);
        if result.is_some() {
            if self.j + 1 < self.mat.cols() {
                self.j += 1;
            } else {
                self.j = 0;
                self.i += 1;
            }
        }
        result
    }
}

} // verus!
