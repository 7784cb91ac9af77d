use vstd::prelude::*;
use crate::error::Error;
use crate::grid::{lemma_flat_index, lemma_flat_injective, Grid};
use crate::matrix::{Matrix, ReadOrder};
use crate::scalar::{vals, Scalar};

verus! {

/// A DenseMatrix is a matrix that contains many data points in
/// non-concentrated areas. Holds m times n numbers in memory.
///
/// We use row major ordering by default.
#[derive(Debug)]
pub struct DenseMatrix<T: Scalar> {
    read_order: ReadOrder,
    m: usize,
    n: usize,
    mat: Vec<T>,
}

/// The values of a list of rows.
pub open spec fn row_vals<T: Scalar>(mat: Seq<Vec<T>>) -> Seq<Seq<int>> {
    Seq::new(mat.len(), |i: int| vals(mat[i]@))
}

/// A list of rows can be a matrix: it has a first row, and every row is as
/// long as the first.
pub open spec fn rectangular<T>(mat: Seq<Vec<T>>) -> bool {
    &&& mat.len() > 0
    &&& forall|i: int| 0 <= i < mat.len() ==> (#[trigger] mat[i])@.len() == mat[0]@.len()
}

impl<T: Scalar> DenseMatrix<T> {
    /// The storage holds one cell for each position.
    #[verifier::type_invariant]
    pub closed spec fn inv(&self) -> bool {
        self.mat@.len() == self.m * self.n
    }

    /// A dense matrix that holds its invariant has as many entries as a
    /// vec can hold.
    pub proof fn lemma_size(&self)
        requires
            self.inv(),
        ensures
            self@.rows * self@.cols <= usize::MAX,
    {
        assert(self.mat@.len() == self.mat.len());
        assert(self.m * self.n == self.n * self.m) by (nonlinear_arith);
    }

    /// How the storage is read.
    pub closed spec fn order(&self) -> ReadOrder {
        self.read_order
    }

    /// The value at a logical position, as the read order finds it.
    closed spec fn cell(&self, i: int, j: int) -> int {
        match self.read_order {
            ReadOrder::RowMajor => self.mat@[i * self.n + j].val(),
            ReadOrder::ColMajor => self.mat@[j * self.n + i].val(),
        }
    }

    /// Create a new DenseMatrix given its data in a slice of matrix rows in
    /// vec form.
    pub fn new(mat: &[Vec<T>]) -> (r: Result<DenseMatrix<T>, Error>)
        ensures
            match r {
                Ok(d) => {
                    &&& rectangular(mat@)
                    &&& d@ == Grid::from_rows(row_vals(mat@))
                    &&& d.order() == ReadOrder::RowMajor
                },
                Err(e) => e == Error::InvalidDimensions && !rectangular(mat@),
            },
    {
        let m = mat.len();
        if m == 0 {
            return Err(Error::InvalidDimensions);
        }
        let n = mat[0].len();
        let mut flat_mat: Vec<T> = Vec::new();
        let mut i: usize = 0;
        while i < m
            invariant
                i <= m,
                m == mat@.len(),
                n == mat@[0]@.len(),
                flat_mat@.len() == i * n,
                forall|a: int| 0 <= a < i ==> (#[trigger] mat@[a])@.len() == n,
                forall|a: int, b: int|
                    0 <= a < i && 0 <= b < n ==> #[trigger] mat@[a]@[b] == flat_mat@[a * n + b],
            decreases m - i,
        {
            let row = &mat[i];
            if row.len() != n {
                return Err(Error::InvalidDimensions);
            }
            let mut j: usize = 0;
            while j < n
                invariant
                    i < m,
                    j <= n,
                    m == mat@.len(),
                    n == mat@[0]@.len(),
                    row == &mat@[i as int],
                    row@.len() == n,
                    flat_mat@.len() == i * n + j,
                    forall|a: int, b: int|
                        0 <= a < i && 0 <= b < n ==> #[trigger] mat@[a]@[b] == flat_mat@[a * n + b],
                    forall|b: int| 0 <= b < j ==> #[trigger] row@[b] == flat_mat@[i * n + b],
                decreases n - j,
            {
                let ghost before = flat_mat@;
                flat_mat.push(row[j]);
                proof {
                    assert forall|a: int, b: int| 0 <= a < i && 0 <= b < n implies #[trigger] mat@[a]@[b]
                        == flat_mat@[a * n + b] by {
                        lemma_flat_index(a, b, i as int, n as int);
                        assert(flat_mat@[a * n + b] == before[a * n + b]);
                    }
                }
                j += 1;
            }
            assert((i + 1) * n == i * n + n) by (nonlinear_arith);
            i += 1;
        }
        let d = DenseMatrix { read_order: ReadOrder::RowMajor, m, n, mat: flat_mat };
        proof {
            let want = Grid::from_rows(row_vals(mat@));
            assert forall|a: int, b: int| d@.in_range(a, b) implies d@.at(a, b) == want.at(a, b) by {
                lemma_flat_index(a, b, m as int, n as int);
                assert(mat@[a]@[b] == flat_mat@[a * n + b]);
            }
            Grid::lemma_equal(d@, want);
        }
        Ok(d)
    }

    /// Create a new dense matrix from a Vec, its dimensions, and an
    /// `Option<ReadOrder>`.
    /// If no ReadOrder is provided, then assumes `ReadOrder::RowMajor`.
    /// Read column major, the buffer holds the transpose of what it holds
    /// read row major.
    pub fn from_vec(mat: Vec<T>, m: usize, n: usize, read_order: Option<ReadOrder>) -> (r: Result<
        DenseMatrix<T>,
        Error,
    >)
        ensures
            match r {
                Ok(d) => {
                    &&& m * n == mat@.len()
                    &&& d.order() == read_order.unwrap_or(ReadOrder::RowMajor)
                    &&& d@ == match d.order() {
                        ReadOrder::RowMajor => Grid::from_flat(vals(mat@), m as nat, n as nat),
                        ReadOrder::ColMajor => Grid::from_flat(
                            vals(mat@),
                            m as nat,
                            n as nat,
                        ).transposed(),
                    }
                },
                Err(e) => e == Error::InvalidDimensions && m * n != mat@.len(),
            },
    {
        let size = m.checked_mul(n);
        assert(mat@.len() == mat.len());
        let fits = match size {
            Some(k) => k == mat.len(),
            None => false,
        };
        if !fits {
            return Err(Error::InvalidDimensions);
        }
        let ghost flat = vals(mat@);
        let d = DenseMatrix {
            read_order: match read_order {
                Some(ro) => ro,
                None => ReadOrder::RowMajor,
            },
            m,
            n,
            mat,
        };
        proof {
            let base = Grid::from_flat(flat, m as nat, n as nat);
            match d.read_order {
                ReadOrder::RowMajor => {
                    assert forall|a: int, b: int| d@.in_range(a, b) implies d@.at(a, b) == base.at(
                        a,
                        b,
                    ) by {
                        lemma_flat_index(a, b, m as int, n as int);
                    }
                    Grid::lemma_equal(d@, base);
                },
                ReadOrder::ColMajor => {
                    assert forall|a: int, b: int| d@.in_range(a, b) implies d@.at(a, b)
                        == base.transposed().at(a, b) by {
                        lemma_flat_index(b, a, m as int, n as int);
                    }
                    Grid::lemma_equal(d@, base.transposed());
                },
            }
        }
        Ok(d)
    }

    /// Create a new dense matrix of zeros given the matrix dimensions m and n.
    pub fn zeros(m: usize, n: usize) -> (r: DenseMatrix<T>)
        requires
            m * n <= usize::MAX,
        ensures
            r@ == Grid::zero(m as nat, n as nat),
            r.order() == ReadOrder::RowMajor,
    {
        let len: usize = m * n;
        let mut mat: Vec<T> = Vec::with_capacity(len);
        let mut k: usize = 0;
        while k < len
            invariant
                k <= len,
                mat@.len() == k,
                forall|t: int| 0 <= t < k ==> (#[trigger] mat@[t]).val() == 0,
            decreases len - k,
        {
            mat.push(T::zero());
            k += 1;
        }
        let d = DenseMatrix { read_order: ReadOrder::RowMajor, m, n, mat };
        proof {
            let want = Grid::zero(m as nat, n as nat);
            assert forall|a: int, b: int| d@.in_range(a, b) implies d@.at(a, b) == want.at(a, b) by {
                lemma_flat_index(a, b, m as int, n as int);
            }
            Grid::lemma_equal(d@, want);
        }
        d
    }

    /// Create a new identity matrix given its dimension.
    pub fn identity(n: usize) -> (r: DenseMatrix<T>)
        requires
            n * n <= usize::MAX,
        ensures
            r@ == Grid::identity(n as nat),
            r.order() == ReadOrder::RowMajor,
    {
        let mut mat: Vec<T> = Vec::with_capacity(n * n);
        let mut i: usize = 0;
        while i < n
            invariant
                i <= n,
                mat@.len() == i * n,
                forall|a: int, b: int|
                    0 <= a < i && 0 <= b < n ==> (#[trigger] mat@[a * n + b]).val() == (if a == b {
                        1int
                    } else {
                        0int
                    }),
            decreases n - i,
        {
            let mut j: usize = 0;
            while j < n
                invariant
                    i < n,
                    j <= n,
                    mat@.len() == i * n + j,
                    forall|a: int, b: int|
                        0 <= a < i && 0 <= b < n ==> (#[trigger] mat@[a * n + b]).val() == (if a
                            == b {
                            1int
                        } else {
                            0int
                        }),
                    forall|b: int|
                        0 <= b < j ==> (#[trigger] mat@[i * n + b]).val() == (if i == b {
                            1int
                        } else {
                            0int
                        }),
                decreases n - j,
            {
                let ghost before = mat@;
                let e = if i == j { T::one() } else { T::zero() };
                mat.push(e);
                proof {
                    assert forall|a: int, b: int| 0 <= a < i && 0 <= b < n implies (#[trigger] mat@[a
                        * n + b]).val() == (if a == b {
                        1int
                    } else {
                        0int
                    }) by {
                        lemma_flat_index(a, b, i as int, n as int);
                        assert(mat@[a * n + b] == before[a * n + b]);
                    }
                    assert forall|b: int| 0 <= b < j + 1 implies (#[trigger] mat@[i * n + b]).val()
                        == (if i == b {
                        1int
                    } else {
                        0int
                    }) by {
                        if b < j {
                            assert(mat@[i * n + b] == before[i * n + b]);
                        }
                    }
                }
                j += 1;
            }
            assert((i + 1) * n == i * n + n) by (nonlinear_arith);
            i += 1;
        }
        let d = DenseMatrix { read_order: ReadOrder::RowMajor, m: n, n, mat };
        proof {
            let want = Grid::identity(n as nat);
            assert forall|a: int, b: int| d@.in_range(a, b) implies d@.at(a, b) == want.at(a, b) by {
                lemma_flat_index(a, b, n as int, n as int);
            }
            Grid::lemma_equal(d@, want);
        }
        d
    }

    /// Flip the read order. Toggles between row major and column major.
    pub fn flip_read_order(self) -> (r: Self)
        ensures
            r == self.transposed(),
            r@ == self@.transposed(),
            r.order() == self.order().flipped(),
    {
        proof {
            use_type_invariant(&self);
            self.lemma_transposed();
        }
        let DenseMatrix { read_order, m, n, mat } = self;
        DenseMatrix {
            read_order: match read_order {
                ReadOrder::RowMajor => ReadOrder::ColMajor,
                ReadOrder::ColMajor => ReadOrder::RowMajor,
            },
            m,
            n,
            mat,
        }
    }

    /// How the storage is read.
    pub fn read_order(&self) -> (r: ReadOrder)
        ensures
            r == self.order(),
    {
        self.read_order
    }

    /// Get the ith row as an 1 by n `DenseMatrix<T>`.
    pub fn row(&self, i: usize) -> (r: Option<DenseMatrix<T>>)
        ensures
            match r {
                Some(d) => i < self@.rows && d@ == self@.row(i as int),
                None => i >= self@.rows,
            },
    {
        if i >= self.rows() {
            return None;
        }
        let cols = self.cols();
        let mut v: Vec<T> = Vec::with_capacity(cols);
        let mut j: usize = 0;
        while j < cols
            invariant
                j <= cols,
                cols == self@.cols,
                i < self@.rows,
                v@.len() == j,
                forall|b: int| 0 <= b < j ==> (#[trigger] v@[b]).val() == self@.at(i as int, b),
            decreases cols - j,
        {
            let x = self.get(i, j);
            match x {
                Some(e) => v.push(e),
                None => {},
            }
            j += 1;
        }
        let ghost flat = vals(v@);
        let built = Self::from_vec(v, 1, cols, None);
        match built {
            Ok(d) => {
                proof {
                    self.lemma_view();
                    d.lemma_view();
                    assert forall|a: int, b: int| d@.in_range(a, b) implies d@.at(a, b)
                        == self@.row(i as int).at(a, b) by {
                        assert(a * cols + b == b) by (nonlinear_arith)
                            requires
                                a == 0,
                        ;
                    }
                    Grid::lemma_equal(d@, self@.row(i as int));
                }
                Some(d)
            },
            Err(_) => None,
        }
    }

    /// Get the jth col as an m by 1 `DenseMatrix<T>`.
    pub fn col(&self, j: usize) -> (r: Option<DenseMatrix<T>>)
        ensures
            match r {
                Some(d) => j < self@.cols && d@ == self@.col(j as int),
                None => j >= self@.cols,
            },
    {
        if j >= self.cols() {
            return None;
        }
        let rows = self.rows();
        let mut v: Vec<T> = Vec::with_capacity(rows);
        let mut i: usize = 0;
        while i < rows
            invariant
                i <= rows,
                rows == self@.rows,
                j < self@.cols,
                v@.len() == i,
                forall|a: int| 0 <= a < i ==> (#[trigger] v@[a]).val() == self@.at(a, j as int),
            decreases rows - i,
        {
            let x = self.get(i, j);
            match x {
                Some(e) => v.push(e),
                None => {},
            }
            i += 1;
        }
        let built = Self::from_vec(v, rows, 1, None);
        match built {
            Ok(d) => {
                proof {
                    self.lemma_view();
                    d.lemma_view();
                    assert forall|a: int, b: int| d@.in_range(a, b) implies d@.at(a, b)
                        == self@.col(j as int).at(a, b) by {
                        assert(a * 1 + b == a) by (nonlinear_arith)
                            requires
                                b == 0,
                        ;
                    }
                    Grid::lemma_equal(d@, self@.col(j as int));
                }
                Some(d)
            },
            Err(_) => None,
        }
    }

    /// Start handing out the entries in row major order.
    pub fn into_iter(self) -> (r: DenseMatrixIntoIterator<T>)
        ensures
            r.grid() == self@,
            r.cursor() == (0nat, 0nat),
    {
        DenseMatrixIntoIterator { mat: self, i: 0, j: 0 }
    }
}

impl<T: Scalar> Clone for DenseMatrix<T> {
    fn clone(&self) -> (r: Self)
        ensures
            r@ == self@,
            r.order() == self.order(),
    {
        proof {
            use_type_invariant(self);
        }
        let len = self.mat.len();
        let mut mat: Vec<T> = Vec::with_capacity(len);
        let mut k: usize = 0;
        while k < len
            invariant
                k <= len,
                len == self.mat@.len(),
                mat@.len() == k,
                forall|t: int| 0 <= t < k ==> mat@[t] == self.mat@[t],
            decreases len - k,
        {
            mat.push(self.mat[k]);
            k += 1;
        }
        assert(mat@ =~= self.mat@);
        let d = DenseMatrix { read_order: self.read_order, m: self.m, n: self.n, mat };
        proof {
            Grid::lemma_equal(d@, self@);
        }
        d
    }
}

impl<T: Scalar> Matrix<T> for DenseMatrix<T> {
    closed spec fn view(&self) -> Grid {
        match self.read_order {
            ReadOrder::RowMajor => Grid::new(
                self.m as nat,
                self.n as nat,
                |i: int, j: int| self.cell(i, j),
            ),
            ReadOrder::ColMajor => Grid::new(
                self.n as nat,
                self.m as nat,
                |i: int, j: int| self.cell(i, j),
            ),
        }
    }

    open spec fn settable(&self) -> bool {
        true
    }

    closed spec fn transposed(self) -> Self {
        DenseMatrix { read_order: self.read_order.flipped(), m: self.m, n: self.n, mat: self.mat }
    }

    proof fn lemma_view(&self) {
        assert forall|i: int, j: int| self@.in_range(i, j) implies T::fits(
            #[trigger] self@.at(i, j),
        ) by {
            match self.read_order {
                ReadOrder::RowMajor => self.mat@[i * self.n + j].lemma_val_fits(),
                ReadOrder::ColMajor => self.mat@[j * self.n + i].lemma_val_fits(),
            }
        }
    }

    proof fn lemma_transposed(self) {
        Grid::lemma_equal(self.transposed()@, self@.transposed());
    }

    fn transpose(self) -> (r: Self) {
        self.flip_read_order()
    }

    /// Get the row dimension of the matrix.
    fn rows(&self) -> (r: usize) {
        match self.read_order {
            ReadOrder::RowMajor => self.m,
            ReadOrder::ColMajor => self.n,
        }
    }

    /// Get the column dimension of the matrix.
    fn cols(&self) -> (r: usize) {
        match self.read_order {
            ReadOrder::RowMajor => self.n,
            ReadOrder::ColMajor => self.m,
        }
    }

    /// Get a matrix element at i, j.
    fn get(&self, i: usize, j: usize) -> (r: Option<T>) {
        proof {
            use_type_invariant(self);
            assert(self.mat@.len() == self.mat.len());
        }
        if i >= self.rows() || j >= self.cols() {
            return None;
        }
        match self.read_order {
            ReadOrder::RowMajor => {
                proof {
                    lemma_flat_index(i as int, j as int, self.m as int, self.n as int);
                }
                Some(self.mat[i * self.n + j])
            },
            ReadOrder::ColMajor => {
                proof {
                    lemma_flat_index(j as int, i as int, self.m as int, self.n as int);
                }
                Some(self.mat[j * self.n + i])
            },
        }
    }

    /// Set a matrix element at i, j.
    fn set(&mut self, i: usize, j: usize, val: T) -> (r: Option<T>)
        ensures
            final(self).order() == old(self).order(),
    {
        proof {
            use_type_invariant(&*self);
            assert(self.mat@.len() == self.mat.len());
        }
        if i >= self.rows() || j >= self.cols() {
            return None;
        }
        let ghost before = *self;
        match self.read_order {
            ReadOrder::RowMajor => {
                proof {
                    lemma_flat_index(i as int, j as int, self.m as int, self.n as int);
                }
                self.mat[i * self.n + j] = val;
                proof {
                    let want = before@.update(i as int, j as int, val.val());
                    assert forall|a: int, b: int| self@.in_range(a, b) implies self@.at(a, b)
                        == want.at(a, b) by {
                        lemma_flat_index(a, b, self.m as int, self.n as int);
                        if a * self.n + b == i * self.n + j {
                            lemma_flat_injective(a, b, i as int, j as int, self.n as int);
                        }
                    }
                    Grid::lemma_equal(self@, want);
                }
            },
            ReadOrder::ColMajor => {
                proof {
                    lemma_flat_index(j as int, i as int, self.m as int, self.n as int);
                }
                self.mat[j * self.n + i] = val;
                proof {
                    let want = before@.update(i as int, j as int, val.val());
                    assert forall|a: int, b: int| self@.in_range(a, b) implies self@.at(a, b)
                        == want.at(a, b) by {
                        lemma_flat_index(b, a, self.m as int, self.n as int);
                        if b * self.n + a == j * self.n + i {
                            lemma_flat_injective(b, a, j as int, i as int, self.n as int);
                        }
                    }
                    Grid::lemma_equal(self@, want);
                }
            },
        }
        Some(val)
    }
}

/// Hands out the entries of a `DenseMatrix` one by one, in row major order.
pub struct DenseMatrixIntoIterator<T: Scalar> {
    mat: DenseMatrix<T>,
    i: usize,
    j: usize,
}

impl<T: Scalar> DenseMatrixIntoIterator<T> {
    /// The value of the matrix that is walked.
    pub closed spec fn grid(&self) -> Grid {
        self.mat@
    }

    /// The position of the entry that comes next.
    pub closed spec fn cursor(&self) -> (nat, nat) {
        (self.i as nat, self.j as nat)
    }

    /// The entry at the cursor, which then moves on in row major order;
    /// `None` once the cursor has left the matrix.
    pub fn next(&mut self) -> (r: Option<T>)
        ensures
            final(self).grid() == old(self).grid(),
            match r {
                Some(x) => {
                    &&& old(self).grid().in_range(old(self).cursor().0 as int, old(self).cursor().1 as int)
                    &&& x.val() == old(self).grid().at(old(self).cursor().0 as int, old(self).cursor().1 as int)
                    &&& final(self).cursor() == old(self).grid().successor(
                        old(self).cursor().0,
                        old(self).cursor().1,
                    )
                },
                None => {
                    &&& !old(self).grid().in_range(old(self).cursor().0 as int, old(self).cursor().1 as int)
                    &&& final(self).cursor() == old(self).cursor()
                },
            },
    {
        let result = self.mat.get(self.i, self.j);
        if result.is_some() {
            if self.j + 1 < self.mat.cols() {
                self.j += 1;
            } else {
                self.j = 0;
                self.i += 1;
            }
        }
        result
    }
}

} // verus!
