use vstd::prelude::*;
use crate::scalar::Scalar;

verus! {

/// The mathematical value of a matrix: its shape and its entries, row by row.
pub struct Grid {
    pub rows: nat,
    pub cols: nat,
    pub data: Seq<Seq<int>>,
}

impl Grid {
    /// The grid of a given shape whose entry at `(i, j)` is `f(i, j)`.
    pub open spec fn new(rows: nat, cols: nat, f: spec_fn(int, int) -> int) -> Grid {
        Grid {
            rows,
            cols,
            data: Seq::new(rows, |i: int| Seq::new(cols, |j: int| f(i, j))),
        }
    }

    /// The entry in row `i` and column `j`.
    pub open spec fn at(self, i: int, j: int) -> int {
        self.data[i][j]
    }

    /// Whether `(i, j)` is a position of the grid.
    pub open spec fn in_range(self, i: int, j: int) -> bool {
        0 <= i < self.rows && 0 <= j < self.cols
    }

    /// The data has the shape that `rows` and `cols` announce.
    pub open spec fn wf(self) -> bool {
        &&& self.data.len() == self.rows
        &&& forall|i: int| 0 <= i < self.rows ==> (#[trigger] self.data[i]).len() == self.cols
    }

    /// Two grids of the same shape with the same entries are equal.
    pub proof fn lemma_equal(a: Grid, b: Grid)
        requires
            a.wf(),
            b.wf(),
            a.rows == b.rows,
            a.cols == b.cols,
            forall|i: int, j: int| a.in_range(i, j) ==> a.at(i, j) == b.at(i, j),
        ensures
            a == b,
    {
        assert forall|i: int| 0 <= i < a.rows implies a.data[i] =~= b.data[i] by {
            assert forall|j: int| 0 <= j < a.cols implies a.data[i][j] == b.data[i][j] by {
                assert(a.in_range(i, j));
                assert(a.at(i, j) == b.at(i, j));
            }
        }
        assert(a.data =~= b.data);
    }

    /// Every entry can be represented in `T`.
    pub open spec fn fits<T: Scalar>(self) -> bool {
        forall|i: int, j: int| self.in_range(i, j) ==> T::fits(#[trigger] self.at(i, j))
    }

    /// The grid of zeros of a given shape.
    pub open spec fn zero(rows: nat, cols: nat) -> Grid {
        Grid::new(rows, cols, |i: int, j: int| 0int)
    }

    /// The identity of dimension `n`: ones on the main diagonal, zeros elsewhere.
    pub open spec fn identity(n: nat) -> Grid {
        Grid::new(n, n, |i: int, j: int| if i == j { 1int } else { 0int })
    }

    /// The grid of a given shape that a row-major buffer holds.
    pub open spec fn from_flat(s: Seq<int>, rows: nat, cols: nat) -> Grid {
        Grid::new(rows, cols, |i: int, j: int| s[i * cols + j])
    }

    /// The grid that a list of rows holds; its width is that of the first row.
    pub open spec fn from_rows(s: Seq<Seq<int>>) -> Grid {
        Grid::new(s.len(), s[0].len(), |i: int, j: int| s[i][j])
    }

    /// The grid whose entry at `(i, j)` is `col[i] * row[j]`.
    pub open spec fn outer(col: Seq<int>, row: Seq<int>) -> Grid {
        Grid::new(col.len(), row.len(), |i: int, j: int| col[i] * row[j])
    }

    /// Row `i` as a grid of one row.
    pub open spec fn row(self, i: int) -> Grid {
        Grid::new(1, self.cols, |a: int, b: int| self.at(i, b))
    }

    /// Column `j` as a grid of one column.
    pub open spec fn col(self, j: int) -> Grid {
        Grid::new(self.rows, 1, |a: int, b: int| self.at(a, j))
    }

    /// The transpose: what this grid holds at `(j, i)`, at `(i, j)`.
    pub open spec fn transposed(self) -> Grid {
        Grid::new(self.cols, self.rows, |i: int, j: int| self.at(j, i))
    }

    /// The grid with `v` at `(i, j)` and every other entry unchanged.
    pub open spec fn update(self, i: int, j: int, v: int) -> Grid {
        Grid::new(
            self.rows,
            self.cols,
            |a: int, b: int| if a == i && b == j { v } else { self.at(a, b) },
        )
    }

    /// The entrywise sum with a grid of the same shape.
    pub open spec fn plus(self, other: Grid) -> Grid {
        Grid::new(self.rows, self.cols, |i: int, j: int| self.at(i, j) + other.at(i, j))
    }

    /// The sum of the first `k` products of row `i` of this grid with column
    /// `j` of the other.
    pub open spec fn dot(self, other: Grid, i: int, j: int, k: nat) -> int
        decreases k,
    {
        if k == 0 {
            0
        } else {
            self.dot(other, i, j, (k - 1) as nat) + self.at(i, k - 1) * other.at(k - 1, j)
        }
    }

    /// The matrix product with a grid that has as many rows as this one has
    /// columns.
    pub open spec fn times(self, other: Grid) -> Grid {
        Grid::new(self.rows, other.cols, |i: int, j: int| self.dot(other, i, j, self.cols))
    }

    /// Every product and partial sum that `times` takes can be represented
    /// in `T`.
    pub open spec fn products_fit<T: Scalar>(self, other: Grid) -> bool {
        forall|i: int, j: int, k: nat|
            0 <= i < self.rows && 0 <= j < other.cols && k <= self.cols ==> {
                &&& T::fits(#[trigger] self.dot(other, i, j, k))
                &&& k < self.cols ==> T::fits(self.at(i, k as int) * other.at(k as int, j))
            }
    }

    /// The position that follows `(i, j)` in row major order.
    pub open spec fn successor(self, i: nat, j: nat) -> (nat, nat) {
        if j + 1 < self.cols {
            (i, j + 1)
        } else {
            (i + 1, 0)
        }
    }

    /// `s` lists the entries in row major order.
    pub open spec fn lists(self, s: Seq<int>) -> bool {
        &&& s.len() == self.rows * self.cols
        &&& forall|i: int, j: int|
            self.in_range(i, j) ==> #[trigger] self.at(i, j) == s[i * self.cols + j]
    }

    /// The number of entries on the main diagonal.
    pub open spec fn diag_len(self) -> nat {
        if self.rows <= self.cols { self.rows } else { self.cols }
    }

    /// The sum of the first `k` entries of the main diagonal.
    pub open spec fn diag_sum(self, k: nat) -> int
        decreases k,
    {
        if k == 0 {
            0
        } else {
            self.diag_sum((k - 1) as nat) + self.at(k - 1, k - 1)
        }
    }

    /// The sum of the main diagonal.
    pub open spec fn trace(self) -> int {
        self.diag_sum(self.diag_len())
    }

    /// Every partial sum of the main diagonal, taken from the top, can be
    /// represented in `T`.
    pub open spec fn diag_sums_fit<T: Scalar>(self) -> bool {
        forall|k: nat| k <= self.diag_len() ==> T::fits(#[trigger] self.diag_sum(k))
    }

    /// As many rows as columns.
    pub open spec fn is_square(self) -> bool {
        self.rows == self.cols
    }

    /// Every entry at least `d` columns right of the main diagonal is zero.
    pub open spec fn zero_above(self, d: int) -> bool {
        forall|i: int, j: int| self.in_range(i, j) && j - i >= d ==> #[trigger] self.at(i, j) == 0
    }

    /// Every entry at least `d` rows below the main diagonal is zero.
    pub open spec fn zero_below(self, d: int) -> bool {
        forall|i: int, j: int| self.in_range(i, j) && i - j >= d ==> #[trigger] self.at(i, j) == 0
    }

    /// Every entry of the main diagonal is one.
    pub open spec fn unit_diagonal(self) -> bool {
        forall|i: int| 0 <= i < self.diag_len() ==> #[trigger] self.at(i, i) == 1
    }

    /// Zero everywhere off the main diagonal; the grid need not be square.
    pub open spec fn is_diagonal(self) -> bool {
        self.zero_above(1) && self.zero_below(1)
    }

    /// Square, and equal to its transpose.
    pub open spec fn is_symmetric(self) -> bool {
        &&& self.is_square()
        &&& forall|i: int, j: int| self.in_range(i, j) ==> #[trigger] self.at(i, j) == self.at(j, i)
    }

    /// Square, and zero above the main diagonal.
    pub open spec fn is_lower_triangular(self) -> bool {
        self.is_square() && self.zero_above(1)
    }

    /// Lower triangular with ones on the main diagonal.
    pub open spec fn is_unilower_triangular(self) -> bool {
        self.is_lower_triangular() && self.unit_diagonal()
    }

    /// Square, and zero on and above the main diagonal.
    pub open spec fn is_strictly_lower_triangular(self) -> bool {
        self.is_square() && self.zero_above(0)
    }

    /// Square, and zero above the first superdiagonal.
    pub open spec fn is_lower_hessenberg(self) -> bool {
        self.is_square() && self.zero_above(2)
    }

    /// Square, and zero below the main diagonal.
    pub open spec fn is_upper_triangular(self) -> bool {
        self.is_square() && self.zero_below(1)
    }

    /// Upper triangular with ones on the main diagonal.
    pub open spec fn is_uniupper_triangular(self) -> bool {
        self.is_upper_triangular() && self.unit_diagonal()
    }

    /// Square, and zero on and below the main diagonal.
    pub open spec fn is_strictly_upper_triangular(self) -> bool {
        self.is_square() && self.zero_below(0)
    }

    /// Square, and zero below the first subdiagonal.
    pub open spec fn is_upper_hessenberg(self) -> bool {
        self.is_square() && self.zero_below(2)
    }

    /// The sum of the products of the first `k` entries of columns `i` and `j`.
    pub open spec fn col_dot(self, i: int, j: int, k: nat) -> int
        decreases k,
    {
        if k == 0 {
            0
        } else {
            self.col_dot(i, j, (k - 1) as nat) + self.at(k - 1, i) * self.at(k - 1, j)
        }
    }

    /// The columns are pairwise orthogonal and of unit length: the transpose
    /// times the matrix is the identity.
    pub open spec fn is_orthogonal(self) -> bool {
        &&& self.is_square()
        &&& forall|i: int, j: int|
            self.in_range(i, j) ==> #[trigger] self.col_dot(i, j, self.rows) == (if i == j {
                1int
            } else {
                0int
            })
    }

    /// Every product and partial sum that `col_dot` takes over whole columns
    /// can be represented in `T`.
    pub open spec fn col_dots_fit<T: Scalar>(self) -> bool {
        forall|i: int, j: int, k: nat|
            0 <= i < self.cols && 0 <= j < self.cols && k <= self.rows ==> {
                &&& T::fits(#[trigger] self.col_dot(i, j, k))
                &&& k < self.rows ==> T::fits(self.at(k as int, i) * self.at(k as int, j))
            }
    }
}

/// A row-major offset lies inside the buffer, and the row before it ends
/// where the next begins.
pub proof fn lemma_flat_index(i: int, j: int, rows: int, cols: int)
    requires
        0 <= i < rows,
        0 <= j < cols,
    ensures
        0 <= i * cols,
        i * cols + j < (i + 1) * cols,
        (i + 1) * cols == i * cols + cols,
        (i + 1) * cols <= rows * cols,
{
    assert(0 <= i * cols) by (nonlinear_arith)
        requires
            0 <= i,
            0 <= cols,
    ;
    assert((i + 1) * cols == i * cols + cols) by (nonlinear_arith);
    assert((i + 1) * cols <= rows * cols) by (nonlinear_arith)
        requires
            i + 1 <= rows,
            0 <= cols,
    ;
}

/// Two positions of a row-major buffer with the same offset are the same
/// position.
pub proof fn lemma_flat_injective(a: int, b: int, i: int, j: int, cols: int)
    requires
        0 <= a,
        0 <= i,
        0 <= b < cols,
        0 <= j < cols,
        a * cols + b == i * cols + j,
    ensures
        a == i,
        b == j,
{
    if a < i {
        assert(a * cols + cols <= i * cols) by (nonlinear_arith)
            requires
                a + 1 <= i,
                0 <= cols,
        ;
    } else if i < a {
        assert(i * cols + cols <= a * cols) by (nonlinear_arith)
            requires
                i + 1 <= a,
                0 <= cols,
        ;
    }
}

} // verus!
