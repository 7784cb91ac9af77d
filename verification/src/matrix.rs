use vstd::prelude::*;
use crate::grid::Grid;
use crate::grid::lemma_flat_index;
use crate::scalar::{vals, Scalar};

verus! {

/// A ReadOrder tells a matrix how it should interpret its data.
#[derive(Clone, Copy, Debug, PartialEq, Eq, Structural)]
pub enum ReadOrder {
    RowMajor,
    ColMajor,
}

impl Default for ReadOrder {
    fn default() -> (r: ReadOrder)
        ensures
            r == ReadOrder::RowMajor,
    {
        ReadOrder::RowMajor
    }
}

impl ReadOrder {
    /// The other read order.
    pub open spec fn flipped(self) -> ReadOrder {
        match self {
            ReadOrder::RowMajor => ReadOrder::ColMajor,
            ReadOrder::ColMajor => ReadOrder::RowMajor,
        }
    }
}

/// Flags are also used to give guarantees. (ie. a matrix flagged with
/// Flag::Invertible will never actually check if it is invertible.)
#[derive(Clone, Copy, Debug, PartialEq, Eq, Structural)]
pub enum Flag {
    Symmetric,
    Orthogonal,
    Diagonal,
    Invertible,
}

/// What every matrix representation offers.
///
/// The value of a matrix is its `Grid`, written `m@`; every contract is
/// stated over it.
pub trait Matrix<T: Scalar>: Sized {
    /// The mathematical value of the matrix.
    spec fn view(&self) -> Grid;

    /// Whether the representation has cells that `set` can write.
    spec fn settable(&self) -> bool;

    /// The matrix that `transpose` returns.
    spec fn transposed(self) -> Self;

    /// The value of a matrix has the shape it announces, its dimensions are
    /// machine sizes, and its entries can be represented in `T`.
    proof fn lemma_view(&self)
        ensures
            self@.wf(),
            self@.rows <= usize::MAX,
            self@.cols <= usize::MAX,
            self@.fits::<T>(),
    ;

    /// Transposing swaps rows and columns, and transposing twice gives the
    /// matrix back.
    proof fn lemma_transposed(self)
        ensures
            self.transposed()@ == self@.transposed(),
            self.transposed().settable() == self.settable(),
            self.transposed().transposed() == self,
    ;

    /// Get the number of rows `m` in the matrix.
    fn rows(&self) -> (r: usize)
        ensures
            r == self@.rows,
    ;

    /// Get the number of columns `n` in the matrix.
    fn cols(&self) -> (r: usize)
        ensures
            r == self@.cols,
    ;

    /// Get the matrix element at (i, j), or `None` outside the matrix.
    fn get(&self, i: usize, j: usize) -> (r: Option<T>)
        ensures
            match r {
                Some(x) => self@.in_range(i as int, j as int) && x.val() == self@.at(
                    i as int,
                    j as int,
                ),
                None => !self@.in_range(i as int, j as int),
            },
    ;

    /// Set the matrix element at (i, j). Returns the value written, or
    /// `None`, with the matrix unchanged, outside the matrix. A
    /// representation without cells accepts no position inside the matrix.
    fn set(&mut self, i: usize, j: usize, val: T) -> (r: Option<T>)
        requires
            old(self)@.in_range(i as int, j as int) ==> old(self).settable(),
        ensures
            match r {
                Some(x) => {
                    &&& old(self)@.in_range(i as int, j as int)
                    &&& x == val
                    &&& final(self)@ == old(self)@.update(i as int, j as int, val.val())
                    &&& final(self).settable()
                },
                None => !old(self)@.in_range(i as int, j as int) && *final(self) == *old(self),
            },
    ;

    /// Get the transpose of the matrix.
    fn transpose(self) -> (r: Self)
        ensures
            r == self.transposed(),
            r@ == self@.transposed(),
    ;

    /// Returns true if matrix dimensions are equal.
    fn is_square(&self) -> (r: bool)
        ensures
            r == self@.is_square(),
    {
        let (m, n) = self.dims();
        m == n
    }

    /// Get the matrix dimensions.
    fn dims(&self) -> (r: (usize, usize))
        ensures
            r.0 == self@.rows,
            r.1 == self@.cols,
    {
        (self.rows(), self.cols())
    }

    /// Get the matrix diagonals.
    fn diags(&self) -> (r: Vec<T>)
        ensures
            r@.len() == self@.diag_len(),
            forall|i: int| 0 <= i < r@.len() ==> (#[trigger] r@[i]).val() == self@.at(i, i),
    {
        let (m, n) = self.dims();
        let min: usize = if m <= n { m } else { n };
        let mut diags: Vec<T> = Vec::with_capacity(min);
        let mut i: usize = 0;
        while i < min
            invariant
                i <= min,
                min == self@.diag_len(),
                diags@.len() == i,
                forall|k: int| 0 <= k < i ==> (#[trigger] diags@[k]).val() == self@.at(k, k),
            decreases min - i,
        {
            let x = self.get(i, i);
            match x {
                Some(v) => diags.push(v),
                None => {},
            }
            i += 1;
        }
        diags
    }

    /// Get the matrix elements as a Vec, in row major order.
    fn elements(&self) -> (r: Vec<T>)
        requires
            self@.rows * self@.cols <= usize::MAX,
        ensures
            self@.lists(vals(r@)),
    {
        let rows = self.rows();
        let cols = self.cols();
        let mut v: Vec<T> = Vec::new();
        let mut i: usize = 0;
        while i < rows
            invariant
                i <= rows,
                rows == self@.rows,
                cols == self@.cols,
                v@.len() == i * cols,
                forall|a: int, b: int|
                    0 <= a < i && 0 <= b < cols ==> #[trigger] self@.at(a, b) == v@[a * cols
                        + b].val(),
            decreases rows - i,
        {
            let mut j: usize = 0;
            while j < cols
                invariant
                    i < rows,
                    j <= cols,
                    rows == self@.rows,
                    cols == self@.cols,
                    v@.len() == i * cols + j,
                    forall|a: int, b: int|
                        0 <= a < i && 0 <= b < cols ==> #[trigger] self@.at(a, b) == v@[a * cols
                            + b].val(),
                    forall|b: int|
                        0 <= b < j ==> #[trigger] self@.at(i as int, b) == v@[i * cols + b].val(),
                decreases cols - j,
            {
                let x = self.get(i, j);
                let ghost before = v@;
                match x {
                    Some(e) => v.push(e),
                    None => {},
                }
                proof {
                    assert forall|a: int, b: int| 0 <= a < i && 0 <= b < cols implies #[trigger] self@.at(
                        a,
                        b,
                    ) == v@[a * cols + b].val() by {
                        lemma_flat_index(a, b, i as int, cols as int);
                        assert(v@[a * cols + b] == before[a * cols + b]);
                    }
                }
                j += 1;
            }
            assert((i + 1) * cols == i * cols + cols) by (nonlinear_arith);
            i += 1;
        }
        proof {
            assert forall|a: int, b: int| self@.in_range(a, b) implies #[trigger] self@.at(a, b)
                == vals(v@)[a * self@.cols + b] by {
                lemma_flat_index(a, b, rows as int, cols as int);
            }
        }
        v
    }

    /// Compute the trace of the matrix: the sum of its main diagonal.
    fn trace(&self) -> (r: T)
        requires
            self@.diag_sums_fit::<T>(),
        ensures
            r.val() == self@.trace(),
    {
        let (m, n) = self.dims();
        let min: usize = if m <= n { m } else { n };
        let mut trace = T::zero();
        let mut i: usize = 0;
        while i < min
            invariant
                i <= min,
                min == self@.diag_len(),
                trace.val() == self@.diag_sum(i as nat),
                self@.diag_sums_fit::<T>(),
            decreases min - i,
        {
            let x = self.get(i, i);
            proof {
                assert(T::fits(self@.diag_sum((i + 1) as nat)));
            }
            match x {
                Some(e) => {
                    trace = trace.add(e);
                },
                None => {},
            }
            i += 1;
        }
        trace
    }

    /// Check that every entry at least `d` columns right of the main
    /// diagonal is zero.
    fn has_zero_above(&self, d: usize) -> (r: bool)
        ensures
            r == self@.zero_above(d as int),
    {
        let rows = self.rows();
        let cols = self.cols();
        let mut i: usize = 0;
        while i < rows
            invariant
                i <= rows,
                rows == self@.rows,
                cols == self@.cols,
                forall|a: int, b: int|
                    0 <= a < i && 0 <= b < cols && b - a >= d ==> #[trigger] self@.at(a, b) == 0,
            decreases rows - i,
        {
            let mut j: usize = 0;
            while j < cols
                invariant
                    i < rows,
                    j <= cols,
                    rows == self@.rows,
                    cols == self@.cols,
                    forall|a: int, b: int|
                        0 <= a < i && 0 <= b < cols && b - a >= d ==> #[trigger] self@.at(a, b)
                            == 0,
                    forall|b: int|
                        0 <= b < j && b - i >= d ==> #[trigger] self@.at(i as int, b) == 0,
                decreases cols - j,
            {
                if j >= i && j - i >= d {
                    let x = self.get(i, j);
                    match x {
                        Some(e) => {
                            if !e.equals(T::zero()) {
                                assert(self@.in_range(i as int, j as int));
                                return false;
                            }
                        },
                        None => {},
                    }
                }
                j += 1;
            }
            i += 1;
        }
        true
    }

    /// Check that every entry at least `d` rows below the main diagonal is
    /// zero.
    fn has_zero_below(&self, d: usize) -> (r: bool)
        ensures
            r == self@.zero_below(d as int),
    {
        let rows = self.rows();
        let cols = self.cols();
        let mut i: usize = 0;
        while i < rows
            invariant
                i <= rows,
                rows == self@.rows,
                cols == self@.cols,
                forall|a: int, b: int|
                    0 <= a < i && 0 <= b < cols && a - b >= d ==> #[trigger] self@.at(a, b) == 0,
            decreases rows - i,
        {
            let mut j: usize = 0;
            while j < cols
                invariant
                    i < rows,
                    j <= cols,
                    rows == self@.rows,
                    cols == self@.cols,
                    forall|a: int, b: int|
                        0 <= a < i && 0 <= b < cols && a - b >= d ==> #[trigger] self@.at(a, b)
                            == 0,
                    forall|b: int|
                        0 <= b < j && i - b >= d ==> #[trigger] self@.at(i as int, b) == 0,
                decreases cols - j,
            {
                if i >= j && i - j >= d {
                    let x = self.get(i, j);
                    match x {
                        Some(e) => {
                            if !e.equals(T::zero()) {
                                assert(self@.in_range(i as int, j as int));
                                return false;
                            }
                        },
                        None => {},
                    }
                }
                j += 1;
            }
            i += 1;
        }
        true
    }

    /// Check that every entry of the main diagonal is one.
    fn has_unit_diagonal(&self) -> (r: bool)
        ensures
            r == self@.unit_diagonal(),
    {
        let (m, n) = self.dims();
        let min: usize = if m <= n { m } else { n };
        let mut i: usize = 0;
        while i < min
            invariant
                i <= min,
                min == self@.diag_len(),
                forall|a: int| 0 <= a < i ==> #[trigger] self@.at(a, a) == 1,
            decreases min - i,
        {
            let x = self.get(i, i);
            match x {
                Some(e) => {
                    if !e.equals(T::one()) {
                        return false;
                    }
                },
                None => {},
            }
            i += 1;
        }
        true
    }

    /// Check if the matrix is symmetric.
    fn is_symmetric(&self) -> (r: bool)
        ensures
            r == self@.is_symmetric(),
    {
        if !self.is_square() {
            return false;
        }
        let n = self.rows();
        let mut i: usize = 1;
        while i < n
            invariant
                1 <= i,
                n == self@.rows,
                n == self@.cols,
                forall|a: int, b: int|
                    0 <= b < a < i ==> #[trigger] self@.at(a, b) == self@.at(b, a),
            decreases n - i,
        {
            let mut j: usize = 0;
            while j < i
                invariant
                    j <= i < n,
                    n == self@.rows,
                    n == self@.cols,
                    forall|a: int, b: int|
                        0 <= b < a < i ==> #[trigger] self@.at(a, b) == self@.at(b, a),
                    forall|b: int|
                        0 <= b < j ==> #[trigger] self@.at(i as int, b) == self@.at(b, i as int),
                decreases i - j,
            {
                let x = self.get(i, j);
                let y = self.get(j, i);
                match (x, y) {
                    (Some(e), Some(f)) => {
                        if !e.equals(f) {
                            assert(self@.in_range(i as int, j as int));
                            return false;
                        }
                    },
                    _ => {},
                }
                j += 1;
            }
            i += 1;
        }
        proof {
            assert forall|a: int, b: int| self@.in_range(a, b) implies #[trigger] self@.at(a, b)
                == self@.at(b, a) by {
                if b < a {
                    assert(self@.at(a, b) == self@.at(b, a));
                } else if a < b {
                    assert(self@.at(b, a) == self@.at(a, b));
                }
            }
        }
        true
    }

    /// Check if the matrix is orthogonal.
    fn is_orthogonal(&self) -> (r: bool)
        requires
            self@.col_dots_fit::<T>(),
        ensures
            r == self@.is_orthogonal(),
    {
        if !self.is_square() {
            return false;
        }
        let n = self.rows();
        let mut i: usize = 0;
        while i < n
            invariant
                i <= n,
                n == self@.rows,
                n == self@.cols,
                self@.col_dots_fit::<T>(),
                forall|a: int, b: int|
                    0 <= a < i && 0 <= b < n ==> #[trigger] self@.col_dot(a, b, n as nat) == (if a
                        == b {
                        1int
                    } else {
                        0int
                    }),
            decreases n - i,
        {
            let mut j: usize = 0;
            while j < n
                invariant
                    i < n,
                    j <= n,
                    n == self@.rows,
                    n == self@.cols,
                    self@.col_dots_fit::<T>(),
                    forall|a: int, b: int|
                        0 <= a < i && 0 <= b < n ==> #[trigger] self@.col_dot(a, b, n as nat) == (
                        if a == b {
                            1int
                        } else {
                            0int
                        }),
                    forall|b: int|
                        0 <= b < j ==> #[trigger] self@.col_dot(i as int, b, n as nat) == (if i
                            == b {
                            1int
                        } else {
                            0int
                        }),
                decreases n - j,
            {
                let mut acc = T::zero();
                let mut k: usize = 0;
                while k < n
                    invariant
                        i < n,
                        j < n,
                        k <= n,
                        n == self@.rows,
                        n == self@.cols,
                        self@.col_dots_fit::<T>(),
                        acc.val() == self@.col_dot(i as int, j as int, k as nat),
                    decreases n - k,
                {
                    let x = self.get(k, i);
                    let y = self.get(k, j);
                    proof {
                        assert(T::fits(self@.col_dot(i as int, j as int, k as nat)));
                        assert(T::fits(self@.col_dot(i as int, j as int, (k + 1) as nat)));
                    }
                    match (x, y) {
                        (Some(e), Some(f)) => {
                            acc = acc.add(e.mul(f));
                        },
                        _ => {},
                    }
                    k += 1;
                }
                let want = if i == j { T::one() } else { T::zero() };
                if !acc.equals(want) {
                    assert(self@.in_range(i as int, j as int));
                    return false;
                }
                j += 1;
            }
            i += 1;
        }
        true
    }

    /// Check if the matrix is diagonal.
    fn is_diagonal(&self) -> (r: bool)
        ensures
            r == self@.is_diagonal(),
    {
        self.has_zero_above(1) && self.has_zero_below(1)
    }

    /// Check if the matrix is lower triangular.
    fn is_lower_triangular(&self) -> (r: bool)
        ensures
            r == self@.is_lower_triangular(),
    {
        self.is_square() && self.has_zero_above(1)
    }

    /// Check if the matrix is unilower triangular.
    fn is_unilower_triangular(&self) -> (r: bool)
        ensures
            r == self@.is_unilower_triangular(),
    {
        self.is_square() && self.has_zero_above(1) && self.has_unit_diagonal()
    }

    /// Check if the matrix is strictly lower triangular.
    fn is_strictly_lower_triangular(&self) -> (r: bool)
        ensures
            r == self@.is_strictly_lower_triangular(),
    {
        self.is_square() && self.has_zero_above(0)
    }

    /// Check if the matrix is lower Hessenberg.
    fn is_lower_hessenberg(&self) -> (r: bool)
        ensures
            r == self@.is_lower_hessenberg(),
    {
        self.is_square() && self.has_zero_above(2)
    }

    /// Check if the matrix is upper triangular.
    fn is_upper_triangular(&self) -> (r: bool)
        ensures
            r == self@.is_upper_triangular(),
    {
        self.is_square() && self.has_zero_below(1)
    }

    /// Check if the matrix is uniupper triangular.
    fn is_uniupper_triangular(&self) -> (r: bool)
        ensures
            r == self@.is_uniupper_triangular(),
    {
        self.is_square() && self.has_zero_below(1) && self.has_unit_diagonal()
    }

    /// Check if the matrix is strictly upper triangular.
    fn is_strictly_upper_triangular(&self) -> (r: bool)
        ensures
            r == self@.is_strictly_upper_triangular(),
    {
        self.is_square() && self.has_zero_below(0)
    }

    /// Check if the matrix is upper Hessenberg.
    fn is_upper_hessenberg(&self) -> (r: bool)
        ensures
            r == self@.is_upper_hessenberg(),
    {
        self.is_square() && self.has_zero_below(2)
    }
}

} // verus!
