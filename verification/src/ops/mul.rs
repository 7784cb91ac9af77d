use vstd::prelude::*;
use vstd::pervasive::{runtime_assert, unreached};
use vstd::std_specs::ops::MulSpecImpl;
use core::ops::Mul;
use crate::dense::{DenseColumn, DenseMatrix, DenseRow};
use crate::grid::{lemma_flat_index, Grid};
use crate::matrix::{Matrix, ReadOrder};
use crate::scalar::{vals, Scalar};
use crate::sparse::{IdentityMatrix, SparseMatrix, ZeroMatrix};
use crate::vector::{inner, inner_fits, Vector};

verus! {

/// The matrix product of two matrices, as a dense matrix: the entry at
/// `(i, j)` is the sum over `k` of `a(i, k) * b(k, j)`.
pub fn product<T: Scalar, A: Matrix<T>, B: Matrix<T>>(a: &A, b: &B) -> (r: DenseMatrix<T>)
    requires
        a@.cols == b@.rows,
        a@.products_fit::<T>(b@),
    ensures
        r@ == a@.times(b@),
        r.order() == ReadOrder::RowMajor,
{
    let rows = a.rows();
    let inner = a.cols();
    let cols = b.cols();
    let ghost want = a@.times(b@);
    let mut mat: Vec<T> = Vec::new();
    let mut i: usize = 0;
    while i < rows
        invariant
            i <= rows,
            rows == a@.rows,
            inner == a@.cols,
            inner == b@.rows,
            cols == b@.cols,
            want == a@.times(b@),
            a@.products_fit::<T>(b@),
            mat@.len() == i * cols,
            forall|x: int, y: int|
                0 <= x < i && 0 <= y < cols ==> #[trigger] want.at(x, y) == mat@[x * cols + y].val(),
        decreases rows - i,
    {
        let mut j: usize = 0;
        while j < cols
            invariant
                i < rows,
                j <= cols,
                rows == a@.rows,
                inner == a@.cols,
                inner == b@.rows,
                cols == b@.cols,
                want == a@.times(b@),
                a@.products_fit::<T>(b@),
                mat@.len() == i * cols + j,
                forall|x: int, y: int|
                    0 <= x < i && 0 <= y < cols ==> #[trigger] want.at(x, y) == mat@[x * cols
                        + y].val(),
                forall|y: int|
                    0 <= y < j ==> #[trigger] want.at(i as int, y) == mat@[i * cols + y].val(),
            decreases cols - j,
        {
            let mut acc = T::zero();
            let mut k: usize = 0;
            while k < inner
                invariant
                    i < rows,
                    j < cols,
                    k <= inner,
                    rows == a@.rows,
                    inner == a@.cols,
                    inner == b@.rows,
                    cols == b@.cols,
                    a@.products_fit::<T>(b@),
                    acc.val() == a@.dot(b@, i as int, j as int, k as nat),
                decreases inner - k,
            {
                let x = a.get(i, k);
                let y = b.get(k, j);
                proof {
                    assert(T::fits(a@.dot(b@, i as int, j as int, k as nat)));
                    assert(T::fits(a@.dot(b@, i as int, j as int, (k + 1) as nat)));
                }
                match (x, y) {
                    (Some(e), Some(f)) => {
                        acc = acc.add(e.mul(f));
                    },
                    _ => {},
                }
                k += 1;
            }
            let ghost before = mat@;
            mat.push(acc);
            proof {
                assert forall|x: int, y: int| 0 <= x < i && 0 <= y < cols implies #[trigger] want.at(
                    x,
                    y,
                ) == mat@[x * cols + y].val() by {
                    lemma_flat_index(x, y, i as int, cols as int);
                    assert(mat@[x * cols + y] == before[x * cols + y]);
                }
            }
            j += 1;
        }
        assert((i + 1) * cols == i * cols + cols) by (nonlinear_arith);
        i += 1;
    }
    let built = DenseMatrix::from_vec(mat, rows, cols, None);
    match built {
        Ok(d) => {
            proof {
                assert forall|x: int, y: int| want.in_range(x, y) implies d@.at(x, y) == want.at(
                    x,
                    y,
                ) by {
                    lemma_flat_index(x, y, rows as int, cols as int);
                }
                Grid::lemma_equal(d@, want);
            }
            d
        },
        Err(_) => unreached(),
    }
}

impl<T: Scalar> Mul for ZeroMatrix<T> {
    type Output = ZeroMatrix<T>;

    /// A product with a matrix of zeros is a matrix of zeros; no entry is
    /// read. The left operand must have as many columns as the right has
    /// rows.
    fn mul(self, rhs: ZeroMatrix<T>) -> (r: ZeroMatrix<T>) {
        runtime_assert(self.cols() == rhs.rows());
        ZeroMatrix::new(self.rows(), rhs.cols())
    }
}

impl<T: Scalar> MulSpecImpl for ZeroMatrix<T> {
    open spec fn obeys_mul_spec() -> bool {
        true
    }

    open spec fn mul_req(self, rhs: ZeroMatrix<T>) -> bool {
        self@.cols == rhs@.rows
    }

    open spec fn mul_spec(self, rhs: ZeroMatrix<T>) -> ZeroMatrix<T> {
        ZeroMatrix::of(self@.rows, rhs@.cols)
    }
}

impl<T: Scalar> Mul<DenseMatrix<T>> for ZeroMatrix<T> {
    type Output = ZeroMatrix<T>;

    /// A product with a matrix of zeros is a matrix of zeros; no entry is
    /// read. The left operand must have as many columns as the right has
    /// rows.
    fn mul(self, rhs: DenseMatrix<T>) -> (r: ZeroMatrix<T>) {
        runtime_assert(self.cols() == rhs.rows());
        ZeroMatrix::new(self.rows(), rhs.cols())
    }
}

impl<T: Scalar> MulSpecImpl<DenseMatrix<T>> for ZeroMatrix<T> {
    open spec fn obeys_mul_spec() -> bool {
        true
    }

    open spec fn mul_req(self, rhs: DenseMatrix<T>) -> bool {
        self@.cols == rhs@.rows
    }

    open spec fn mul_spec(self, rhs: DenseMatrix<T>) -> ZeroMatrix<T> {
        ZeroMatrix::of(self@.rows, rhs@.cols)
    }
}

impl<T: Scalar> Mul<ZeroMatrix<T>> for DenseMatrix<T> {
    type Output = ZeroMatrix<T>;

    /// A product with a matrix of zeros is a matrix of zeros; no entry is
    /// read. The left operand must have as many columns as the right has
    /// rows.
    fn mul(self, rhs: ZeroMatrix<T>) -> (r: ZeroMatrix<T>) {
        runtime_assert(self.cols() == rhs.rows());
        ZeroMatrix::new(self.rows(), rhs.cols())
    }
}

impl<T: Scalar> MulSpecImpl<ZeroMatrix<T>> for DenseMatrix<T> {
    open spec fn obeys_mul_spec() -> bool {
        true
    }

    open spec fn mul_req(self, rhs: ZeroMatrix<T>) -> bool {
        self@.cols == rhs@.rows
    }

    open spec fn mul_spec(self, rhs: ZeroMatrix<T>) -> ZeroMatrix<T> {
        ZeroMatrix::of(self@.rows, rhs@.cols)
    }
}

impl<T: Scalar> Mul<SparseMatrix<T>> for ZeroMatrix<T> {
    type Output = ZeroMatrix<T>;

    /// A product with a matrix of zeros is a matrix of zeros; no entry is
    /// read. The left operand must have as many columns as the right has
    /// rows.
    fn mul(self, rhs: SparseMatrix<T>) -> (r: ZeroMatrix<T>) {
        runtime_assert(self.cols() == rhs.rows());
        ZeroMatrix::new(self.rows(), rhs.cols())
    }
}

impl<T: Scalar> MulSpecImpl<SparseMatrix<T>> for ZeroMatrix<T> {
    open spec fn obeys_mul_spec() -> bool {
        true
    }

    open spec fn mul_req(self, rhs: SparseMatrix<T>) -> bool {
        self@.cols == rhs@.rows
    }

    open spec fn mul_spec(self, rhs: SparseMatrix<T>) -> ZeroMatrix<T> {
        ZeroMatrix::of(self@.rows, rhs@.cols)
    }
}

impl<T: Scalar> Mul<ZeroMatrix<T>> for SparseMatrix<T> {
    type Output = ZeroMatrix<T>;

    /// A product with a matrix of zeros is a matrix of zeros; no entry is
    /// read. The left operand must have as many columns as the right has
    /// rows.
    fn mul(self, rhs: ZeroMatrix<T>) -> (r: ZeroMatrix<T>) {
        runtime_assert(self.cols() == rhs.rows());
        ZeroMatrix::new(self.rows(), rhs.cols())
    }
}

impl<T: Scalar> MulSpecImpl<ZeroMatrix<T>> for SparseMatrix<T> {
    open spec fn obeys_mul_spec() -> bool {
        true
    }

    open spec fn mul_req(self, rhs: ZeroMatrix<T>) -> bool {
        self@.cols == rhs@.rows
    }

    open spec fn mul_spec(self, rhs: ZeroMatrix<T>) -> ZeroMatrix<T> {
        ZeroMatrix::of(self@.rows, rhs@.cols)
    }
}

impl<T: Scalar> Mul for IdentityMatrix<T> {
    type Output = IdentityMatrix<T>;

    /// A product with an identity is the other operand, unchanged. The
    /// left operand must have as many columns as the right has rows.
    fn mul(self, rhs: IdentityMatrix<T>) -> (r: IdentityMatrix<T>) {
        runtime_assert(self.cols() == rhs.rows());
        self
    }
}

impl<T: Scalar> MulSpecImpl for IdentityMatrix<T> {
    open spec fn obeys_mul_spec() -> bool {
        true
    }

    open spec fn mul_req(self, rhs: IdentityMatrix<T>) -> bool {
        self@.cols == rhs@.rows
    }

    open spec fn mul_spec(self, rhs: IdentityMatrix<T>) -> IdentityMatrix<T> {
        self
    }
}

impl<T: Scalar> Mul<DenseMatrix<T>> for IdentityMatrix<T> {
    type Output = DenseMatrix<T>;

    /// A product with an identity is the other operand, unchanged. The
    /// left operand must have as many columns as the right has rows.
    fn mul(self, rhs: DenseMatrix<T>) -> (r: DenseMatrix<T>) {
        runtime_assert(self.cols() == rhs.rows());
        rhs
    }
}

impl<T: Scalar> MulSpecImpl<DenseMatrix<T>> for IdentityMatrix<T> {
    open spec fn obeys_mul_spec() -> bool {
        true
    }

    open spec fn mul_req(self, rhs: DenseMatrix<T>) -> bool {
        self@.cols == rhs@.rows
    }

    open spec fn mul_spec(self, rhs: DenseMatrix<T>) -> DenseMatrix<T> {
        rhs
    }
}

impl<T: Scalar> Mul<IdentityMatrix<T>> for DenseMatrix<T> {
    type Output = DenseMatrix<T>;

    /// A product with an identity is the other operand, unchanged. The
    /// left operand must have as many columns as the right has rows.
    fn mul(self, rhs: IdentityMatrix<T>) -> (r: DenseMatrix<T>) {
        runtime_assert(self.cols() == rhs.rows());
        self
    }
}

impl<T: Scalar> MulSpecImpl<IdentityMatrix<T>> for DenseMatrix<T> {
    open spec fn obeys_mul_spec() -> bool {
        true
    }

    open spec fn mul_req(self, rhs: IdentityMatrix<T>) -> bool {
        self@.cols == rhs@.rows
    }

    open spec fn mul_spec(self, rhs: IdentityMatrix<T>) -> DenseMatrix<T> {
        self
    }
}

impl<T: Scalar> Mul<SparseMatrix<T>> for IdentityMatrix<T> {
    type Output = SparseMatrix<T>;

    /// A product with an identity is the other operand, unchanged. The
    /// left operand must have as many columns as the right has rows.
    fn mul(self, rhs: SparseMatrix<T>) -> (r: SparseMatrix<T>) {
        runtime_assert(self.cols() == rhs.rows());
        rhs
    }
}

impl<T: Scalar> MulSpecImpl<SparseMatrix<T>> for IdentityMatrix<T> {
    open spec fn obeys_mul_spec() -> bool {
        true
    }

    open spec fn mul_req(self, rhs: SparseMatrix<T>) -> bool {
        self@.cols == rhs@.rows
    }

    open spec fn mul_spec(self, rhs: SparseMatrix<T>) -> SparseMatrix<T> {
        rhs
    }
}

impl<T: Scalar> Mul<IdentityMatrix<T>> for SparseMatrix<T> {
    type Output = SparseMatrix<T>;

    /// A product with an identity is the other operand, unchanged. The
    /// left operand must have as many columns as the right has rows.
    fn mul(self, rhs: IdentityMatrix<T>) -> (r: SparseMatrix<T>) {
        runtime_assert(self.cols() == rhs.rows());
        self
    }
}

impl<T: Scalar> MulSpecImpl<IdentityMatrix<T>> for SparseMatrix<T> {
    open spec fn obeys_mul_spec() -> bool {
        true
    }

    open spec fn mul_req(self, rhs: IdentityMatrix<T>) -> bool {
        self@.cols == rhs@.rows
    }

    open spec fn mul_spec(self, rhs: IdentityMatrix<T>) -> SparseMatrix<T> {
        self
    }
}

impl<T: Scalar> Mul<ZeroMatrix<T>> for IdentityMatrix<T> {
    type Output = ZeroMatrix<T>;

    /// A product with an identity is the other operand, unchanged. The
    /// left operand must have as many columns as the right has rows.
    fn mul(self, rhs: ZeroMatrix<T>) -> (r: ZeroMatrix<T>) {
        runtime_assert(self.cols() == rhs.rows());
        rhs
    }
}

impl<T: Scalar> MulSpecImpl<ZeroMatrix<T>> for IdentityMatrix<T> {
    open spec fn obeys_mul_spec() -> bool {
        true
    }

    open spec fn mul_req(self, rhs: ZeroMatrix<T>) -> bool {
        self@.cols == rhs@.rows
    }

    open spec fn mul_spec(self, rhs: ZeroMatrix<T>) -> ZeroMatrix<T> {
        rhs
    }
}

impl<T: Scalar> Mul<IdentityMatrix<T>> for ZeroMatrix<T> {
    type Output = ZeroMatrix<T>;

    /// A product with an identity is the other operand, unchanged. The
    /// left operand must have as many columns as the right has rows.
    fn mul(self, rhs: IdentityMatrix<T>) -> (r: ZeroMatrix<T>) {
        runtime_assert(self.cols() == rhs.rows());
        self
    }
}

impl<T: Scalar> MulSpecImpl<IdentityMatrix<T>> for ZeroMatrix<T> {
    open spec fn obeys_mul_spec() -> bool {
        true
    }

    open spec fn mul_req(self, rhs: IdentityMatrix<T>) -> bool {
        self@.cols == rhs@.rows
    }

    open spec fn mul_spec(self, rhs: IdentityMatrix<T>) -> ZeroMatrix<T> {
        self
    }
}

impl<T: Scalar> Mul for DenseMatrix<T> {
    type Output = DenseMatrix<T>;

    /// The matrix product, as a new dense matrix. The left operand must
    /// have as many columns as the right has rows, and every product and
    /// partial sum must be representable.
    fn mul(self, rhs: DenseMatrix<T>) -> (r: DenseMatrix<T>)
        ensures
            r@ == self@.times(rhs@),
    {
        runtime_assert(self.cols() == rhs.rows());
        product(&self, &rhs)
    }
}

impl<T: Scalar> MulSpecImpl for DenseMatrix<T> {
    /// The product is stated by its value, in the contract of `mul`.
    open spec fn obeys_mul_spec() -> bool {
        false
    }

    open spec fn mul_req(self, rhs: DenseMatrix<T>) -> bool {
        &&& self@.cols == rhs@.rows
        &&& self@.products_fit::<T>(rhs@)
    }

    /// Some dense matrix whose value is the product.
    open spec fn mul_spec(self, rhs: DenseMatrix<T>) -> DenseMatrix<T> {
        choose|r: DenseMatrix<T>| r@ == self@.times(rhs@)
    }
}

impl<T: Scalar> Mul<SparseMatrix<T>> for DenseMatrix<T> {
    type Output = DenseMatrix<T>;

    /// The matrix product, as a new dense matrix. The left operand must
    /// have as many columns as the right has rows, and every product and
    /// partial sum must be representable.
    fn mul(self, rhs: SparseMatrix<T>) -> (r: DenseMatrix<T>)
        ensures
            r@ == self@.times(rhs@),
    {
        runtime_assert(self.cols() == rhs.rows());
        product(&self, &rhs)
    }
}

impl<T: Scalar> MulSpecImpl<SparseMatrix<T>> for DenseMatrix<T> {
    /// The product is stated by its value, in the contract of `mul`.
    open spec fn obeys_mul_spec() -> bool {
        false
    }

    open spec fn mul_req(self, rhs: SparseMatrix<T>) -> bool {
        &&& self@.cols == rhs@.rows
        &&& self@.products_fit::<T>(rhs@)
    }

    /// Some dense matrix whose value is the product.
    open spec fn mul_spec(self, rhs: SparseMatrix<T>) -> DenseMatrix<T> {
        choose|r: DenseMatrix<T>| r@ == self@.times(rhs@)
    }
}

impl<T: Scalar> Mul<DenseMatrix<T>> for SparseMatrix<T> {
    type Output = DenseMatrix<T>;

    /// The matrix product, as a new dense matrix. The left operand must
    /// have as many columns as the right has rows, and every product and
    /// partial sum must be representable.
    fn mul(self, rhs: DenseMatrix<T>) -> (r: DenseMatrix<T>)
        ensures
            r@ == self@.times(rhs@),
    {
        runtime_assert(self.cols() == rhs.rows());
        product(&self, &rhs)
    }
}

impl<T: Scalar> MulSpecImpl<DenseMatrix<T>> for SparseMatrix<T> {
    /// The product is stated by its value, in the contract of `mul`.
    open spec fn obeys_mul_spec() -> bool {
        false
    }

    open spec fn mul_req(self, rhs: DenseMatrix<T>) -> bool {
        &&& self@.cols == rhs@.rows
        &&& self@.products_fit::<T>(rhs@)
    }

    /// Some dense matrix whose value is the product.
    open spec fn mul_spec(self, rhs: DenseMatrix<T>) -> DenseMatrix<T> {
        choose|r: DenseMatrix<T>| r@ == self@.times(rhs@)
    }
}

impl<T: Scalar> Mul for SparseMatrix<T> {
    type Output = DenseMatrix<T>;

    /// The matrix product, as a new dense matrix. The left operand must
    /// have as many columns as the right has rows, and every product and
    /// partial sum must be representable.
    fn mul(self, rhs: SparseMatrix<T>) -> (r: DenseMatrix<T>)
        ensures
            r@ == self@.times(rhs@),
    {
        runtime_assert(self.cols() == rhs.rows());
        product(&self, &rhs)
    }
}

impl<T: Scalar> MulSpecImpl for SparseMatrix<T> {
    /// The product is stated by its value, in the contract of `mul`.
    open spec fn obeys_mul_spec() -> bool {
        false
    }

    open spec fn mul_req(self, rhs: SparseMatrix<T>) -> bool {
        &&& self@.cols == rhs@.rows
        &&& self@.products_fit::<T>(rhs@)
    }

    /// Some dense matrix whose value is the product.
    open spec fn mul_spec(self, rhs: SparseMatrix<T>) -> DenseMatrix<T> {
        choose|r: DenseMatrix<T>| r@ == self@.times(rhs@)
    }
}

/// The inner product of two dense vectors.
impl<T: Scalar> Mul<DenseColumn<T>> for DenseRow<T> {
    type Output = T;

    /// The sum of the products of the elements at the same position. The
    /// vectors must have the same length, and every product and partial
    /// sum must be representable.
    fn mul(self, rhs: DenseColumn<T>) -> (r: T)
        ensures
            r.val() == inner(vals(self@), vals(rhs@), self@.len()),
    {
        runtime_assert(self.len() == rhs.len());
        let n = self.len();
        let ghost a = vals(self@);
        let ghost b = vals(rhs@);
        let mut acc = T::zero();
        let mut i: usize = 0;
        while i < n
            invariant
                i <= n,
                n == self@.len(),
                n == rhs@.len(),
                a == vals(self@),
                b == vals(rhs@),
                inner_fits::<T>(a, b),
                acc.val() == inner(a, b, i as nat),
            decreases n - i,
        {
            let x = self.get(i);
            let y = rhs.get(i);
            proof {
                assert(T::fits(inner(a, b, i as nat)));
                assert(T::fits(inner(a, b, (i + 1) as nat)));
            }
            match (x, y) {
                (Some(e), Some(f)) => {
                    acc = acc.add(e.mul(f));
                },
                _ => {},
            }
            i += 1;
        }
        acc
    }
}

impl<T: Scalar> MulSpecImpl<DenseColumn<T>> for DenseRow<T> {
    /// The product is stated by its value, in the contract of `mul`.
    open spec fn obeys_mul_spec() -> bool {
        false
    }

    open spec fn mul_req(self, rhs: DenseColumn<T>) -> bool {
        &&& self@.len() == rhs@.len()
        &&& inner_fits::<T>(vals(self@), vals(rhs@))
    }

    /// Some element whose value is the inner product.
    open spec fn mul_spec(self, rhs: DenseColumn<T>) -> T {
        choose|r: T| r.val() == inner(vals(self@), vals(rhs@), self@.len())
    }
}

/// The outer product of two dense vectors.
impl<T: Scalar> Mul<DenseRow<T>> for DenseColumn<T> {
    type Output = DenseMatrix<T>;

    /// The matrix whose entry at `(i, j)` is the product of element `i` of
    /// the column and element `j` of the row. Every product must be
    /// representable.
    fn mul(self, rhs: DenseRow<T>) -> (r: DenseMatrix<T>)
        ensures
            r@ == Grid::outer(vals(self@), vals(rhs@)),
    {
        let (m, n) = (self.len(), rhs.len());
        let ghost want = Grid::outer(vals(self@), vals(rhs@));
        let mut mat: Vec<T> = Vec::new();
        let mut i: usize = 0;
        while i < m
            invariant
                i <= m,
                m == self@.len(),
                n == rhs@.len(),
                want == Grid::outer(vals(self@), vals(rhs@)),
                want.fits::<T>(),
                mat@.len() == i * n,
                forall|x: int, y: int|
                    0 <= x < i && 0 <= y < n ==> #[trigger] want.at(x, y) == mat@[x * n + y].val(),
            decreases m - i,
        {
            let mut j: usize = 0;
            while j < n
                invariant
                    i < m,
                    j <= n,
                    m == self@.len(),
                    n == rhs@.len(),
                    want == Grid::outer(vals(self@), vals(rhs@)),
                    want.fits::<T>(),
                    mat@.len() == i * n + j,
                    forall|x: int, y: int|
                        0 <= x < i && 0 <= y < n ==> #[trigger] want.at(x, y) == mat@[x * n
                            + y].val(),
                    forall|y: int|
                        0 <= y < j ==> #[trigger] want.at(i as int, y) == mat@[i * n + y].val(),
                decreases n - j,
            {
                let x = self.get(i);
                let y = rhs.get(j);
                let ghost before = mat@;
                proof {
                    assert(want.in_range(i as int, j as int));
                    assert(T::fits(want.at(i as int, j as int)));
                }
                match (x, y) {
                    (Some(e), Some(f)) => mat.push(e.mul(f)),
                    _ => {},
                }
                proof {
                    assert forall|x: int, y: int| 0 <= x < i && 0 <= y < n implies #[trigger] want.at(
                        x,
                        y,
                    ) == mat@[x * n + y].val() by {
                        lemma_flat_index(x, y, i as int, n as int);
                        assert(mat@[x * n + y] == before[x * n + y]);
                    }
                }
                j += 1;
            }
            assert((i + 1) * n == i * n + n) by (nonlinear_arith);
            i += 1;
        }
        let built = DenseMatrix::from_vec(mat, m, n, None);
        match built {
            Ok(d) => {
                proof {
                    assert forall|x: int, y: int| want.in_range(x, y) implies d@.at(x, y)
                        == want.at(x, y) by {
                        lemma_flat_index(x, y, m as int, n as int);
                    }
                    Grid::lemma_equal(d@, want);
                }
                d
            },
            Err(_) => unreached(),
        }
    }
}

impl<T: Scalar> MulSpecImpl<DenseRow<T>> for DenseColumn<T> {
    /// The product is stated by its value, in the contract of `mul`.
    open spec fn obeys_mul_spec() -> bool {
        false
    }

    open spec fn mul_req(self, rhs: DenseRow<T>) -> bool {
        Grid::outer(vals(self@), vals(rhs@)).fits::<T>()
    }

    /// Some dense matrix whose value is the outer product.
    open spec fn mul_spec(self, rhs: DenseRow<T>) -> DenseMatrix<T> {
        choose|r: DenseMatrix<T>| r@ == Grid::outer(vals(self@), vals(rhs@))
    }
}

} // verus!
