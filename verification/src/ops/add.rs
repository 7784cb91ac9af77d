use vstd::prelude::*;
use vstd::pervasive::{runtime_assert, unreached};
use vstd::std_specs::ops::AddSpecImpl;
use core::ops::Add;
use crate::dense::DenseMatrix;
use crate::grid::{lemma_flat_index, Grid};
use crate::matrix::{Matrix, ReadOrder};
use crate::scalar::{vals, Scalar};
use crate::sparse::sparse_matrix::tuple_entry;
use crate::sparse::{IdentityMatrix, SparseMatrix, ZeroMatrix};

verus! {

/// The entrywise sum of two matrices of the same shape, as a dense matrix.
pub fn sum<T: Scalar, A: Matrix<T>, B: Matrix<T>>(a: &A, b: &B) -> (r: DenseMatrix<T>)
    requires
        a@.rows == b@.rows,
        a@.cols == b@.cols,
        a@.plus(b@).fits::<T>(),
    ensures
        r@ == a@.plus(b@),
        r.order() == ReadOrder::RowMajor,
{
    let rows = a.rows();
    let cols = a.cols();
    let ghost want = a@.plus(b@);
    let mut mat: Vec<T> = Vec::new();
    let mut i: usize = 0;
    while i < rows
        invariant
            i <= rows,
            rows == a@.rows,
            cols == a@.cols,
            rows == b@.rows,
            cols == b@.cols,
            want == a@.plus(b@),
            want.fits::<T>(),
            mat@.len() == i * cols,
            forall|x: int, y: int|
                0 <= x < i && 0 <= y < cols ==> #[trigger] want.at(x, y) == mat@[x * cols + y].val(),
        decreases rows - i,
    {
        let mut j: usize = 0;
        while j < cols
            invariant
                i < rows,
                j <= cols,
                rows == a@.rows,
                cols == a@.cols,
                rows == b@.rows,
                cols == b@.cols,
                want == a@.plus(b@),
                want.fits::<T>(),
                mat@.len() == i * cols + j,
                forall|x: int, y: int|
                    0 <= x < i && 0 <= y < cols ==> #[trigger] want.at(x, y) == mat@[x * cols
                        + y].val(),
                forall|y: int|
                    0 <= y < j ==> #[trigger] want.at(i as int, y) == mat@[i * cols + y].val(),
            decreases cols - j,
        {
            let x = a.get(i, j);
            let y = b.get(i, j);
            let ghost before = mat@;
            proof {
                assert(want.in_range(i as int, j as int));
                assert(T::fits(want.at(i as int, j as int)));
            }
            match (x, y) {
                (Some(e), Some(f)) => mat.push(e.add(f)),
                _ => {},
            }
            proof {
                assert forall|x: int, y: int| 0 <= x < i && 0 <= y < cols implies #[trigger] want.at(
                    x,
                    y,
                ) == mat@[x * cols + y].val() by {
                    lemma_flat_index(x, y, i as int, cols as int);
                    assert(mat@[x * cols + y] == before[x * cols + y]);
                }
            }
            j += 1;
        }
        assert((i + 1) * cols == i * cols + cols) by (nonlinear_arith);
        i += 1;
    }
    let ghost flat = vals(mat@);
    let built = DenseMatrix::from_vec(mat, rows, cols, None);
    match built {
        Ok(d) => {
            proof {
                assert forall|x: int, y: int| want.in_range(x, y) implies d@.at(x, y) == want.at(
                    x,
                    y,
                ) by {
                    lemma_flat_index(x, y, rows as int, cols as int);
                }
                Grid::lemma_equal(d@, want);
            }
            d
        },
        Err(_) => unreached(),
    }
}

/// A list that holds `(k, k, v)` at each position `k` gives `v` to the
/// diagonal positions below its length and zero to every other position.
pub proof fn lemma_diagonal_tuples<T: Scalar>(s: Seq<(usize, usize, T)>, v: T, i: int, j: int)
    requires
        forall|k: int| 0 <= k < s.len() ==> #[trigger] s[k] == (k as usize, k as usize, v),
        s.len() <= usize::MAX,
        0 <= i,
        0 <= j,
    ensures
        tuple_entry(s, i, j) == (if i == j && i < s.len() {
            v.val()
        } else {
            0
        }),
    decreases s.len(),
{
    if s.len() > 0 {
        let t = s.drop_last();
        assert forall|k: int| 0 <= k < t.len() implies #[trigger] t[k] == (
            k as usize,
            k as usize,
            v,
        ) by {
            assert(t[k] == s[k]);
        }
        lemma_diagonal_tuples(t, v, i, j);
        assert(s.last() == s[s.len() - 1]);
    }
}

impl<T: Scalar> Add<DenseMatrix<T>> for ZeroMatrix<T> {
    type Output = DenseMatrix<T>;

    /// Adding a matrix of zeros changes nothing: the sum is the other
    /// operand. The shapes must be the same.
    fn add(self, rhs: DenseMatrix<T>) -> (r: DenseMatrix<T>) {
        runtime_assert(self.rows() == rhs.rows() && self.cols() == rhs.cols());
        rhs
    }
}

impl<T: Scalar> AddSpecImpl<DenseMatrix<T>> for ZeroMatrix<T> {
    open spec fn obeys_add_spec() -> bool {
        true
    }

    open spec fn add_req(self, rhs: DenseMatrix<T>) -> bool {
        self@.rows == rhs@.rows && self@.cols == rhs@.cols
    }

    open spec fn add_spec(self, rhs: DenseMatrix<T>) -> DenseMatrix<T> {
        rhs
    }
}

impl<T: Scalar> Add<IdentityMatrix<T>> for ZeroMatrix<T> {
    type Output = IdentityMatrix<T>;

    /// Adding a matrix of zeros changes nothing: the sum is the other
    /// operand. The shapes must be the same.
    fn add(self, rhs: IdentityMatrix<T>) -> (r: IdentityMatrix<T>) {
        runtime_assert(self.rows() == rhs.rows() && self.cols() == rhs.cols());
        rhs
    }
}

impl<T: Scalar> AddSpecImpl<IdentityMatrix<T>> for ZeroMatrix<T> {
    open spec fn obeys_add_spec() -> bool {
        true
    }

    open spec fn add_req(self, rhs: IdentityMatrix<T>) -> bool {
        self@.rows == rhs@.rows && self@.cols == rhs@.cols
    }

    open spec fn add_spec(self, rhs: IdentityMatrix<T>) -> IdentityMatrix<T> {
        rhs
    }
}

impl<T: Scalar> Add<SparseMatrix<T>> for ZeroMatrix<T> {
    type Output = SparseMatrix<T>;

    /// Adding a matrix of zeros changes nothing: the sum is the other
    /// operand. The shapes must be the same.
    fn add(self, rhs: SparseMatrix<T>) -> (r: SparseMatrix<T>) {
        runtime_assert(self.rows() == rhs.rows() && self.cols() == rhs.cols());
        rhs
    }
}

impl<T: Scalar> AddSpecImpl<SparseMatrix<T>> for ZeroMatrix<T> {
    open spec fn obeys_add_spec() -> bool {
        true
    }

    open spec fn add_req(self, rhs: SparseMatrix<T>) -> bool {
        self@.rows == rhs@.rows && self@.cols == rhs@.cols
    }

    open spec fn add_spec(self, rhs: SparseMatrix<T>) -> SparseMatrix<T> {
        rhs
    }
}

impl<T: Scalar> Add for ZeroMatrix<T> {
    type Output = ZeroMatrix<T>;

    /// Adding a matrix of zeros changes nothing: the sum is the other
    /// operand. The shapes must be the same.
    fn add(self, rhs: ZeroMatrix<T>) -> (r: ZeroMatrix<T>) {
        runtime_assert(self.rows() == rhs.rows() && self.cols() == rhs.cols());
        rhs
    }
}

impl<T: Scalar> AddSpecImpl for ZeroMatrix<T> {
    open spec fn obeys_add_spec() -> bool {
        true
    }

    open spec fn add_req(self, rhs: ZeroMatrix<T>) -> bool {
        self@.rows == rhs@.rows && self@.cols == rhs@.cols
    }

    open spec fn add_spec(self, rhs: ZeroMatrix<T>) -> ZeroMatrix<T> {
        rhs
    }
}

impl<T: Scalar> Add<ZeroMatrix<T>> for DenseMatrix<T> {
    type Output = DenseMatrix<T>;

    /// Adding a matrix of zeros changes nothing: the sum is the other
    /// operand. The shapes must be the same.
    fn add(self, rhs: ZeroMatrix<T>) -> (r: DenseMatrix<T>) {
        runtime_assert(self.rows() == rhs.rows() && self.cols() == rhs.cols());
        self
    }
}

impl<T: Scalar> AddSpecImpl<ZeroMatrix<T>> for DenseMatrix<T> {
    open spec fn obeys_add_spec() -> bool {
        true
    }

    open spec fn add_req(self, rhs: ZeroMatrix<T>) -> bool {
        self@.rows == rhs@.rows && self@.cols == rhs@.cols
    }

    open spec fn add_spec(self, rhs: ZeroMatrix<T>) -> DenseMatrix<T> {
        self
    }
}

impl<T: Scalar> Add<ZeroMatrix<T>> for IdentityMatrix<T> {
    type Output = IdentityMatrix<T>;

    /// Adding a matrix of zeros changes nothing: the sum is the other
    /// operand. The shapes must be the same.
    fn add(self, rhs: ZeroMatrix<T>) -> (r: IdentityMatrix<T>) {
        runtime_assert(self.rows() == rhs.rows() && self.cols() == rhs.cols());
        self
    }
}

impl<T: Scalar> AddSpecImpl<ZeroMatrix<T>> for IdentityMatrix<T> {
    open spec fn obeys_add_spec() -> bool {
        true
    }

    open spec fn add_req(self, rhs: ZeroMatrix<T>) -> bool {
        self@.rows == rhs@.rows && self@.cols == rhs@.cols
    }

    open spec fn add_spec(self, rhs: ZeroMatrix<T>) -> IdentityMatrix<T> {
        self
    }
}

impl<T: Scalar> Add<ZeroMatrix<T>> for SparseMatrix<T> {
    type Output = SparseMatrix<T>;

    /// Adding a matrix of zeros changes nothing: the sum is the other
    /// operand. The shapes must be the same.
    fn add(self, rhs: ZeroMatrix<T>) -> (r: SparseMatrix<T>) {
        runtime_assert(self.rows() == rhs.rows() && self.cols() == rhs.cols());
        self
    }
}

impl<T: Scalar> AddSpecImpl<ZeroMatrix<T>> for SparseMatrix<T> {
    open spec fn obeys_add_spec() -> bool {
        true
    }

    open spec fn add_req(self, rhs: ZeroMatrix<T>) -> bool {
        self@.rows == rhs@.rows && self@.cols == rhs@.cols
    }

    open spec fn add_spec(self, rhs: ZeroMatrix<T>) -> SparseMatrix<T> {
        self
    }
}

impl<T: Scalar> Add for DenseMatrix<T> {
    type Output = DenseMatrix<T>;

    /// The entrywise sum, as a new dense matrix. The shapes must be the
    /// same, and every sum must be representable.
    fn add(self, rhs: DenseMatrix<T>) -> (r: DenseMatrix<T>)
        ensures
            r@ == self@.plus(rhs@),
    {
        runtime_assert(self.rows() == rhs.rows() && self.cols() == rhs.cols());
        sum(&self, &rhs)
    }
}

impl<T: Scalar> AddSpecImpl for DenseMatrix<T> {
    /// The sum is stated by its value, in the contract of `add`.
    open spec fn obeys_add_spec() -> bool {
        false
    }

    open spec fn add_req(self, rhs: DenseMatrix<T>) -> bool {
        &&& self@.rows == rhs@.rows
        &&& self@.cols == rhs@.cols
        &&& self@.plus(rhs@).fits::<T>()
    }

    /// Some dense matrix whose value is the sum.
    open spec fn add_spec(self, rhs: DenseMatrix<T>) -> DenseMatrix<T> {
        choose|r: DenseMatrix<T>| r@ == self@.plus(rhs@)
    }
}

impl<T: Scalar> Add<IdentityMatrix<T>> for DenseMatrix<T> {
    type Output = DenseMatrix<T>;

    /// The entrywise sum, as a new dense matrix. The shapes must be the
    /// same, and every sum must be representable.
    fn add(self, rhs: IdentityMatrix<T>) -> (r: DenseMatrix<T>)
        ensures
            r@ == self@.plus(rhs@),
    {
        runtime_assert(self.rows() == rhs.rows() && self.cols() == rhs.cols());
        sum(&self, &rhs)
    }
}

impl<T: Scalar> AddSpecImpl<IdentityMatrix<T>> for DenseMatrix<T> {
    /// The sum is stated by its value, in the contract of `add`.
    open spec fn obeys_add_spec() -> bool {
        false
    }

    open spec fn add_req(self, rhs: IdentityMatrix<T>) -> bool {
        &&& self@.rows == rhs@.rows
        &&& self@.cols == rhs@.cols
        &&& self@.plus(rhs@).fits::<T>()
    }

    /// Some dense matrix whose value is the sum.
    open spec fn add_spec(self, rhs: IdentityMatrix<T>) -> DenseMatrix<T> {
        choose|r: DenseMatrix<T>| r@ == self@.plus(rhs@)
    }
}

impl<T: Scalar> Add<DenseMatrix<T>> for IdentityMatrix<T> {
    type Output = DenseMatrix<T>;

    /// The entrywise sum, as a new dense matrix. The shapes must be the
    /// same, and every sum must be representable.
    fn add(self, rhs: DenseMatrix<T>) -> (r: DenseMatrix<T>)
        ensures
            r@ == self@.plus(rhs@),
    {
        runtime_assert(self.rows() == rhs.rows() && self.cols() == rhs.cols());
        sum(&self, &rhs)
    }
}

impl<T: Scalar> AddSpecImpl<DenseMatrix<T>> for IdentityMatrix<T> {
    /// The sum is stated by its value, in the contract of `add`.
    open spec fn obeys_add_spec() -> bool {
        false
    }

    open spec fn add_req(self, rhs: DenseMatrix<T>) -> bool {
        &&& self@.rows == rhs@.rows
        &&& self@.cols == rhs@.cols
        &&& self@.plus(rhs@).fits::<T>()
    }

    /// Some dense matrix whose value is the sum.
    open spec fn add_spec(self, rhs: DenseMatrix<T>) -> DenseMatrix<T> {
        choose|r: DenseMatrix<T>| r@ == self@.plus(rhs@)
    }
}

impl<T: Scalar> Add<SparseMatrix<T>> for DenseMatrix<T> {
    type Output = DenseMatrix<T>;

    /// The entrywise sum, as a new dense matrix. The shapes must be the
    /// same, and every sum must be representable.
    fn add(self, rhs: SparseMatrix<T>) -> (r: DenseMatrix<T>)
        ensures
            r@ == self@.plus(rhs@),
    {
        runtime_assert(self.rows() == rhs.rows() && self.cols() == rhs.cols());
        sum(&self, &rhs)
    }
}

impl<T: Scalar> AddSpecImpl<SparseMatrix<T>> for DenseMatrix<T> {
    /// The sum is stated by its value, in the contract of `add`.
    open spec fn obeys_add_spec() -> bool {
        false
    }

    open spec fn add_req(self, rhs: SparseMatrix<T>) -> bool {
        &&& self@.rows == rhs@.rows
        &&& self@.cols == rhs@.cols
        &&& self@.plus(rhs@).fits::<T>()
    }

    /// Some dense matrix whose value is the sum.
    open spec fn add_spec(self, rhs: SparseMatrix<T>) -> DenseMatrix<T> {
        choose|r: DenseMatrix<T>| r@ == self@.plus(rhs@)
    }
}

impl<T: Scalar> Add<DenseMatrix<T>> for SparseMatrix<T> {
    type Output = DenseMatrix<T>;

    /// The entrywise sum, as a new dense matrix. The shapes must be the
    /// same, and every sum must be representable.
    fn add(self, rhs: DenseMatrix<T>) -> (r: DenseMatrix<T>)
        ensures
            r@ == self@.plus(rhs@),
    {
        runtime_assert(self.rows() == rhs.rows() && self.cols() == rhs.cols());
        sum(&self, &rhs)
    }
}

impl<T: Scalar> AddSpecImpl<DenseMatrix<T>> for SparseMatrix<T> {
    /// The sum is stated by its value, in the contract of `add`.
    open spec fn obeys_add_spec() -> bool {
        false
    }

    open spec fn add_req(self, rhs: DenseMatrix<T>) -> bool {
        &&& self@.rows == rhs@.rows
        &&& self@.cols == rhs@.cols
        &&& self@.plus(rhs@).fits::<T>()
    }

    /// Some dense matrix whose value is the sum.
    open spec fn add_spec(self, rhs: DenseMatrix<T>) -> DenseMatrix<T> {
        choose|r: DenseMatrix<T>| r@ == self@.plus(rhs@)
    }
}

impl<T: Scalar> Add for IdentityMatrix<T> {
    type Output = SparseMatrix<T>;

    /// The sum of two identities, built from its diagonal alone. The
    /// dimensions must be the same, and two must be representable unless
    /// the matrices are empty.
    fn add(self, rhs: IdentityMatrix<T>) -> (r: SparseMatrix<T>)
        ensures
            r@ == self@.plus(rhs@),
    {
        runtime_assert(self.rows() == rhs.rows());
        let n = self.rows();
        let mut mat: Vec<(usize, usize, T)> = Vec::with_capacity(n);
        if n > 0 {
            let two = T::one().add(T::one());
            let mut i: usize = 0;
            while i < n
                invariant
                    i <= n,
                    two.val() == 2,
                    mat@.len() == i,
                    forall|k: int| 0 <= k < i ==> #[trigger] mat@[k] == (k as usize, k as usize, two),
                decreases n - i,
            {
                mat.push((i, i, two));
                i += 1;
            }
        }
        let ghost list = mat@;
        let r = SparseMatrix::from_tuple(mat, n, n);
        proof {
            self.lemma_value();
            rhs.lemma_value();
            let want = self@.plus(rhs@);
            r.lemma_view();
            assert forall|i: int, j: int| want.in_range(i, j) implies r@.at(i, j) == want.at(
                i,
                j,
            ) by {
                if n > 0 {
                    lemma_diagonal_tuples(list, list[0].2, i, j);
                }
            }
            Grid::lemma_equal(r@, want);
        }
        r
    }
}

impl<T: Scalar> AddSpecImpl for IdentityMatrix<T> {
    /// The sum is stated by its value, in the contract of `add`.
    open spec fn obeys_add_spec() -> bool {
        false
    }

    open spec fn add_req(self, rhs: IdentityMatrix<T>) -> bool {
        &&& self@.rows == rhs@.rows
        &&& self@.rows > 0 ==> T::fits(2)
    }

    /// Some sparse matrix whose value is the sum.
    open spec fn add_spec(self, rhs: IdentityMatrix<T>) -> SparseMatrix<T> {
        choose|r: SparseMatrix<T>| r@ == self@.plus(rhs@)
    }
}

} // verus!
