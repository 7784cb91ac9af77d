use vstd::prelude::*;
use vstd::std_specs::cmp::PartialEqSpec;
use vstd::std_specs::ops::{AddSpec, MulSpec};
use crate::dense::dense_matrix::{rectangular, row_vals};
use crate::dense::DenseMatrix;
use crate::grid::{lemma_flat_index, Grid};
use crate::matrix::Matrix;
use crate::scalar::{vals, Scalar};
use crate::sparse::identity_matrix::{lemma_identity_col_dot, lemma_identity_diag_sum};
use crate::sparse::zero_matrix::{lemma_zero_col_dot, lemma_zero_diag_sum};
use crate::sparse::{IdentityMatrix, SparseMatrix, ZeroMatrix};

verus! {

/// In a list of rows that are all `n` long, the rows laid end to end hold
/// the item `j` of row `i` at offset `i * n + j`.
pub proof fn lemma_flatten_rows<A>(s: Seq<Seq<A>>, n: nat)
    requires
        forall|i: int| 0 <= i < s.len() ==> (#[trigger] s[i]).len() == n,
    ensures
        s.flatten().len() == s.len() * n,
        forall|i: int, j: int|
            0 <= i < s.len() && 0 <= j < n ==> s.flatten()[i * n + j] == #[trigger] s[i][j],
    decreases s.len(),
{
    s.lemma_flatten_and_flatten_alt_are_equivalent();
    if s.len() == 0 {
        assert(s.len() * n == 0) by (nonlinear_arith)
            requires
                s.len() == 0,
        ;
    } else {
        let t = s.drop_last();
        lemma_flatten_rows(t, n);
        t.lemma_flatten_and_flatten_alt_are_equivalent();
        assert(s.flatten_alt() == t.flatten_alt() + s.last());
        assert(s.len() * n == t.len() * n + n) by (nonlinear_arith)
            requires
                s.len() == t.len() + 1,
        ;
        assert forall|i: int, j: int| 0 <= i < s.len() && 0 <= j < n implies s.flatten()[i * n + j]
            == #[trigger] s[i][j] by {
            lemma_flat_index(i, j, s.len() as int, n as int);
            if i < t.len() {
                lemma_flat_index(i, j, t.len() as int, n as int);
                assert(t[i] == s[i]);
                assert(t.flatten()[i * n + j] == t[i][j]);
            } else {
                assert(i * n == t.len() * n);
            }
        }
    }
}

/// Construction round-trip: the elements of a dense matrix that was made
/// from a list of rows are the rows laid end to end.
///
/// Here `d` is what `DenseMatrix::new` makes of `rows`, and `e` is what
/// `elements` returns for it.
pub proof fn lemma_construction_round_trip<T: Scalar>(
    rows: Seq<Vec<T>>,
    d: DenseMatrix<T>,
    e: Seq<T>,
)
    requires
        rectangular(rows),
        d@ == Grid::from_rows(row_vals(rows)),
        d@.lists(vals(e)),
    ensures
        e == rows.map_values(|r: Vec<T>| r@).flatten(),
{
    let n = rows[0]@.len();
    let s = rows.map_values(|r: Vec<T>| r@);
    assert forall|i: int| 0 <= i < s.len() implies (#[trigger] s[i]).len() == n by {
        assert(rows[i]@.len() == n);
    }
    lemma_flatten_rows(s, n);
    let flat = s.flatten();
    assert(e.len() == flat.len());
    assert forall|k: int| 0 <= k < e.len() implies e[k] == flat[k] by {
        let i = k / (n as int);
        let j = k % (n as int);
        assert(n > 0) by {
            if n == 0 {
                assert(rows.len() * n == 0) by (nonlinear_arith)
                    requires
                        n == 0,
                ;
            }
        }
        vstd::arithmetic::div_mod::lemma_fundamental_div_mod(k, n as int);
        vstd::arithmetic::div_mod::lemma_div_pos_is_pos(k, n as int);
        assert(k == i * n + j) by (nonlinear_arith)
            requires
                k == n * i + j,
        ;
        assert(i < rows.len()) by (nonlinear_arith)
            requires
                i * n + j < rows.len() * n,
                0 <= j,
                0 < n,
        ;
        assert(d@.in_range(i, j));
        assert(d@.at(i, j) == vals(e)[i * d@.cols + j]);
        assert(d@.at(i, j) == rows[i]@[j].val());
        assert(flat[i * n + j] == s[i][j]);
        T::lemma_val_injective(e[k], rows[i]@[j]);
    }
    assert(e =~= flat);
}

/// Adding a grid of zeros, on either side, changes nothing.
pub proof fn lemma_zero_plus(g: Grid)
    requires
        g.wf(),
    ensures
        Grid::zero(g.rows, g.cols).plus(g) == g,
        g.plus(Grid::zero(g.rows, g.cols)) == g,
{
    Grid::lemma_equal(Grid::zero(g.rows, g.cols).plus(g), g);
    Grid::lemma_equal(g.plus(Grid::zero(g.rows, g.cols)), g);
}

/// Row `i` of an identity times column `j` of a grid, taken over the first
/// `k` positions, is the grid's entry at `(i, j)` once `k` has passed `i`.
pub proof fn lemma_identity_dot_left(g: Grid, i: int, j: int, k: nat)
    requires
        g.wf(),
        g.in_range(i, j),
        k <= g.rows,
    ensures
        Grid::identity(g.rows).dot(g, i, j, k) == (if i < k {
            g.at(i, j)
        } else {
            0
        }),
    decreases k,
{
    if k > 0 {
        lemma_identity_dot_left(g, i, j, (k - 1) as nat);
        let id = Grid::identity(g.rows);
        let a = id.at(i, k - 1);
        let b = g.at(k - 1, j);
        assert(a == (if i == k - 1 { 1int } else { 0int }));
        assert(a * b == (if i == k - 1 { b } else { 0int })) by (nonlinear_arith)
            requires
                a == (if i == k - 1 { 1int } else { 0int }),
        ;
    }
}

/// Row `i` of a grid times column `j` of an identity, taken over the first
/// `k` positions, is the grid's entry at `(i, j)` once `k` has passed `j`.
pub proof fn lemma_identity_dot_right(g: Grid, i: int, j: int, k: nat)
    requires
        g.wf(),
        g.in_range(i, j),
        k <= g.cols,
    ensures
        g.dot(Grid::identity(g.cols), i, j, k) == (if j < k {
            g.at(i, j)
        } else {
            0
        }),
    decreases k,
{
    if k > 0 {
        lemma_identity_dot_right(g, i, j, (k - 1) as nat);
        let id = Grid::identity(g.cols);
        let a = g.at(i, k - 1);
        let b = id.at(k - 1, j);
        assert(b == (if k - 1 == j { 1int } else { 0int }));
        assert(a * b == (if k - 1 == j { a } else { 0int })) by (nonlinear_arith)
            requires
                b == (if k - 1 == j { 1int } else { 0int }),
        ;
    }
}

/// Multiplying by an identity, on either side, changes nothing.
pub proof fn lemma_identity_times(g: Grid)
    requires
        g.wf(),
    ensures
        Grid::identity(g.rows).times(g) == g,
        g.times(Grid::identity(g.cols)) == g,
{
    let left = Grid::identity(g.rows).times(g);
    let right = g.times(Grid::identity(g.cols));
    assert forall|i: int, j: int| g.in_range(i, j) implies left.at(i, j) == g.at(i, j) by {
        lemma_identity_dot_left(g, i, j, g.rows);
    }
    assert forall|i: int, j: int| g.in_range(i, j) implies right.at(i, j) == g.at(i, j) by {
        lemma_identity_dot_right(g, i, j, g.cols);
    }
    Grid::lemma_equal(left, g);
    Grid::lemma_equal(right, g);
}

/// Row `i` of a grid of zeros times any column is zero, and so is any row
/// times a column of a grid of zeros.
pub proof fn lemma_zero_dot(g: Grid, n: nat, i: int, j: int, k: nat)
    requires
        g.wf(),
    ensures
        0 <= i < n && k <= g.rows ==> Grid::zero(n, g.rows).dot(g, i, j, k) == 0,
        0 <= j < n && k <= g.cols ==> g.dot(Grid::zero(g.cols, n), i, j, k) == 0,
    decreases k,
{
    if k > 0 {
        lemma_zero_dot(g, n, i, j, (k - 1) as nat);
        if 0 <= i < n && k <= g.rows {
            let a = Grid::zero(n, g.rows).at(i, k - 1);
            let b = g.at(k - 1, j);
            assert(a == 0);
            assert(a * b == 0) by (nonlinear_arith)
                requires
                    a == 0,
            ;
        }
        if 0 <= j < n && k <= g.cols {
            let a = g.at(i, k - 1);
            let b = Grid::zero(g.cols, n).at(k - 1, j);
            assert(b == 0);
            assert(a * b == 0) by (nonlinear_arith)
                requires
                    b == 0,
            ;
        }
    }
}

/// Multiplying by a grid of zeros, on either side, gives a grid of zeros.
pub proof fn lemma_zero_times(g: Grid, n: nat)
    requires
        g.wf(),
    ensures
        Grid::zero(n, g.rows).times(g) == Grid::zero(n, g.cols),
        g.times(Grid::zero(g.cols, n)) == Grid::zero(g.rows, n),
{
    let left = Grid::zero(n, g.rows).times(g);
    let right = g.times(Grid::zero(g.cols, n));
    assert forall|i: int, j: int| left.in_range(i, j) implies left.at(i, j) == 0 by {
        lemma_zero_dot(g, n, i, j, g.rows);
    }
    assert forall|i: int, j: int| right.in_range(i, j) implies right.at(i, j) == 0 by {
        lemma_zero_dot(g, n, i, j, g.cols);
    }
    Grid::lemma_equal(left, Grid::zero(n, g.cols));
    Grid::lemma_equal(right, Grid::zero(g.rows, n));
}

/// Zero identity for addition: a matrix of zeros plus a matrix of the same
/// shape, in either order, equals that matrix. The result that `+` hands
/// back is the operand itself, and it is what the entrywise sum would be.
pub proof fn lemma_zero_is_additive_identity<T: Scalar>(
    z: ZeroMatrix<T>,
    d: DenseMatrix<T>,
    s: SparseMatrix<T>,
    i: IdentityMatrix<T>,
    w: ZeroMatrix<T>,
)
    ensures
        z.add_req(d) ==> z.add_spec(d).eq_spec(&d) && d.add_spec(z).eq_spec(&d) && z@.plus(d@)
            == d@ && d@.plus(z@) == d@,
        z.add_req(s) ==> z.add_spec(s).eq_spec(&s) && s.add_spec(z).eq_spec(&s) && z@.plus(s@)
            == s@ && s@.plus(z@) == s@,
        z.add_req(i) ==> z.add_spec(i).eq_spec(&i) && i.add_spec(z).eq_spec(&i) && z@.plus(i@)
            == i@ && i@.plus(z@) == i@,
        z.add_req(w) ==> z.add_spec(w).eq_spec(&w) && w.add_spec(z).eq_spec(&w) && z@.plus(w@)
            == w@ && w@.plus(z@) == w@,
{
    z.lemma_value();
    w.lemma_value();
    d.lemma_view();
    s.lemma_view();
    i.lemma_view();
    w.lemma_view();
    lemma_zero_plus(d@);
    lemma_zero_plus(s@);
    lemma_zero_plus(i@);
    lemma_zero_plus(w@);
}

/// Identity unit for multiplication: an identity times a matrix, and a
/// matrix times an identity, equals that matrix wherever the product is
/// defined. The result that `*` hands back is the operand itself, and it
/// is what the matrix product would be.
pub proof fn lemma_identity_is_multiplicative_unit<T: Scalar>(
    i: IdentityMatrix<T>,
    d: DenseMatrix<T>,
    s: SparseMatrix<T>,
    z: ZeroMatrix<T>,
    j: IdentityMatrix<T>,
)
    ensures
        i.mul_req(d) ==> i.mul_spec(d).eq_spec(&d) && i@.times(d@) == d@,
        d.mul_req(i) ==> d.mul_spec(i).eq_spec(&d) && d@.times(i@) == d@,
        i.mul_req(s) ==> i.mul_spec(s).eq_spec(&s) && i@.times(s@) == s@,
        s.mul_req(i) ==> s.mul_spec(i).eq_spec(&s) && s@.times(i@) == s@,
        i.mul_req(z) ==> i.mul_spec(z).eq_spec(&z) && i@.times(z@) == z@,
        z.mul_req(i) ==> z.mul_spec(i).eq_spec(&z) && z@.times(i@) == z@,
        i.mul_req(j) ==> i.mul_spec(j).eq_spec(&j) && i@.times(j@) == j@,
        j.mul_req(i) ==> j.mul_spec(i).eq_spec(&j) && j@.times(i@) == j@,
{
    i.lemma_value();
    j.lemma_value();
    d.lemma_view();
    s.lemma_view();
    z.lemma_view();
    i.lemma_view();
    j.lemma_view();
    lemma_identity_times(d@);
    lemma_identity_times(s@);
    lemma_identity_times(z@);
    lemma_identity_times(j@);
    lemma_identity_times(i@);
}

/// A product with a matrix of zeros is the matrix of zeros that `*` hands
/// back: it is what the matrix product would be.
pub proof fn lemma_zero_annihilates<T: Scalar>(
    z: ZeroMatrix<T>,
    d: DenseMatrix<T>,
    s: SparseMatrix<T>,
    w: ZeroMatrix<T>,
)
    ensures
        z.mul_req(d) ==> z.mul_spec(d)@ == z@.times(d@),
        d.mul_req(z) ==> d.mul_spec(z)@ == d@.times(z@),
        z.mul_req(s) ==> z.mul_spec(s)@ == z@.times(s@),
        s.mul_req(z) ==> s.mul_spec(z)@ == s@.times(z@),
        z.mul_req(w) ==> z.mul_spec(w)@ == z@.times(w@),
{
    z.lemma_value();
    w.lemma_value();
    d.lemma_view();
    s.lemma_view();
    w.lemma_view();
    z.lemma_view();
    lemma_zero_times(d@, z@.rows);
    lemma_zero_times(d@, z@.cols);
    lemma_zero_times(s@, z@.rows);
    lemma_zero_times(s@, z@.cols);
    lemma_zero_times(w@, z@.rows);
    ZeroMatrix::<T>::lemma_of(z@.rows, d@.cols);
    ZeroMatrix::<T>::lemma_of(d@.rows, z@.cols);
    ZeroMatrix::<T>::lemma_of(z@.rows, s@.cols);
    ZeroMatrix::<T>::lemma_of(s@.rows, z@.cols);
    ZeroMatrix::<T>::lemma_of(z@.rows, w@.cols);
}

/// The trace of the matrices that hold no data: that of a matrix of zeros
/// is zero and can always be taken; that of an identity is its dimension
/// and can be taken whenever the dimension can be represented.
pub proof fn lemma_trace_of_structural_matrices<T: Scalar>(z: ZeroMatrix<T>, i: IdentityMatrix<T>)
    ensures
        z@.trace() == 0,
        z@.diag_sums_fit::<T>(),
        i@.trace() == i@.rows,
        T::fits(i@.rows as int) ==> i@.diag_sums_fit::<T>(),
{
    z.lemma_value();
    i.lemma_value();
    T::lemma_unit_fits();
    lemma_zero_diag_sum(z@, z@.diag_len());
    lemma_identity_diag_sum(i@, i@.diag_len());
    assert forall|k: nat| k <= z@.diag_len() implies T::fits(#[trigger] z@.diag_sum(k)) by {
        lemma_zero_diag_sum(z@, k);
    }
    if T::fits(i@.rows as int) {
        assert forall|k: nat| k <= i@.diag_len() implies T::fits(#[trigger] i@.diag_sum(k)) by {
            lemma_identity_diag_sum(i@, k);
            T::lemma_fits_between(0, k as int, i@.rows as int);
        }
    }
}

/// Orthogonality of the matrices that hold no data: an identity is
/// orthogonal, a matrix of zeros only where it is empty, and for both the
/// question can always be asked.
pub proof fn lemma_orthogonality_of_structural_matrices<T: Scalar>(
    z: ZeroMatrix<T>,
    i: IdentityMatrix<T>,
)
    ensures
        z@.col_dots_fit::<T>(),
        z@.is_orthogonal() == (z@.rows == 0 && z@.cols == 0),
        i@.col_dots_fit::<T>(),
        i@.is_orthogonal(),
{
    z.lemma_value();
    i.lemma_value();
    T::lemma_unit_fits();
    assert forall|a: int, b: int, k: nat|
        0 <= a < z@.cols && 0 <= b < z@.cols && k <= z@.rows implies {
        &&& T::fits(#[trigger] z@.col_dot(a, b, k))
        &&& k < z@.rows ==> T::fits(z@.at(k as int, a) * z@.at(k as int, b))
    } by {
        lemma_zero_col_dot(z@, a, b, k);
        if k < z@.rows {
            let x = z@.at(k as int, a);
            let y = z@.at(k as int, b);
            assert(x * y == 0) by (nonlinear_arith)
                requires
                    x == 0,
            ;
        }
    }
    if z@.is_square() && z@.rows > 0 {
        lemma_zero_col_dot(z@, 0, 0, z@.rows);
        assert(z@.in_range(0, 0));
    }
    assert forall|a: int, b: int, k: nat|
        0 <= a < i@.cols && 0 <= b < i@.cols && k <= i@.rows implies {
        &&& T::fits(#[trigger] i@.col_dot(a, b, k))
        &&& k < i@.rows ==> T::fits(i@.at(k as int, a) * i@.at(k as int, b))
    } by {
        lemma_identity_col_dot(i@, a, b, k);
        if k < i@.rows {
            let x = i@.at(k as int, a);
            let y = i@.at(k as int, b);
            assert(x * y == 0 || x * y == 1) by (nonlinear_arith)
                requires
                    x == 0 || x == 1,
                    y == 0 || y == 1,
            ;
        }
    }
    assert forall|a: int, b: int| i@.in_range(a, b) implies #[trigger] i@.col_dot(a, b, i@.rows)
        == (if a == b {
        1int
    } else {
        0int
    }) by {
        lemma_identity_col_dot(i@, a, b, i@.rows);
    }
}

/// The dot product of two columns is the dot product of a row of the
/// transpose with a column.
pub proof fn lemma_col_dot_is_dot(g: Grid, i: int, j: int, k: nat)
    requires
        g.wf(),
        0 <= i < g.cols,
        0 <= j < g.cols,
        k <= g.rows,
    ensures
        g.col_dot(i, j, k) == g.transposed().dot(g, i, j, k),
    decreases k,
{
    if k > 0 {
        lemma_col_dot_is_dot(g, i, j, (k - 1) as nat);
        assert(g.transposed().at(i, k - 1) == g.at(k - 1, i));
    }
}

/// A grid is orthogonal exactly when it is square and its transpose times
/// it is the identity.
pub proof fn lemma_orthogonal_is_unit_gram(g: Grid)
    requires
        g.wf(),
    ensures
        g.is_orthogonal() == (g.is_square() && g.transposed().times(g) == Grid::identity(g.cols)),
{
    let gram = g.transposed().times(g);
    let id = Grid::identity(g.cols);
    if g.is_square() {
        assert forall|i: int, j: int| g.in_range(i, j) implies gram.at(i, j) == g.col_dot(
            i,
            j,
            g.rows,
        ) by {
            lemma_col_dot_is_dot(g, i, j, g.rows);
        }
        if g.is_orthogonal() {
            assert forall|i: int, j: int| gram.in_range(i, j) implies gram.at(i, j) == id.at(
                i,
                j,
            ) by {
                assert(g.in_range(i, j));
                assert(g.col_dot(i, j, g.rows) == (if i == j { 1int } else { 0int }));
            }
            Grid::lemma_equal(gram, id);
        }
        if gram == id {
            assert forall|i: int, j: int| g.in_range(i, j) implies #[trigger] g.col_dot(
                i,
                j,
                g.rows,
            ) == (if i == j {
                1int
            } else {
                0int
            }) by {
                assert(gram.at(i, j) == id.at(i, j));
            }
        }
    }
}

/// Transpose involution: transposing twice gives the matrix back, and the
/// transpose holds at `(j, i)` what the matrix holds at `(i, j)`.
pub proof fn lemma_transpose_involution<T: Scalar, M: Matrix<T>>(x: M)
    ensures
        x.transposed().transposed() == x,
        x.transposed()@.rows == x@.cols,
        x.transposed()@.cols == x@.rows,
        forall|i: int, j: int|
            x@.in_range(i, j) ==> x.transposed()@.at(j, i) == #[trigger] x@.at(i, j),
{
    x.lemma_transposed();
    x.lemma_view();
}

/// Cross-type equality symmetry: for every pair of representations,
/// `a == b` says what `b == a` says.
pub proof fn lemma_equality_is_symmetric<T: Scalar>(
    d: DenseMatrix<T>,
    s: SparseMatrix<T>,
    i: IdentityMatrix<T>,
    z: ZeroMatrix<T>,
    d2: DenseMatrix<T>,
    s2: SparseMatrix<T>,
    i2: IdentityMatrix<T>,
    z2: ZeroMatrix<T>,
)
    ensures
        d.eq_spec(&s) == s.eq_spec(&d),
        d.eq_spec(&i) == i.eq_spec(&d),
        d.eq_spec(&z) == z.eq_spec(&d),
        s.eq_spec(&i) == i.eq_spec(&s),
        s.eq_spec(&z) == z.eq_spec(&s),
        i.eq_spec(&z) == z.eq_spec(&i),
        d.eq_spec(&d2) == d2.eq_spec(&d),
        s.eq_spec(&s2) == s2.eq_spec(&s),
        i.eq_spec(&i2) == i2.eq_spec(&i),
        z.eq_spec(&z2) == z2.eq_spec(&z),
{
}

/// Equality compares values: `a == b` holds exactly when `a` and `b` have
/// the same shape and the same entries, whatever the two representations
/// are. So equality is reflexive, symmetric and transitive across them.
pub proof fn lemma_equality_compares_values<T: Scalar>(
    d: DenseMatrix<T>,
    s: SparseMatrix<T>,
    i: IdentityMatrix<T>,
    z: ZeroMatrix<T>,
    d2: DenseMatrix<T>,
    s2: SparseMatrix<T>,
    i2: IdentityMatrix<T>,
    z2: ZeroMatrix<T>,
)
    ensures
        d.eq_spec(&d2) == (d@ == d2@),
        d.eq_spec(&s) == (d@ == s@),
        d.eq_spec(&i) == (d@ == i@),
        d.eq_spec(&z) == (d@ == z@),
        s.eq_spec(&d) == (s@ == d@),
        s.eq_spec(&s2) == (s@ == s2@),
        s.eq_spec(&i) == (s@ == i@),
        s.eq_spec(&z) == (s@ == z@),
        i.eq_spec(&d) == (i@ == d@),
        i.eq_spec(&s) == (i@ == s@),
        i.eq_spec(&i2) == (i@ == i2@),
        i.eq_spec(&z) == (i@ == z@),
        z.eq_spec(&d) == (z@ == d@),
        z.eq_spec(&s) == (z@ == s@),
        z.eq_spec(&i) == (z@ == i@),
        z.eq_spec(&z2) == (z@ == z2@),
{
}

} // verus!
