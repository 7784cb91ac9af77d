use vstd::prelude::*;
use std::collections::HashMap;
use vstd::std_specs::hash::spec_hash_map_iter;
use vstd::std_specs::iter::IteratorSpec;
use crate::grid::{lemma_flat_injective, Grid};
use crate::matrix::{Matrix, ReadOrder};
use crate::scalar::Scalar;

verus! {

broadcast use vstd::std_specs::hash::group_hash_axioms;

/// A SparseMatrix holds the entries that were written to it, each under its
/// coordinates; every other entry is zero.
#[derive(Debug)]
pub struct SparseMatrix<T: Scalar> {
    read_order: ReadOrder,
    m: usize,
    n: usize,
    mat: HashMap<u128, T>,
}

/// The key under which the stored position `(a, b)` is kept: `a` in the
/// upper 64 bits, `b` in the lower.
pub open spec fn key_of(a: int, b: int) -> u128 {
    (a * 0x1_0000_0000_0000_0000 + b) as u128
}

/// Two positions with the same key are the same position.
pub proof fn lemma_key_injective(a: usize, b: usize, c: usize, d: usize)
    requires
        key_of(a as int, b as int) == key_of(c as int, d as int),
    ensures
        a == c,
        b == d,
{
    lemma_key_bound(a, b);
    lemma_key_bound(c, d);
    lemma_flat_injective(a as int, b as int, c as int, d as int, 0x1_0000_0000_0000_0000);
}

/// The key of a position fits in 128 bits.
pub proof fn lemma_key_bound(a: usize, b: usize)
    ensures
        0 <= a * 0x1_0000_0000_0000_0000 + b <= u128::MAX,
{
    assert(a <= 0xffff_ffff_ffff_ffff);
    assert(b <= 0xffff_ffff_ffff_ffff);
    assert(a * 0x1_0000_0000_0000_0000 + b <= u128::MAX) by (nonlinear_arith)
        requires
            0 <= a <= 0xffff_ffff_ffff_ffff,
            0 <= b <= 0xffff_ffff_ffff_ffff,
    ;
}

fn key(a: usize, b: usize) -> (k: u128)
    ensures
        k == key_of(a as int, b as int),
{
    proof {
        lemma_key_bound(a, b);
    }
    (a as u128) * 0x1_0000_0000_0000_0000u128 + (b as u128)
}

/// The value that a list of `(i, j, a_ij)` gives the position `(i, j)`: that
/// of the last item with these coordinates, or zero where there is none.
pub open spec fn tuple_entry<T: Scalar>(s: Seq<(usize, usize, T)>, i: int, j: int) -> int
    decreases s.len(),
{
    if s.len() == 0 {
        0
    } else if s.last().0 == i && s.last().1 == j {
        s.last().2.val()
    } else {
        tuple_entry(s.drop_last(), i, j)
    }
}

/// The value that a map holds for a stored position.
pub open spec fn stored<T: Scalar>(map: Map<u128, T>, a: int, b: int) -> int {
    if map.contains_key(key_of(a, b)) {
        map[key_of(a, b)].val()
    } else {
        0
    }
}

impl<T: Scalar> SparseMatrix<T> {
    /// How the stored coordinates are read.
    pub closed spec fn order(&self) -> ReadOrder {
        self.read_order
    }

    /// The value at a logical position, as the read order finds it.
    closed spec fn cell(&self, i: int, j: int) -> int {
        match self.read_order {
            ReadOrder::RowMajor => stored(self.mat@, i, j),
            ReadOrder::ColMajor => stored(self.mat@, j, i),
        }
    }

    /// Create a new empty sparse matrix.
    pub fn new(m: usize, n: usize) -> (r: SparseMatrix<T>)
        ensures
            r@ == Grid::zero(m as nat, n as nat),
            r.order() == ReadOrder::RowMajor,
    {
        let r = SparseMatrix { read_order: ReadOrder::RowMajor, m, n, mat: HashMap::new() };
        proof {
            Grid::lemma_equal(r@, Grid::zero(m as nat, n as nat));
        }
        r
    }

    /// Create a new sparse matrix from a `Vec` of tuples containing the
    /// indices of the element and the number in the order (i, j, a_ij).
    /// An item whose coordinates come again later is overwritten; one whose
    /// coordinates lie outside the matrix is never seen.
    pub fn from_tuple(mat: Vec<(usize, usize, T)>, m: usize, n: usize) -> (r: SparseMatrix<T>)
        ensures
            r@ == Grid::new(m as nat, n as nat, |i: int, j: int| tuple_entry(mat@, i, j)),
            r.order() == ReadOrder::RowMajor,
    {
        let mut map: HashMap<u128, T> = HashMap::new();
        let mut k: usize = 0;
        while k < mat.len()
            invariant
                k <= mat.len(),
                forall|a: usize, b: usize| #[trigger]
                    stored(map@, a as int, b as int) == tuple_entry(
                        mat@.take(k as int),
                        a as int,
                        b as int,
                    ),
            decreases mat.len() - k,
        {
            let (i, j, a_ij) = mat[k];
            let ghost before = map@;
            map.insert(key(i, j), a_ij);
            proof {
                let s = mat@.take(k + 1);
                assert(s.drop_last() =~= mat@.take(k as int));
                assert(s.last() == mat@[k as int]);
                assert forall|a: usize, b: usize| #[trigger]
                    stored(map@, a as int, b as int) == tuple_entry(s, a as int, b as int) by {
                    if key_of(a as int, b as int) == key_of(i as int, j as int) {
                        lemma_key_injective(a, b, i, j);
                    }
                    assert(stored(before, a as int, b as int) == tuple_entry(
                        mat@.take(k as int),
                        a as int,
                        b as int,
                    ));
                }
            }
            k += 1;
        }
        let r = SparseMatrix { read_order: ReadOrder::RowMajor, m, n, mat: map };
        proof {
            assert(mat@.take(mat@.len() as int) =~= mat@);
            let want = Grid::new(m as nat, n as nat, |i: int, j: int| tuple_entry(mat@, i, j));
            assert forall|a: int, b: int| r@.in_range(a, b) implies r@.at(a, b) == want.at(a, b) by {
                assert(stored(map@, a as usize as int, b as usize as int) == tuple_entry(
                    mat@,
                    a as usize as int,
                    b as usize as int,
                ));
            }
            Grid::lemma_equal(r@, want);
        }
        r
    }

    /// Flip the read order. Toggles between row major and column major.
    pub fn flip_read_order(self) -> (r: Self)
        ensures
            r == self.transposed(),
            r@ == self@.transposed(),
            r.order() == self.order().flipped(),
    {
        proof {
            self.lemma_transposed();
        }
        let SparseMatrix { read_order, m, n, mat } = self;
        SparseMatrix {
            read_order: match read_order {
                ReadOrder::RowMajor => ReadOrder::ColMajor,
                ReadOrder::ColMajor => ReadOrder::RowMajor,
            },
            m,
            n,
            mat,
        }
    }

    /// How the stored coordinates are read.
    pub fn read_order(&self) -> (r: ReadOrder)
        ensures
            r == self.order(),
    {
        self.read_order
    }

    /// Check that every stored entry that lies in the matrix, at least `d`
    /// columns right of the main diagonal (`above`) or at least `d` rows
    /// below it, is zero. Only the stored entries are visited.
    fn band_is_zero(&self, above: bool, d: usize) -> (r: bool)
        ensures
            r == (if above {
                self@.zero_above(d as int)
            } else {
                self@.zero_below(d as int)
            }),
    {
        let ghost entries = spec_hash_map_iter(&self.mat).remaining();
        for (k, v) in it: self.mat.iter()
            invariant
                it.seq() == entries,
                forall|t: int|
                    0 <= t < it.index() ==> self.band_holds(
                        above,
                        d,
                        *(#[trigger] entries[t]).0,
                        *entries[t].1,
                    ),
        {
            let a = *k / 0x1_0000_0000_0000_0000u128;
            let b = *k % 0x1_0000_0000_0000_0000u128;
            if a < self.m as u128 && b < self.n as u128 {
                let (i, j) = match self.read_order {
                    ReadOrder::RowMajor => (a, b),
                    ReadOrder::ColMajor => (b, a),
                };
                let inside = if above {
                    j >= i && j - i >= d as u128
                } else {
                    i >= j && i - j >= d as u128
                };
                if inside && !v.equals(T::zero()) {
                    proof {
                        assert(self.mat@.contains_key(*k) && self.mat@[*k] == *v);
                        assert(key_of(a as int, b as int) == *k);
                        assert(self@.in_range(i as int, j as int));
                        assert(self@.at(i as int, j as int) == v.val());
                    }
                    return false;
                }
            }
        }
        proof {
            assert forall|i: int, j: int|
                self@.in_range(i, j) && (if above {
                    j - i >= d
                } else {
                    i - j >= d
                }) implies #[trigger] self@.at(i, j) == 0 by {
                let (a, b) = match self.read_order {
                    ReadOrder::RowMajor => (i, j),
                    ReadOrder::ColMajor => (j, i),
                };
                let k = key_of(a, b);
                if self.mat@.contains_key(k) {
                    lemma_key_bound(a as usize, b as usize);
                    let pair = (&k, &self.mat@[k]);
                    assert(entries.contains(pair));
                    let t = choose|t: int| 0 <= t < entries.len() && entries[t] == pair;
                    assert(self.band_holds(above, d, *entries[t].0, *entries[t].1));
                }
            }
        }
        true
    }

    /// What `band_is_zero` has checked of a stored entry once it has passed
    /// it: an entry in the matrix and in the band is zero.
    closed spec fn band_holds(&self, above: bool, d: usize, k: u128, v: T) -> bool {
        let a = k / 0x1_0000_0000_0000_0000u128;
        let b = k % 0x1_0000_0000_0000_0000u128;
        let (i, j) = match self.read_order {
            ReadOrder::RowMajor => (a, b),
            ReadOrder::ColMajor => (b, a),
        };
        a < self.m && b < self.n && (if above {
            j - i >= d
        } else {
            i - j >= d
        }) ==> v.val() == 0
    }

    /// Whether an entry is stored for a logical position.
    pub closed spec fn has_entry(&self, i: int, j: int) -> bool {
        match self.read_order {
            ReadOrder::RowMajor => self.mat@.contains_key(key_of(i, j)),
            ReadOrder::ColMajor => self.mat@.contains_key(key_of(j, i)),
        }
    }

    /// A position for which no entry is stored holds zero.
    pub proof fn lemma_no_entry(&self, i: int, j: int)
        requires
            self@.in_range(i, j),
            !self.has_entry(i, j),
        ensures
            self@.at(i, j) == 0,
    {
    }

    /// Check that every stored entry that lies in the matrix has the same
    /// value in `other`, at the same position or, `mirrored`, at the
    /// position across the main diagonal. Only the stored entries are
    /// visited.
    pub(crate) fn entries_agree(&self, other: &SparseMatrix<T>, mirrored: bool) -> (r: bool)
        requires
            other@.rows == (if mirrored {
                self@.cols
            } else {
                self@.rows
            }),
            other@.cols == (if mirrored {
                self@.rows
            } else {
                self@.cols
            }),
        ensures
            r == (forall|i: int, j: int|
                self@.in_range(i, j) && #[trigger] self.has_entry(i, j) ==> self@.at(i, j) == (
                if mirrored {
                    other@.at(j, i)
                } else {
                    other@.at(i, j)
                })),
    {
        let ghost entries = spec_hash_map_iter(&self.mat).remaining();
        for (k, v) in it: self.mat.iter()
            invariant
                it.seq() == entries,
                other@.rows == (if mirrored {
                    self@.cols
                } else {
                    self@.rows
                }),
                other@.cols == (if mirrored {
                    self@.rows
                } else {
                    self@.cols
                }),
                forall|t: int|
                    0 <= t < it.index() ==> self.agrees(
                        other,
                        mirrored,
                        *(#[trigger] entries[t]).0,
                        *entries[t].1,
                    ),
        {
            let a = *k / 0x1_0000_0000_0000_0000u128;
            let b = *k % 0x1_0000_0000_0000_0000u128;
            if a < self.m as u128 && b < self.n as u128 {
                let (i, j) = match self.read_order {
                    ReadOrder::RowMajor => (a as usize, b as usize),
                    ReadOrder::ColMajor => (b as usize, a as usize),
                };
                let w = if mirrored {
                    other.get(j, i)
                } else {
                    other.get(i, j)
                };
                proof {
                    assert(self.mat@.contains_key(*k) && self.mat@[*k] == *v);
                    assert(key_of(a as int, b as int) == *k);
                    assert(self@.in_range(i as int, j as int));
                    assert(self@.at(i as int, j as int) == v.val());
                    assert(self.has_entry(i as int, j as int));
                }
                match w {
                    Some(x) => {
                        if !v.equals(x) {
                            return false;
                        }
                    },
                    None => {},
                }
            }
        }
        proof {
            assert forall|i: int, j: int|
                self@.in_range(i, j) && #[trigger] self.has_entry(i, j) implies self@.at(i, j) == (
            if mirrored {
                other@.at(j, i)
            } else {
                other@.at(i, j)
            }) by {
                let (a, b) = match self.read_order {
                    ReadOrder::RowMajor => (i, j),
                    ReadOrder::ColMajor => (j, i),
                };
                let k = key_of(a, b);
                lemma_key_bound(a as usize, b as usize);
                let pair = (&k, &self.mat@[k]);
                assert(entries.contains(pair));
                let t = choose|t: int| 0 <= t < entries.len() && entries[t] == pair;
                assert(self.agrees(other, mirrored, *entries[t].0, *entries[t].1));
            }
        }
        true
    }

    /// What `entries_agree` has checked of a stored entry once it has
    /// passed it: an entry in the matrix has the same value in `other`.
    closed spec fn agrees(&self, other: &SparseMatrix<T>, mirrored: bool, k: u128, v: T) -> bool {
        let a = (k / 0x1_0000_0000_0000_0000u128) as int;
        let b = (k % 0x1_0000_0000_0000_0000u128) as int;
        let (i, j) = match self.read_order {
            ReadOrder::RowMajor => (a, b),
            ReadOrder::ColMajor => (b, a),
        };
        a < self.m && b < self.n ==> v.val() == (if mirrored {
            other@.at(j, i)
        } else {
            other@.at(i, j)
        })
    }

    /// Start handing out the entries in row major order.
    pub fn into_iter(self) -> (r: SparseMatrixIntoIterator<T>)
        ensures
            r.grid() == self@,
            r.cursor() == (0nat, 0nat),
    {
        SparseMatrixIntoIterator { mat: self, i: 0, j: 0 }
    }
}

impl<T: Scalar> Clone for SparseMatrix<T> {
    fn clone(&self) -> (r: Self)
        ensures
            r@ == self@,
            r.order() == self.order(),
    {
        let r = SparseMatrix {
            read_order: self.read_order,
            m: self.m,
            n: self.n,
            mat: self.mat.clone(),
        };
        proof {
            Grid::lemma_equal(r@, self@);
        }
        r
    }
}

impl<T: Scalar> Matrix<T> for SparseMatrix<T> {
    closed spec fn view(&self) -> Grid {
        match self.read_order {
            ReadOrder::RowMajor => Grid::new(
                self.m as nat,
                self.n as nat,
                |i: int, j: int| self.cell(i, j),
            ),
            ReadOrder::ColMajor => Grid::new(
                self.n as nat,
                self.m as nat,
                |i: int, j: int| self.cell(i, j),
            ),
        }
    }

    open spec fn settable(&self) -> bool {
        true
    }

    closed spec fn transposed(self) -> Self {
        SparseMatrix { read_order: self.read_order.flipped(), m: self.m, n: self.n, mat: self.mat }
    }

    proof fn lemma_view(&self) {
        assert forall|i: int, j: int| self@.in_range(i, j) implies T::fits(
            #[trigger] self@.at(i, j),
        ) by {
            T::lemma_unit_fits();
            let k = match self.read_order {
                ReadOrder::RowMajor => key_of(i, j),
                ReadOrder::ColMajor => key_of(j, i),
            };
            if self.mat@.contains_key(k) {
                self.mat@[k].lemma_val_fits();
            }
        }
    }

    proof fn lemma_transposed(self) {
        Grid::lemma_equal(self.transposed()@, self@.transposed());
    }

    fn transpose(self) -> (r: Self) {
        self.flip_read_order()
    }

    fn rows(&self) -> (r: usize) {
        match self.read_order {
            ReadOrder::RowMajor => self.m,
            ReadOrder::ColMajor => self.n,
        }
    }

    fn cols(&self) -> (r: usize) {
        match self.read_order {
            ReadOrder::RowMajor => self.n,
            ReadOrder::ColMajor => self.m,
        }
    }

    fn is_symmetric(&self) -> (r: bool) {
        if !self.is_square() {
            return false;
        }
        let r = self.entries_agree(self, true);
        proof {
            if r {
                assert forall|i: int, j: int| self@.in_range(i, j) implies #[trigger] self@.at(i, j)
                    == self@.at(j, i) by {
                    if self.has_entry(i, j) {
                    } else if self.has_entry(j, i) {
                        assert(self@.in_range(j, i));
                    } else {
                        assert(self@.in_range(j, i));
                    }
                }
            }
        }
        r
    }

    fn has_zero_above(&self, d: usize) -> (r: bool) {
        self.band_is_zero(true, d)
    }

    fn has_zero_below(&self, d: usize) -> (r: bool) {
        self.band_is_zero(false, d)
    }

    fn get(&self, i: usize, j: usize) -> (r: Option<T>) {
        if i >= self.rows() || j >= self.cols() {
            return None;
        }
        let k = match self.read_order {
            ReadOrder::RowMajor => key(i, j),
            ReadOrder::ColMajor => key(j, i),
        };
        match self.mat.get(&k) {
            Some(v) => Some(*v),
            None => Some(T::zero()),
        }
    }

    /// Set a matrix element at i, j. The entry is stored whatever its
    /// value: a zero is kept like any other.
    fn set(&mut self, i: usize, j: usize, val: T) -> (r: Option<T>)
        ensures
            r is Some ==> final(self).has_entry(i as int, j as int),
            final(self).order() == old(self).order(),
    {
        if i >= self.rows() || j >= self.cols() {
            return None;
        }
        let ghost before = *self;
        let k = match self.read_order {
            ReadOrder::RowMajor => key(i, j),
            ReadOrder::ColMajor => key(j, i),
        };
        self.mat.insert(k, val);
        proof {
            let want = before@.update(i as int, j as int, val.val());
            assert forall|a: int, b: int| self@.in_range(a, b) implies self@.at(a, b) == want.at(
                a,
                b,
            ) by {
                match self.read_order {
                    ReadOrder::RowMajor => {
                        if key_of(a, b) == key_of(i as int, j as int) {
                            lemma_key_injective(a as usize, b as usize, i, j);
                        }
                    },
                    ReadOrder::ColMajor => {
                        if key_of(b, a) == key_of(j as int, i as int) {
                            lemma_key_injective(b as usize, a as usize, j, i);
                        }
                    },
                }
            }
            Grid::lemma_equal(self@, want);
        }
        Some(val)
    }
}

/// Hands out the entries of a `SparseMatrix` one by one, in row major order.
pub struct SparseMatrixIntoIterator<T: Scalar> {
    mat: SparseMatrix<T>,
    i: usize,
    j: usize,
}

impl<T: Scalar> SparseMatrixIntoIterator<T> {
    /// The value of the matrix that is walked.
    pub closed spec fn grid(&self) -> Grid {
        self.mat@
    }

    /// The position of the entry that comes next.
    pub closed spec fn cursor(&self) -> (nat, nat) {
        (self.i as nat, self.j as nat)
    }

    /// The entry at the cursor, which then moves on in row major order;
    /// `None` once the cursor has left the matrix.
    pub fn next(&mut self) -> (r: Option<T>)
        ensures
            final(self).grid() == old(self).grid(),
            match r {
                Some(x) => {
                    &&& old(self).grid().in_range(old(self).cursor().0 as int, old(self).cursor().1 as int)
                    &&& x.val() == old(self).grid().at(old(self).cursor().0 as int, old(self).cursor().1 as int)
                    &&& final(self).cursor() == old(self).grid().successor(
                        old(self).cursor().0,
                        old(self).cursor().1,
                    )
                },
                None => {
                    &&& !old(self).grid().in_range(old(self).cursor().0 as int, old(self).cursor().1 as int)
                    &&& final(self).cursor() == old(self).cursor()
                },
            },
    {
        let result = self.mat.get(self.i, self.j);
        if result.is_some() {
            if self.j + 1 < self.mat.cols() {
                self.j += 1;
            } else {
                self.j = 0;
                self.i += 1;
            }
        }
        result
    }
}

} // verus!
