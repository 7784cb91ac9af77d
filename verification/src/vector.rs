use vstd::prelude::*;
use crate::scalar::Scalar;

verus! {

/// What a row and a column vector offer alike. The value of a vector is the
/// sequence of its elements, written `v@`.
pub trait Vector<T: Scalar>: Sized {
    type Transpose;

    /// The elements of the vector.
    spec fn view(&self) -> Seq<T>;

    /// The vector that `transpose` returns.
    spec fn transposed(self) -> Self::Transpose;

    /// Transpose the `Vector`: the same elements, as the other kind of
    /// vector.
    fn transpose(self) -> (r: Self::Transpose)
        ensures
            r == self.transposed(),
    ;

    /// Set an element at position `index`. Returns None if index is out of
    /// bounds.
    fn set(&mut self, index: usize, val: T) -> (r: Option<T>)
        ensures
            match r {
                Some(x) => index < old(self)@.len() && x == val && final(self)@ == old(self)@.update(
                    index as int,
                    val,
                ),
                None => index >= old(self)@.len() && *final(self) == *old(self),
            },
    ;

    /// Get an element at position `index`.
    fn get(&self, index: usize) -> (r: Option<T>)
        ensures
            r == (if index < self@.len() {
                Some(self@[index as int])
            } else {
                None
            }),
    ;

    /// Get the length of the `Vector`.
    fn len(&self) -> (r: usize)
        ensures
            r == self@.len(),
    ;
}

/// The sum of the first `k` products of the elements of two sequences.
pub open spec fn inner(a: Seq<int>, b: Seq<int>, k: nat) -> int
    decreases k,
{
    if k == 0 {
        0
    } else {
        inner(a, b, (k - 1) as nat) + a[k - 1] * b[k - 1]
    }
}

/// Every product and partial sum that `inner` takes over two whole
/// sequences can be represented in `T`.
pub open spec fn inner_fits<T: Scalar>(a: Seq<int>, b: Seq<int>) -> bool {
    forall|k: nat|
        k <= a.len() ==> {
            &&& T::fits(#[trigger] inner(a, b, k))
            &&& k < a.len() ==> T::fits(a[k as int] * b[k as int])
        }
}

} // verus!
