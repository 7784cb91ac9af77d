use vstd::prelude::*;
use crate::scalar::Scalar;
use crate::vector::Vector;

verus! {

/// A row of elements.
#[derive(Debug)]
pub struct DenseRow<T: Scalar> {
    elems: Vec<T>,
}

/// A column of elements.
#[derive(Debug)]
pub struct DenseColumn<T: Scalar> {
    elems: Vec<T>,
}

impl<T: Scalar> DenseRow<T> {
    pub fn zeros(size: usize) -> (r: DenseRow<T>)
        ensures
            r@.len() == size,
            forall|i: int| 0 <= i < size ==> (#[trigger] r@[i]).val() == 0,
    {
        DenseRow { elems: zeros(size) }
    }

    pub fn from_vec(vec: Vec<T>) -> (r: DenseRow<T>)
        ensures
            r@ == vec@,
    {
        DenseRow { elems: vec }
    }
}

impl<T: Scalar> DenseRow<T> {
    /// The elements of the row.
    pub closed spec fn items(&self) -> Seq<T> {
        self.elems@
    }

    /// Transposing keeps the elements, and transposing twice gives the
    /// vector back.
    pub proof fn lemma_transposed(self)
        ensures
            self.transposed()@ == self@,
            self.transposed().transposed() == self,
    {
    }
}

impl<T: Scalar> DenseColumn<T> {
    /// The elements of the column.
    pub closed spec fn items(&self) -> Seq<T> {
        self.elems@
    }

    /// Transposing keeps the elements, and transposing twice gives the
    /// vector back.
    pub proof fn lemma_transposed(self)
        ensures
            self.transposed()@ == self@,
            self.transposed().transposed() == self,
    {
    }
}

impl<T: Scalar> Clone for DenseRow<T> {
    fn clone(&self) -> (r: Self)
        ensures
            r@ == self@,
    {
        DenseRow { elems: copy(&self.elems) }
    }
}

impl<T: Scalar> Vector<T> for DenseRow<T> {
    type Transpose = DenseColumn<T>;

    open spec fn view(&self) -> Seq<T> {
        self.items()
    }

    closed spec fn transposed(self) -> DenseColumn<T> {
        DenseColumn { elems: self.elems }
    }

    fn transpose(self) -> (r: DenseColumn<T>)
        ensures
            r.items() == self.items(),
    {
        DenseColumn { elems: self.elems }
    }

    fn get(&self, index: usize) -> (r: Option<T>) {
        if index < self.elems.len() {
            Some(self.elems[index])
        } else {
            None
        }
    }

    fn set(&mut self, index: usize, val: T) -> (r: Option<T>) {
        if index < self.elems.len() {
            self.elems[index] = val;
            Some(val)
        } else {
            None
        }
    }

    fn len(&self) -> (r: usize) {
        self.elems.len()
    }
}

impl<T: Scalar> DenseColumn<T> {
    pub fn zeros(size: usize) -> (r: DenseColumn<T>)
        ensures
            r@.len() == size,
            forall|i: int| 0 <= i < size ==> (#[trigger] r@[i]).val() == 0,
    {
        DenseColumn { elems: zeros(size) }
    }

    pub fn from_vec(vec: Vec<T>) -> (r: DenseColumn<T>)
        ensures
            r@ == vec@,
    {
        DenseColumn { elems: vec }
    }
}

impl<T: Scalar> Clone for DenseColumn<T> {
    fn clone(&self) -> (r: Self)
        ensures
            r@ == self@,
    {
        DenseColumn { elems: copy(&self.elems) }
    }
}

impl<T: Scalar> Vector<T> for DenseColumn<T> {
    type Transpose = DenseRow<T>;

    open spec fn view(&self) -> Seq<T> {
        self.items()
    }

    closed spec fn transposed(self) -> DenseRow<T> {
        DenseRow { elems: self.elems }
    }

    fn transpose(self) -> (r: DenseRow<T>)
        ensures
            r.items() == self.items(),
    {
        DenseRow { elems: self.elems }
    }

    fn set(&mut self, index: usize, val: T) -> (r: Option<T>) {
        if index < self.elems.len() {
            self.elems[index] = val;
            Some(val)
        } else {
            None
        }
    }

    fn get(&self, index: usize) -> (r: Option<T>) {
        if index < self.elems.len() {
            Some(self.elems[index])
        } else {
            None
        }
    }

    fn len(&self) -> (r: usize) {
        self.elems.len()
    }
}

/// A vec of `size` zeros.
fn zeros<T: Scalar>(size: usize) -> (r: Vec<T>)
    ensures
        r@.len() == size,
        forall|i: int| 0 <= i < size ==> (#[trigger] r@[i]).val() == 0,
{
    let mut v: Vec<T> = Vec::with_capacity(size);
    let mut k: usize = 0;
    while k < size
        invariant
            k <= size,
            v@.len() == k,
            forall|i: int| 0 <= i < k ==> (#[trigger] v@[i]).val() == 0,
        decreases size - k,
    {
        v.push(T::zero());
        k += 1;
    }
    v
}

/// A vec with the same elements.
fn copy<T: Scalar>(src: &Vec<T>) -> (r: Vec<T>)
    ensures
        r@ == src@,
{
    let mut v: Vec<T> = Vec::with_capacity(src.len());
    let mut k: usize = 0;
    while k < src.len()
        invariant
            k <= src.len(),
            v@.len() == k,
            forall|i: int| 0 <= i < k ==> v@[i] == src@[i],
        decreases src.len() - k,
    {
        v.push(src[k]);
        k += 1;
    }
    assert(v@ =~= src@);
    v
}

} // verus!
