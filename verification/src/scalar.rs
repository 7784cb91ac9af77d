use vstd::prelude::*;

verus! {

/// The numeric capability that every matrix element type provides: zero, one,
/// addition, subtraction, multiplication, equality, and conversion from and
/// to `usize`.
///
/// An element stands for an integer, its value. Arithmetic is exact: an
/// operation may be called only where its result can be represented.
pub trait Scalar: Copy + Sized {
    /// The integer that an element stands for.
    spec fn val(self) -> int;

    /// Whether an integer can be represented in this type.
    spec fn fits(v: int) -> bool;

    /// The value of every element can be represented.
    proof fn lemma_val_fits(self)
        ensures
            Self::fits(self.val()),
    ;

    /// Two elements with the same value are the same element.
    proof fn lemma_val_injective(a: Self, b: Self)
        requires
            a.val() == b.val(),
        ensures
            a == b,
    ;

    /// The integers that can be represented lie next to each other.
    proof fn lemma_fits_between(lo: int, v: int, hi: int)
        requires
            Self::fits(lo),
            Self::fits(hi),
            lo <= v <= hi,
        ensures
            Self::fits(v),
    ;

    /// Zero and one can be represented.
    proof fn lemma_unit_fits()
        ensures
            Self::fits(0),
            Self::fits(1),
    ;

    /// The additive identity.
    fn zero() -> (r: Self)
        ensures
            r.val() == 0,
    ;

    /// The multiplicative identity.
    fn one() -> (r: Self)
        ensures
            r.val() == 1,
    ;

    /// The element whose value is `n`, if there is one.
    fn from_usize(n: usize) -> (r: Option<Self>)
        ensures
            match r {
                Some(x) => Self::fits(n as int) && x.val() == n,
                None => !Self::fits(n as int),
            },
    ;

    /// The value as a `usize`, if it is one.
    fn to_usize(self) -> (r: Option<usize>)
        ensures
            r == (if 0 <= self.val() <= usize::MAX {
                Some(self.val() as usize)
            } else {
                None
            }),
    ;

    fn add(self, rhs: Self) -> (r: Self)
        requires
            Self::fits(self.val() + rhs.val()),
        ensures
            r.val() == self.val() + rhs.val(),
    ;

    fn sub(self, rhs: Self) -> (r: Self)
        requires
            Self::fits(self.val() - rhs.val()),
        ensures
            r.val() == self.val() - rhs.val(),
    ;

    fn mul(self, rhs: Self) -> (r: Self)
        requires
            Self::fits(self.val() * rhs.val()),
        ensures
            r.val() == self.val() * rhs.val(),
    ;

    fn equals(self, rhs: Self) -> (r: bool)
        ensures
            r == (self.val() == rhs.val()),
    ;
}

/// The values of a sequence of elements.
pub open spec fn vals<T: Scalar>(s: Seq<T>) -> Seq<int> {
    Seq::new(s.len(), |k: int| s[k].val())
}

/// `num::Zero::zero` of `i32`, which returns the literal 0.
#[verifier::external_body]
fn i32_zero() -> (r: i32)
    ensures
        r == 0,
{
    <i32 as num::Zero>::zero()
}

/// `num::One::one` of `i32`, which returns the literal 1.
#[verifier::external_body]
fn i32_one() -> (r: i32)
    ensures
        r == 1,
{
    <i32 as num::One>::one()
}

/// `num::FromPrimitive::from_usize` of `i32`, which converts `n` when it is
/// at most `i32::MAX` and returns `None` otherwise.
#[verifier::external_body]
fn i32_from_usize(n: usize) -> (r: Option<i32>)
    ensures
        r == (if n <= i32::MAX { Some(n as i32) } else { None }),
{
    <i32 as num::FromPrimitive>::from_usize(n)
}

/// `num::ToPrimitive::to_usize` of `i32`, which converts `x` when it is not negative and
/// returns `None` otherwise.
#[verifier::external_body]
fn i32_to_usize(x: i32) -> (r: Option<usize>)
    ensures
        r == (if x >= 0 { Some(x as usize) } else { None }),
{
    <i32 as num::ToPrimitive>::to_usize(&x)
}

impl Scalar for i32 {
    open spec fn val(self) -> int {
        self as int
    }

    open spec fn fits(v: int) -> bool {
        i32::MIN <= v <= i32::MAX
    }

    proof fn lemma_val_fits(self) {
    }

    proof fn lemma_val_injective(a: Self, b: Self) {
    }

    proof fn lemma_fits_between(lo: int, v: int, hi: int) {
    }

    proof fn lemma_unit_fits() {
    }

    fn zero() -> (r: Self) {
        i32_zero()
    }

    fn one() -> (r: Self) {
        i32_one()
    }

    fn from_usize(n: usize) -> (r: Option<Self>) {
        i32_from_usize(n)
    }

    fn to_usize(self) -> (r: Option<usize>) {
        i32_to_usize(self)
    }

    fn add(self, rhs: Self) -> (r: Self) {
        self + rhs
    }

    fn sub(self, rhs: Self) -> (r: Self) {
        self - rhs
    }

    fn mul(self, rhs: Self) -> (r: Self) {
        self * rhs
    }

    fn equals(self, rhs: Self) -> (r: bool) {
        self == rhs
    }
}

/// `num::Zero::zero` of `i64`, which returns the literal 0.
#[verifier::external_body]
fn i64_zero() -> (r: i64)
    ensures
        r == 0,
{
    <i64 as num::Zero>::zero()
}

/// `num::One::one` of `i64`, which returns the literal 1.
#[verifier::external_body]
fn i64_one() -> (r: i64)
    ensures
        r == 1,
{
    <i64 as num::One>::one()
}

/// `num::FromPrimitive::from_usize` of `i64`, which converts `n` when it is
/// at most `i64::MAX` and returns `None` otherwise.
#[verifier::external_body]
fn i64_from_usize(n: usize) -> (r: Option<i64>)
    ensures
        r == (if n <= i64::MAX { Some(n as i64) } else { None }),
{
    <i64 as num::FromPrimitive>::from_usize(n)
}

/// `num::ToPrimitive::to_usize` of `i64`, which converts `x` when it lies between 0
/// and `usize::MAX` and returns `None` otherwise.
#[verifier::external_body]
fn i64_to_usize(x: i64) -> (r: Option<usize>)
    ensures
        r == (if 0 <= x <= usize::MAX { Some(x as usize) } else { None }),
{
    <i64 as num::ToPrimitive>::to_usize(&x)
}

impl Scalar for i64 {
    open spec fn val(self) -> int {
        self as int
    }

    open spec fn fits(v: int) -> bool {
        i64::MIN <= v <= i64::MAX
    }

    proof fn lemma_val_fits(self) {
    }

    proof fn lemma_val_injective(a: Self, b: Self) {
    }

    proof fn lemma_fits_between(lo: int, v: int, hi: int) {
    }

    proof fn lemma_unit_fits() {
    }

    fn zero() -> (r: Self) {
        i64_zero()
    }

    fn one() -> (r: Self) {
        i64_one()
    }

    fn from_usize(n: usize) -> (r: Option<Self>) {
        i64_from_usize(n)
    }

    fn to_usize(self) -> (r: Option<usize>) {
        i64_to_usize(self)
    }

    fn add(self, rhs: Self) -> (r: Self) {
        self + rhs
    }

    fn sub(self, rhs: Self) -> (r: Self) {
        self - rhs
    }

    fn mul(self, rhs: Self) -> (r: Self) {
        self * rhs
    }

    fn equals(self, rhs: Self) -> (r: bool) {
        self == rhs
    }
}

/// `num::Zero::zero` of `usize`, which returns the literal 0.
#[verifier::external_body]
fn usize_zero() -> (r: usize)
    ensures
        r == 0,
{
    <usize as num::Zero>::zero()
}

/// `num::One::one` of `usize`, which returns the literal 1.
#[verifier::external_body]
fn usize_one() -> (r: usize)
    ensures
        r == 1,
{
    <usize as num::One>::one()
}

/// `num::FromPrimitive::from_usize` of `usize`, which always converts.
#[verifier::external_body]
fn usize_from_usize(n: usize) -> (r: Option<usize>)
    ensures
        r == Some(n),
{
    <usize as num::FromPrimitive>::from_usize(n)
}

/// `num::ToPrimitive::to_usize` of `usize`, which always converts.
#[verifier::external_body]
fn usize_to_usize(x: usize) -> (r: Option<usize>)
    ensures
        r == Some(x),
{
    <usize as num::ToPrimitive>::to_usize(&x)
}

impl Scalar for usize {
    open spec fn val(self) -> int {
        self as int
    }

    open spec fn fits(v: int) -> bool {
        0 <= v <= usize::MAX
    }

    proof fn lemma_val_fits(self) {
    }

    proof fn lemma_val_injective(a: Self, b: Self) {
    }

    proof fn lemma_fits_between(lo: int, v: int, hi: int) {
    }

    proof fn lemma_unit_fits() {
    }

    fn zero() -> (r: Self) {
        usize_zero()
    }

    fn one() -> (r: Self) {
        usize_one()
    }

    fn from_usize(n: usize) -> (r: Option<Self>) {
        usize_from_usize(n)
    }

    fn to_usize(self) -> (r: Option<usize>) {
        usize_to_usize(self)
    }

    fn add(self, rhs: Self) -> (r: Self) {
        self + rhs
    }

    fn sub(self, rhs: Self) -> (r: Self) {
        self - rhs
    }

    fn mul(self, rhs: Self) -> (r: Self) {
        self * rhs
    }

    fn equals(self, rhs: Self) -> (r: bool) {
        self == rhs
    }
}

} // verus!
