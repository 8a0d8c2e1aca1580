//! The arithmetic that the containers are generic over.

use vstd::prelude::*;

verus! {

/// A type of matrix elements: two constants and three binary operations.
///
/// Each operation has to be a function of its operands, named by the spec
/// function beside it. Nothing else is asked: no law of associativity,
/// commutativity or distributivity is assumed anywhere, so the contracts of the
/// containers fix the order in which elements are combined.
///
/// In compiled code the spec functions are trait items like the others: an
/// implementation that is not verified gives each the body of the operation
/// that it names.
pub trait Scalar: Copy + Sized {
    /// The value that sums start from.
    spec fn zero_spec() -> Self;

    /// The value that the initial eigenvector candidate is filled with.
    spec fn one_spec() -> Self;

    /// The sum of `self` and `rhs`.
    spec fn add_spec(self, rhs: Self) -> Self;

    /// The difference of `self` and `rhs`.
    spec fn sub_spec(self, rhs: Self) -> Self;

    /// The product of `self` and `rhs`.
    spec fn mul_spec(self, rhs: Self) -> Self;

    /// Zero.
    fn zero() -> (r: Self)
        ensures
            r == Self::zero_spec(),
    ;

    /// One.
    fn one() -> (r: Self)
        ensures
            r == Self::one_spec(),
    ;

    /// `self` plus `rhs`.
    fn add(self, rhs: Self) -> (r: Self)
        ensures
            r == self.add_spec(rhs),
    ;

    /// `self` minus `rhs`.
    fn sub(self, rhs: Self) -> (r: Self)
        ensures
            r == self.sub_spec(rhs),
    ;

    /// `self` times `rhs`.
    fn mul(self, rhs: Self) -> (r: Self)
        ensures
            r == self.mul_spec(rhs),
    ;
}

/// A scalar with roots, powers and reciprocals, as the norms and the power
/// iteration need them.
///
/// Nothing is assumed of what these return: an approximation may differ from
/// one evaluation to the next. Contracts speak of "an outcome" of each call.
pub trait Real: Scalar {
    /// The square root.
    fn sqrt(self) -> Self;

    /// One divided by `self`.
    fn recip(self) -> Self;

    /// `self` raised to the integer power `p`.
    fn powi(self, p: i32) -> Self;

    /// The `p`-th root: `self` raised to the power one over `p`.
    fn root(self, p: i32) -> Self;
}

/// A scalar whose values can be asked which of two is the greater.
pub trait Ordered: Scalar {
    /// Whether `self` is greater than `rhs`, or `None` where the two cannot
    /// be put in order.
    spec fn exceeds_spec(self, rhs: Self) -> Option<bool>;

    /// Compares `self` with `rhs`.
    fn exceeds(self, rhs: Self) -> (r: Option<bool>)
        ensures
            r == self.exceeds_spec(rhs),
    ;
}

/// The integers modulo 2^64 in two's complement: exact, and a commutative ring.
impl Scalar for i64 {
    open spec fn zero_spec() -> i64 {
        0i64
    }

    open spec fn one_spec() -> i64 {
        1i64
    }

    open spec fn add_spec(self, rhs: i64) -> i64 {
        self.wrapping_add(rhs)
    }

    open spec fn sub_spec(self, rhs: i64) -> i64 {
        self.wrapping_sub(rhs)
    }

    open spec fn mul_spec(self, rhs: i64) -> i64 {
        self.wrapping_mul(rhs)
    }

    fn zero() -> (r: i64) {
        0i64
    }

    fn one() -> (r: i64) {
        1i64
    }

    fn add(self, rhs: i64) -> (r: i64) {
        self.wrapping_add(rhs)
    }

    fn sub(self, rhs: i64) -> (r: i64) {
        self.wrapping_sub(rhs)
    }

    fn mul(self, rhs: i64) -> (r: i64) {
        self.wrapping_mul(rhs)
    }
}

/// The order of the integers, in which any two can be compared.
impl Ordered for i64 {
    open spec fn exceeds_spec(self, rhs: i64) -> Option<bool> {
        Some(self > rhs)
    }

    fn exceeds(self, rhs: i64) -> (r: Option<bool>) {
        Some(self > rhs)
    }
}

/// Whether `a` meets zero and one as a ring element does: zero is neutral for
/// its sum on either side and absorbs its product, one is neutral for its
/// product.
pub open spec fn is_regular<T: Scalar>(a: T) -> bool {
    &&& T::zero_spec().add_spec(a) == a
    &&& a.add_spec(T::zero_spec()) == a
    &&& a.mul_spec(T::zero_spec()) == T::zero_spec()
    &&& a.mul_spec(T::one_spec()) == a
}

/// Every 64-bit integer is regular.
pub proof fn lemma_i64_is_regular(a: i64)
    ensures
        is_regular(a),
{
}

} // verus!
