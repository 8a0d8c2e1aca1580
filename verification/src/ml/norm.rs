//! What it means for a value to be a norm of a buffer of elements.

use vstd::prelude::*;
use crate::ml::grid::{dot_spec, sum_spec};
use crate::ml::scalar::Real;

verus! {

/// `r` is an outcome of taking the square root of `x`.
pub open spec fn is_sqrt<T: Real>(x: T, r: T) -> bool {
    call_ensures(T::sqrt, (x,), r)
}

/// `r` is an outcome of dividing one by `x`.
pub open spec fn is_recip<T: Real>(x: T, r: T) -> bool {
    call_ensures(T::recip, (x,), r)
}

/// `r` is an outcome of raising `x` to the power `p`.
pub open spec fn is_powi<T: Real>(x: T, p: i32, r: T) -> bool {
    call_ensures(T::powi, (x, p), r)
}

/// `r` is an outcome of taking the `p`-th root of `x`.
pub open spec fn is_root<T: Real>(x: T, p: i32, r: T) -> bool {
    call_ensures(T::root, (x, p), r)
}

/// `r` is a Frobenius norm of `s`: an outcome of the square root of the sum,
/// from the left, of the squares of the elements.
pub open spec fn is_frobenius_norm<T: Real>(s: Seq<T>, r: T) -> bool {
    is_sqrt(dot_spec(s, s), r)
}

/// `powers` holds, position by position, an outcome of raising the element of
/// `s` to the power `p`.
pub open spec fn are_powers<T: Real>(s: Seq<T>, p: i32, powers: Seq<T>) -> bool {
    &&& powers.len() == s.len()
    &&& forall|k: int| 0 <= k < s.len() ==> is_powi(s[k], p, #[trigger] powers[k])
}

/// `r` is a power-sum norm of `s` for the exponent `p`: an outcome of the
/// `p`-th root of the sum, from the left, of the `p`-th powers of the
/// elements. No absolute value is taken.
pub open spec fn is_lp_norm<T: Real>(s: Seq<T>, p: i32, r: T) -> bool {
    exists|powers: Seq<T>| #[trigger] are_powers(s, p, powers) && is_root(sum_spec(powers), p, r)
}

} // verus!
