//! A vector: a buffer of elements under a name.

use vstd::prelude::*;
use crate::ml::buffer::lp_norm_of;
use crate::ml::norm::is_lp_norm;
use crate::ml::scalar::{Ordered, Real, Scalar};

verus! {

/// A vector of elements. The name is a label for diagnostics.
#[derive(Debug)]
pub struct Vector<T: Scalar> {
    pub data: Vec<T>,
    pub name: String,
}

/// The greatest element of `s` as a scan from the left finds it: the element
/// held so far gives way to the next one unless it is greater, so of several
/// greatest elements the last is kept. `None` for an empty sequence, and where
/// the scan meets two elements that cannot be put in order.
pub open spec fn max_spec<T: Ordered>(s: Seq<T>) -> Option<T>
    decreases s.len(),
{
    if s.len() == 0 {
        None
    } else if s.len() == 1 {
        Some(s[0])
    } else {
        match max_spec(s.drop_last()) {
            None => None,
            Some(best) => match best.exceeds_spec(s.last()) {
                None => None,
                Some(true) => Some(best),
                Some(false) => Some(s.last()),
            },
        }
    }
}

impl<T: Real> Vector<T> {
    /// The power-sum norm for the exponent `p`: the `p`-th root of the sum of
    /// the `p`-th powers of the elements, without absolute values.
    pub fn lp_norm(&self, p: i32) -> (r: T)
        ensures
            is_lp_norm(self.data@, p, r),
    {
        lp_norm_of(&self.data, p)
    }

    /// The Euclidean norm: the power-sum norm for the exponent two.
    pub fn euclid_norm(&self) -> (r: T)
        ensures
            is_lp_norm(self.data@, 2, r),
    {
        self.lp_norm(2)
    }
}

impl<T: Ordered> Vector<T> {
    /// The greatest element, or `None` where the vector is empty or holds
    /// elements that cannot be put in order.
    pub fn try_max_norm(&self) -> (r: Option<T>)
        ensures
            r == max_spec(self.data@),
    {
        let len = self.data.len();
        if len == 0 {
            return None;
        }
        let mut best = self.data[0];
        assert(self.data@.take(1) =~= seq![self.data@[0]]);
        let mut k: usize = 1;
        while k < len
            invariant
                1 <= k <= len,
                len == self.data@.len(),
                max_spec(self.data@.take(k as int)) == Some(best),
            decreases len - k,
        {
            let next = self.data[k];
            let ghost upto = self.data@.take(k + 1);
            assert(upto.drop_last() =~= self.data@.take(k as int));
            assert(upto.last() == next);
            match best.exceeds(next) {
                None => {
                    proof {
                        lemma_max_undefined(self.data@, k + 1);
                    }
                    return None;
                },
                Some(true) => {},
                Some(false) => {
                    best = next;
                },
            }
            k += 1;
        }
        assert(self.data@.take(len as int) =~= self.data@);
        Some(best)
    }

    /// The greatest element of a vector that has one.
    pub fn max_norm(&self) -> (r: T)
        requires
            max_spec(self.data@) is Some,
        ensures
            max_spec(self.data@) == Some(r),
    {
        self.try_max_norm().unwrap()
    }
}

/// Once the scan has met two elements that cannot be put in order, it has no
/// result however far it goes on.
pub proof fn lemma_max_undefined<T: Ordered>(s: Seq<T>, upto: int)
    requires
        1 <= upto <= s.len(),
        max_spec(s.take(upto)) is None,
    ensures
        max_spec(s) is None,
    decreases s.len() - upto,
{
    if upto < s.len() {
        assert(s.take(upto + 1).drop_last() =~= s.take(upto));
        lemma_max_undefined(s, upto + 1);
    } else {
        assert(s.take(upto) =~= s);
    }
}

} // verus!
