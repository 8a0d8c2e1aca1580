//! Eigenvalues by power iteration and successive deflation.

use vstd::prelude::*;
use crate::ml::buffer::copy_of;
use crate::ml::error::MlError;
use crate::ml::grid::{
    deflate_spec, matmul_spec, ones_column, rayleigh_spec, scale_spec, Grid,
};
use crate::ml::matrix::{matmul2d, transpose, Matrix};
use crate::ml::norm::{is_frobenius_norm, is_recip};
use crate::ml::scalar::Real;

verus! {

/// `y` comes from `x` by one step of the power iteration on `a`: `x` is
/// multiplied by `a`, and the product is scaled by an outcome of the
/// reciprocal of one of its Frobenius norms.
pub open spec fn is_power_step<T: Real>(a: Grid<T>, x: Grid<T>, y: Grid<T>) -> bool {
    exists|norm: T, k: T|
        {
            &&& #[trigger] is_frobenius_norm(matmul_spec(a, x).data, norm)
            &&& #[trigger] is_recip(norm, k)
            &&& y == scale_spec(matmul_spec(a, x), k)
        }
}

/// `x` comes from the column of ones by `steps` steps of the power iteration
/// on `a`.
pub open spec fn is_power_iterate<T: Real>(a: Grid<T>, steps: nat, x: Grid<T>) -> bool
    decreases steps,
{
    if steps == 0 {
        x == ones_column::<T>(a.n)
    } else {
        exists|prev: Grid<T>|
            is_power_iterate(a, (steps - 1) as nat, prev) && #[trigger] is_power_step(a, prev, x)
    }
}

/// One more step of the power iteration reaches one step further.
pub proof fn lemma_power_iterate_next<T: Real>(a: Grid<T>, steps: nat, prev: Grid<T>, x: Grid<T>)
    requires
        is_power_iterate(a, steps, prev),
        is_power_step(a, prev, x),
    ensures
        is_power_iterate(a, steps + 1, x),
{
    assert(((steps + 1) - 1) as nat == steps);
}

/// `values` are the eigenvalue estimates that successive deflation of `a`
/// records, and `rest` is what is left of `a` after them: each estimate is the
/// Rayleigh quotient at a vector that `itr` steps of the power iteration reach
/// on what was left before it, and that vector's direction is then taken out.
pub open spec fn is_deflation<T: Real>(a: Grid<T>, itr: nat, values: Seq<T>, rest: Grid<T>) -> bool
    decreases values.len(),
{
    if values.len() == 0 {
        rest == a
    } else {
        exists|prev: Grid<T>, v: Grid<T>|
            {
                &&& is_deflation(a, itr, values.drop_last(), prev)
                &&& #[trigger] is_power_iterate(prev, itr, v)
                &&& values.last() == rayleigh_spec(prev, v)
                &&& rest == deflate_spec(prev, values.last(), v)
            }
    }
}

/// One more round of deflation records one more value.
pub proof fn lemma_deflation_next<T: Real>(
    a: Grid<T>,
    itr: nat,
    values: Seq<T>,
    prev: Grid<T>,
    v: Grid<T>,
)
    requires
        is_deflation(a, itr, values, prev),
        is_power_iterate(prev, itr, v),
    ensures
        is_deflation(
            a,
            itr,
            values.push(rayleigh_spec(prev, v)),
            deflate_spec(prev, rayleigh_spec(prev, v), v),
        ),
{
    let next = values.push(rayleigh_spec(prev, v));
    assert(next.drop_last() =~= values);
    assert(is_deflation(a, itr, next.drop_last(), prev));
}

impl<T: Real> Matrix<T> {
    /// The dominant eigenvalue and its eigenvector, estimated by exactly `itr`
    /// steps of the power iteration from the column of ones, or `ShapeMismatch`
    /// where the matrix is not square.
    ///
    /// The eigenvalue is the Rayleigh quotient of the matrix at the returned
    /// vector. Nothing stops the iteration early, and a norm of zero is not
    /// guarded against: what the scalar type makes of its reciprocal runs on.
    pub fn dominant_eigans(&self, itr: u32) -> (r: Result<(T, Matrix<T>), MlError>)
        ensures
            match r {
                Ok((value, vector)) => {
                    &&& self@.m == self@.n
                    &&& vector@.m == self@.n
                    &&& vector@.n == 1
                    &&& is_power_iterate(self@, itr as nat, vector@)
                    &&& value == rayleigh_spec(self@, vector@)
                    &&& vector.label() == (if itr == 0 {
                        "eigen_vector"@
                    } else {
                        "mult_ouput"@
                    })
                },
                Err(e) => self@.m != self@.n && e == MlError::ShapeMismatch,
            },
    {
        if self.m() != self.n() {
            return Err(MlError::ShapeMismatch);
        }
        let n = self.n();
        let mut ones: Vec<T> = Vec::new();
        let mut c: u32 = 0;
        while c < n
            invariant
                c <= n,
                ones@.len() == c,
                forall|t: int| 0 <= t < c ==> ones@[t] == T::one_spec(),
            decreases n - c,
        {
            ones.push(T::one());
            c += 1;
        }
        let start = Matrix::new(ones, n, 1, "eigen_vector".to_owned());
        let mut x = start.unwrap();
        assert(x@ =~= ones_column::<T>(self@.n)) by {
            assert(x@.data =~= ones_column::<T>(self@.n).data);
        }
        let mut i: u32 = 0;
        while i < itr
            invariant
                i <= itr,
                self@.m == self@.n,
                x@.m == self@.n,
                x@.n == 1,
                is_power_iterate(self@, i as nat, x@),
                x.label() == (if i == 0 {
                    "eigen_vector"@
                } else {
                    "mult_ouput"@
                }),
            decreases itr - i,
        {
            let mut y = matmul2d(self, &x).unwrap();
            let f_norm = y.forbenius_norm();
            let k = f_norm.recip();
            y.scalar_product(k);
            proof {
                assert(is_frobenius_norm(matmul_spec(self@, x@).data, f_norm));
                assert(is_recip(f_norm, k));
                assert(is_power_step(self@, x@, y@));
                lemma_power_iterate_next(self@, i as nat, x@, y@);
            }
            x = y;
            i += 1;
        }
        let xt = transpose(&x);
        let left = matmul2d(&xt, self).unwrap();
        let quotient = matmul2d(&left, &x).unwrap();
        proof {
            use_type_invariant(&quotient);
            assert(quotient@.data.len() == 1) by (nonlinear_arith)
                requires
                    quotient@.data.len() == quotient@.m * quotient@.n,
                    quotient@.m == 1,
                    quotient@.n == 1,
            ;
        }
        let value = quotient.data()[0];
        Ok((value, x))
    }

    /// The dominant eigenvalue alone: the first component of what
    /// `dominant_eigans` returns.
    pub fn dominant_eigan_value(&self, itr: u32) -> (r: Result<T, MlError>)
        ensures
            match r {
                Ok(value) => {
                    &&& self@.m == self@.n
                    &&& exists|vector: Grid<T>|
                        #[trigger] is_power_iterate(self@, itr as nat, vector) && value
                            == rayleigh_spec(self@, vector)
                },
                Err(e) => self@.m != self@.n && e == MlError::ShapeMismatch,
            },
    {
        match self.dominant_eigans(itr) {
            Ok((value, vector)) => {
                assert(is_power_iterate(self@, itr as nat, vector@));
                Ok(value)
            },
            Err(e) => Err(e),
        }
    }

    /// One eigenvalue estimate for each column, by successive deflation, or
    /// `ShapeMismatch` where the matrix has columns and is not square.
    ///
    /// Each round estimates the dominant eigenpair of a working copy by `itr`
    /// steps of the power iteration, records the eigenvalue, and subtracts from
    /// the copy the outer product of the eigenvector with itself, scaled by the
    /// eigenvalue. That this takes the eigendirection out holds for a symmetric
    /// matrix with an orthogonal eigenbasis; the matrix is not tested for it.
    pub fn get_eigen_values(&self, itr: u32) -> (r: Result<Vec<T>, MlError>)
        ensures
            match r {
                Ok(values) => {
                    &&& self@.n == 0 || self@.m == self@.n
                    &&& values@.len() == self@.n
                    &&& exists|rest: Grid<T>|
                        #[trigger] is_deflation(self@, itr as nat, values@, rest)
                },
                Err(e) => {
                    &&& self@.n != 0
                    &&& self@.m != self@.n
                    &&& e == MlError::ShapeMismatch
                },
            },
    {
        let n = self.n();
        if n != 0 && self.m() != n {
            return Err(MlError::ShapeMismatch);
        }
        let mut eigens: Vec<T> = Vec::new();
        let mut matrix = self.working_copy();
        let mut i: u32 = 0;
        while i < n
            invariant
                i <= n,
                n == self@.n,
                n == 0 || self@.m == n,
                matrix@.m == self@.m,
                matrix@.n == n,
                eigens@.len() == i,
                is_deflation(self@, itr as nat, eigens@, matrix@),
            decreases n - i,
        {
            let ghost before = matrix@;
            let ghost recorded = eigens@;
            let pair = matrix.dominant_eigans(itr).unwrap();
            let eigen = pair.0;
            let x = pair.1;
            eigens.push(eigen);
            let xt = transpose(&x);
            let mut lambda_xx_t = matmul2d(&x, &xt).unwrap();
            lambda_xx_t.scalar_product(eigen);
            matrix = matrix.sub(lambda_xx_t).unwrap();
            proof {
                lemma_deflation_next(self@, itr as nat, recorded, before, x@);
            }
            i += 1;
        }
        Ok(eigens)
    }

    fn working_copy(&self) -> (r: Matrix<T>)
        ensures
            r@ == self@,
            r.label() == "get eignes"@,
    {
        proof {
            use_type_invariant(self);
        }
        let data = copy_of(self.data());
        Matrix::new(data, self.m(), self.n(), "get eignes".to_owned()).unwrap()
    }
}

} // verus!
