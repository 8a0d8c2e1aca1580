//! The dense matrix: a row-major buffer with its dimensions.

use vstd::prelude::*;
use crate::ml::buffer::{cell_of, dot_of, frobenius_norm_of, lp_norm_of, matmul_of};
use crate::ml::error::MlError;
use crate::ml::grid::{
    add_spec, dot_spec, lemma_flat_index, lemma_from_fn, lemma_sum_push, matmul_spec, scale_spec,
    sub_spec, sum_spec, trace_spec, transpose_spec, Grid,
};
use crate::ml::norm::{is_frobenius_norm, is_lp_norm};
use crate::ml::scalar::{Real, Scalar};

verus! {

/// A dense matrix of `m` rows and `n` columns.
///
/// The element in row `i` and column `j` stands at position `i * n + j` of the
/// buffer, and the buffer holds exactly `m * n` elements: no value of this type
/// exists for which that fails. The name is a label for diagnostics and takes
/// no part in any computation.
#[derive(Debug)]
pub struct Matrix<T: Scalar> {
    data: Vec<T>,
    m: u32,
    n: u32,
    name: String,
}

impl<T: Scalar> View for Matrix<T> {
    type V = Grid<T>;

    closed spec fn view(&self) -> Grid<T> {
        Grid { m: self.m as nat, n: self.n as nat, data: self.data@ }
    }
}

impl<T: Scalar> Matrix<T> {
    /// What holds of every matrix: its view is well formed.
    #[verifier::type_invariant]
    pub open spec fn well_formed(&self) -> bool {
        self@.wf()
    }

    /// The diagnostic label.
    pub closed spec fn label(&self) -> Seq<char> {
        self.name@
    }

    /// A matrix of `m` rows and `n` columns over `data`, or `ShapeMismatch`
    /// where `data` does not hold `m * n` elements.
    pub fn new(data: Vec<T>, m: u32, n: u32, name: String) -> (r: Result<Matrix<T>, MlError>)
        ensures
            match r {
                Ok(mat) => {
                    &&& data@.len() == m * n
                    &&& mat@ == (Grid { m: m as nat, n: n as nat, data: data@ })
                    &&& mat.label() == name@
                },
                Err(e) => data@.len() != m * n && e == MlError::ShapeMismatch,
            },
    {
        assert(m * n <= u64::MAX) by (nonlinear_arith)
            requires
                m <= u32::MAX,
                n <= u32::MAX,
        ;
        let wanted: u64 = (m as u64) * (n as u64);
        if data.len() as u64 == wanted {
            Ok(Matrix { data, m, n, name })
        } else {
            Err(MlError::ShapeMismatch)
        }
    }

    /// The position of row `i`, column `j` in the buffer, `i * n + j`, or
    /// `IndexOutOfRange` where the matrix has no such row or no such column.
    pub fn get_index(&self, i: u32, j: u32) -> (r: Result<usize, MlError>)
        ensures
            match r {
                Ok(k) => i < self@.m && j < self@.n && k == i * self@.n + j,
                Err(e) => !(i < self@.m && j < self@.n) && e == MlError::IndexOutOfRange,
            },
    {
        if i < self.m && j < self.n {
            Ok(self.offset(i, j))
        } else {
            Err(MlError::IndexOutOfRange)
        }
    }

    fn offset(&self, i: u32, j: u32) -> (k: usize)
        requires
            i < self@.m,
            j < self@.n,
        ensures
            k == i * self@.n + j,
            k < self@.data.len(),
    {
        proof {
            use_type_invariant(self);
            lemma_flat_index(i as int, j as int, self.m as int, self.n as int);
            assert(self.data.len() == self.data@.len());
        }
        (i as usize) * (self.n as usize) + (j as usize)
    }

    fn cell(&self, i: u32, j: u32) -> (x: T)
        requires
            i < self@.m,
            j < self@.n,
        ensures
            x == self@.at(i as int, j as int),
    {
        proof {
            use_type_invariant(self);
        }
        cell_of(&self.data, self.m, self.n, i, j)
    }

    /// The element-by-element sum of `self` and `other`, or `ShapeMismatch`
    /// where they differ in the number of rows or of columns.
    pub fn add(self, other: Matrix<T>) -> (r: Result<Matrix<T>, MlError>)
        ensures
            match r {
                Ok(s) => {
                    &&& self@.m == other@.m
                    &&& self@.n == other@.n
                    &&& s@ == add_spec(self@, other@)
                    &&& s.label() == "addition"@
                },
                Err(e) => {
                    &&& !(self@.m == other@.m && self@.n == other@.n)
                    &&& e == MlError::ShapeMismatch
                },
            },
    {
        if self.m != other.m || self.n != other.n {
            return Err(MlError::ShapeMismatch);
        }
        proof {
            use_type_invariant(&self);
            use_type_invariant(&other);
        }
        let len = self.data.len();
        let mut out: Vec<T> = Vec::new();
        let mut k: usize = 0;
        while k < len
            invariant
                k <= len,
                len == self.data@.len(),
                len == other.data@.len(),
                out@.len() == k,
                forall|t: int| 0 <= t < k ==> out@[t] == self.data@[t].add_spec(other.data@[t]),
            decreases len - k,
        {
            out.push(self.data[k].add(other.data[k]));
            k += 1;
        }
        assert(out@ =~= add_spec(self@, other@).data);
        Ok(Matrix { data: out, m: self.m, n: self.n, name: "addition".to_owned() })
    }

    /// The element-by-element difference of `self` and `other`, or
    /// `ShapeMismatch` where they differ in the number of rows or of columns.
    pub fn sub(self, other: Matrix<T>) -> (r: Result<Matrix<T>, MlError>)
        ensures
            match r {
                Ok(s) => {
                    &&& self@.m == other@.m
                    &&& self@.n == other@.n
                    &&& s@ == sub_spec(self@, other@)
                    &&& s.label() == "addition"@
                },
                Err(e) => {
                    &&& !(self@.m == other@.m && self@.n == other@.n)
                    &&& e == MlError::ShapeMismatch
                },
            },
    {
        if self.m != other.m || self.n != other.n {
            return Err(MlError::ShapeMismatch);
        }
        proof {
            use_type_invariant(&self);
            use_type_invariant(&other);
        }
        let len = self.data.len();
        let mut out: Vec<T> = Vec::new();
        let mut k: usize = 0;
        while k < len
            invariant
                k <= len,
                len == self.data@.len(),
                len == other.data@.len(),
                out@.len() == k,
                forall|t: int| 0 <= t < k ==> out@[t] == self.data@[t].sub_spec(other.data@[t]),
            decreases len - k,
        {
            out.push(self.data[k].sub(other.data[k]));
            k += 1;
        }
        assert(out@ =~= sub_spec(self@, other@).data);
        Ok(Matrix { data: out, m: self.m, n: self.n, name: "addition".to_owned() })
    }

    /// Multiplies every element, in place and on its right, by `k`.
    pub fn scalar_product(&mut self, k: T)
        ensures
            final(self)@ == scale_spec(old(self)@, k),
            final(self).label() == old(self).label(),
    {
        proof {
            use_type_invariant(&*self);
        }
        let len = self.data.len();
        let mut out: Vec<T> = Vec::new();
        let mut i: usize = 0;
        while i < len
            invariant
                i <= len,
                len == self.data@.len(),
                out@.len() == i,
                forall|t: int| 0 <= t < i ==> out@[t] == self.data@[t].mul_spec(k),
            decreases len - i,
        {
            out.push(self.data[i].mul(k));
            i += 1;
        }
        assert(out@ =~= scale_spec(self@, k).data);
        self.data = out;
    }

    /// The sum of the elements whose row and column agree, from the top left.
    pub fn trace(&self) -> (r: T)
        ensures
            r == trace_spec(self@),
    {
        let d: u32 = if self.m <= self.n {
            self.m
        } else {
            self.n
        };
        let mut acc = T::zero();
        let mut i: u32 = 0;
        while i < d
            invariant
                i <= d,
                d <= self.m,
                d <= self.n,
                d == self@.diagonal().len(),
                acc == sum_spec(self@.diagonal().take(i as int)),
            decreases d - i,
        {
            let x = self.cell(i, i);
            proof {
                let diag = self@.diagonal();
                assert(diag.take(i + 1) =~= diag.take(i as int).push(diag[i as int]));
                lemma_sum_push(diag.take(i as int), x);
            }
            acc = acc.add(x);
            i += 1;
        }
        assert(self@.diagonal().take(d as int) =~= self@.diagonal());
        acc
    }

    /// The number of rows.
    pub fn m(&self) -> (r: u32)
        ensures
            r == self@.m,
    {
        self.m
    }

    /// The number of columns.
    pub fn n(&self) -> (r: u32)
        ensures
            r == self@.n,
    {
        self.n
    }

    /// The elements, row by row.
    pub fn data(&self) -> (r: &Vec<T>)
        ensures
            r@ == self@.data,
    {
        &self.data
    }

    /// The diagnostic label.
    pub fn name(&self) -> (r: &String)
        ensures
            r@ == self.label(),
    {
        &self.name
    }
}

impl<T: Real> Matrix<T> {
    /// The Frobenius norm: the square root of the sum of the squares of all
    /// elements, summed in buffer order.
    pub fn forbenius_norm(&self) -> (r: T)
        ensures
            is_frobenius_norm(self@.data, r),
    {
        frobenius_norm_of(&self.data)
    }

    /// The power-sum norm for the exponent `p`: the `p`-th root of the sum, in
    /// buffer order, of the `p`-th powers of all elements. No absolute value
    /// is taken, so a negative element under an odd power lowers the sum, and
    /// the root of a negative sum is whatever the scalar type makes of it.
    pub fn lp_norm(&self, p: i32) -> (r: T)
        ensures
            is_lp_norm(self@.data, p, r),
    {
        lp_norm_of(&self.data, p)
    }
}

/// The transpose of `x`: the element in row `j`, column `i` of the result is
/// the element in row `i`, column `j` of `x`.
pub fn transpose<T: Scalar>(x: &Matrix<T>) -> (y: Matrix<T>)
    ensures
        y@ == transpose_spec(x@),
        y@.m == x@.n,
        y@.n == x@.m,
        forall|i: int, j: int|
            0 <= i < x@.m && 0 <= j < x@.n ==> #[trigger] y@.at(j, i) == x@.at(i, j),
        y.label() == "transpose matrix"@,
{
    proof {
        use_type_invariant(x);
        lemma_from_fn(x@.n, x@.m, |i: int, j: int| x@.at(j, i));
    }
    let mut out: Vec<T> = Vec::new();
    let mut j: u32 = 0;
    while j < x.n
        invariant
            j <= x.n,
            x@.wf(),
            out@.len() == j * x.m,
            forall|t: int|
                0 <= t < out@.len() ==> out@[t] == x@.at(t % (x.m as int), t / (x.m as int)),
        decreases x.n - j,
    {
        let mut i: u32 = 0;
        while i < x.m
            invariant
                i <= x.m,
                j < x.n,
                x@.wf(),
                out@.len() == j * x.m + i,
                forall|t: int|
                    0 <= t < out@.len() ==> out@[t] == x@.at(t % (x.m as int), t / (x.m as int)),
            decreases x.m - i,
        {
            proof {
                lemma_flat_index(j as int, i as int, x.n as int, x.m as int);
            }
            out.push(x.cell(i, j));
            i += 1;
        }
        assert(j * x.m + x.m == (j + 1) * x.m) by (nonlinear_arith);
        j += 1;
    }
    assert(x.n * x.m == x.m * x.n) by (nonlinear_arith);
    assert(out@ =~= transpose_spec(x@).data);
    Matrix { data: out, m: x.n, n: x.m, name: "transpose matrix".to_owned() }
}

/// The dot product of two matrices of one shape: the sum, in buffer order, of
/// the products of their elements position by position; or `ShapeMismatch`
/// where they differ in the number of rows or of columns.
pub fn dot<T: Scalar>(x: &Matrix<T>, y: &Matrix<T>) -> (r: Result<T, MlError>)
    ensures
        match r {
            Ok(d) => x@.m == y@.m && x@.n == y@.n && d == dot_spec(x@.data, y@.data),
            Err(e) => !(x@.m == y@.m && x@.n == y@.n) && e == MlError::ShapeMismatch,
        },
{
    if x.m != y.m || x.n != y.n {
        return Err(MlError::ShapeMismatch);
    }
    proof {
        use_type_invariant(x);
        use_type_invariant(y);
    }
    Ok(dot_of(&x.data, &y.data))
}

/// The matrix product of `x` and `y`, or `ShapeMismatch` where `x` does not
/// have as many columns as `y` has rows.
///
/// Each element of the result is the dot product of a row of `x` and a column
/// of `y`, summed from the left and starting at zero.
pub fn matmul2d<T: Scalar>(x: &Matrix<T>, y: &Matrix<T>) -> (r: Result<Matrix<T>, MlError>)
    ensures
        match r {
            Ok(z) => {
                &&& x@.n == y@.m
                &&& z@ == matmul_spec(x@, y@)
                &&& z@.m == x@.m
                &&& z@.n == y@.n
                &&& forall|i: int, j: int|
                    0 <= i < x@.m && 0 <= j < y@.n ==> #[trigger] z@.at(i, j) == dot_spec(
                        x@.row(i),
                        y@.col(j),
                    )
                &&& z.label() == "mult_ouput"@
            },
            Err(e) => x@.n != y@.m && e == MlError::ShapeMismatch,
        },
{
    if x.n != y.m {
        return Err(MlError::ShapeMismatch);
    }
    proof {
        use_type_invariant(x);
        use_type_invariant(y);
        lemma_from_fn(
            x.m as nat,
            y.n as nat,
            |i: int, j: int| dot_spec(x@.row(i), y@.col(j)),
        );
    }
    let out = matmul_of(&x.data, x.m, x.n, &y.data, y.n);
    Ok(Matrix { data: out, m: x.m, n: y.n, name: "mult_ouput".to_owned() })
}

} // verus!
