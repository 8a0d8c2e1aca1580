//! A tensor: a row-major buffer with any number of dimensions.

use vstd::prelude::*;
use crate::ml::buffer::{dot_of, frobenius_norm_of, lp_norm_of, matmul_of};
use crate::ml::error::MlError;
use crate::ml::grid::{dot_spec, lemma_from_fn, matmul_spec, Grid};
use crate::ml::norm::{is_frobenius_norm, is_lp_norm};
use crate::ml::scalar::{Real, Scalar};

verus! {

/// A tensor as a value: the size of each dimension, and the elements with the
/// last dimension running fastest.
pub struct Block<T> {
    pub shape: Seq<u32>,
    pub data: Seq<T>,
}

/// The number of elements that a shape asks for: the product of its
/// dimensions, one for no dimensions.
pub open spec fn volume(shape: Seq<u32>) -> nat
    decreases shape.len(),
{
    if shape.len() == 0 {
        1
    } else {
        volume(shape.drop_last()) * (shape.last() as nat)
    }
}

/// `crds` names a position of `shape`: one coordinate for each dimension,
/// each below the size of its dimension.
pub open spec fn in_shape(shape: Seq<u32>, crds: Seq<u32>) -> bool {
    &&& crds.len() == shape.len()
    &&& forall|i: int| 0 <= i < shape.len() ==> crds[i] < shape[i]
}

/// The position of the coordinates `crds` in a row-major buffer of `shape`:
/// each coordinate weighs as much as the dimensions after it hold together.
pub open spec fn flat_index(shape: Seq<u32>, crds: Seq<u32>) -> nat
    decreases shape.len(),
{
    if shape.len() == 0 {
        0
    } else {
        flat_index(shape.drop_last(), crds.drop_last()) * (shape.last() as nat) + (
        crds.last() as nat)
    }
}

impl<T> Block<T> {
    /// The buffer holds as many elements as the shape asks for.
    pub open spec fn wf(self) -> bool {
        self.data.len() == volume(self.shape)
    }

    /// A tensor of two dimensions as a matrix.
    pub open spec fn as_grid(self) -> Grid<T> {
        Grid { m: self.shape[0] as nat, n: self.shape[1] as nat, data: self.data }
    }
}

/// A shape with a dimension of size zero asks for no elements.
pub proof fn lemma_volume_zero(shape: Seq<u32>, i: int)
    requires
        0 <= i < shape.len(),
        shape[i] == 0,
    ensures
        volume(shape) == 0,
    decreases shape.len(),
{
    if i < shape.len() - 1 {
        lemma_volume_zero(shape.drop_last(), i);
        assert(volume(shape.drop_last()) * (shape.last() as nat) == 0) by (nonlinear_arith)
            requires
                volume(shape.drop_last()) == 0,
        ;
    } else {
        assert(volume(shape.drop_last()) * (shape.last() as nat) == 0) by (nonlinear_arith)
            requires
                shape.last() == 0,
        ;
    }
}

/// Without a dimension of size zero, the first dimensions of a shape ask for
/// no more elements than the whole shape.
pub proof fn lemma_volume_prefix(shape: Seq<u32>, i: int)
    requires
        0 <= i <= shape.len(),
        forall|t: int| 0 <= t < shape.len() ==> shape[t] != 0,
    ensures
        1 <= volume(shape.take(i)) <= volume(shape),
    decreases shape.len() - i,
{
    if i == shape.len() {
        assert(shape.take(i) =~= shape);
        lemma_volume_positive(shape);
    } else {
        lemma_volume_prefix(shape, i + 1);
        lemma_volume_step(shape, i);
        lemma_volume_positive(shape.take(i));
        assert(volume(shape.take(i)) <= volume(shape.take(i)) * (shape[i] as nat))
            by (nonlinear_arith)
            requires
                shape[i] >= 1,
        ;
    }
}

/// Without a dimension of size zero a shape asks for at least one element.
pub proof fn lemma_volume_positive(shape: Seq<u32>)
    requires
        forall|t: int| 0 <= t < shape.len() ==> shape[t] != 0,
    ensures
        1 <= volume(shape),
    decreases shape.len(),
{
    if shape.len() > 0 {
        lemma_volume_positive(shape.drop_last());
        assert(1 <= volume(shape.drop_last()) * (shape.last() as nat)) by (nonlinear_arith)
            requires
                1 <= volume(shape.drop_last()),
                1 <= shape.last(),
        ;
    }
}

/// One more dimension multiplies the number of elements by its size.
pub proof fn lemma_volume_step(shape: Seq<u32>, i: int)
    requires
        0 <= i < shape.len(),
    ensures
        volume(shape.take(i + 1)) == volume(shape.take(i)) * (shape[i] as nat),
{
    assert(shape.take(i + 1).drop_last() =~= shape.take(i));
}

/// A shape of two dimensions asks for their product.
pub proof fn lemma_volume_pair(shape: Seq<u32>)
    requires
        shape.len() == 2,
    ensures
        volume(shape) == shape[0] * shape[1],
{
    let one = shape.drop_last();
    assert(one.drop_last().len() == 0);
    assert(volume(one.drop_last()) == 1);
    assert(volume(one) == 1 * (shape[0] as nat));
    assert(1 * (shape[0] as nat) == shape[0] as nat) by (nonlinear_arith);
}

/// Whether `shape` asks for exactly `len` elements.
fn asks_for(shape: &Vec<u32>, len: usize) -> (ok: bool)
    ensures
        ok == (volume(shape@) == len),
{
    let rank = shape.len();
    let mut i: usize = 0;
    while i < rank
        invariant
            i <= rank,
            rank == shape@.len(),
            forall|t: int| 0 <= t < i ==> shape@[t] != 0,
        decreases rank - i,
    {
        if shape[i] == 0 {
            proof {
                lemma_volume_zero(shape@, i as int);
            }
            return len == 0;
        }
        i += 1;
    }
    let mut prod: usize = 1;
    let mut k: usize = 0;
    while k < rank
        invariant
            k <= rank,
            rank == shape@.len(),
            forall|t: int| 0 <= t < rank ==> shape@[t] != 0,
            prod == volume(shape@.take(k as int)),
        decreases rank - k,
    {
        proof {
            lemma_volume_step(shape@, k as int);
            lemma_volume_prefix(shape@, k + 1);
        }
        match prod.checked_mul(shape[k] as usize) {
            None => {
                return false;
            },
            Some(p) => {
                prod = p;
            },
        }
        k += 1;
    }
    assert(shape@.take(rank as int) =~= shape@);
    prod == len
}

/// Whether two shapes are the same.
fn same_shape(a: &Vec<u32>, b: &Vec<u32>) -> (same: bool)
    ensures
        same == (a@ == b@),
{
    if a.len() != b.len() {
        return false;
    }
    let rank = a.len();
    let mut i: usize = 0;
    while i < rank
        invariant
            i <= rank,
            rank == a@.len(),
            rank == b@.len(),
            forall|t: int| 0 <= t < i ==> a@[t] == b@[t],
        decreases rank - i,
    {
        if a[i] != b[i] {
            return false;
        }
        i += 1;
    }
    assert(a@ =~= b@);
    true
}

/// A dense tensor.
///
/// The buffer holds exactly as many elements as the shape asks for: no value
/// of this type exists for which that fails. The name is a label for
/// diagnostics.
#[derive(Debug)]
pub struct Tensor<T: Scalar> {
    data: Vec<T>,
    shape: Vec<u32>,
    name: String,
}

impl<T: Scalar> View for Tensor<T> {
    type V = Block<T>;

    closed spec fn view(&self) -> Block<T> {
        Block { shape: self.shape@, data: self.data@ }
    }
}

impl<T: Scalar> Tensor<T> {
    /// What holds of every tensor: its view is well formed.
    #[verifier::type_invariant]
    pub open spec fn well_formed(&self) -> bool {
        self@.wf()
    }

    /// The diagnostic label.
    pub closed spec fn label(&self) -> Seq<char> {
        self.name@
    }

    /// A tensor of `shape` over `data`, or `ShapeMismatch` where `data` does
    /// not hold as many elements as `shape` asks for.
    pub fn new(data: Vec<T>, shape: Vec<u32>, name: String) -> (r: Result<Tensor<T>, MlError>)
        ensures
            match r {
                Ok(t) => {
                    &&& data@.len() == volume(shape@)
                    &&& t@ == (Block { shape: shape@, data: data@ })
                    &&& t.label() == name@
                },
                Err(e) => data@.len() != volume(shape@) && e == MlError::ShapeMismatch,
            },
    {
        if asks_for(&shape, data.len()) {
            Ok(Tensor { data, shape, name })
        } else {
            Err(MlError::ShapeMismatch)
        }
    }

    /// The position in the buffer of the element at the coordinates `crds`;
    /// `ShapeMismatch` where `crds` does not give one coordinate for each
    /// dimension, and `IndexOutOfRange` where it does and one of them is not
    /// below the size of its dimension.
    pub fn get_index(&self, crds: Vec<u32>) -> (r: Result<usize, MlError>)
        ensures
            match r {
                Ok(k) => {
                    &&& in_shape(self@.shape, crds@)
                    &&& k == flat_index(self@.shape, crds@)
                    &&& k < self@.data.len()
                },
                Err(e) => {
                    &&& !in_shape(self@.shape, crds@)
                    &&& e == (if crds@.len() != self@.shape.len() {
                        MlError::ShapeMismatch
                    } else {
                        MlError::IndexOutOfRange
                    })
                },
            },
    {
        let rank = self.shape.len();
        if crds.len() != rank {
            return Err(MlError::ShapeMismatch);
        }
        let mut i: usize = 0;
        while i < rank
            invariant
                i <= rank,
                rank == self.shape@.len(),
                rank == crds@.len(),
                forall|t: int| 0 <= t < i ==> crds@[t] < self.shape@[t],
            decreases rank - i,
        {
            if crds[i] >= self.shape[i] {
                return Err(MlError::IndexOutOfRange);
            }
            i += 1;
        }
        proof {
            use_type_invariant(self);
            assert(self.data.len() == self.data@.len());
        }
        let mut index: usize = 0;
        let mut k: usize = 0;
        while k < rank
            invariant
                k <= rank,
                rank == self.shape@.len(),
                rank == crds@.len(),
                forall|t: int| 0 <= t < rank ==> crds@[t] < self.shape@[t],
                volume(self.shape@) <= usize::MAX,
                index == flat_index(self.shape@.take(k as int), crds@.take(k as int)),
                index < volume(self.shape@.take(k as int)),
            decreases rank - k,
        {
            proof {
                let s = self.shape@;
                let c = crds@;
                assert forall|t: int| 0 <= t < s.len() implies s[t] != 0 by {
                    assert(c[t] < s[t]);
                }
                lemma_volume_step(s, k as int);
                lemma_volume_prefix(s, k + 1);
                assert(s.take(k + 1).drop_last() =~= s.take(k as int));
                assert(c.take(k + 1).drop_last() =~= c.take(k as int));
                assert(index * s[k as int] + c[k as int] < volume(s.take(k as int)) * (
                s[k as int] as nat)) by (nonlinear_arith)
                    requires
                        0 <= index < volume(s.take(k as int)),
                        0 <= c[k as int] < s[k as int],
                ;
                assert(0 <= index * s[k as int]) by (nonlinear_arith)
                    requires
                        0 <= index,
                        0 <= s[k as int],
                ;
            }
            index = index * (self.shape[k] as usize) + (crds[k] as usize);
            k += 1;
        }
        assert(self.shape@.take(rank as int) =~= self.shape@);
        assert(crds@.take(rank as int) =~= crds@);
        Ok(index)
    }

    /// The size of each dimension.
    pub fn shape(&self) -> (r: &Vec<u32>)
        ensures
            r@ == self@.shape,
    {
        &self.shape
    }

    /// The elements, the last dimension running fastest.
    pub fn data(&self) -> (r: &Vec<T>)
        ensures
            r@ == self@.data,
    {
        &self.data
    }

    /// The diagnostic label.
    pub fn name(&self) -> (r: &String)
        ensures
            r@ == self.label(),
    {
        &self.name
    }
}

impl<T: Real> Tensor<T> {
    /// The power-sum norm for the exponent `p`: the `p`-th root of the sum of
    /// the `p`-th powers of all elements, without absolute values.
    pub fn lp_norm(&self, p: i32) -> (r: T)
        ensures
            is_lp_norm(self@.data, p, r),
    {
        lp_norm_of(&self.data, p)
    }

    /// The Frobenius norm: the square root of the sum of the squares of all
    /// elements.
    pub fn forbenius_norm(&self) -> (r: T)
        ensures
            is_frobenius_norm(self@.data, r),
    {
        frobenius_norm_of(&self.data)
    }
}

/// The dot product of two tensors of one shape: the sum, in buffer order, of
/// the products of their elements position by position; or `ShapeMismatch`
/// where their shapes differ.
pub fn dot<T: Scalar>(x: &Tensor<T>, y: &Tensor<T>) -> (r: Result<T, MlError>)
    ensures
        match r {
            Ok(d) => x@.shape == y@.shape && d == dot_spec(x@.data, y@.data),
            Err(e) => x@.shape != y@.shape && e == MlError::ShapeMismatch,
        },
{
    if !same_shape(&x.shape, &y.shape) {
        return Err(MlError::ShapeMismatch);
    }
    proof {
        use_type_invariant(x);
        use_type_invariant(y);
    }
    Ok(dot_of(&x.data, &y.data))
}

/// Whether `x` and `y` are matrices that can be multiplied: two dimensions
/// each, and as many columns in `x` as rows in `y`.
pub open spec fn can_multiply<T>(x: Block<T>, y: Block<T>) -> bool {
    &&& x.shape.len() == 2
    &&& y.shape.len() == 2
    &&& x.shape[1] == y.shape[0]
}

/// The matrix product of two tensors of two dimensions, or `ShapeMismatch`
/// where one of them has another number of dimensions or `x` does not have as
/// many columns as `y` has rows.
pub fn matmul2d<T: Scalar>(x: &Tensor<T>, y: &Tensor<T>) -> (r: Result<Tensor<T>, MlError>)
    ensures
        match r {
            Ok(z) => {
                &&& can_multiply(x@, y@)
                &&& z@.shape == seq![x@.shape[0], y@.shape[1]]
                &&& z@.data == matmul_spec(x@.as_grid(), y@.as_grid()).data
                &&& z.label() == "mult_ouput"@
            },
            Err(e) => !can_multiply(x@, y@) && e == MlError::ShapeMismatch,
        },
{
    if x.shape.len() != 2 || y.shape.len() != 2 {
        return Err(MlError::ShapeMismatch);
    }
    if x.shape[1] != y.shape[0] {
        return Err(MlError::ShapeMismatch);
    }
    let m = x.shape[0];
    let n = x.shape[1];
    let c = y.shape[1];
    proof {
        use_type_invariant(x);
        use_type_invariant(y);
        lemma_volume_pair(x.shape@);
        lemma_volume_pair(y.shape@);
        lemma_from_fn(
            m as nat,
            c as nat,
            |i: int, j: int| dot_spec(x@.as_grid().row(i), y@.as_grid().col(j)),
        );
    }
    let out = matmul_of(&x.data, m, n, &y.data, c);
    let mut shape: Vec<u32> = Vec::new();
    shape.push(m);
    shape.push(c);
    proof {
        assert(shape@ =~= seq![m, c]);
        lemma_volume_pair(shape@);
    }
    Ok(Tensor { data: out, shape, name: "mult_ouput".to_owned() })
}

} // verus!
