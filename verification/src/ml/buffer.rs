//! Loops over row-major buffers that the containers share.

use vstd::prelude::*;
use crate::ml::grid::{
    dot_spec, lemma_flat_index, lemma_sum_push, matmul_spec, products, sum_spec, Grid,
};
use crate::ml::norm::{are_powers, is_frobenius_norm, is_lp_norm};
use crate::ml::scalar::{Real, Scalar};

verus! {

/// The element in row `i`, column `j` of the `m` by `n` buffer `v`.
pub(crate) fn cell_of<T: Scalar>(v: &Vec<T>, m: u32, n: u32, i: u32, j: u32) -> (x: T)
    requires
        v@.len() == m * n,
        i < m,
        j < n,
    ensures
        x == v@[i * n + j],
        x == (Grid { m: m as nat, n: n as nat, data: v@ }).at(i as int, j as int),
{
    proof {
        lemma_flat_index(i as int, j as int, m as int, n as int);
        assert(v.len() == v@.len());
    }
    v[(i as usize) * (n as usize) + (j as usize)]
}

/// A buffer with the elements of `v`, in their order.
pub(crate) fn copy_of<T: Scalar>(v: &Vec<T>) -> (out: Vec<T>)
    ensures
        out@ == v@,
{
    let len = v.len();
    let mut out: Vec<T> = Vec::new();
    let mut k: usize = 0;
    while k < len
        invariant
            k <= len,
            len == v@.len(),
            out@ == v@.take(k as int),
        decreases len - k,
    {
        out.push(v[k]);
        assert(v@.take(k + 1) =~= v@.take(k as int).push(v@[k as int]));
        k += 1;
    }
    assert(v@.take(len as int) =~= v@);
    out
}

/// The dot product of two buffers of one length.
pub(crate) fn dot_of<T: Scalar>(x: &Vec<T>, y: &Vec<T>) -> (d: T)
    requires
        x@.len() == y@.len(),
    ensures
        d == dot_spec(x@, y@),
{
    let len = x.len();
    let ghost prods = products(x@, y@);
    let mut acc = T::zero();
    let mut k: usize = 0;
    while k < len
        invariant
            k <= len,
            len == x@.len(),
            len == y@.len(),
            prods == products(x@, y@),
            acc == sum_spec(prods.take(k as int)),
        decreases len - k,
    {
        let p = x[k].mul(y[k]);
        proof {
            assert(prods.take(k + 1) =~= prods.take(k as int).push(p));
            lemma_sum_push(prods.take(k as int), p);
        }
        acc = acc.add(p);
        k += 1;
    }
    assert(prods.take(len as int) =~= prods);
    acc
}

/// The row-major buffer of the product of the `xm` by `xn` matrix over `x`
/// and the `xn` by `yn` matrix over `y`.
pub(crate) fn matmul_of<T: Scalar>(
    x: &Vec<T>,
    xm: u32,
    xn: u32,
    y: &Vec<T>,
    yn: u32,
) -> (out: Vec<T>)
    requires
        x@.len() == xm * xn,
        y@.len() == xn * yn,
    ensures
        out@ == matmul_spec(
            Grid { m: xm as nat, n: xn as nat, data: x@ },
            Grid { m: xn as nat, n: yn as nat, data: y@ },
        ).data,
{
    let ghost a = Grid { m: xm as nat, n: xn as nat, data: x@ };
    let ghost b = Grid { m: xn as nat, n: yn as nat, data: y@ };
    let mut out: Vec<T> = Vec::new();
    let mut i: u32 = 0;
    while i < xm
        invariant
            i <= xm,
            x@.len() == xm * xn,
            y@.len() == xn * yn,
            a == (Grid { m: xm as nat, n: xn as nat, data: x@ }),
            b == (Grid { m: xn as nat, n: yn as nat, data: y@ }),
            out@.len() == i * yn,
            forall|t: int|
                0 <= t < out@.len() ==> out@[t] == dot_spec(
                    a.row(t / (yn as int)),
                    b.col(t % (yn as int)),
                ),
        decreases xm - i,
    {
        let mut j: u32 = 0;
        while j < yn
            invariant
                j <= yn,
                i < xm,
                x@.len() == xm * xn,
                y@.len() == xn * yn,
                a == (Grid { m: xm as nat, n: xn as nat, data: x@ }),
                b == (Grid { m: xn as nat, n: yn as nat, data: y@ }),
                out@.len() == i * yn + j,
                forall|t: int|
                    0 <= t < out@.len() ==> out@[t] == dot_spec(
                        a.row(t / (yn as int)),
                        b.col(t % (yn as int)),
                    ),
            decreases yn - j,
        {
            let ghost prods = products(a.row(i as int), b.col(j as int));
            let mut acc = T::zero();
            let mut k: u32 = 0;
            while k < xn
                invariant
                    k <= xn,
                    i < xm,
                    j < yn,
                    x@.len() == xm * xn,
                    y@.len() == xn * yn,
                    a == (Grid { m: xm as nat, n: xn as nat, data: x@ }),
                    b == (Grid { m: xn as nat, n: yn as nat, data: y@ }),
                    prods == products(a.row(i as int), b.col(j as int)),
                    acc == sum_spec(prods.take(k as int)),
                decreases xn - k,
            {
                let p = cell_of(x, xm, xn, i, k).mul(cell_of(y, xn, yn, k, j));
                proof {
                    assert(prods.take(k + 1) =~= prods.take(k as int).push(p));
                    lemma_sum_push(prods.take(k as int), p);
                }
                acc = acc.add(p);
                k += 1;
            }
            proof {
                assert(prods.take(xn as int) =~= prods);
                lemma_flat_index(i as int, j as int, xm as int, yn as int);
            }
            out.push(acc);
            j += 1;
        }
        assert(i * yn + yn == (i + 1) * yn) by (nonlinear_arith);
        i += 1;
    }
    assert(out@ =~= matmul_spec(a, b).data);
    out
}

/// The Frobenius norm of the elements of `v`.
pub(crate) fn frobenius_norm_of<T: Real>(v: &Vec<T>) -> (r: T)
    ensures
        is_frobenius_norm(v@, r),
{
    let len = v.len();
    let ghost squares = products(v@, v@);
    let mut acc = T::zero();
    let mut k: usize = 0;
    while k < len
        invariant
            k <= len,
            len == v@.len(),
            squares == products(v@, v@),
            acc == sum_spec(squares.take(k as int)),
        decreases len - k,
    {
        let x = v[k];
        let q = x.mul(x);
        proof {
            assert(squares.take(k + 1) =~= squares.take(k as int).push(q));
            lemma_sum_push(squares.take(k as int), q);
        }
        acc = acc.add(q);
        k += 1;
    }
    assert(squares.take(len as int) =~= squares);
    acc.sqrt()
}

/// The power-sum norm of the elements of `v` for the exponent `p`.
pub(crate) fn lp_norm_of<T: Real>(v: &Vec<T>, p: i32) -> (r: T)
    ensures
        is_lp_norm(v@, p, r),
{
    let len = v.len();
    let ghost mut powers: Seq<T> = Seq::empty();
    let mut acc = T::zero();
    let mut k: usize = 0;
    while k < len
        invariant
            k <= len,
            len == v@.len(),
            are_powers(v@.take(k as int), p, powers),
            acc == sum_spec(powers),
        decreases len - k,
    {
        let q = v[k].powi(p);
        proof {
            lemma_sum_push(powers, q);
            powers = powers.push(q);
        }
        acc = acc.add(q);
        k += 1;
    }
    assert(v@.take(len as int) =~= v@);
    acc.root(p)
}

} // verus!
