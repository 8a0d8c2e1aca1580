//! Laws that relate the operations on matrices to one another.

use vstd::prelude::*;
use crate::ml::grid::{
    dot_spec, lemma_from_fn, lemma_grid_ext, matmul_spec, products, sum_spec, transpose_spec, Grid,
};
use crate::ml::scalar::{lemma_i64_is_regular, Scalar};

verus! {

/// Transposing twice gives the matrix back, element for element.
pub proof fn lemma_transpose_involution<T>(a: Grid<T>)
    requires
        a.wf(),
    ensures
        transpose_spec(transpose_spec(a)) == a,
{
    let t = transpose_spec(a);
    lemma_from_fn(a.n, a.m, |i: int, j: int| a.at(j, i));
    lemma_from_fn(t.n, t.m, |i: int, j: int| t.at(j, i));
    let tt = transpose_spec(t);
    assert forall|i: int, j: int| 0 <= i < a.m && 0 <= j < a.n implies tt.at(i, j) == a.at(
        i,
        j,
    ) by {
        assert(tt.at(i, j) == t.at(j, i));
        assert(t.at(j, i) == a.at(i, j));
    }
    lemma_grid_ext(tt, a);
}

/// The transpose is well formed, has the dimensions exchanged, and holds in
/// row `j`, column `i` what the matrix holds in row `i`, column `j`.
pub proof fn lemma_transpose_at<T>(a: Grid<T>)
    ensures
        transpose_spec(a).wf(),
        transpose_spec(a).m == a.n,
        transpose_spec(a).n == a.m,
        forall|i: int, j: int|
            0 <= i < a.m && 0 <= j < a.n ==> #[trigger] transpose_spec(a).at(j, i) == a.at(i, j),
{
    lemma_from_fn(a.n, a.m, |i: int, j: int| a.at(j, i));
}

/// The product is well formed, has the rows of the left factor and the
/// columns of the right, and holds in row `i`, column `j` the dot product of
/// row `i` of the left factor and column `j` of the right.
pub proof fn lemma_matmul_at<T: Scalar>(a: Grid<T>, b: Grid<T>)
    ensures
        matmul_spec(a, b).wf(),
        matmul_spec(a, b).m == a.m,
        matmul_spec(a, b).n == b.n,
        forall|i: int, j: int|
            0 <= i < a.m && 0 <= j < b.n ==> #[trigger] matmul_spec(a, b).at(i, j) == dot_spec(
                a.row(i),
                b.col(j),
            ),
{
    lemma_from_fn(a.m, b.n, |i: int, j: int| dot_spec(a.row(i), b.col(j)));
}

/// `id` is the identity matrix of `n` rows and columns: one where row and
/// column agree, zero elsewhere.
pub open spec fn is_identity<T: Scalar>(id: Grid<T>, n: nat) -> bool {
    &&& id.wf()
    &&& id.m == n
    &&& id.n == n
    &&& forall|i: int, j: int|
        0 <= i < n && 0 <= j < n ==> #[trigger] id.at(i, j) == (if i == j {
            T::one_spec()
        } else {
            T::zero_spec()
        })
}

/// Adding the product of `y` and zero to `x` leaves `x`.
pub open spec fn absorbs<T: Scalar>(x: T, y: T) -> bool {
    x.add_spec(y.mul_spec(T::zero_spec())) == x
}

/// Adding the product of `x` and one to zero gives `x`.
pub open spec fn kept_by_one<T: Scalar>(x: T) -> bool {
    T::zero_spec().add_spec(x.mul_spec(T::one_spec())) == x
}

/// The arithmetic of the elements of `a` lets zero and one act on them as
/// they act in a ring, as far as a product with an identity matrix uses it.
/// For an element and any other of its row: one keeps the element; the
/// product of the other and zero leaves zero as it is where the other stands
/// before the element, and leaves the element as it is where the other stands
/// behind it.
pub open spec fn identity_acts_on<T: Scalar>(a: Grid<T>) -> bool {
    forall|i: int, j: int, k: int|
        0 <= i < a.m && 0 <= j < a.n && 0 <= k < a.n ==> {
            &&& kept_by_one(#[trigger] a.at(i, j))
            &&& (k < j ==> absorbs(T::zero_spec(), #[trigger] a.at(i, k)))
            &&& (j < k ==> absorbs(a.at(i, j), a.at(i, k)))
        }
}

/// The dot product of a row with a column of an identity matrix picks the
/// element of the row at the column's place.
proof fn lemma_dot_unit<T: Scalar>(r: Seq<T>, e: Seq<T>, j: int, len: int)
    requires
        0 <= j < r.len(),
        r.len() == e.len(),
        0 <= len <= r.len(),
        forall|k: int|
            0 <= k < e.len() ==> e[k] == (if k == j {
                T::one_spec()
            } else {
                T::zero_spec()
            }),
        kept_by_one(r[j]),
        forall|k: int| 0 <= k < j ==> absorbs(T::zero_spec(), #[trigger] r[k]),
        forall|k: int| j < k < r.len() ==> absorbs(r[j], #[trigger] r[k]),
    ensures
        sum_spec(products(r, e).take(len)) == (if len <= j {
            T::zero_spec()
        } else {
            r[j]
        }),
    decreases len,
{
    let p = products(r, e);
    if len > 0 {
        lemma_dot_unit(r, e, j, len - 1);
        assert(p.take(len).drop_last() =~= p.take(len - 1));
        assert(p.take(len).last() == r[len - 1].mul_spec(e[len - 1]));
        if len - 1 < j {
            assert(absorbs(T::zero_spec(), r[len - 1]));
        } else if len - 1 > j {
            assert(absorbs(r[j], r[len - 1]));
        }
    }
}

/// Multiplying a matrix on its right by the identity matrix of its number of
/// columns gives the matrix back, where the arithmetic of its elements lets
/// zero and one act as they do in a ring.
pub proof fn lemma_matmul_identity<T: Scalar>(a: Grid<T>, id: Grid<T>)
    requires
        a.wf(),
        is_identity(id, a.n),
        identity_acts_on(a),
    ensures
        matmul_spec(a, id) == a,
{
    let z = matmul_spec(a, id);
    lemma_matmul_at(a, id);
    assert forall|i: int, j: int| 0 <= i < a.m && 0 <= j < a.n implies z.at(i, j) == a.at(
        i,
        j,
    ) by {
        let r = a.row(i);
        let e = id.col(j);
        assert forall|k: int| 0 <= k < e.len() implies e[k] == (if k == j {
            T::one_spec()
        } else {
            T::zero_spec()
        }) by {
            assert(e[k] == id.at(k, j));
        }
        assert(r[j] == a.at(i, j));
        assert forall|k: int| 0 <= k < j implies absorbs(T::zero_spec(), #[trigger] r[k]) by {
            assert(r[k] == a.at(i, k));
        }
        assert forall|k: int| j < k < r.len() implies absorbs(r[j], #[trigger] r[k]) by {
            assert(r[k] == a.at(i, k));
        }
        lemma_dot_unit(r, e, j, r.len() as int);
        assert(products(r, e).take(r.len() as int) =~= products(r, e));
    }
    lemma_grid_ext(z, a);
}

/// Over the 64-bit integers the identity matrix is neutral on the right for
/// every matrix.
pub proof fn lemma_matmul_identity_i64(a: Grid<i64>, id: Grid<i64>)
    requires
        a.wf(),
        is_identity(id, a.n),
    ensures
        matmul_spec(a, id) == a,
{
    assert forall|i: int, j: int, k: int| 0 <= i < a.m && 0 <= j < a.n && 0 <= k < a.n implies {
        &&& kept_by_one(#[trigger] a.at(i, j))
        &&& (k < j ==> absorbs(0i64, #[trigger] a.at(i, k)))
        &&& (j < k ==> absorbs(a.at(i, j), a.at(i, k)))
    } by {
        lemma_i64_is_regular(a.at(i, j));
        lemma_i64_is_regular(a.at(i, k));
    }
    lemma_matmul_identity(a, id);
}

} // verus!
