//! The mathematical model of a matrix, and what the operations mean on it.

use vstd::prelude::*;
use crate::ml::scalar::Scalar;

verus! {

/// A matrix as a value: `m` rows, `n` columns, and the elements row by row.
pub struct Grid<T> {
    pub m: nat,
    pub n: nat,
    pub data: Seq<T>,
}

impl<T> Grid<T> {
    /// The buffer holds one element for each pair of a row and a column.
    pub open spec fn wf(self) -> bool {
        self.data.len() == self.m * self.n
    }

    /// The element in row `i` and column `j`.
    pub open spec fn at(self, i: int, j: int) -> T {
        self.data[i * self.n + j]
    }

    /// Row `i`, left to right.
    pub open spec fn row(self, i: int) -> Seq<T> {
        Seq::new(self.n, |j: int| self.at(i, j))
    }

    /// Column `j`, top to bottom.
    pub open spec fn col(self, j: int) -> Seq<T> {
        Seq::new(self.m, |i: int| self.at(i, j))
    }

    /// The elements whose row and column agree, from the top left.
    pub open spec fn diagonal(self) -> Seq<T> {
        Seq::new(
            if self.m <= self.n {
                self.m
            } else {
                self.n
            },
            |i: int| self.at(i, i),
        )
    }

    /// The `m` by `n` matrix whose element in row `i` and column `j` is `f(i, j)`.
    pub open spec fn from_fn(m: nat, n: nat, f: spec_fn(int, int) -> T) -> Grid<T> {
        Grid { m, n, data: Seq::new(m * n, |k: int| f(k / (n as int), k % (n as int))) }
    }
}

/// The position of row `i`, column `j` in a row-major buffer and back.
pub proof fn lemma_flat_index(i: int, j: int, m: int, n: int)
    requires
        0 <= i < m,
        0 <= j < n,
    ensures
        0 <= i * n + j < m * n,
        (i * n + j) / n == i,
        (i * n + j) % n == j,
{
    assert(i * n + n <= m * n) by (nonlinear_arith)
        requires
            i + 1 <= m,
            0 < n,
    ;
    assert(0 <= i * n) by (nonlinear_arith)
        requires
            0 <= i,
            0 < n,
    ;
    vstd::arithmetic::div_mod::lemma_fundamental_div_mod_converse(i * n + j, n, i, j);
}

/// Every position of a row-major buffer belongs to one row and one column.
pub proof fn lemma_flat_split(k: int, m: int, n: int)
    requires
        0 <= m,
        0 <= n,
        0 <= k < m * n,
    ensures
        0 < n,
        0 <= k / n < m,
        0 <= k % n < n,
        k == (k / n) * n + k % n,
{
    assert(n != 0) by (nonlinear_arith)
        requires
            0 <= k < m * n,
    ;
    vstd::arithmetic::div_mod::lemma_fundamental_div_mod(k, n);
    vstd::arithmetic::div_mod::lemma_mod_bound(k, n);
    let q = k / n;
    assert(q * n == n * q) by (nonlinear_arith);
    assert(0 <= q) by (nonlinear_arith)
        requires
            0 <= k,
            0 < n,
            k == n * q + k % n,
            k % n < n,
    ;
    assert(q < m) by (nonlinear_arith)
        requires
            k < m * n,
            0 < n,
            k == n * q + k % n,
            0 <= k % n,
    ;
}

/// What `from_fn` builds is well formed and holds `f(i, j)` in row `i`, column `j`.
pub proof fn lemma_from_fn<T>(m: nat, n: nat, f: spec_fn(int, int) -> T)
    ensures
        Grid::from_fn(m, n, f).wf(),
        Grid::from_fn(m, n, f).m == m,
        Grid::from_fn(m, n, f).n == n,
        forall|i: int, j: int|
            0 <= i < m && 0 <= j < n ==> #[trigger] Grid::from_fn(m, n, f).at(i, j) == f(i, j),
{
    let g = Grid::from_fn(m, n, f);
    assert forall|i: int, j: int| 0 <= i < m && 0 <= j < n implies #[trigger] g.at(i, j) == f(
        i,
        j,
    ) by {
        lemma_flat_index(i, j, m as int, n as int);
    }
}

/// Two well-formed matrices of one shape that agree in every row and column are equal.
pub proof fn lemma_grid_ext<T>(a: Grid<T>, b: Grid<T>)
    requires
        a.wf(),
        b.wf(),
        a.m == b.m,
        a.n == b.n,
        forall|i: int, j: int| 0 <= i < a.m && 0 <= j < a.n ==> a.at(i, j) == b.at(i, j),
    ensures
        a == b,
{
    assert forall|k: int| 0 <= k < a.data.len() implies a.data[k] == b.data[k] by {
        lemma_flat_split(k, a.m as int, a.n as int);
        let i = k / (a.n as int);
        let j = k % (a.n as int);
        assert(a.at(i, j) == b.at(i, j));
    }
    assert(a.data =~= b.data);
}

/// The sum of a sequence, taken from the left and starting at zero.
pub open spec fn sum_spec<T: Scalar>(s: Seq<T>) -> T
    decreases s.len(),
{
    if s.len() == 0 {
        T::zero_spec()
    } else {
        sum_spec(s.drop_last()).add_spec(s.last())
    }
}

/// The products of the elements of `a` and `b` that stand at the same position.
pub open spec fn products<T: Scalar>(a: Seq<T>, b: Seq<T>) -> Seq<T> {
    Seq::new(a.len(), |k: int| a[k].mul_spec(b[k]))
}

/// The dot product: the sum, from the left, of the products position by position.
pub open spec fn dot_spec<T: Scalar>(a: Seq<T>, b: Seq<T>) -> T {
    sum_spec(products(a, b))
}

/// The element-by-element sum of two matrices of one shape.
pub open spec fn add_spec<T: Scalar>(a: Grid<T>, b: Grid<T>) -> Grid<T> {
    Grid { m: a.m, n: a.n, data: Seq::new(a.data.len(), |k: int| a.data[k].add_spec(b.data[k])) }
}

/// The element-by-element difference of two matrices of one shape.
pub open spec fn sub_spec<T: Scalar>(a: Grid<T>, b: Grid<T>) -> Grid<T> {
    Grid { m: a.m, n: a.n, data: Seq::new(a.data.len(), |k: int| a.data[k].sub_spec(b.data[k])) }
}

/// Every element multiplied, on its right, by `k`.
pub open spec fn scale_spec<T: Scalar>(a: Grid<T>, k: T) -> Grid<T> {
    Grid { m: a.m, n: a.n, data: Seq::new(a.data.len(), |i: int| a.data[i].mul_spec(k)) }
}

/// Rows and columns exchanged.
pub open spec fn transpose_spec<T>(a: Grid<T>) -> Grid<T> {
    Grid::from_fn(a.n, a.m, |i: int, j: int| a.at(j, i))
}

/// The matrix product: row `i` of `a` dotted with column `j` of `b`.
pub open spec fn matmul_spec<T: Scalar>(a: Grid<T>, b: Grid<T>) -> Grid<T> {
    Grid::from_fn(a.m, b.n, |i: int, j: int| dot_spec(a.row(i), b.col(j)))
}

/// The sum of the diagonal, from the top left.
pub open spec fn trace_spec<T: Scalar>(a: Grid<T>) -> T {
    sum_spec(a.diagonal())
}

/// The column of `n` ones: where the power iteration starts.
pub open spec fn ones_column<T: Scalar>(n: nat) -> Grid<T> {
    Grid { m: n, n: 1, data: Seq::new(n, |k: int| T::one_spec()) }
}

/// The Rayleigh quotient of `a` at the column `x`: the one element of the
/// product of the transpose of `x`, then `a`, then `x`, taken in that order.
pub open spec fn rayleigh_spec<T: Scalar>(a: Grid<T>, x: Grid<T>) -> T {
    matmul_spec(matmul_spec(transpose_spec(x), a), x).data[0]
}

/// `a` without the direction of `v`: `a` minus the outer product of `v` with
/// itself scaled by `lambda`.
pub open spec fn deflate_spec<T: Scalar>(a: Grid<T>, lambda: T, v: Grid<T>) -> Grid<T> {
    sub_spec(a, scale_spec(matmul_spec(v, transpose_spec(v)), lambda))
}

/// Extending a sequence by one element extends its sum by one addition.
pub proof fn lemma_sum_push<T: Scalar>(s: Seq<T>, x: T)
    ensures
        sum_spec(s.push(x)) == sum_spec(s).add_spec(x),
{
    assert(s.push(x).drop_last() =~= s);
}

} // verus!
