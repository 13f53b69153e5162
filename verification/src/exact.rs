//! Exact integer matrices.
//!
//! The structural maps that the library builds (the canonical symplectic
//! form, the swap braiding, cups and caps, and the maps of the conserved
//! quantities) have entries in {-1, 0, 1}. They are held exactly, in nalgebra
//! matrices of integers, and their algebraic laws are proved over the sums
//! that define matrix products.
use vstd::prelude::*;
use nalgebra::DMatrix;

verus! {

/// The sum `f(0) + f(1) + ... + f(n - 1)`.
pub open spec fn sum(f: spec_fn(int) -> int, n: nat) -> int
    decreases n,
{
    if n == 0 {
        0
    } else {
        sum(f, (n - 1) as nat) + f(n - 1)
    }
}

/// Entry `(i, j)` of the product of `a` (with `inner` columns) and `b`.
pub open spec fn product_entry(
    a: spec_fn(int, int) -> int,
    b: spec_fn(int, int) -> int,
    inner: nat,
    i: int,
    j: int,
) -> int {
    sum(|k: int| a(i, k) * b(k, j), inner)
}

/// Component `i` of the product of `a` (with `inner` columns) and the vector `v`.
pub open spec fn apply_entry(a: spec_fn(int, int) -> int, v: spec_fn(int) -> int, inner: nat, i: int) -> int {
    sum(|k: int| a(i, k) * v(k), inner)
}

/// The quadratic form xᵀ A x of the square matrix `a` of size `n`.
pub open spec fn quadratic_form(a: spec_fn(int, int) -> int, x: spec_fn(int) -> int, n: nat) -> int {
    sum(|i: int| x(i) * apply_entry(a, x, n, i), n)
}

/// Entry `(i, j)` of an identity matrix (or of a rectangular partial identity).
pub open spec fn identity_entry(i: int, j: int) -> int {
    if i == j {
        1
    } else {
        0
    }
}

/// The Kronecker product f ⊗ g, where g has `g_rows` rows and `g_cols` columns.
pub open spec fn kronecker(
    f: spec_fn(int, int) -> int,
    g: spec_fn(int, int) -> int,
    g_rows: int,
    g_cols: int,
) -> spec_fn(int, int) -> int {
    |i: int, j: int| f(i / g_rows, j / g_cols) * g(i % g_rows, j % g_cols)
}

/// A sum whose terms all vanish but the one at `c` equals that term.
pub proof fn lemma_sum_single(f: spec_fn(int) -> int, n: nat, c: int)
    requires
        forall|k: int| 0 <= k < n && k != c ==> #[trigger] f(k) == 0,
    ensures
        sum(f, n) == if 0 <= c < n {
            f(c)
        } else {
            0
        },
    decreases n,
{
    if n > 0 {
        lemma_sum_single(f, (n - 1) as nat, c);
    }
}

/// Sums of pointwise equal terms are equal.
pub proof fn lemma_sum_ext(f: spec_fn(int) -> int, g: spec_fn(int) -> int, n: nat)
    requires
        forall|k: int| 0 <= k < n ==> #[trigger] f(k) == g(k),
    ensures
        sum(f, n) == sum(g, n),
    decreases n,
{
    if n > 0 {
        lemma_sum_ext(f, g, (n - 1) as nat);
    }
}

/// A sum over `a + b` terms splits into the first `a` terms and the next `b`.
pub proof fn lemma_sum_split(f: spec_fn(int) -> int, a: nat, b: nat)
    ensures
        sum(f, a + b) == sum(f, a) + sum(|k: int| f(a + k), b),
    decreases b,
{
    if b > 0 {
        lemma_sum_split(f, a, (b - 1) as nat);
    }
}

/// A sum over `m` blocks of `d` terms is the sum of the block sums.
pub proof fn lemma_sum_blocks(g: spec_fn(int) -> int, m: nat, d: nat)
    ensures
        sum(g, m * d) == sum(|a: int| sum(|b: int| g(a * d + b), d), m),
    decreases m,
{
    if m > 0 {
        let m1 = (m - 1) as nat;
        lemma_sum_blocks(g, m1, d);
        assert(m * d == m1 * d + d) by (nonlinear_arith)
            requires
                m1 == m - 1,
        ;
        lemma_sum_split(g, m1 * d, d);
        let blocks = |a: int| sum(|b: int| g(a * d + b), d);
        assert(sum(blocks, m) == sum(blocks, m1) + blocks(m1 as int));
        let last = |k: int| g((m1 * d) as int + k);
        let last2 = |b: int| g((m1 as int) * d + b);
        assert forall|k: int| 0 <= k < d implies #[trigger] last(k) == last2(k) by {}
        lemma_sum_ext(last, last2, d);
    } else {
        assert(m * d == 0) by (nonlinear_arith)
            requires
                m == 0,
        ;
    }
}

/// Sums add termwise.
pub proof fn lemma_sum_add(f: spec_fn(int) -> int, g: spec_fn(int) -> int, n: nat)
    ensures
        sum(f, n) + sum(g, n) == sum(|k: int| f(k) + g(k), n),
    decreases n,
{
    if n > 0 {
        lemma_sum_add(f, g, (n - 1) as nat);
    }
}

/// A row of `a` with a single nonzero entry, at column `c`, picks out
/// component `c` of the vector it is applied to.
pub proof fn lemma_apply_single(a: spec_fn(int, int) -> int, v: spec_fn(int) -> int, inner: nat, i: int, c: int)
    requires
        forall|k: int| 0 <= k < inner && k != c ==> #[trigger] a(i, k) == 0,
    ensures
        apply_entry(a, v, inner, i) == if 0 <= c < inner {
            a(i, c) * v(c)
        } else {
            0
        },
{
    let f = |k: int| a(i, k) * v(k);
    assert forall|k: int| 0 <= k < inner && k != c implies #[trigger] f(k) == 0 by {
        assert(a(i, k) == 0);
    }
    lemma_sum_single(f, inner, c);
}

/// A row of `a` with a single nonzero entry, at column `c`, makes entry
/// `(i, j)` of a product the product of that entry and entry `(c, j)` of `b`.
pub proof fn lemma_product_single(
    a: spec_fn(int, int) -> int,
    b: spec_fn(int, int) -> int,
    inner: nat,
    i: int,
    j: int,
    c: int,
)
    requires
        forall|k: int| 0 <= k < inner && k != c ==> #[trigger] a(i, k) == 0,
    ensures
        product_entry(a, b, inner, i, j) == if 0 <= c < inner {
            a(i, c) * b(c, j)
        } else {
            0
        },
{
    let f = |k: int| a(i, k) * b(k, j);
    assert forall|k: int| 0 <= k < inner && k != c implies #[trigger] f(k) == 0 by {
        assert(a(i, k) == 0);
    }
    lemma_sum_single(f, inner, c);
}

/// The identity matrix as a function of its entries.
pub open spec fn identity_spec() -> spec_fn(int, int) -> int {
    |i: int, j: int| identity_entry(i, j)
}

/// The identity is neutral on the left: (I A)(i, j) = A(i, j).
pub proof fn lemma_identity_left(a: spec_fn(int, int) -> int, n: nat, i: int, j: int)
    requires
        0 <= i < n,
    ensures
        product_entry(identity_spec(), a, n, i, j) == a(i, j),
{
    let id = identity_spec();
    assert forall|k: int| 0 <= k < n && k != i implies #[trigger] id(i, k) == 0 by {}
    lemma_product_single(id, a, n, i, j, i);
}

/// The identity is neutral on the right: (A I)(i, j) = A(i, j).
pub proof fn lemma_identity_right(a: spec_fn(int, int) -> int, n: nat, i: int, j: int)
    requires
        0 <= j < n,
    ensures
        product_entry(a, identity_spec(), n, i, j) == a(i, j),
{
    let id = identity_spec();
    let f = |k: int| a(i, k) * id(k, j);
    assert forall|k: int| 0 <= k < n && k != j implies #[trigger] f(k) == 0 by {}
    lemma_sum_single(f, n, j);
}

/// A row of `a` that is the indicator of column `c` selects row `c` of `b`:
/// (A B)(i, j) = B(c, j).
pub proof fn lemma_product_selects(
    a: spec_fn(int, int) -> int,
    b: spec_fn(int, int) -> int,
    inner: nat,
    i: int,
    j: int,
    c: int,
)
    requires
        0 <= c < inner,
        forall|k: int| 0 <= k < inner ==> #[trigger] a(i, k) == if k == c {
            1int
        } else {
            0int
        },
    ensures
        product_entry(a, b, inner, i, j) == b(c, j),
{
    assert forall|k: int| 0 <= k < inner && k != c implies #[trigger] a(i, k) == 0 by {}
    lemma_product_single(a, b, inner, i, j, c);
}

/// A dense matrix of 64-bit integers: an nalgebra matrix, held privately.
#[verifier::external_body]
pub struct IntMatrix {
    m: DMatrix<i64>,
}

/// The entries of an integer matrix, row by row.
pub uninterp spec fn int_matrix_rows(m: IntMatrix) -> Seq<Seq<i64>>;

/// The number of columns of an integer matrix (also when it has no rows).
pub uninterp spec fn int_matrix_ncols(m: IntMatrix) -> nat;

impl IntMatrix {
    /// Number of rows.
    pub open spec fn nrows_spec(&self) -> nat {
        int_matrix_rows(*self).len()
    }

    /// Number of columns.
    pub open spec fn ncols_spec(&self) -> nat {
        int_matrix_ncols(*self)
    }

    /// Every row has `ncols_spec()` entries.
    pub open spec fn wf(&self) -> bool {
        forall|i: int| 0 <= i < self.nrows_spec() ==> #[trigger] int_matrix_rows(*self)[i].len() == self.ncols_spec()
    }

    /// Entry `(i, j)`.
    pub open spec fn at(&self, i: int, j: int) -> int {
        int_matrix_rows(*self)[i][j] as int
    }

    /// The matrix as a function of its entries.
    pub open spec fn entries(&self) -> spec_fn(int, int) -> int {
        |i: int, j: int| self.at(i, j)
    }

    /// The matrix has the given shape and its entries are those of `f`.
    pub open spec fn is(&self, nrows: nat, ncols: nat, f: spec_fn(int, int) -> int) -> bool {
        &&& self.wf()
        &&& self.nrows_spec() == nrows
        &&& self.ncols_spec() == ncols
        &&& forall|i: int, j: int| 0 <= i < nrows && 0 <= j < ncols ==> #[trigger] self.at(i, j) == f(i, j)
    }

    /// Every entry is -1, 0 or 1.
    pub open spec fn is_unit_bounded(&self) -> bool {
        forall|i: int, j: int|
            0 <= i < self.nrows_spec() && 0 <= j < self.ncols_spec() ==> -1 <= #[trigger] self.at(i, j) <= 1
    }

    /// `DMatrix::zeros`: the matrix of the given shape whose entries are all 0.
    #[verifier::external_body]
    pub(crate) fn zeros(nrows: usize, ncols: usize) -> (m: IntMatrix)
        ensures
            m.is(nrows as nat, ncols as nat, |i: int, j: int| 0),
    {
        IntMatrix { m: DMatrix::zeros(nrows, ncols) }
    }

    /// `DMatrix::identity`: ones on the leading diagonal, zeros elsewhere
    /// (for a rectangular shape, the largest square block is the identity).
    #[verifier::external_body]
    pub(crate) fn identity(nrows: usize, ncols: usize) -> (m: IntMatrix)
        ensures
            m.is(nrows as nat, ncols as nat, |i: int, j: int| identity_entry(i, j)),
    {
        IntMatrix { m: DMatrix::identity(nrows, ncols) }
    }

    /// `Matrix::nrows`: the number of rows.
    #[verifier::external_body]
    pub(crate) fn get_nrows(&self) -> (n: usize)
        ensures
            n == self.nrows_spec(),
    {
        self.m.nrows()
    }

    /// `Matrix::ncols`: the number of columns.
    #[verifier::external_body]
    pub(crate) fn get_ncols(&self) -> (n: usize)
        ensures
            n == self.ncols_spec(),
    {
        self.m.ncols()
    }

    /// Indexing `m[(i, j)]`, which panics outside the matrix: entry `(i, j)`.
    #[verifier::external_body]
    pub(crate) fn get(&self, i: usize, j: usize) -> (v: i64)
        requires
            self.wf(),
            i < self.nrows_spec(),
            j < self.ncols_spec(),
        ensures
            v == int_matrix_rows(*self)[i as int][j as int],
    {
        self.m[(i, j)]
    }

    /// Assignment `m[(i, j)] = v`, which panics outside the matrix: entry
    /// `(i, j)` becomes `v` and every other entry stays.
    #[verifier::external_body]
    pub(crate) fn set(&mut self, i: usize, j: usize, v: i64)
        requires
            old(self).wf(),
            i < old(self).nrows_spec(),
            j < old(self).ncols_spec(),
        ensures
            int_matrix_ncols(*final(self)) == int_matrix_ncols(*old(self)),
            int_matrix_rows(*final(self)) == int_matrix_rows(*old(self)).update(
                i as int,
                int_matrix_rows(*old(self))[i as int].update(j as int, v),
            ),
    {
        self.m[(i, j)] = v;
    }

    /// Sets entry `(i, j)` to `v`.
    pub(crate) fn assign(&mut self, i: usize, j: usize, v: i64)
        requires
            old(self).wf(),
            i < old(self).nrows_spec(),
            j < old(self).ncols_spec(),
        ensures
            final(self).wf(),
            final(self).nrows_spec() == old(self).nrows_spec(),
            final(self).ncols_spec() == old(self).ncols_spec(),
            forall|r: int, c: int|
                0 <= r < final(self).nrows_spec() && 0 <= c < final(self).ncols_spec() ==> #[trigger] final(self).at(r, c)
                    == if r == i && c == j {
                    v as int
                } else {
                    old(self).at(r, c)
                },
    {
        self.set(i, j, v);
        proof {
            let rows = int_matrix_rows(*self);
            let old_rows = int_matrix_rows(*old(self));
            assert forall|r: int| 0 <= r < self.nrows_spec() implies #[trigger] int_matrix_rows(*self)[r].len() == self.ncols_spec() by {
                if r != i {
                    assert(rows[r] == old_rows[r]);
                }
            }
        }
    }

    /// The product `&a * &b`, which panics unless the columns of `a` match
    /// the rows of `b`: entry `(i, j)` is the sum over `k` of `a(i, k) b(k, j)`.
    /// With entries in {-1, 0, 1} every partial sum is bounded by the inner
    /// dimension, so none overflows.
    #[verifier::external_body]
    pub(crate) fn mul(&self, other: &IntMatrix) -> (p: IntMatrix)
        requires
            self.wf(),
            other.wf(),
            self.ncols_spec() == other.nrows_spec(),
            self.ncols_spec() <= i64::MAX,
            self.is_unit_bounded(),
            other.is_unit_bounded(),
        ensures
            p.is(
                self.nrows_spec(),
                other.ncols_spec(),
                |i: int, j: int| product_entry(self.entries(), other.entries(), self.ncols_spec(), i, j),
            ),
    {
        IntMatrix { m: &self.m * &other.m }
    }

    /// The number of rows and the number of columns.
    pub fn shape(&self) -> (s: (usize, usize))
        ensures
            s.0 == self.nrows_spec(),
            s.1 == self.ncols_spec(),
    {
        (self.get_nrows(), self.get_ncols())
    }

    /// Entry `(i, j)`.
    pub fn entry(&self, i: usize, j: usize) -> (v: i64)
        requires
            self.wf(),
            i < self.nrows_spec(),
            j < self.ncols_spec(),
        ensures
            v == self.at(i as int, j as int),
    {
        self.get(i, j)
    }

    /// The entries, row by row.
    pub fn to_rows(&self) -> (rows: Vec<Vec<i64>>)
        requires
            self.wf(),
        ensures
            rows@.len() == self.nrows_spec(),
            forall|i: int| 0 <= i < self.nrows_spec() ==> #[trigger] rows@[i]@ == int_matrix_rows(*self)[i],
    {
        let (nrows, ncols) = self.shape();
        let mut rows: Vec<Vec<i64>> = Vec::new();
        for i in 0..nrows
            invariant
                self.wf(),
                nrows == self.nrows_spec(),
                ncols == self.ncols_spec(),
                rows@.len() == i,
                forall|r: int| 0 <= r < i ==> #[trigger] rows@[r]@ == int_matrix_rows(*self)[r],
        {
            let mut row: Vec<i64> = Vec::new();
            for j in 0..ncols
                invariant
                    self.wf(),
                    i < nrows,
                    nrows == self.nrows_spec(),
                    ncols == self.ncols_spec(),
                    row@ == int_matrix_rows(*self)[i as int].take(j as int),
            {
                row.push(self.get(i, j));
                assert(row@ =~= int_matrix_rows(*self)[i as int].take(j + 1));
            }
            assert(row@ =~= int_matrix_rows(*self)[i as int]);
            rows.push(row);
        }
        rows
    }
}

} // verus!
