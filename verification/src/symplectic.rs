//! Symplectic category: objects are symplectic manifolds (even-dimensional
//! vector spaces with a symplectic form ω), morphisms are symplectomorphisms
//! (matrices A with Aᵀ ω₂ A = ω₁).
//!
//! The canonical form is built here exactly; a form or a matrix given as
//! floating-point data is checked by the caller, which hands the outcome of
//! that check to the constructors below.
use vstd::prelude::*;
use crate::agent::join3;
use crate::exact::{
    IntMatrix, apply_entry, identity_entry, identity_spec, lemma_apply_single, lemma_identity_left,
    lemma_identity_right, lemma_sum_add, lemma_sum_ext, lemma_sum_single, lemma_sum_split, product_entry, sum,
};

verus! {

/// Entry `(i, j)` of the canonical symplectic form [[0, I_n], [-I_n, 0]].
pub open spec fn canonical_entry(n: int, i: int, j: int) -> int {
    if i < n && j == n + i {
        1
    } else if j < n && i == n + j {
        -1
    } else {
        0
    }
}

/// The canonical symplectic form on a space of dimension `2n`.
pub open spec fn canonical_form_spec(n: int) -> spec_fn(int, int) -> int {
    |i: int, j: int| canonical_entry(n, i, j)
}

/// The canonical form [[0, I_n], [-I_n, 0]] for `dimension = 2n`, with which
/// `SymplecticManifold::canonical` equips its manifold.
pub fn canonical_form(dimension: usize) -> (omega: IntMatrix)
    requires
        dimension % 2 == 0,
    ensures
        omega.is(dimension as nat, dimension as nat, canonical_form_spec((dimension / 2) as int)),
{
    let n = dimension / 2;
    let mut omega = IntMatrix::zeros(dimension, dimension);
    for i in 0..n
        invariant
            n == dimension / 2,
            omega.wf(),
            omega.nrows_spec() == dimension,
            omega.ncols_spec() == dimension,
            forall|r: int, c: int|
                0 <= r < dimension && 0 <= c < dimension ==> #[trigger] omega.at(r, c) == if r < i && c == n
                    + r {
                    1
                } else if c < i && r == n + c {
                    -1
                } else {
                    0
                },
    {
        omega.assign(i, n + i, 1);
        omega.assign(n + i, i, -1);
    }
    omega
}

/// The canonical form is antisymmetric: ωᵀ = -ω.
pub proof fn lemma_canonical_form_antisymmetric(n: nat, i: int, j: int)
    requires
        0 <= i < 2 * n,
        0 <= j < 2 * n,
    ensures
        canonical_entry(n as int, j, i) == -canonical_entry(n as int, i, j),
{
}

/// The canonical form squares to minus the identity: ω ω = -I.
pub proof fn lemma_canonical_form_squares_to_minus_identity(n: nat, i: int, j: int)
    requires
        0 <= i < 2 * n,
        0 <= j < 2 * n,
    ensures
        product_entry(canonical_form_spec(n as int), canonical_form_spec(n as int), 2 * n, i, j)
            == -identity_entry(i, j),
{
    let w = canonical_form_spec(n as int);
    let f = |k: int| w(i, k) * w(k, j);
    let c = if i < n {
        n + i
    } else {
        i - n
    };
    assert forall|k: int| 0 <= k < 2 * n && k != c implies #[trigger] f(k) == 0 by {
        assert(w(i, k) == 0);
    }
    lemma_sum_single(f, 2 * n, c);
}

/// The symplectic pairing ⟨u, v⟩_ω = uᵀ ω v on a space of dimension `dim`.
pub open spec fn pairing(omega: spec_fn(int, int) -> int, u: spec_fn(int) -> int, v: spec_fn(int) -> int, dim: nat) -> int {
    sum(|i: int| u(i) * apply_entry(omega, v, dim, i), dim)
}

/// The canonical form applied to `v`: (ω v)(i) is `v(n + i)` in the first
/// half and `-v(i - n)` in the second.
pub proof fn lemma_canonical_apply(n: nat, v: spec_fn(int) -> int, i: int)
    requires
        0 <= i < 2 * n,
    ensures
        apply_entry(canonical_form_spec(n as int), v, 2 * n, i) == if i < n {
            v(n + i)
        } else {
            -v(i - n)
        },
{
    let w = canonical_form_spec(n as int);
    let c = if i < n {
        n + i
    } else {
        i - n
    };
    assert forall|k: int| 0 <= k < 2 * n && k != c implies #[trigger] w(i, k) == 0 by {}
    lemma_apply_single(w, v, 2 * n, i, c);
}

/// The coordinate vector along axis `k`.
pub open spec fn unit_vector(k: int) -> spec_fn(int) -> int {
    |t: int| if t == k {
        1int
    } else {
        0int
    }
}

/// A position and its conjugate momentum pair to one: ⟨q_i, p_i⟩ = 1.
pub proof fn lemma_canonical_pairing_of_conjugates(n: nat, i: int)
    requires
        0 <= i < n,
    ensures
        pairing(canonical_form_spec(n as int), unit_vector(i), unit_vector(n + i), 2 * n) == 1,
{
    let w = canonical_form_spec(n as int);
    let u = unit_vector(i);
    let v = unit_vector(n + i);
    let f = |t: int| u(t) * apply_entry(w, v, 2 * n, t);
    assert forall|t: int| 0 <= t < 2 * n && t != i implies #[trigger] f(t) == 0 by {}
    lemma_sum_single(f, 2 * n, i);
    lemma_canonical_apply(n, v, i);
}

/// The canonical pairing is antisymmetric: ⟨u, v⟩ = -⟨v, u⟩.
pub proof fn lemma_canonical_pairing_antisymmetric(n: nat, u: spec_fn(int) -> int, v: spec_fn(int) -> int)
    ensures
        pairing(canonical_form_spec(n as int), u, v, 2 * n) == -pairing(canonical_form_spec(n as int), v, u, 2 * n),
{
    let w = canonical_form_spec(n as int);
    let f = |i: int| u(i) * apply_entry(w, v, 2 * n, i);
    let g = |i: int| v(i) * apply_entry(w, u, 2 * n, i);
    let h = |i: int| f(i) + g(i);
    lemma_sum_add(f, g, 2 * n);
    lemma_sum_split(h, n, n);
    let first = |k: int| h(k);
    let second = |k: int| h(n + k);
    let both = |k: int| first(k) + second(k);
    lemma_sum_add(first, second, n);
    assert forall|k: int| 0 <= k < n implies #[trigger] both(k) == 0 by {
        lemma_canonical_apply(n, v, k);
        lemma_canonical_apply(n, u, k);
        lemma_canonical_apply(n, v, n + k);
        lemma_canonical_apply(n, u, n + k);
        assert(u(k) * v(n + k) + v(k) * u(n + k) + (u(n + k) * -v(k) + v(n + k) * -u(k)) == 0) by (nonlinear_arith);
    }
    lemma_sum_ext(both, |k: int| 0int, n);
    lemma_sum_single(|k: int| 0int, n, -1);
    lemma_sum_ext(h, first, n);
}

/// The identity is a symplectomorphism of any form ω on a space of
/// dimension `n`: Iᵀ ω I = ω (the identity is its own transpose).
pub proof fn lemma_identity_preserves_form(omega: spec_fn(int, int) -> int, n: nat, i: int, j: int)
    requires
        0 <= i < n,
        0 <= j < n,
    ensures
        product_entry(identity_spec(), |r: int, c: int| product_entry(omega, identity_spec(), n, r, c), n, i, j)
            == omega(i, j),
{
    let omega_id = |r: int, c: int| product_entry(omega, identity_spec(), n, r, c);
    lemma_identity_left(omega_id, n, i, j);
    lemma_identity_right(omega, n, i, j);
}

/// A symplectic manifold: a space of even dimension with a symplectic form.
pub struct SymplecticManifold {
    /// Dimension of the underlying space (even).
    pub dimension: usize,
    /// Human-readable label.
    pub label: String,
}

impl SymplecticManifold {
    /// A manifold with the canonical symplectic form (see `canonical_form`).
    pub fn canonical(dimension: usize, label: &str) -> (m: SymplecticManifold)
        requires
            dimension % 2 == 0,
        ensures
            m.dimension == dimension,
            m.label@ == label@,
    {
        SymplecticManifold { dimension, label: String::from_str(label) }
    }

    /// A manifold with a given form of `nrows` rows and `ncols` columns;
    /// `antisymmetric` says whether ωᵀ = -ω holds of its entries.
    pub fn from_omega(nrows: usize, ncols: usize, antisymmetric: bool, label: &str) -> (r: Option<
        SymplecticManifold,
    >)
        ensures
            r is Some <==> (nrows == ncols && nrows % 2 == 0 && antisymmetric),
            r matches Some(m) ==> m.dimension == nrows && m.label@ == label@,
    {
        if nrows != ncols || nrows % 2 != 0 {
            return None;
        }
        if !antisymmetric {
            return None;
        }
        Some(SymplecticManifold { dimension: nrows, label: String::from_str(label) })
    }

    /// Whether a point (a vector of coordinates) lies in this manifold.
    pub fn contains_point<T>(&self, p: &[T]) -> (b: bool)
        ensures
            b == (p@.len() == self.dimension),
    {
        p.len() == self.dimension
    }

    /// Dimension of the configuration space (half the full dimension).
    pub fn config_dimension(&self) -> (d: usize)
        ensures
            d == self.dimension / 2,
    {
        self.dimension / 2
    }

    /// A copy of this manifold.
    pub fn copy(&self) -> (m: SymplecticManifold)
        ensures
            m.dimension == self.dimension,
            m.label@ == self.label@,
    {
        SymplecticManifold { dimension: self.dimension, label: self.label.clone() }
    }
}

/// A symplectomorphism φ: (M₁, ω₁) → (M₂, ω₂), represented by a matrix of
/// `matrix_rows` rows and `matrix_cols` columns.
pub struct Symplectomorphism {
    pub source_dim: usize,
    pub target_dim: usize,
    pub matrix_rows: usize,
    pub matrix_cols: usize,
    pub label: String,
}

/// The mathematical content of a symplectomorphism.
pub struct SymplectomorphismView {
    pub source_dim: nat,
    pub target_dim: nat,
    pub matrix_rows: nat,
    pub matrix_cols: nat,
    pub label: Seq<char>,
}

impl View for Symplectomorphism {
    type V = SymplectomorphismView;

    open spec fn view(&self) -> SymplectomorphismView {
        SymplectomorphismView {
            source_dim: self.source_dim as nat,
            target_dim: self.target_dim as nat,
            matrix_rows: self.matrix_rows as nat,
            matrix_cols: self.matrix_cols as nat,
            label: self.label@,
        }
    }
}

/// `g ∘ f` where it is defined (the source of `g` is the target of `f`).
pub open spec fn compose_symplectic_spec(g: SymplectomorphismView, f: SymplectomorphismView) -> Option<
    SymplectomorphismView,
> {
    if g.source_dim != f.target_dim {
        None
    } else {
        Some(
            SymplectomorphismView {
                source_dim: f.source_dim,
                target_dim: g.target_dim,
                matrix_rows: g.matrix_rows,
                matrix_cols: f.matrix_cols,
                label: g.label + "∘"@ + f.label,
            },
        )
    }
}

impl Symplectomorphism {
    /// A symplectomorphism from a matrix of `matrix_rows` rows and
    /// `matrix_cols` columns; `preserves_form` says whether Aᵀ ω_target A =
    /// ω_source holds of its entries.
    pub fn new(
        matrix_rows: usize,
        matrix_cols: usize,
        preserves_form: bool,
        source: &SymplecticManifold,
        target: &SymplecticManifold,
        label: &str,
    ) -> (r: Option<Symplectomorphism>)
        ensures
            r is Some <==> (matrix_rows == target.dimension && matrix_cols == source.dimension
                && preserves_form),
            r matches Some(s) ==> {
                &&& s.source_dim == source.dimension
                &&& s.target_dim == target.dimension
                &&& s.matrix_rows == matrix_rows
                &&& s.matrix_cols == matrix_cols
                &&& s.label@ == label@
            },
    {
        if matrix_rows != target.dimension || matrix_cols != source.dimension {
            return None;
        }
        if !preserves_form {
            return None;
        }
        Some(
            Symplectomorphism {
                source_dim: source.dimension,
                target_dim: target.dimension,
                matrix_rows,
                matrix_cols,
                label: String::from_str(label),
            },
        )
    }

    /// Create without verification of the form.
    pub fn new_unchecked(
        matrix_rows: usize,
        matrix_cols: usize,
        source_dim: usize,
        target_dim: usize,
        label: &str,
    ) -> (s: Symplectomorphism)
        ensures
            s.source_dim == source_dim,
            s.target_dim == target_dim,
            s.matrix_rows == matrix_rows,
            s.matrix_cols == matrix_cols,
            s.label@ == label@,
    {
        Symplectomorphism { source_dim, target_dim, matrix_rows, matrix_cols, label: String::from_str(label) }
    }

    /// Identity symplectomorphism on a manifold (its matrix is the identity).
    pub fn identity(manifold: &SymplecticManifold) -> (s: Symplectomorphism)
        ensures
            s.source_dim == manifold.dimension,
            s.target_dim == manifold.dimension,
            s.matrix_rows == manifold.dimension,
            s.matrix_cols == manifold.dimension,
            s.label@ == "id"@,
    {
        Symplectomorphism {
            source_dim: manifold.dimension,
            target_dim: manifold.dimension,
            matrix_rows: manifold.dimension,
            matrix_cols: manifold.dimension,
            label: String::from_str("id"),
        }
    }

    /// Compose two symplectomorphisms: (self ∘ other)(x) = self(other(x)).
    /// The matrix of the result is the product of the two matrices.
    pub fn compose(&self, other: &Symplectomorphism) -> (r: Option<Symplectomorphism>)
        ensures
            r matches Some(s) ==> compose_symplectic_spec(self@, other@) == Some(s@),
            r is None ==> compose_symplectic_spec(self@, other@) is None,
            r is Some <==> self.source_dim == other.target_dim,
            r matches Some(s) ==> s.source_dim == other.source_dim && s.target_dim == self.target_dim
                && s.matrix_rows == self.matrix_rows && s.matrix_cols == other.matrix_cols,
    {
        if self.source_dim != other.target_dim {
            return None;
        }
        Some(
            Symplectomorphism::new_unchecked(
                self.matrix_rows,
                other.matrix_cols,
                other.source_dim,
                self.target_dim,
                join3(self.label.as_str(), "∘", other.label.as_str()).as_str(),
            ),
        )
    }

    /// Composition runs from the source of the first map to the target of
    /// the second: g ∘ f is defined exactly when the source of g is the
    /// target of f, and then g ∘ f : source(f) → target(g), with the matrix
    /// shape of the product (rows of g, columns of f).
    pub proof fn lemma_compose_endpoints(g: SymplectomorphismView, f: SymplectomorphismView)
        ensures
            compose_symplectic_spec(g, f) is Some <==> g.source_dim == f.target_dim,
            compose_symplectic_spec(g, f) matches Some(c) ==> c.source_dim == f.source_dim && c.target_dim
                == g.target_dim && c.matrix_rows == g.matrix_rows && c.matrix_cols == f.matrix_cols,
    {
    }

    /// Composing with the inverse gives a map from the source back to
    /// itself: f⁻¹ ∘ f : source(f) → source(f).
    pub proof fn lemma_compose_inverse_endpoints(f: SymplectomorphismView)
        ensures
            ({
                let inv = SymplectomorphismView {
                    source_dim: f.target_dim,
                    target_dim: f.source_dim,
                    matrix_rows: f.matrix_cols,
                    matrix_cols: f.matrix_rows,
                    label: f.label + "⁻¹"@,
                };
                compose_symplectic_spec(inv, f) matches Some(c) && c.source_dim == f.source_dim
                    && c.target_dim == f.source_dim
            }),
    {
    }

    /// The inverse symplectomorphism, for a matrix that is invertible (the
    /// matrix of the result is the inverse matrix).
    pub fn inverse(&self) -> (s: Symplectomorphism)
        ensures
            s.source_dim == self.target_dim,
            s.target_dim == self.source_dim,
            s.matrix_rows == self.matrix_cols,
            s.matrix_cols == self.matrix_rows,
            s.label@ == self.label@ + "⁻¹"@,
    {
        let mut label = self.label.clone();
        label.append("⁻¹");
        Symplectomorphism::new_unchecked(
            self.matrix_cols,
            self.matrix_rows,
            self.target_dim,
            self.source_dim,
            label.as_str(),
        )
    }
}

} // verus!
