//! Natural transformations, and conservation laws as naturality squares.
//!
//! A component η_M : F(M) → G(M) is a matrix; the matrices of user-given
//! components are floating point and stay with the caller, while their
//! shapes and labels, and how components compose, stand here. The conserved
//! quantities of Noether's theorem are built exactly, as linear maps or as
//! quadratic forms.
use vstd::prelude::*;
use crate::agent::join3;
use crate::exact::{
    IntMatrix, apply_entry, identity_entry, lemma_apply_single, lemma_sum_add, lemma_sum_ext, lemma_sum_single,
    quadratic_form,
};
use crate::symplectic::SymplecticManifold;

verus! {

/// A natural transformation component η_M: F(M) → G(M), whose matrix has
/// `target_dim` rows and `source_dim` columns.
pub struct NatTransformComponent {
    pub label: String,
    pub source_dim: usize,
    pub target_dim: usize,
}

impl NatTransformComponent {
    /// A component for a matrix of `nrows` rows and `ncols` columns.
    pub fn new(nrows: usize, ncols: usize, label: &str) -> (c: NatTransformComponent)
        ensures
            c.source_dim == ncols,
            c.target_dim == nrows,
            c.label@ == label@,
    {
        NatTransformComponent { source_dim: ncols, target_dim: nrows, label: String::from_str(label) }
    }
}

/// A natural transformation between two functors: a list of components.
pub struct NaturalTransformation {
    pub label: String,
    pub components: Vec<NatTransformComponent>,
}

impl NaturalTransformation {
    pub fn new(label: &str, components: Vec<NatTransformComponent>) -> (t: NaturalTransformation)
        ensures
            t.label@ == label@,
            t.components@ == components@,
    {
        NaturalTransformation { label: String::from_str(label), components }
    }

    /// Vertical composition (β ∘ α)_M = β_M ∘ α_M, where `self` is α and
    /// `other` is β; components are paired by position, as far as both
    /// lists go. The matrix of each result component is the product of the
    /// matrix of β_M and that of α_M.
    pub fn vertical_compose(&self, other: &NaturalTransformation) -> (t: NaturalTransformation)
        ensures
            t.label@ == other.label@ + "∘"@ + self.label@,
            t.components@.len() == if self.components@.len() <= other.components@.len() {
                self.components@.len()
            } else {
                other.components@.len()
            },
            forall|i: int|
                0 <= i < t.components@.len() ==> {
                    let a = self.components@[i];
                    let b = other.components@[i];
                    let c = #[trigger] t.components@[i];
                    &&& c.source_dim == a.source_dim
                    &&& c.target_dim == b.target_dim
                    &&& c.label@ == b.label@ + "∘"@ + a.label@
                },
    {
        let n = if self.components.len() <= other.components.len() {
            self.components.len()
        } else {
            other.components.len()
        };
        let mut comps: Vec<NatTransformComponent> = Vec::new();
        for i in 0..n
            invariant
                n <= self.components@.len(),
                n <= other.components@.len(),
                comps@.len() == i,
                forall|k: int|
                    0 <= k < i ==> {
                        let a = self.components@[k];
                        let b = other.components@[k];
                        let c = #[trigger] comps@[k];
                        &&& c.source_dim == a.source_dim
                        &&& c.target_dim == b.target_dim
                        &&& c.label@ == b.label@ + "∘"@ + a.label@
                    },
        {
            let a = &self.components[i];
            let b = &other.components[i];
            let label = join3(b.label.as_str(), "∘", a.label.as_str());
            comps.push(NatTransformComponent::new(b.target_dim, a.source_dim, label.as_str()));
        }
        let label = join3(other.label.as_str(), "∘", self.label.as_str());
        NaturalTransformation::new(label.as_str(), comps)
    }
}

/// A conserved quantity, given by a matrix Q on states: either the linear
/// map x ↦ Q x or, for a quantity quadratic in the state, the quadratic
/// form x ↦ xᵀ Q x.
pub struct ConservationLaw {
    pub name: String,
    /// The conserved quantity as a matrix on states.
    pub quantity_matrix: IntMatrix,
    /// Whether the quantity is the quadratic form of `quantity_matrix`
    /// rather than the linear map.
    pub quadratic: bool,
}

/// Entry `(i, j)` of the linear momentum map on a space of dimension `2n`:
/// it reads the `i`-th momentum coordinate.
pub open spec fn momentum_entry(n: int, i: int, j: int) -> int {
    if j == n + i {
        1
    } else {
        0
    }
}

/// Entry `(i, j)` of the matrix of angular momentum on a space of
/// dimension `dim = 2n` with coordinates (q₁, …, qₙ, p₁, …, pₙ): read as a
/// quadratic form it is L = q₁p₂ − q₂p₁, the angular momentum in the plane
/// of the first two degrees of freedom. With fewer than two degrees of
/// freedom there is no such plane and the matrix is zero.
pub open spec fn angular_momentum_entry(dim: int, i: int, j: int) -> int {
    if dim >= 4 && i == 0 && j == dim / 2 + 1 {
        1
    } else if dim >= 4 && i == 1 && j == dim / 2 {
        -1
    } else {
        0
    }
}

impl ConservationLaw {
    /// Energy, simplified to the 1 × 1 identity.
    pub fn energy(manifold: &SymplecticManifold) -> (law: ConservationLaw)
        ensures
            law.name@ == "energy"@,
            !law.quadratic,
            law.quantity_matrix.is(1, 1, |i: int, j: int| identity_entry(i, j)),
    {
        let m = IntMatrix::identity(1, 1);
        ConservationLaw { name: String::from_str("energy"), quantity_matrix: m, quadratic: false }
    }
}

/// Noether's theorem: every continuous symmetry gives a conservation law.
pub struct NoetherTheorem;

impl NoetherTheorem {
    /// Angular momentum from rotation symmetry: the quadratic form
    /// L = q₁p₂ − q₂p₁ (see `angular_momentum_entry`).
    pub fn angular_momentum(manifold: &SymplecticManifold) -> (law: ConservationLaw)
        ensures
            law.name@ == "angular_momentum"@,
            law.quadratic,
            law.quantity_matrix.is(
                manifold.dimension as nat,
                manifold.dimension as nat,
                |i: int, j: int| angular_momentum_entry(manifold.dimension as int, i, j),
            ),
    {
        let dim = manifold.dimension;
        let mut a = IntMatrix::zeros(dim, dim);
        if dim >= 4 {
            let n = dim / 2;
            a.assign(0, n + 1, 1);
            a.assign(1, n, -1);
        }
        ConservationLaw { name: String::from_str("angular_momentum"), quantity_matrix: a, quadratic: true }
    }

    /// Linear momentum from translational symmetry: the map that reads the
    /// momentum half of a state.
    pub fn linear_momentum(manifold: &SymplecticManifold) -> (law: ConservationLaw)
        ensures
            law.name@ == "linear_momentum"@,
            !law.quadratic,
            law.quantity_matrix.is(
                (manifold.dimension / 2) as nat,
                manifold.dimension as nat,
                |i: int, j: int| momentum_entry((manifold.dimension / 2) as int, i, j),
            ),
    {
        let dim = manifold.dimension;
        let n = dim / 2;
        let mut p = IntMatrix::zeros(n, dim);
        for i in 0..n
            invariant
                n == dim / 2,
                p.wf(),
                p.nrows_spec() == n,
                p.ncols_spec() == dim,
                forall|r: int, c: int|
                    0 <= r < n && 0 <= c < dim ==> #[trigger] p.at(r, c) == if r < i && c == n + r {
                        1int
                    } else {
                        0int
                    },
        {
            p.assign(i, n + i, 1);
        }
        ConservationLaw { name: String::from_str("linear_momentum"), quantity_matrix: p, quadratic: false }
    }

    /// The linear momentum map reads the momenta: component `i` of P x is
    /// `x[n + i]`.
    pub proof fn lemma_linear_momentum_reads_momenta(n: nat, x: spec_fn(int) -> int, i: int)
        requires
            0 <= i < n,
        ensures
            apply_entry(|r: int, c: int| momentum_entry(n as int, r, c), x, 2 * n, i) == x(n + i),
    {
        let a = |r: int, c: int| momentum_entry(n as int, r, c);
        assert forall|k: int| 0 <= k < 2 * n && k != n + i implies #[trigger] a(i, k) == 0 by {}
        lemma_apply_single(a, x, 2 * n, i, n + i);
    }

    /// Angular momentum read as a quadratic form is L = q₁p₂ − q₂p₁, where
    /// q_k is coordinate `k - 1` and p_k coordinate `n + k - 1` of a state
    /// on a space of dimension `2n` with at least two degrees of freedom.
    pub proof fn lemma_angular_momentum_value(dim: nat, x: spec_fn(int) -> int)
        requires
            dim >= 4,
        ensures
            quadratic_form(|i: int, j: int| angular_momentum_entry(dim as int, i, j), x, dim) == x(0) * x(
                (dim / 2 + 1) as int,
            ) - x(1) * x((dim / 2) as int),
    {
        let n = (dim / 2) as int;
        let a = |i: int, j: int| angular_momentum_entry(dim as int, i, j);
        assert forall|k: int| 0 <= k < dim && k != n + 1 implies #[trigger] a(0, k) == 0 by {}
        lemma_apply_single(a, x, dim, 0, n + 1);
        assert forall|k: int| 0 <= k < dim && k != n implies #[trigger] a(1, k) == 0 by {}
        lemma_apply_single(a, x, dim, 1, n);
        let f = |i: int| x(i) * apply_entry(a, x, dim, i);
        let g = |i: int|
            if i == 0 {
                x(0) * x(n + 1)
            } else {
                0
            };
        let h = |i: int|
            if i == 1 {
                -(x(1) * x(n))
            } else {
                0
            };
        let gh = |i: int| g(i) + h(i);
        assert forall|i: int| 0 <= i < dim implies #[trigger] f(i) == gh(i) by {
            if i >= 2 {
                assert forall|k: int| 0 <= k < dim && k != -1 implies #[trigger] a(i, k) == 0 by {}
                lemma_apply_single(a, x, dim, i, -1);
            } else if i == 1 {
                assert(x(1) * (-1 * x(n)) == -(x(1) * x(n))) by (nonlinear_arith);
            }
        }
        lemma_sum_ext(f, gh, dim);
        lemma_sum_add(g, h, dim);
        lemma_sum_single(g, dim, 0);
        lemma_sum_single(h, dim, 1);
    }
}

} // verus!
