//! Monoidal structure: the tensor product A ⊗ B is parallel composition of
//! agents, the trivial agent I is its unit, and the braiding
//! σ_{A,B}: A ⊗ B → B ⊗ A swaps the two blocks of a combined state.
//!
//! The swap braiding is built here exactly. States, entanglement matrices
//! and the matrices of tensored morphisms are floating point and stay with
//! the caller; their shapes and labels stand here.
use vstd::prelude::*;
use crate::agent::{Agent, AgentMorphism, AgentView, Capability, CapabilityView, capability_views, copy_capabilities, join3};
use crate::exact::{
    IntMatrix, apply_entry, identity_entry, lemma_apply_single, lemma_product_selects, lemma_product_single,
    product_entry,
};

verus! {

/// The tensor product of two agents.
pub struct MonoidalAgent {
    pub left: Agent,
    pub right: Agent,
    pub label: String,
}

impl MonoidalAgent {
    /// Tensor product of two agents (parallel composition); the combined
    /// state is the state of `a` followed by that of `b`, and the
    /// entanglement matrix is the identity.
    pub fn tensor(a: &Agent, b: &Agent) -> (m: MonoidalAgent)
        ensures
            m.left@ == a@,
            m.right@ == b@,
            m.label@ == a.label@ + "⊗"@ + b.label@,
    {
        MonoidalAgent { left: a.copy(), right: b.copy(), label: join3(a.label.as_str(), "⊗", b.label.as_str()) }
    }

    /// Tensor product with a given entanglement matrix.
    pub fn tensor_entangled(a: &Agent, b: &Agent) -> (m: MonoidalAgent)
        ensures
            m.left@ == a@,
            m.right@ == b@,
            m.label@ == a.label@ + "⊗"@ + b.label@ + "_ent"@,
    {
        let mut label = join3(a.label.as_str(), "⊗", b.label.as_str());
        label.append("_ent");
        MonoidalAgent { left: a.copy(), right: b.copy(), label }
    }

    /// Combined dimension.
    pub fn dimension(&self) -> (d: usize)
        requires
            self.left.state_dimension + self.right.state_dimension <= usize::MAX,
        ensures
            d == self.left.state_dimension + self.right.state_dimension,
    {
        self.left.state_dimension + self.right.state_dimension
    }

    /// Combined capabilities: those of the left agent, then those of the right.
    pub fn capabilities(&self) -> (caps: Vec<Capability>)
        ensures
            capability_views(caps@) == self.left@.capabilities + self.right@.capabilities,
    {
        let mut caps = copy_capabilities(&self.left.capabilities);
        let mut more = copy_capabilities(&self.right.capabilities);
        let ghost l = caps@;
        let ghost r = more@;
        caps.append(&mut more);
        proof {
            assert(caps@ == l + r);
            assert(capability_views(caps@) =~= capability_views(l) + capability_views(r));
        }
        caps
    }

    /// Associativity of the tensor on objects: (A ⊗ B) ⊗ C and A ⊗ (B ⊗ C)
    /// have the same dimension and the same capabilities in the same order.
    pub proof fn lemma_associator(a: AgentView, b: AgentView, c: AgentView)
        ensures
            (a.state_dimension + b.state_dimension) + c.state_dimension == a.state_dimension + (b.state_dimension
                + c.state_dimension),
            (a.capabilities + b.capabilities) + c.capabilities == a.capabilities + (b.capabilities
                + c.capabilities),
    {
        assert((a.capabilities + b.capabilities) + c.capabilities =~= a.capabilities + (b.capabilities
            + c.capabilities));
    }

    /// The trivial agent is a unit: A ⊗ I has the dimension and the
    /// capabilities of A, and so has I ⊗ A.
    pub proof fn lemma_unit(a: AgentView)
        ensures
            a.state_dimension + 0 == a.state_dimension,
            a.capabilities + Seq::<CapabilityView>::empty() == a.capabilities,
            Seq::<CapabilityView>::empty() + a.capabilities == a.capabilities,
    {
        assert(a.capabilities + Seq::<CapabilityView>::empty() =~= a.capabilities);
        assert(Seq::<CapabilityView>::empty() + a.capabilities =~= a.capabilities);
    }
}

/// The unit agent (trivial agent with an empty state space).
pub fn unit_agent() -> (a: Agent)
    ensures
        a.state_dimension == 0,
        a.capabilities@.len() == 0,
        a.label@ == "I"@,
{
    Agent::new(0, Vec::new(), "I")
}

/// The tensor product of two agent morphisms f ⊗ g: its matrix is block
/// diagonal, with the linear map of `f` in the top-left block and that of
/// `g` in the bottom-right block.
pub struct MonoidalMorphism {
    pub left: AgentMorphism,
    pub right: AgentMorphism,
    pub label: String,
}

impl MonoidalMorphism {
    pub fn tensor(f: &AgentMorphism, g: &AgentMorphism) -> (m: MonoidalMorphism)
        ensures
            m.left@ == f@,
            m.right@ == g@,
            m.label@ == f.label@ + "⊗"@ + g.label@,
    {
        MonoidalMorphism { left: f.copy(), right: g.copy(), label: join3(f.label.as_str(), "⊗", g.label.as_str()) }
    }
}

/// Entry `(i, j)` of the swap σ_{A,B} for blocks of dimensions `a` and `b`:
/// coordinate `j < a` of A goes to `b + j`, coordinate `a + k` of B goes to `k`.
pub open spec fn swap_entry(a: int, b: int, i: int, j: int) -> int {
    if j < a {
        if i == b + j {
            1
        } else {
            0
        }
    } else {
        if i == j - a {
            1
        } else {
            0
        }
    }
}

/// The swap σ_{A,B} as a function of its entries.
pub open spec fn swap_spec(a: int, b: int) -> spec_fn(int, int) -> int {
    |i: int, j: int| swap_entry(a, b, i, j)
}

/// The coordinate of A ⊗ B that σ_{A,B} moves to coordinate `i` of B ⊗ A.
pub open spec fn swap_source(a: int, b: int, i: int) -> int {
    if i < b {
        a + i
    } else {
        i - b
    }
}

/// The braiding σ_{A,B}: A ⊗ B → B ⊗ A.
pub struct Braiding {
    pub dim_a: usize,
    pub dim_b: usize,
    pub is_trivial: bool,
}

impl Braiding {
    /// The standard (trivial) swap braiding; its matrix is `swap_matrix`.
    pub fn swap(dim_a: usize, dim_b: usize) -> (s: Braiding)
        requires
            dim_a + dim_b <= usize::MAX,
        ensures
            s.dim_a == dim_a,
            s.dim_b == dim_b,
            s.is_trivial,
    {
        Braiding { dim_a, dim_b, is_trivial: true }
    }

    /// The matrix of the swap braiding: first block to second and vice versa.
    pub fn swap_matrix(dim_a: usize, dim_b: usize) -> (m: IntMatrix)
        requires
            dim_a + dim_b <= usize::MAX,
        ensures
            m.is((dim_a + dim_b) as nat, (dim_a + dim_b) as nat, swap_spec(dim_a as int, dim_b as int)),
    {
        let total = dim_a + dim_b;
        let mut matrix = IntMatrix::zeros(total, total);
        for i in 0..dim_a
            invariant
                total == dim_a + dim_b,
                matrix.wf(),
                matrix.nrows_spec() == total,
                matrix.ncols_spec() == total,
                forall|r: int, c: int|
                    0 <= r < total && 0 <= c < total ==> #[trigger] matrix.at(r, c) == if c < i && r == dim_b
                        + c {
                        1int
                    } else {
                        0int
                    },
        {
            matrix.assign(dim_b + i, i, 1);
        }
        for i in 0..dim_b
            invariant
                total == dim_a + dim_b,
                matrix.wf(),
                matrix.nrows_spec() == total,
                matrix.ncols_spec() == total,
                forall|r: int, c: int|
                    0 <= r < total && 0 <= c < total ==> #[trigger] matrix.at(r, c) == if c < dim_a && r == dim_b
                        + c {
                        1int
                    } else if dim_a <= c < dim_a + i && r == c - dim_a {
                        1int
                    } else {
                        0int
                    },
        {
            matrix.assign(i, dim_a + i, 1);
        }
        matrix
    }

    /// A braiding composed with an entanglement matrix E (its matrix is
    /// E times the swap matrix).
    pub fn entangled(dim_a: usize, dim_b: usize) -> (s: Braiding)
        requires
            dim_a + dim_b <= usize::MAX,
        ensures
            s.dim_a == dim_a,
            s.dim_b == dim_b,
            !s.is_trivial,
    {
        Braiding { dim_a, dim_b, is_trivial: false }
    }

    /// The inverse braiding, for an invertible matrix (the matrix of the
    /// result is the inverse matrix).
    pub fn inverse(&self) -> (s: Braiding)
        ensures
            s.dim_a == self.dim_b,
            s.dim_b == self.dim_a,
            s.is_trivial == self.is_trivial,
    {
        Braiding { dim_a: self.dim_b, dim_b: self.dim_a, is_trivial: self.is_trivial }
    }

    /// The swap moves the blocks of a state: component `i` of σ_{A,B} x is
    /// `x[a + i]` for `i < b` and `x[i - b]` for `b <= i < a + b`.
    pub proof fn lemma_swap_moves_blocks(a: nat, b: nat, x: spec_fn(int) -> int, i: int)
        requires
            0 <= i < a + b,
        ensures
            apply_entry(swap_spec(a as int, b as int), x, a + b, i) == x(swap_source(a as int, b as int, i)),
    {
        let s = swap_spec(a as int, b as int);
        let c = swap_source(a as int, b as int, i);
        assert forall|k: int| 0 <= k < a + b && k != c implies #[trigger] s(i, k) == 0 by {}
        lemma_apply_single(s, x, a + b, i, c);
    }

    /// The swap the other way undoes the swap: σ_{B,A} σ_{A,B} = I.
    pub proof fn lemma_swap_inverse(a: nat, b: nat, i: int, j: int)
        requires
            0 <= i < a + b,
            0 <= j < a + b,
        ensures
            product_entry(swap_spec(b as int, a as int), swap_spec(a as int, b as int), a + b, i, j)
                == identity_entry(i, j),
    {
        let s_ba = swap_spec(b as int, a as int);
        let s_ab = swap_spec(a as int, b as int);
        let c = swap_source(b as int, a as int, i);
        assert forall|k: int| 0 <= k < a + b && k != c implies #[trigger] s_ba(i, k) == 0 by {}
        lemma_product_single(s_ba, s_ab, a + b, i, j, c);
    }
}

/// σ ⊗ id on V ⊗ V ⊗ V for a space V of dimension `d`: the swap of the
/// first two blocks.
pub open spec fn swap_tensor_id(d: int) -> spec_fn(int, int) -> int {
    |i: int, j: int|
        if i < 2 * d && j < 2 * d {
            swap_entry(d, d, i, j)
        } else if i >= 2 * d && j >= 2 * d {
            identity_entry(i, j)
        } else {
            0
        }
}

/// id ⊗ σ on V ⊗ V ⊗ V for a space V of dimension `d`: the swap of the
/// last two blocks.
pub open spec fn id_tensor_swap(d: int) -> spec_fn(int, int) -> int {
    |i: int, j: int|
        if i < d && j < d {
            identity_entry(i, j)
        } else if i >= d && j >= d {
            swap_entry(d, d, i - d, j - d)
        } else {
            0
        }
}

/// The coordinate that row `i` of σ ⊗ id reads.
pub open spec fn first_swap_source(d: int, i: int) -> int {
    if i < d {
        i + d
    } else if i < 2 * d {
        i - d
    } else {
        i
    }
}

/// The coordinate that row `i` of id ⊗ σ reads.
pub open spec fn last_swap_source(d: int, i: int) -> int {
    if i < d {
        i
    } else if i < 2 * d {
        i + d
    } else {
        i - d
    }
}

proof fn lemma_swap_tensor_id_row(d: nat, i: int)
    requires
        0 <= i < 3 * d,
    ensures
        0 <= first_swap_source(d as int, i) < 3 * d,
        forall|k: int| 0 <= k < 3 * d ==> #[trigger] swap_tensor_id(d as int)(i, k) == if k == first_swap_source(d as int, i) {
            1int
        } else {
            0int
        },
{
}

proof fn lemma_id_tensor_swap_row(d: nat, i: int)
    requires
        0 <= i < 3 * d,
    ensures
        0 <= last_swap_source(d as int, i) < 3 * d,
        forall|k: int| 0 <= k < 3 * d ==> #[trigger] id_tensor_swap(d as int)(i, k) == if k == last_swap_source(d as int, i) {
            1int
        } else {
            0int
        },
{
}

/// The Yang–Baxter equation for the swap braiding on V ⊗ V ⊗ V:
/// (σ ⊗ id)(id ⊗ σ)(σ ⊗ id) = (id ⊗ σ)(σ ⊗ id)(id ⊗ σ).
pub proof fn lemma_yang_baxter(d: nat, i: int, j: int)
    requires
        0 <= i < 3 * d,
        0 <= j < 3 * d,
    ensures
        product_entry(
            swap_tensor_id(d as int),
            |r: int, c: int| product_entry(id_tensor_swap(d as int), swap_tensor_id(d as int), 3 * d, r, c),
            3 * d,
            i,
            j,
        ) == product_entry(
            id_tensor_swap(d as int),
            |r: int, c: int| product_entry(swap_tensor_id(d as int), id_tensor_swap(d as int), 3 * d, r, c),
            3 * d,
            i,
            j,
        ),
{
    let di = d as int;
    let n = 3 * d;
    let r1 = swap_tensor_id(di);
    let r2 = id_tensor_swap(di);
    let r2r1 = |r: int, c: int| product_entry(r2, r1, n, r, c);
    let r1r2 = |r: int, c: int| product_entry(r1, r2, n, r, c);
    // left side
    let a = first_swap_source(di, i);
    lemma_swap_tensor_id_row(d, i);
    lemma_product_selects(r1, r2r1, n, i, j, a);
    let b = last_swap_source(di, a);
    lemma_id_tensor_swap_row(d, a);
    lemma_product_selects(r2, r1, n, a, j, b);
    lemma_swap_tensor_id_row(d, b);
    // right side
    let a2 = last_swap_source(di, i);
    lemma_id_tensor_swap_row(d, i);
    lemma_product_selects(r2, r1r2, n, i, j, a2);
    let b2 = first_swap_source(di, a2);
    lemma_swap_tensor_id_row(d, a2);
    lemma_product_selects(r1, r2, n, a2, j, b2);
    lemma_id_tensor_swap_row(d, b2);
    assert(first_swap_source(di, b) == last_swap_source(di, b2));
}

/// Coherence of the tensor on objects: (A ⊗ B) ⊗ C and A ⊗ (B ⊗ C) have
/// the same dimension (always true where the dimensions fit a `usize`).
pub fn verify_associator(a: &Agent, b: &Agent, c: &Agent) -> (r: bool)
    requires
        a.state_dimension + b.state_dimension + c.state_dimension <= usize::MAX,
    ensures
        r,
{
    let ab = MonoidalAgent::tensor(a, b);
    let ab_agent = Agent::new(ab.dimension(), ab.capabilities(), "(A⊗B)");
    let abc_left = MonoidalAgent::tensor(&ab_agent, c);
    let bc = MonoidalAgent::tensor(b, c);
    let bc_agent = Agent::new(bc.dimension(), bc.capabilities(), "(B⊗C)");
    let abc_right = MonoidalAgent::tensor(a, &bc_agent);
    abc_left.dimension() == abc_right.dimension()
}

} // verus!
