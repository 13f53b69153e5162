//! The Hamiltonian functor F: Sympl → Agent.
//!
//! - F(M, ω) is the agent whose state space is M and whose capabilities are
//!   observing position, observing momentum and following a Hamiltonian flow.
//! - F(φ: M → N) is the agent morphism that maps states by the matrix of φ,
//!   with no offset, and carries every capability to the one of the same
//!   index.
use vstd::prelude::*;
use crate::agent::{
    Agent, AgentMorphism, AgentMorphismView, AgentView, Capability, CapabilityView, capability_views,
    compose_capability_maps, compose_spec, identity_capability_map, join3, preserves_spec,
};
use crate::symplectic::{
    SymplecticManifold, Symplectomorphism, SymplectomorphismView, compose_symplectic_spec,
};

verus! {

/// The Hamiltonian functor from Sympl to Agent.
pub struct HamiltonianFunctor;

/// The agent F(M) for a manifold of dimension `dimension` labelled `label`.
pub open spec fn map_object_spec(dimension: nat, label: Seq<char>) -> AgentView {
    AgentView {
        state_dimension: dimension,
        capabilities: seq![
            CapabilityView { name: "observe_position"@, arity: 0, codimension: dimension / 2 },
            CapabilityView { name: "observe_momentum"@, arity: 0, codimension: dimension / 2 },
            CapabilityView { name: "hamiltonian_flow"@, arity: dimension, codimension: dimension },
        ],
        label: "H("@ + label + ")"@,
    }
}

/// The capability map of F(φ) between agents with `source_count` and
/// `target_count` capabilities: index `i` goes to `i` where the target has it.
pub open spec fn functor_capability_map(source_count: nat, target_count: nat) -> Seq<Option<usize>> {
    Seq::new(source_count, |i: int| if i < target_count { Some(i as usize) } else { None })
}

/// F(φ) between the agents `source` and `target`, where it is defined.
pub open spec fn map_morphism_spec(sym: SymplectomorphismView, source: AgentView, target: AgentView) -> Option<
    AgentMorphismView,
> {
    if sym.matrix_rows == target.state_dimension && sym.matrix_cols == source.state_dimension
        && sym.target_dim == target.state_dimension {
        Some(
            AgentMorphismView {
                source_dim: source.state_dimension,
                target_dim: target.state_dimension,
                capability_map: functor_capability_map(source.capabilities.len(), target.capabilities.len()),
                label: "F("@ + sym.label + ")"@,
            },
        )
    } else {
        None
    }
}

/// The identity symplectomorphism on a manifold of dimension `dimension`.
pub open spec fn identity_symplectic_spec(dimension: nat) -> SymplectomorphismView {
    SymplectomorphismView {
        source_dim: dimension,
        target_dim: dimension,
        matrix_rows: dimension,
        matrix_cols: dimension,
        label: "id"@,
    }
}

/// The matrix of a symplectomorphism has the shape its dimensions call for
/// (true of those made by `new`, `identity` and their compositions).
pub open spec fn well_shaped(s: SymplectomorphismView) -> bool {
    s.matrix_rows == s.target_dim && s.matrix_cols == s.source_dim
}

impl HamiltonianFunctor {
    /// Map a symplectic manifold to an agent.
    pub fn map_object(manifold: &SymplecticManifold) -> (a: Agent)
        ensures
            a@ == map_object_spec(manifold.dimension as nat, manifold.label@),
            a.state_dimension == manifold.dimension,
            a.capabilities@.len() == 3,
            a.capabilities@[0].name@ == "observe_position"@,
            a.capabilities@[0].arity == 0,
            a.capabilities@[0].codimension == manifold.dimension / 2,
            a.capabilities@[1].name@ == "observe_momentum"@,
            a.capabilities@[1].arity == 0,
            a.capabilities@[1].codimension == manifold.dimension / 2,
            a.capabilities@[2].name@ == "hamiltonian_flow"@,
            a.capabilities@[2].arity == manifold.dimension,
            a.capabilities@[2].codimension == manifold.dimension,
    {
        let half = manifold.config_dimension();
        let mut caps: Vec<Capability> = Vec::new();
        caps.push(Capability::new("observe_position", 0, half));
        caps.push(Capability::new("observe_momentum", 0, half));
        caps.push(Capability::new("hamiltonian_flow", manifold.dimension, manifold.dimension));
        let label = join3("H(", manifold.label.as_str(), ")");
        let a = Agent::new(manifold.dimension, caps, label.as_str());
        proof {
            assert(capability_views(a.capabilities@) =~= map_object_spec(
                manifold.dimension as nat,
                manifold.label@,
            ).capabilities);
        }
        a
    }

    /// Map a symplectomorphism to an agent morphism between the given agents.
    pub fn map_morphism(symsym: &Symplectomorphism, source_agent: &Agent, target_agent: &Agent) -> (r: Option<
        AgentMorphism,
    >)
        ensures
            r matches Some(m) ==> map_morphism_spec(symsym@, source_agent@, target_agent@) == Some(m@),
            r is None ==> map_morphism_spec(symsym@, source_agent@, target_agent@) is None,
            r matches Some(m) ==> {
                &&& m.capability_map@.len() == source_agent.capabilities@.len()
                &&& forall|i: int|
                    0 <= i < m.capability_map@.len() ==> (#[trigger] m.capability_map@[i] matches Some(j) ==> j
                        < target_agent.capabilities@.len() && j == i)
                &&& forall|i: int|
                    0 <= i < m.capability_map@.len() ==> (#[trigger] m.capability_map@[i] is Some <==> i
                        < target_agent.capabilities@.len())
            },
    {
        let ns = source_agent.capabilities.len();
        let nt = target_agent.capabilities.len();
        let mut cap_map: Vec<Option<usize>> = Vec::new();
        for i in 0..ns
            invariant
                ns == source_agent.capabilities@.len(),
                nt == target_agent.capabilities@.len(),
                cap_map@ == functor_capability_map(i as nat, nt as nat),
        {
            if i < nt {
                cap_map.push(Some(i));
            } else {
                cap_map.push(None);
            }
            assert(cap_map@ =~= functor_capability_map((i + 1) as nat, nt as nat));
        }
        let label = join3("F(", symsym.label.as_str(), ")");
        AgentMorphism::new(
            symsym.matrix_rows,
            symsym.matrix_cols,
            symsym.target_dim,
            source_agent,
            target_agent,
            cap_map,
            label.as_str(),
        )
    }

    /// F(M) observes position and momentum, each with codimension the
    /// configuration dimension dim(M) / 2, and follows the Hamiltonian flow
    /// with arity and codimension dim(M); on an even-dimensional manifold the
    /// two observations together have the codimension of the whole state.
    pub proof fn lemma_object_capabilities(dimension: nat, label: Seq<char>)
        ensures
            ({
                let a = map_object_spec(dimension, label);
                &&& a.state_dimension == dimension
                &&& a.capabilities.len() == 3
                &&& a.capabilities[0].name == "observe_position"@
                &&& a.capabilities[1].name == "observe_momentum"@
                &&& a.capabilities[2].name == "hamiltonian_flow"@
                &&& a.capabilities[0].arity == 0 && a.capabilities[1].arity == 0
                &&& 2 * a.capabilities[0].codimension <= dimension < 2 * a.capabilities[0].codimension + 2
                &&& a.capabilities[1].codimension == a.capabilities[0].codimension
                &&& dimension % 2 == 0 ==> a.capabilities[0].codimension + a.capabilities[1].codimension
                    == a.state_dimension
                &&& a.capabilities[2].arity == dimension && a.capabilities[2].codimension == dimension
            }),
    {
    }

    /// F(φ) sends each capability of its source to the capability of the
    /// same index in its target where the target has one, and nowhere
    /// otherwise; so it never points past the target's capabilities.
    pub proof fn lemma_morphism_capabilities_in_range(
        sym: SymplectomorphismView,
        source: AgentView,
        target: AgentView,
    )
        requires
            source.capabilities.len() <= usize::MAX,
        ensures
            map_morphism_spec(sym, source, target) matches Some(m) ==> {
                &&& m.capability_map.len() == source.capabilities.len()
                &&& forall|i: int|
                    0 <= i < m.capability_map.len() ==> (#[trigger] m.capability_map[i] matches Some(j) ==> j
                        < target.capabilities.len() && j == i)
                &&& forall|i: int|
                    0 <= i < m.capability_map.len() ==> (#[trigger] m.capability_map[i] is Some <==> i
                        < target.capabilities.len())
            },
    {
    }

    /// Where the target's capabilities have the arities of the source's,
    /// position by position as far as both go, F(φ) preserves capabilities.
    pub proof fn lemma_morphism_preserves(sym: SymplectomorphismView, source: AgentView, target: AgentView)
        requires
            source.capabilities.len() <= usize::MAX,
            forall|i: int|
                0 <= i < source.capabilities.len() && i < target.capabilities.len() ==> #[trigger] source.capabilities[i].arity
                    == target.capabilities[i].arity,
        ensures
            map_morphism_spec(sym, source, target) matches Some(m) ==> preserves_spec(
                m.capability_map,
                source.capabilities,
                target.capabilities,
            ),
    {
    }

    /// Functoriality on identities: F(id_M) is defined and has the
    /// dimensions and capability map of id_{F(M)}.
    pub proof fn lemma_preserves_identity(dimension: nat, label: Seq<char>)
        ensures
            ({
                let a = map_object_spec(dimension, label);
                map_morphism_spec(identity_symplectic_spec(dimension), a, a) matches Some(m) && m.source_dim
                    == dimension && m.target_dim == dimension && m.capability_map == identity_capability_map(
                    a.capabilities.len(),
                )
            }),
    {
        let a = map_object_spec(dimension, label);
        assert(functor_capability_map(3, 3) =~= identity_capability_map(3));
    }

    /// Functoriality on composites: for f: M → N and g: N → P, F(g ∘ f) and
    /// F(g) ∘ F(f) are both defined and have the same dimensions and
    /// capability map.
    pub proof fn lemma_preserves_composition(
        f: SymplectomorphismView,
        g: SymplectomorphismView,
        m: (nat, Seq<char>),
        n: (nat, Seq<char>),
        p: (nat, Seq<char>),
    )
        requires
            well_shaped(f),
            well_shaped(g),
            f.source_dim == m.0,
            f.target_dim == n.0,
            g.source_dim == n.0,
            g.target_dim == p.0,
        ensures
            ({
                let am = map_object_spec(m.0, m.1);
                let an = map_object_spec(n.0, n.1);
                let ap = map_object_spec(p.0, p.1);
                &&& compose_symplectic_spec(g, f) matches Some(gf) && map_morphism_spec(gf, am, ap) matches Some(
                    left,
                ) && map_morphism_spec(f, am, an) matches Some(ff) && map_morphism_spec(g, an, ap) matches Some(
                    fg,
                ) && compose_spec(fg, ff) matches Some(right) && left.source_dim == right.source_dim
                    && left.target_dim == right.target_dim && left.capability_map == right.capability_map
            }),
    {
        let am = map_object_spec(m.0, m.1);
        let an = map_object_spec(n.0, n.1);
        let ap = map_object_spec(p.0, p.1);
        assert(compose_capability_maps(functor_capability_map(3, 3), functor_capability_map(3, 3))
            =~= functor_capability_map(3, 3));
    }
}

} // verus!
