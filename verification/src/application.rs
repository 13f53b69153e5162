//! A multi-agent system on categorical foundations: physical agents come
//! from symplectic manifolds through the Hamiltonian functor, agents compose
//! in parallel through the tensor product, and every agent is profiled by
//! its relationships to all the others.
use vstd::prelude::*;
use crate::agent::{Agent, AgentView, Capability, CapabilityView, capability_views};
use crate::functor::{HamiltonianFunctor, map_object_spec};
use crate::monoidal::MonoidalAgent;
use crate::symplectic::SymplecticManifold;
use crate::yoneda::{AgentProfile, hom_dims_fit};

verus! {

/// A complete categorical mechanics system.
pub struct LauSystem {
    pub label: String,
    pub agents: Vec<Agent>,
    pub symplectic_manifolds: Vec<SymplecticManifold>,
}

/// The views of a list of agents.
pub open spec fn agent_views(agents: Seq<Agent>) -> Seq<AgentView> {
    agents.map_values(|a: Agent| a@)
}

impl LauSystem {
    pub fn new(label: &str) -> (s: LauSystem)
        ensures
            s.label@ == label@,
            s.agents@.len() == 0,
            s.symplectic_manifolds@.len() == 0,
    {
        LauSystem { label: String::from_str(label), agents: Vec::new(), symplectic_manifolds: Vec::new() }
    }

    /// Add the physical agent F(M) of a symplectic manifold M, and M itself.
    pub fn add_physical_agent(&mut self, manifold: &SymplecticManifold) -> (a: &Agent)
        ensures
            final(self).label == old(self).label,
            final(self).agents@.len() == old(self).agents@.len() + 1,
            final(self).agents@.take(old(self).agents@.len() as int) == old(self).agents@,
            final(self).agents@.last()@ == map_object_spec(manifold.dimension as nat, manifold.label@),
            a@ == map_object_spec(manifold.dimension as nat, manifold.label@),
            final(self).symplectic_manifolds@.len() == old(self).symplectic_manifolds@.len() + 1,
            final(self).symplectic_manifolds@.take(old(self).symplectic_manifolds@.len() as int) == old(
                self,
            ).symplectic_manifolds@,
            final(self).symplectic_manifolds@.last().dimension == manifold.dimension,
            final(self).symplectic_manifolds@.last().label@ == manifold.label@,
    {
        let agent = HamiltonianFunctor::map_object(manifold);
        self.symplectic_manifolds.push(manifold.copy());
        self.agents.push(agent);
        let n = self.agents.len();
        proof {
            assert(self.agents@.take(old(self).agents@.len() as int) =~= old(self).agents@);
            assert(self.symplectic_manifolds@.take(old(self).symplectic_manifolds@.len() as int) =~= old(
                self,
            ).symplectic_manifolds@);
        }
        &self.agents[n - 1]
    }

    /// Compose two agents of the system in parallel.
    pub fn parallel_compose(&self, i: usize, j: usize) -> (r: Option<MonoidalAgent>)
        ensures
            r is Some <==> (i < self.agents@.len() && j < self.agents@.len()),
            r matches Some(m) ==> m.left@ == self.agents@[i as int]@ && m.right@ == self.agents@[j as int]@
                && m.label@ == self.agents@[i as int].label@ + "⊗"@ + self.agents@[j as int].label@,
    {
        if i >= self.agents.len() || j >= self.agents.len() {
            return None;
        }
        Some(MonoidalAgent::tensor(&self.agents[i], &self.agents[j]))
    }

    /// Profile every agent against all the agents of the system.
    pub fn profile_all(&self) -> (ps: Vec<AgentProfile>)
        requires
            forall|i: int|
                0 <= i < self.agents@.len() ==> hom_dims_fit(
                    #[trigger] self.agents@[i].state_dimension as nat,
                    self.agents@,
                ),
        ensures
            ps@.len() == self.agents@.len(),
            forall|i: int|
                0 <= i < ps@.len() ==> {
                    let p = #[trigger] ps@[i];
                    &&& p.agent_label@ == self.agents@[i].label@
                    &&& p.features@.len() == self.agents@.len()
                    &&& forall|j: int|
                        0 <= j < self.agents@.len() ==> #[trigger] p.features@[j] == self.agents@[j].state_dimension
                            * self.agents@[i].state_dimension
                },
    {
        let mut ps: Vec<AgentProfile> = Vec::new();
        for i in 0..self.agents.len()
            invariant
                forall|k: int|
                    0 <= k < self.agents@.len() ==> hom_dims_fit(
                        #[trigger] self.agents@[k].state_dimension as nat,
                        self.agents@,
                    ),
                ps@.len() == i,
                forall|k: int|
                    0 <= k < i ==> {
                        let p = #[trigger] ps@[k];
                        &&& p.agent_label@ == self.agents@[k].label@
                        &&& p.features@.len() == self.agents@.len()
                        &&& forall|j: int|
                            0 <= j < self.agents@.len() ==> #[trigger] p.features@[j]
                                == self.agents@[j].state_dimension * self.agents@[k].state_dimension
                    },
        {
            assert(hom_dims_fit(self.agents@[i as int].state_dimension as nat, self.agents@));
            ps.push(AgentProfile::profile(&self.agents[i], self.agents.as_slice()));
        }
        ps
    }
}

/// The agent of the sample system that is purely computational.
pub open spec fn compute_agent_spec() -> AgentView {
    AgentView {
        state_dimension: 4,
        capabilities: seq![
            CapabilityView { name: "compute"@, arity: 2, codimension: 2 },
            CapabilityView { name: "communicate"@, arity: 1, codimension: 1 },
        ],
        label: "compute-agent"@,
    }
}

/// A sample system: the physical agents of the phase spaces T*R and T*R²,
/// and a computational agent (whose state is (1, 0, 0, 1)).
pub fn sample_system() -> (s: LauSystem)
    ensures
        s.label@ == "sample-lau"@,
        s.agents@.len() == 3,
        s.agents@[0]@ == map_object_spec(2, "T*R"@),
        s.agents@[1]@ == map_object_spec(4, "T*R²"@),
        s.agents@[2]@ == compute_agent_spec(),
        s.symplectic_manifolds@.len() == 2,
        s.symplectic_manifolds@[0].dimension == 2,
        s.symplectic_manifolds@[0].label@ == "T*R"@,
        s.symplectic_manifolds@[1].dimension == 4,
        s.symplectic_manifolds@[1].label@ == "T*R²"@,
{
    let mut system = LauSystem::new("sample-lau");
    let phase_2d = SymplecticManifold::canonical(2, "T*R");
    system.add_physical_agent(&phase_2d);
    let phase_4d = SymplecticManifold::canonical(4, "T*R²");
    system.add_physical_agent(&phase_4d);
    let mut caps: Vec<Capability> = Vec::new();
    caps.push(Capability::new("compute", 2, 2));
    caps.push(Capability::new("communicate", 1, 1));
    let comp_agent = Agent::new(4, caps, "compute-agent");
    proof {
        assert(capability_views(comp_agent.capabilities@) =~= compute_agent_spec().capabilities);
    }
    let ghost before = system.agents@;
    system.agents.push(comp_agent);
    proof {
        assert(system.agents@[0] == before[0]);
        assert(system.agents@[1] == before[1]);
    }
    system
}

} // verus!
