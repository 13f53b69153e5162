//! The adjunction Obs ⊣ Ctrl between observation and control:
//! Hom_Agent(Obs(S), A) ≅ Hom_State(S, Ctrl(A)).
//!
//! The observation functor sends a state space to an observer agent of a
//! fixed observation dimension; the control functor sends an agent to a
//! controlled state space of a fixed control dimension. The matrices of the
//! maps below are floating point and stay with the caller, save those of the
//! unit and the counit, which are partial identities built here; the shapes
//! and labels of all of them stand here.
use vstd::prelude::*;
use crate::agent::{Agent, AgentMorphism, AgentView, Capability, CapabilityView, capability_views, join3};
use crate::exact::{IntMatrix, identity_entry};
use crate::symplectic::SymplecticManifold;

verus! {

/// A state space: a vector space with a label.
pub struct StateSpace {
    pub dimension: usize,
    pub label: String,
}

impl StateSpace {
    pub fn new(dimension: usize, label: &str) -> (s: StateSpace)
        ensures
            s.dimension == dimension,
            s.label@ == label@,
    {
        StateSpace { dimension, label: String::from_str(label) }
    }

    /// The state space of a symplectic manifold.
    pub fn from_symplectic(manifold: &SymplecticManifold) -> (s: StateSpace)
        ensures
            s.dimension == manifold.dimension,
            s.label@ == "State("@ + manifold.label@ + ")"@,
    {
        StateSpace { dimension: manifold.dimension, label: join3("State(", manifold.label.as_str(), ")") }
    }
}

/// A linear map between state spaces, whose matrix has `target_dim` rows
/// and `source_dim` columns.
pub struct StateMorphism {
    pub source_dim: usize,
    pub target_dim: usize,
    pub label: String,
}

impl StateMorphism {
    /// The identity on a state space (its matrix is the identity).
    pub fn identity(space: &StateSpace) -> (m: StateMorphism)
        ensures
            m.source_dim == space.dimension,
            m.target_dim == space.dimension,
            m.label@ == "id"@,
    {
        StateMorphism { source_dim: space.dimension, target_dim: space.dimension, label: String::from_str("id") }
    }

    /// Compose: (self ∘ other)(x) = self(other(x)); the matrix is the
    /// product of the two matrices.
    pub fn compose(&self, other: &StateMorphism) -> (r: Option<StateMorphism>)
        ensures
            r is Some <==> self.source_dim == other.target_dim,
            r matches Some(m) ==> {
                &&& m.source_dim == other.source_dim
                &&& m.target_dim == self.target_dim
                &&& m.label@ == self.label@ + "∘"@ + other.label@
            },
    {
        if self.source_dim != other.target_dim {
            return None;
        }
        Some(
            StateMorphism {
                source_dim: other.source_dim,
                target_dim: self.target_dim,
                label: join3(self.label.as_str(), "∘", other.label.as_str()),
            },
        )
    }
}

/// The observer agent Obs(S) for an observation dimension `d` and a state
/// space labelled `label`.
pub open spec fn observer_spec(d: nat, label: Seq<char>) -> AgentView {
    AgentView {
        state_dimension: d,
        capabilities: seq![
            CapabilityView { name: "observe"@, arity: 0, codimension: d },
            CapabilityView { name: "report"@, arity: d, codimension: 0 },
        ],
        label: "Obs("@ + label + ")"@,
    }
}

/// The observer Obs(S) observes its whole state and reports it: its
/// "observe" capability takes no input and yields as many values as the
/// agent's state dimension, and its "report" capability takes that many and
/// yields none. Neither depends on the dimension of S itself.
pub proof fn lemma_observer_capabilities(d: nat, label: Seq<char>, label2: Seq<char>)
    ensures
        ({
            let a = observer_spec(d, label);
            &&& a.state_dimension == d
            &&& a.capabilities.len() == 2
            &&& a.capabilities[0].name == "observe"@
            &&& a.capabilities[0].arity == 0
            &&& a.capabilities[0].codimension == a.state_dimension
            &&& a.capabilities[1].name == "report"@
            &&& a.capabilities[1].arity == a.state_dimension
            &&& a.capabilities[1].codimension == 0
            &&& observer_spec(d, label2).capabilities == a.capabilities
        }),
{
}

/// The observation functor Obs: State → Agent.
pub struct ObservationFunctor {
    /// How many dimensions of state are observed.
    pub obs_dimension: usize,
}

impl ObservationFunctor {
    pub fn new(obs_dimension: usize) -> (f: ObservationFunctor)
        ensures
            f.obs_dimension == obs_dimension,
    {
        ObservationFunctor { obs_dimension }
    }

    /// Map a state space to an observer agent.
    pub fn map_object(&self, state: &StateSpace) -> (a: Agent)
        ensures
            a@ == observer_spec(self.obs_dimension as nat, state.label@),
            a.state_dimension == self.obs_dimension,
            a.capabilities@.len() == 2,
            a.capabilities@[0].name@ == "observe"@,
            a.capabilities@[0].arity == 0,
            a.capabilities@[0].codimension == self.obs_dimension,
            a.capabilities@[1].name@ == "report"@,
            a.capabilities@[1].arity == self.obs_dimension,
            a.capabilities@[1].codimension == 0,
    {
        let mut caps: Vec<Capability> = Vec::new();
        caps.push(Capability::new("observe", 0, self.obs_dimension));
        caps.push(Capability::new("report", self.obs_dimension, 0));
        let label = join3("Obs(", state.label.as_str(), ")");
        let a = Agent::new(self.obs_dimension, caps, label.as_str());
        proof {
            assert(capability_views(a.capabilities@) =~= observer_spec(
                self.obs_dimension as nat,
                state.label@,
            ).capabilities);
        }
        a
    }

    /// Map a state morphism f (an endomorphism: its matrix is square) to an
    /// agent morphism between observer agents. Its matrix is the projection
    /// onto the first `obs_dimension` coordinates composed with the matrix
    /// of `f`, trimmed to `obs_dimension` columns; it has no offset and maps
    /// each of the two capabilities to itself.
    pub fn map_morphism(&self, f: &StateMorphism, source_state: &StateSpace, target_state: &StateSpace) -> (r:
        Option<AgentMorphism>)
        requires
            f.source_dim == f.target_dim,
        ensures
            r matches Some(m) && m.source_dim == self.obs_dimension && m.target_dim == self.obs_dimension
                && m.capability_map@ == seq![Some(0usize), Some(1usize)] && m.label@ == "Obs("@ + f.label@
                + ")"@,
    {
        let mut cap_map: Vec<Option<usize>> = Vec::new();
        cap_map.push(Some(0));
        cap_map.push(Some(1));
        assert(cap_map@ =~= seq![Some(0usize), Some(1usize)]);
        Some(
            AgentMorphism {
                source_dim: self.obs_dimension,
                target_dim: self.obs_dimension,
                capability_map: cap_map,
                label: join3("Obs(", f.label.as_str(), ")"),
            },
        )
    }
}

/// The control functor Ctrl: Agent → State.
pub struct ControlFunctor {
    pub ctrl_dimension: usize,
}

impl ControlFunctor {
    pub fn new(ctrl_dimension: usize) -> (f: ControlFunctor)
        ensures
            f.ctrl_dimension == ctrl_dimension,
    {
        ControlFunctor { ctrl_dimension }
    }

    /// Map an agent to its controlled state space.
    pub fn map_object(&self, agent: &Agent) -> (s: StateSpace)
        ensures
            s.dimension == self.ctrl_dimension,
            s.label@ == "Ctrl("@ + agent.label@ + ")"@,
    {
        StateSpace { dimension: self.ctrl_dimension, label: join3("Ctrl(", agent.label.as_str(), ")") }
    }

    /// Map an agent morphism to a state morphism; its matrix is the top-left
    /// block of the linear map of `f`, padded with zeros to
    /// `ctrl_dimension` × `ctrl_dimension`.
    pub fn map_morphism(&self, f: &AgentMorphism) -> (r: Option<StateMorphism>)
        ensures
            r matches Some(m) && m.source_dim == self.ctrl_dimension && m.target_dim == self.ctrl_dimension
                && m.label@ == "Ctrl("@ + f.label@ + ")"@,
    {
        Some(
            StateMorphism {
                source_dim: self.ctrl_dimension,
                target_dim: self.ctrl_dimension,
                label: join3("Ctrl(", f.label.as_str(), ")"),
            },
        )
    }
}

/// The adjunction Obs ⊣ Ctrl.
pub struct ObsCtrlAdjunction {
    pub obs: ObservationFunctor,
    pub ctrl: ControlFunctor,
}

impl ObsCtrlAdjunction {
    pub fn new(dimension: usize) -> (a: ObsCtrlAdjunction)
        ensures
            a.obs.obs_dimension == dimension,
            a.ctrl.ctrl_dimension == dimension,
    {
        ObsCtrlAdjunction { obs: ObservationFunctor::new(dimension), ctrl: ControlFunctor::new(dimension) }
    }

    /// The unit η_S: S → Ctrl(Obs(S)); its matrix is the partial identity
    /// (ones on the leading diagonal) of its shape, given by `unit_matrix`.
    pub fn unit(&self, state: &StateSpace) -> (m: StateMorphism)
        ensures
            m.source_dim == state.dimension,
            m.target_dim == self.ctrl.ctrl_dimension,
            m.label@ == "η"@,
    {
        let agent = self.obs.map_object(state);
        let ctrl_state = self.ctrl.map_object(&agent);
        StateMorphism { source_dim: state.dimension, target_dim: ctrl_state.dimension, label: String::from_str("η") }
    }

    /// The matrix of the unit η_S: the partial identity with
    /// `ctrl_dimension` rows and `state.dimension` columns.
    pub fn unit_matrix(&self, state: &StateSpace) -> (m: IntMatrix)
        ensures
            m.is(
                self.ctrl.ctrl_dimension as nat,
                state.dimension as nat,
                |i: int, j: int| identity_entry(i, j),
            ),
    {
        IntMatrix::identity(self.ctrl.ctrl_dimension, state.dimension)
    }

    /// The counit ε_A: Obs(Ctrl(A)) → A; its matrix is the partial identity
    /// of its shape, given by `counit_matrix`, with no offset and an empty
    /// capability map.
    pub fn counit(&self, agent: &Agent) -> (m: AgentMorphism)
        ensures
            m.source_dim == self.obs.obs_dimension,
            m.target_dim == agent.state_dimension,
            m.capability_map@.len() == 0,
            m.label@ == "ε"@,
    {
        let ctrl_state = self.ctrl.map_object(agent);
        let obs_agent = self.obs.map_object(&ctrl_state);
        AgentMorphism {
            source_dim: obs_agent.state_dimension,
            target_dim: agent.state_dimension,
            capability_map: Vec::new(),
            label: String::from_str("ε"),
        }
    }

    /// The matrix of the counit ε_A: the partial identity with
    /// `agent.state_dimension` rows and `obs_dimension` columns.
    pub fn counit_matrix(&self, agent: &Agent) -> (m: IntMatrix)
        ensures
            m.is(
                agent.state_dimension as nat,
                self.obs.obs_dimension as nat,
                |i: int, j: int| identity_entry(i, j),
            ),
    {
        IntMatrix::identity(agent.state_dimension, self.obs.obs_dimension)
    }

    /// The adjunction bijection Hom(Obs(S), A) → Hom(S, Ctrl(A)); the matrix
    /// of the result is the top-left block of the linear map of `morphism`,
    /// padded with zeros to `ctrl_dimension` × `state.dimension`.
    pub fn bijection_forward(&self, morphism: &AgentMorphism, state: &StateSpace) -> (r: Option<StateMorphism>)
        ensures
            r matches Some(m) && m.source_dim == state.dimension && m.target_dim == self.ctrl.ctrl_dimension
                && m.label@ == "Φ("@ + morphism.label@ + ")"@,
    {
        Some(
            StateMorphism {
                source_dim: state.dimension,
                target_dim: self.ctrl.ctrl_dimension,
                label: join3("Φ(", morphism.label.as_str(), ")"),
            },
        )
    }
}

} // verus!
