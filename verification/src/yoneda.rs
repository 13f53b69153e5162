//! The Yoneda lemma: an agent is determined by its relationships.
//!
//! Hom(X, A), the morphisms from X to A, form a vector space of dimension
//! dim X · dim A. Two agents that every probe relates to in spaces of the
//! same dimension are equal by their relationships.
use vstd::prelude::*;
use crate::agent::{Agent, AgentMorphism, join3};

verus! {

/// The representable functor Hom(-, A) for a fixed agent A.
pub struct RepresentableFunctor {
    pub target: Agent,
}

/// A hom-set Hom(A, B) represented as a vector space of morphisms.
pub struct HomSet {
    pub source_dim: usize,
    pub target_dim: usize,
    pub label: String,
}

impl RepresentableFunctor {
    pub fn new(target: Agent) -> (r: RepresentableFunctor)
        ensures
            r.target == target,
    {
        RepresentableFunctor { target }
    }

    /// Hom(X, A) for the agent X = `source`.
    pub fn hom(&self, source: &Agent) -> (h: HomSet)
        ensures
            h.source_dim == source.state_dimension,
            h.target_dim == self.target.state_dimension,
            h.label@ == "Hom("@ + source.label@ + ", "@ + self.target.label@ + ")"@,
    {
        let mut label = join3("Hom(", source.label.as_str(), ", ");
        label.append(self.target.label.as_str());
        label.append(")");
        HomSet { source_dim: source.state_dimension, target_dim: self.target.state_dimension, label }
    }
}

impl HomSet {
    /// The dimension of this hom-set as a vector space.
    pub fn dimension(&self) -> (d: usize)
        requires
            self.source_dim * self.target_dim <= usize::MAX,
        ensures
            d == self.source_dim * self.target_dim,
    {
        self.source_dim * self.target_dim
    }

    /// The morphism of this hom-set given by a matrix of `nrows` rows and
    /// `ncols` columns (with no offset), if the shape fits.
    pub fn element(&self, nrows: usize, ncols: usize) -> (r: Option<AgentMorphism>)
        ensures
            r is Some <==> (nrows == self.target_dim && ncols == self.source_dim),
            r matches Some(m) ==> {
                &&& m.source_dim == self.source_dim
                &&& m.target_dim == self.target_dim
                &&& m.capability_map@.len() == 0
                &&& m.label@ == "hom_element"@
            },
    {
        if nrows != self.target_dim || ncols != self.source_dim {
            return None;
        }
        Some(
            AgentMorphism {
                source_dim: self.source_dim,
                target_dim: self.target_dim,
                capability_map: Vec::new(),
                label: String::from_str("hom_element"),
            },
        )
    }
}

/// Whether every probe relates to agents of dimensions `a` and `b` by
/// hom-spaces of the same dimension.
pub open spec fn equal_by_relationships(a: nat, b: nat, probes: Seq<Agent>) -> bool {
    forall|i: int| 0 <= i < probes.len() ==> #[trigger] probes[i].state_dimension * a == probes[i].state_dimension * b
}

/// Every hom-space from a probe to an agent of dimension `a` has a
/// dimension that fits in a `usize`.
pub open spec fn hom_dims_fit(a: nat, probes: Seq<Agent>) -> bool {
    forall|i: int| 0 <= i < probes.len() ==> #[trigger] probes[i].state_dimension * a <= usize::MAX
}

/// The Yoneda correspondence: an element of F(A) for a presheaf F.
pub struct YonedaCorrespondence<T> {
    pub agent_label: String,
    pub presheaf_value: Vec<T>,
}

impl<T> YonedaCorrespondence<T> {
    /// The dimension of the correspondence (that of the presheaf value).
    pub fn dimension(&self) -> (d: usize)
        ensures
            d == self.presheaf_value@.len(),
    {
        self.presheaf_value.len()
    }
}

/// The Yoneda embedding A ↦ Hom(-, A).
pub struct YonedaEmbedding;

impl YonedaEmbedding {
    /// Embed an agent into the category of presheaves.
    pub fn embed(agent: Agent) -> (r: RepresentableFunctor)
        ensures
            r.target == agent,
    {
        RepresentableFunctor::new(agent)
    }

    /// Nat(Hom(-, A), F) ≅ F(A): the natural transformations from the
    /// representable functor to F correspond to the elements of F(A).
    pub fn yoneda_lemma<T, F: Fn(&Agent) -> Vec<T>>(agent: &Agent, presheaf: F) -> (c: YonedaCorrespondence<T>)
        requires
            call_requires(presheaf, (agent,)),
        ensures
            c.agent_label@ == agent.label@,
            call_ensures(presheaf, (agent,), c.presheaf_value),
    {
        let element = presheaf(agent);
        YonedaCorrespondence { agent_label: agent.label.clone(), presheaf_value: element }
    }

    /// Whether Hom(X, A) and Hom(X, B) have the same dimension for every
    /// probe X.
    pub fn agents_equal_by_relationships(a: &Agent, b: &Agent, test_agents: &[Agent]) -> (r: bool)
        requires
            hom_dims_fit(a.state_dimension as nat, test_agents@),
            hom_dims_fit(b.state_dimension as nat, test_agents@),
        ensures
            r == equal_by_relationships(a.state_dimension as nat, b.state_dimension as nat, test_agents@),
    {
        let repr_a = RepresentableFunctor::new(a.copy());
        let repr_b = RepresentableFunctor::new(b.copy());
        for i in 0..test_agents.len()
            invariant
                repr_a.target.state_dimension == a.state_dimension,
                repr_b.target.state_dimension == b.state_dimension,
                hom_dims_fit(a.state_dimension as nat, test_agents@),
                hom_dims_fit(b.state_dimension as nat, test_agents@),
                forall|k: int|
                    0 <= k < i ==> #[trigger] test_agents@[k].state_dimension * a.state_dimension
                        == test_agents@[k].state_dimension * b.state_dimension,
        {
            let x = &test_agents[i];
            let hom_a = repr_a.hom(x);
            let hom_b = repr_b.hom(x);
            assert(test_agents@[i as int].state_dimension * a.state_dimension <= usize::MAX);
            assert(test_agents@[i as int].state_dimension * b.state_dimension <= usize::MAX);
            if hom_a.dimension() != hom_b.dimension() {
                return false;
            }
        }
        true
    }

    /// Agents of the same dimension are equal by their relationships to any
    /// probes; and agents equal by their relationships to some probe of
    /// nonzero dimension have the same dimension.
    pub proof fn lemma_relationships_determine_dimension(a: nat, b: nat, probes: Seq<Agent>)
        ensures
            a == b ==> equal_by_relationships(a, b, probes),
            (equal_by_relationships(a, b, probes) && exists|i: int|
                0 <= i < probes.len() && #[trigger] probes[i].state_dimension > 0) ==> a == b,
    {
        if equal_by_relationships(a, b, probes) && exists|i: int|
            0 <= i < probes.len() && #[trigger] probes[i].state_dimension > 0 {
            let i = choose|i: int| 0 <= i < probes.len() && #[trigger] probes[i].state_dimension > 0;
            let x = probes[i].state_dimension as int;
            assert(x * a == x * b);
            assert(a == b) by (nonlinear_arith)
                requires
                    x * a == x * b,
                    x > 0,
            ;
        }
    }
}

/// Agent profiling through Yoneda: the feature of an agent against each
/// observer is the dimension of the hom-space from that observer.
pub struct AgentProfile {
    pub agent_label: String,
    pub features: Vec<usize>,
}

impl AgentProfile {
    /// Profile an agent against a list of observers.
    pub fn profile(agent: &Agent, observers: &[Agent]) -> (p: AgentProfile)
        requires
            hom_dims_fit(agent.state_dimension as nat, observers@),
        ensures
            p.agent_label@ == agent.label@,
            p.features@.len() == observers@.len(),
            forall|i: int|
                0 <= i < observers@.len() ==> #[trigger] p.features@[i] == observers@[i].state_dimension
                    * agent.state_dimension,
    {
        let mut features: Vec<usize> = Vec::new();
        for i in 0..observers.len()
            invariant
                hom_dims_fit(agent.state_dimension as nat, observers@),
                features@.len() == i,
                forall|k: int|
                    0 <= k < i ==> #[trigger] features@[k] == observers@[k].state_dimension
                        * agent.state_dimension,
        {
            assert(observers@[i as int].state_dimension * agent.state_dimension <= usize::MAX);
            let hom_dim = observers[i].state_dimension * agent.state_dimension;
            features.push(hom_dim);
        }
        AgentProfile { agent_label: agent.label.clone(), features }
    }

    /// Agents of the same dimension have the same profile against any
    /// observers.
    pub proof fn lemma_same_dimension_same_features(a: nat, b: nat, observers: Seq<Agent>)
        requires
            a == b,
        ensures
            forall|i: int|
                0 <= i < observers.len() ==> #[trigger] (observers[i].state_dimension * a)
                    == observers[i].state_dimension * b,
    {
    }
}

} // verus!
