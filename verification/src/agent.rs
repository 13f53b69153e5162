//! Agent category: objects are agents (a state space with named
//! capabilities), morphisms are affine maps that carry a capability map.
//!
//! The numeric part of a morphism (its linear map, a `target_dim` by
//! `source_dim` matrix, and its offset, of length `target_dim`) is floating
//! point and lives with the caller; here stand the dimensions, the capability
//! map and the label, which decide when morphisms exist and compose.
use vstd::prelude::*;

verus! {

/// A capability that an agent possesses.
pub struct Capability {
    pub name: String,
    /// Number of inputs.
    pub arity: usize,
    /// Dimension of the output.
    pub codimension: usize,
}

/// The mathematical content of a capability.
pub struct CapabilityView {
    pub name: Seq<char>,
    pub arity: nat,
    pub codimension: nat,
}

impl View for Capability {
    type V = CapabilityView;

    open spec fn view(&self) -> CapabilityView {
        CapabilityView { name: self.name@, arity: self.arity as nat, codimension: self.codimension as nat }
    }
}

impl Capability {
    pub fn new(name: &str, arity: usize, codimension: usize) -> (c: Capability)
        ensures
            c.name@ == name@,
            c.arity == arity,
            c.codimension == codimension,
    {
        Capability { name: String::from_str(name), arity, codimension }
    }

    /// A copy of this capability.
    pub fn copy(&self) -> (c: Capability)
        ensures
            c@ == self@,
    {
        Capability { name: self.name.clone(), arity: self.arity, codimension: self.codimension }
    }
}

/// The views of a list of capabilities.
pub open spec fn capability_views(caps: Seq<Capability>) -> Seq<CapabilityView> {
    caps.map_values(|c: Capability| c@)
}

/// Whether some capability in the list is named `name`.
pub open spec fn has_named(caps: Seq<CapabilityView>, name: Seq<char>) -> bool {
    exists|i: int| 0 <= i < caps.len() && #[trigger] caps[i].name == name
}

/// Copies a list of capabilities.
pub fn copy_capabilities(caps: &Vec<Capability>) -> (r: Vec<Capability>)
    ensures
        capability_views(r@) == capability_views(caps@),
{
    let mut r: Vec<Capability> = Vec::new();
    for i in 0..caps.len()
        invariant
            r.len() == i,
            forall|k: int| 0 <= k < i ==> #[trigger] r@[k]@ == caps@[k]@,
    {
        r.push(caps[i].copy());
    }
    proof {
        assert(capability_views(r@) =~= capability_views(caps@));
    }
    r
}

/// An agent in the categorical sense: a state space with capabilities.
pub struct Agent {
    /// Dimension of the state space.
    pub state_dimension: usize,
    /// Capabilities this agent possesses.
    pub capabilities: Vec<Capability>,
    /// Human-readable label.
    pub label: String,
}

/// The mathematical content of an agent.
pub struct AgentView {
    pub state_dimension: nat,
    pub capabilities: Seq<CapabilityView>,
    pub label: Seq<char>,
}

impl View for Agent {
    type V = AgentView;

    open spec fn view(&self) -> AgentView {
        AgentView {
            state_dimension: self.state_dimension as nat,
            capabilities: capability_views(self.capabilities@),
            label: self.label@,
        }
    }
}

impl Agent {
    pub fn new(state_dimension: usize, capabilities: Vec<Capability>, label: &str) -> (a: Agent)
        ensures
            a.state_dimension == state_dimension,
            a.capabilities@ == capabilities@,
            a.label@ == label@,
    {
        Agent { state_dimension, capabilities, label: String::from_str(label) }
    }

    /// A copy of this agent.
    pub fn copy(&self) -> (a: Agent)
        ensures
            a@ == self@,
    {
        Agent {
            state_dimension: self.state_dimension,
            capabilities: copy_capabilities(&self.capabilities),
            label: self.label.clone(),
        }
    }

    /// Check if agent has a specific capability.
    pub fn has_capability(&self, name: &str) -> (b: bool)
        ensures
            b == has_named(self@.capabilities, name@),
    {
        let target = String::from_str(name);
        for i in 0..self.capabilities.len()
            invariant
                target@ == name@,
                forall|k: int| 0 <= k < i ==> self.capabilities@[k].name@ != name@,
        {
            if self.capabilities[i].name == target {
                assert(self@.capabilities[i as int].name == name@);
                return true;
            }
        }
        proof {
            assert forall|k: int| 0 <= k < self@.capabilities.len() implies #[trigger] self@.capabilities[k].name != name@ by {
                assert(self@.capabilities[k] == self.capabilities@[k]@);
            }
        }
        false
    }

    /// Get the first capability with the given name.
    pub fn get_capability(&self, name: &str) -> (r: Option<&Capability>)
        ensures
            r is Some <==> has_named(self@.capabilities, name@),
            r matches Some(c) ==> exists|i: int|
                0 <= i < self.capabilities@.len() && *c == self.capabilities@[i] && c.name@ == name@
                    && forall|k: int| 0 <= k < i ==> self.capabilities@[k].name@ != name@,
    {
        let target = String::from_str(name);
        for i in 0..self.capabilities.len()
            invariant
                target@ == name@,
                forall|k: int| 0 <= k < i ==> self.capabilities@[k].name@ != name@,
        {
            if self.capabilities[i].name == target {
                assert(self@.capabilities[i as int].name == name@);
                return Some(&self.capabilities[i]);
            }
        }
        proof {
            assert forall|k: int| 0 <= k < self@.capabilities.len() implies #[trigger] self@.capabilities[k].name != name@ by {
                assert(self@.capabilities[k] == self.capabilities@[k]@);
            }
        }
        None
    }
}

/// The capability map of `g ∘ f`: capability `i` goes where `f` sends it and
/// then where `g` sends that, if both are defined.
pub open spec fn compose_capability_maps(g: Seq<Option<usize>>, f: Seq<Option<usize>>) -> Seq<Option<usize>> {
    Seq::new(
        f.len(),
        |i: int|
            match f[i] {
                Some(ci) => if ci < g.len() { g[ci as int] } else { None },
                None => None,
            },
    )
}

/// The capability map of an identity morphism on an agent with `n` capabilities.
pub open spec fn identity_capability_map(n: nat) -> Seq<Option<usize>> {
    Seq::new(n, |i: int| Some(i as usize))
}

/// A capability-preserving morphism between agents, f: A → B.
pub struct AgentMorphism {
    pub source_dim: usize,
    pub target_dim: usize,
    /// Map from source capability indices to target capability indices.
    pub capability_map: Vec<Option<usize>>,
    pub label: String,
}

/// The mathematical content of an agent morphism.
pub struct AgentMorphismView {
    pub source_dim: nat,
    pub target_dim: nat,
    pub capability_map: Seq<Option<usize>>,
    pub label: Seq<char>,
}

impl View for AgentMorphism {
    type V = AgentMorphismView;

    open spec fn view(&self) -> AgentMorphismView {
        AgentMorphismView {
            source_dim: self.source_dim as nat,
            target_dim: self.target_dim as nat,
            capability_map: self.capability_map@,
            label: self.label@,
        }
    }
}

/// `g ∘ f` where it is defined (the source of `g` is the target of `f`).
pub open spec fn compose_spec(g: AgentMorphismView, f: AgentMorphismView) -> Option<AgentMorphismView> {
    if g.source_dim != f.target_dim {
        None
    } else {
        Some(
            AgentMorphismView {
                source_dim: f.source_dim,
                target_dim: g.target_dim,
                capability_map: compose_capability_maps(g.capability_map, f.capability_map),
                label: g.label + "∘"@ + f.label,
            },
        )
    }
}

/// Whether a capability map sends every capability of `source` to an
/// existing capability of `target` with the same arity.
pub open spec fn preserves_spec(
    capability_map: Seq<Option<usize>>,
    source: Seq<CapabilityView>,
    target: Seq<CapabilityView>,
) -> bool {
    &&& capability_map.len() == source.len()
    &&& forall|i: int|
        0 <= i < capability_map.len() ==> match #[trigger] capability_map[i] {
            Some(j) => j < target.len() && source[i].arity == target[j as int].arity,
            None => true,
        }
}

/// Concatenates three strings.
pub fn join3(a: &str, b: &str, c: &str) -> (s: String)
    ensures
        s@ == a@ + b@ + c@,
{
    let mut s = String::from_str(a);
    s.append(b);
    s.append(c);
    s
}

impl AgentMorphism {
    /// Create a new agent morphism from a linear map with `linear_rows` rows
    /// and `linear_cols` columns and an offset of length `offset_len`.
    /// Returns None if these dimensions don't match the agents.
    pub fn new(
        linear_rows: usize,
        linear_cols: usize,
        offset_len: usize,
        source: &Agent,
        target: &Agent,
        capability_map: Vec<Option<usize>>,
        label: &str,
    ) -> (r: Option<AgentMorphism>)
        ensures
            r is Some <==> (linear_rows == target.state_dimension && linear_cols == source.state_dimension
                && offset_len == target.state_dimension),
            r matches Some(m) ==> {
                &&& m.source_dim == source.state_dimension
                &&& m.target_dim == target.state_dimension
                &&& m.capability_map@ == capability_map@
                &&& m.label@ == label@
            },
    {
        if linear_rows != target.state_dimension || linear_cols != source.state_dimension || offset_len
            != target.state_dimension {
            return None;
        }
        Some(
            AgentMorphism {
                source_dim: source.state_dimension,
                target_dim: target.state_dimension,
                capability_map,
                label: String::from_str(label),
            },
        )
    }

    /// Identity morphism on an agent.
    pub fn identity(agent: &Agent) -> (m: AgentMorphism)
        ensures
            m.source_dim == agent.state_dimension,
            m.target_dim == agent.state_dimension,
            m.capability_map@ == identity_capability_map(agent.capabilities@.len()),
            m.label@ == "id"@,
    {
        let n = agent.capabilities.len();
        let mut cap_map: Vec<Option<usize>> = Vec::new();
        for i in 0..n
            invariant
                n == agent.capabilities@.len(),
                cap_map@ == identity_capability_map(i as nat),
        {
            cap_map.push(Some(i));
            assert(cap_map@ =~= identity_capability_map((i + 1) as nat));
        }
        AgentMorphism {
            source_dim: agent.state_dimension,
            target_dim: agent.state_dimension,
            capability_map: cap_map,
            label: String::from_str("id"),
        }
    }

    /// A copy of this morphism.
    pub fn copy(&self) -> (m: AgentMorphism)
        ensures
            m@ == self@,
    {
        AgentMorphism {
            source_dim: self.source_dim,
            target_dim: self.target_dim,
            capability_map: self.capability_map.clone(),
            label: self.label.clone(),
        }
    }

    /// Compose two morphisms: (self ∘ other)(x) = self(other(x)).
    pub fn compose(&self, other: &AgentMorphism) -> (r: Option<AgentMorphism>)
        ensures
            r matches Some(m) ==> compose_spec(self@, other@) == Some(m@),
            r is None ==> compose_spec(self@, other@) is None,
            r is Some <==> self.source_dim == other.target_dim,
            r matches Some(m) ==> m.source_dim == other.source_dim && m.target_dim == self.target_dim,
    {
        if self.source_dim != other.target_dim {
            return None;
        }
        let mut cap_map: Vec<Option<usize>> = Vec::new();
        let n = other.capability_map.len();
        for i in 0..n
            invariant
                n == other.capability_map@.len(),
                cap_map@ == compose_capability_maps(self.capability_map@, other.capability_map@).take(i as int),
        {
            let c = match other.capability_map[i] {
                Some(ci) => if ci < self.capability_map.len() {
                    self.capability_map[ci]
                } else {
                    None
                },
                None => None,
            };
            cap_map.push(c);
            assert(cap_map@ =~= compose_capability_maps(self.capability_map@, other.capability_map@).take(i + 1));
        }
        assert(cap_map@ =~= compose_capability_maps(self.capability_map@, other.capability_map@));
        Some(
            AgentMorphism {
                source_dim: other.source_dim,
                target_dim: self.target_dim,
                capability_map: cap_map,
                label: join3(self.label.as_str(), "∘", other.label.as_str()),
            },
        )
    }

    /// Check if this morphism preserves capabilities.
    pub fn preserves_capabilities(&self, source: &Agent, target: &Agent) -> (b: bool)
        ensures
            b == preserves_spec(self.capability_map@, source@.capabilities, target@.capabilities),
            b <==> (self.capability_map@.len() == source.capabilities@.len() && forall|i: int|
                0 <= i < self.capability_map@.len() ==> match #[trigger] self.capability_map@[i] {
                    Some(j) => j < target.capabilities@.len() && source.capabilities@[i].arity
                        == target.capabilities@[j as int].arity,
                    None => true,
                }),
    {
        if self.capability_map.len() != source.capabilities.len() {
            return false;
        }
        for i in 0..self.capability_map.len()
            invariant
                self.capability_map@.len() == source.capabilities@.len(),
                forall|k: int|
                    0 <= k < i ==> match #[trigger] self.capability_map@[k] {
                        Some(j) => j < target@.capabilities.len() && source@.capabilities[k].arity
                            == target@.capabilities[j as int].arity,
                        None => true,
                    },
        {
            if let Some(j) = self.capability_map[i] {
                if j >= target.capabilities.len() {
                    return false;
                }
                if source.capabilities[i].arity != target.capabilities[j].arity {
                    assert(source@.capabilities[i as int] == source.capabilities@[i as int]@);
                    assert(target@.capabilities[j as int] == target.capabilities@[j as int]@);
                    return false;
                }
                assert(source@.capabilities[i as int] == source.capabilities@[i as int]@);
                assert(target@.capabilities[j as int] == target.capabilities@[j as int]@);
            }
        }
        true
    }
}

/// Composition runs from the source of the first morphism to the target of
/// the second: g ∘ f is defined exactly when the source of g is the target
/// of f, and then g ∘ f : source(f) → target(g), and a capability goes
/// where f sends it and then where g sends that.
pub proof fn lemma_compose_endpoints(g: AgentMorphismView, f: AgentMorphismView)
    ensures
        compose_spec(g, f) is Some <==> g.source_dim == f.target_dim,
        compose_spec(g, f) matches Some(c) ==> {
            &&& c.source_dim == f.source_dim
            &&& c.target_dim == g.target_dim
            &&& c.capability_map.len() == f.capability_map.len()
            &&& forall|i: int|
                0 <= i < f.capability_map.len() ==> (#[trigger] c.capability_map[i] == match f.capability_map[i] {
                    Some(j) => if j < g.capability_map.len() {
                        g.capability_map[j as int]
                    } else {
                        None
                    },
                    None => None,
                })
        },
{
}

/// Preservation asks exactly this of a capability map: one entry per source
/// capability, and each capability that is mapped goes to an existing
/// target capability of the same arity. Names and codimensions play no part.
pub proof fn lemma_preserves_characterized(
    capability_map: Seq<Option<usize>>,
    source: Seq<CapabilityView>,
    target: Seq<CapabilityView>,
)
    ensures
        preserves_spec(capability_map, source, target) <==> (capability_map.len() == source.len() && forall|
            i: int,
        |
            #![trigger capability_map[i]]
            0 <= i < capability_map.len() && capability_map[i] is Some ==> capability_map[i]->0
                < target.len() && source[i].arity == target[capability_map[i]->0 as int].arity),
{
}

/// Whether a capability map preserves capabilities depends only on the
/// arities: two pairs of agents whose capability lists have the same lengths
/// and the same arities, position by position, get the same answer, whatever
/// their names and codimensions.
pub proof fn lemma_preserves_depends_only_on_arity(
    capability_map: Seq<Option<usize>>,
    source: Seq<CapabilityView>,
    target: Seq<CapabilityView>,
    source2: Seq<CapabilityView>,
    target2: Seq<CapabilityView>,
)
    requires
        source2.len() == source.len(),
        target2.len() == target.len(),
        forall|i: int| 0 <= i < source.len() ==> #[trigger] source2[i].arity == source[i].arity,
        forall|j: int| 0 <= j < target.len() ==> #[trigger] target2[j].arity == target[j].arity,
    ensures
        preserves_spec(capability_map, source, target) == preserves_spec(capability_map, source2, target2),
{
    if preserves_spec(capability_map, source, target) {
        assert forall|i: int| 0 <= i < capability_map.len() implies (#[trigger] capability_map[i] matches Some(j)
            ==> j < target2.len() && target2[j as int].arity == source2[i].arity) by {
            if let Some(j) = capability_map[i] {
                assert(source2[i].arity == source[i].arity);
                assert(target2[j as int].arity == target[j as int].arity);
            }
        }
    }
    if preserves_spec(capability_map, source2, target2) {
        assert forall|i: int| 0 <= i < capability_map.len() implies (#[trigger] capability_map[i] matches Some(j)
            ==> j < target.len() && target[j as int].arity == source[i].arity) by {
            if let Some(j) = capability_map[i] {
                assert(source2[i].arity == source[i].arity);
                assert(target2[j as int].arity == target[j as int].arity);
            }
        }
    }
}

/// The category of agents. Its laws are stated over the dimensions,
/// capability maps and labels of morphisms.
pub struct AgentCategory;

impl AgentCategory {
    /// Associativity: `(h ∘ g) ∘ f` is defined exactly when `h ∘ (g ∘ f)` is,
    /// and then the two have the same dimensions, capability map and label.
    pub proof fn lemma_associativity(h: AgentMorphismView, g: AgentMorphismView, f: AgentMorphismView)
        ensures
            ({
                let hg = compose_spec(h, g);
                let gf = compose_spec(g, f);
                let left = match hg {
                    Some(x) => compose_spec(x, f),
                    None => None,
                };
                let right = match gf {
                    Some(y) => compose_spec(h, y),
                    None => None,
                };
                left == right
            }),
    {
        let hg = compose_spec(h, g);
        let gf = compose_spec(g, f);
        if let Some(x) = hg {
            if let Some(y) = gf {
                let l = compose_spec(x, f);
                let r = compose_spec(h, y);
                if l is Some {
                    assert(compose_capability_maps(x.capability_map, f.capability_map) =~= compose_capability_maps(
                        h.capability_map,
                        y.capability_map,
                    ));
                    assert(x.label + "∘"@ + f.label =~= h.label + "∘"@ + y.label);
                }
            }
        }
    }

    /// Identity laws: for a morphism `f: A → B` whose capability map
    /// preserves capabilities, `f ∘ id_A` and `id_B ∘ f` are defined and have
    /// the dimensions and capability map of `f`.
    pub proof fn lemma_identity_law(f: AgentMorphismView, a: AgentView, b: AgentView)
        requires
            f.source_dim == a.state_dimension,
            f.target_dim == b.state_dimension,
            preserves_spec(f.capability_map, a.capabilities, b.capabilities),
            a.capabilities.len() <= usize::MAX,
        ensures
            ({
                let id_a = AgentMorphismView {
                    source_dim: a.state_dimension,
                    target_dim: a.state_dimension,
                    capability_map: identity_capability_map(a.capabilities.len()),
                    label: "id"@,
                };
                let id_b = AgentMorphismView {
                    source_dim: b.state_dimension,
                    target_dim: b.state_dimension,
                    capability_map: identity_capability_map(b.capabilities.len()),
                    label: "id"@,
                };
                &&& compose_spec(f, id_a) matches Some(l) && l.source_dim == f.source_dim && l.target_dim
                    == f.target_dim && l.capability_map == f.capability_map
                &&& compose_spec(id_b, f) matches Some(r) && r.source_dim == f.source_dim && r.target_dim
                    == f.target_dim && r.capability_map == f.capability_map
            }),
    {
        let id_a_map = identity_capability_map(a.capabilities.len());
        let id_b_map = identity_capability_map(b.capabilities.len());
        assert forall|i: int| 0 <= i < f.capability_map.len() implies #[trigger] compose_capability_maps(
            f.capability_map,
            id_a_map,
        )[i] == f.capability_map[i] by {
            assert(id_a_map[i] == Some(i as usize));
        }
        assert(compose_capability_maps(f.capability_map, id_a_map) =~= f.capability_map);
        assert forall|i: int| 0 <= i < f.capability_map.len() implies #[trigger] compose_capability_maps(
            id_b_map,
            f.capability_map,
        )[i] == f.capability_map[i] by {
            match f.capability_map[i] {
                Some(j) => {},
                None => {},
            }
        }
        assert(compose_capability_maps(id_b_map, f.capability_map) =~= f.capability_map);
    }
}

} // verus!
