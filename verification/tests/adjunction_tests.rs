use lau_categorical_mechanics::{
    Agent, AgentMorphism, Capability, ControlFunctor, ObsCtrlAdjunction, ObservationFunctor, StateMorphism,
    StateSpace, SymplecticManifold,
};

#[test]
fn test_observation_functor() {
    let obs = ObservationFunctor::new(2);
    let state = StateSpace::new(4, "phase");
    let agent = obs.map_object(&state);
    assert_eq!(agent.state_dimension, 2);
    assert_eq!(agent.capabilities.len(), 2);
}

#[test]
fn test_control_functor() {
    let ctrl = ControlFunctor::new(3);
    let agent = Agent::new(4, vec![], "bot");
    let state = ctrl.map_object(&agent);
    assert_eq!(state.dimension, 3);
}

#[test]
fn test_adjunction_unit() {
    let adj = ObsCtrlAdjunction::new(2);
    let state = StateSpace::new(4, "state");
    let unit = adj.unit(&state);
    assert_eq!(unit.source_dim, 4);
    assert_eq!(unit.target_dim, 2);
}

#[test]
fn test_adjunction_counit() {
    let adj = ObsCtrlAdjunction::new(2);
    let agent = Agent::new(4, vec![], "bot");
    let counit = adj.counit(&agent);
    assert_eq!(counit.target_dim, 4);
}

#[test]
fn test_bijection_forward() {
    let adj = ObsCtrlAdjunction::new(2);
    let state = StateSpace::new(2, "state");
    let a = Agent::new(2, vec![], "A");
    let morphism = AgentMorphism::identity(&a);
    let result = adj.bijection_forward(&morphism, &state);
    assert!(result.is_some());
}

#[test]
fn test_state_space_from_symplectic() {
    let m = SymplecticManifold::canonical(4, "T*R²");
    let s = StateSpace::from_symplectic(&m);
    assert_eq!(s.dimension, 4);
    assert!(s.label.contains("T*R²"));
}

#[test]
fn test_state_morphism_identity() {
    let s = StateSpace::new(3, "space");
    let id = StateMorphism::identity(&s);
    assert_eq!(id.source_dim, 3);
    assert_eq!(id.target_dim, 3);
}

#[test]
fn test_state_morphism_compose() {
    let s1 = StateSpace::new(2, "s1");
    let s2 = StateSpace::new(2, "s2");
    let f = StateMorphism::identity(&s1);
    let g = StateMorphism::identity(&s2);
    let comp = f.compose(&g).unwrap();
    assert_eq!(comp.source_dim, 2);
    assert_eq!(comp.target_dim, 2);
}

#[test]
fn test_state_morphism_compose_mismatch() {
    let s1 = StateSpace::new(2, "s1");
    let s2 = StateSpace::new(3, "s2");
    let f = StateMorphism::identity(&s1);
    let g = StateMorphism::identity(&s2);
    assert!(f.compose(&g).is_none());
}

#[test]
fn test_observation_maps_morphism() {
    let obs = ObservationFunctor::new(2);
    let s1 = StateSpace::new(2, "s1");
    let s2 = StateSpace::new(2, "s2");
    let f = StateMorphism::identity(&s1);
    let result = obs.map_morphism(&f, &s1, &s2);
    assert!(result.is_some());
}

#[test]
fn test_observation_control_duality() {
    let adj = ObsCtrlAdjunction::new(2);
    let state = StateSpace::new(2, "S");
    let agent = Agent::new(2, vec![Capability::new("observe", 0, 1)], "obs");
    let unit = adj.unit(&state);
    let counit = adj.counit(&agent);
    // Unit goes from state to controlled space
    assert_eq!(unit.source_dim, 2);
    // Counit goes from observed to agent
    assert_eq!(counit.target_dim, 2);
}

#[test]
fn observer_agent_capabilities_and_labels() {
    let obs = ObservationFunctor::new(3);
    let agent = obs.map_object(&StateSpace::new(5, "S"));
    assert_eq!(agent.label, "Obs(S)");
    assert_eq!(agent.capabilities[0].name, "observe");
    assert_eq!((agent.capabilities[0].arity, agent.capabilities[0].codimension), (0, 3));
    assert_eq!(agent.capabilities[1].name, "report");
    assert_eq!((agent.capabilities[1].arity, agent.capabilities[1].codimension), (3, 0));
    let ctrl = ControlFunctor::new(2);
    assert_eq!(ctrl.map_object(&agent).label, "Ctrl(Obs(S))");
}

#[test]
fn functor_morphism_shapes_and_labels() {
    let obs = ObservationFunctor::new(2);
    let s = StateSpace::new(4, "S");
    let f = StateMorphism::identity(&s);
    let m = obs.map_morphism(&f, &s, &s).unwrap();
    assert_eq!((m.source_dim, m.target_dim), (2, 2));
    assert_eq!(m.capability_map, vec![Some(0), Some(1)]);
    assert_eq!(m.label, "Obs(id)");
    let ctrl = ControlFunctor::new(3);
    let a = Agent::new(5, vec![], "A");
    let c = ctrl.map_morphism(&AgentMorphism::identity(&a)).unwrap();
    assert_eq!((c.source_dim, c.target_dim), (3, 3));
    assert_eq!(c.label, "Ctrl(id)");
}

#[test]
fn unit_and_counit_types() {
    let adj = ObsCtrlAdjunction::new(3);
    let s = StateSpace::new(5, "S");
    let unit = adj.unit(&s);
    assert_eq!(unit.target_dim, adj.ctrl.map_object(&adj.obs.map_object(&s)).dimension);
    assert_eq!(unit.label, "η");
    let a = Agent::new(4, vec![], "A");
    let counit = adj.counit(&a);
    assert_eq!(counit.source_dim, adj.obs.map_object(&adj.ctrl.map_object(&a)).state_dimension);
    assert_eq!(counit.label, "ε");
    let phi = adj.bijection_forward(&counit, &s).unwrap();
    assert_eq!((phi.source_dim, phi.target_dim), (5, 3));
    assert_eq!(phi.label, "Φ(ε)");
}

#[test]
fn unit_and_counit_matrices_are_partial_identities() {
    let adj = ObsCtrlAdjunction::new(2);
    let s = StateSpace::new(3, "S");
    let u = adj.unit_matrix(&s);
    assert_eq!(u.shape(), (2, 3));
    assert_eq!(u.to_rows(), vec![vec![1, 0, 0], vec![0, 1, 0]]);
    let a = Agent::new(3, vec![], "A");
    let c = adj.counit_matrix(&a);
    assert_eq!(c.shape(), (3, 2));
    assert_eq!(c.to_rows(), vec![vec![1, 0], vec![0, 1], vec![0, 0]]);
}
