use lau_categorical_mechanics::{AgentMorphism, HamiltonianFunctor, SymplecticManifold, Symplectomorphism};

#[test]
fn test_functor_maps_manifold_to_agent() {
    let m = SymplecticManifold::canonical(4, "T*R²");
    let agent = HamiltonianFunctor::map_object(&m);
    assert_eq!(agent.state_dimension, 4);
    assert_eq!(agent.capabilities.len(), 3);
    assert_eq!(agent.label, "H(T*R²)");
}

#[test]
fn functor_capabilities_are_position_momentum_and_flow() {
    let m = SymplecticManifold::canonical(6, "T*R³");
    let agent = HamiltonianFunctor::map_object(&m);
    let names: Vec<&str> = agent.capabilities.iter().map(|c| c.name.as_str()).collect();
    assert_eq!(names, vec!["observe_position", "observe_momentum", "hamiltonian_flow"]);
    assert_eq!((agent.capabilities[0].arity, agent.capabilities[0].codimension), (0, 3));
    assert_eq!((agent.capabilities[1].arity, agent.capabilities[1].codimension), (0, 3));
    assert_eq!((agent.capabilities[2].arity, agent.capabilities[2].codimension), (6, 6));
}

#[test]
fn functor_maps_identity_to_identity_structure() {
    let m = SymplecticManifold::canonical(2, "T*R");
    let agent = HamiltonianFunctor::map_object(&m);
    let f_id = HamiltonianFunctor::map_morphism(&Symplectomorphism::identity(&m), &agent, &agent).unwrap();
    let id = AgentMorphism::identity(&agent);
    assert_eq!(f_id.capability_map, id.capability_map);
    assert_eq!((f_id.source_dim, f_id.target_dim), (id.source_dim, id.target_dim));
    assert_eq!(f_id.label, "F(id)");
}

#[test]
fn functor_preserves_composition_structure() {
    let m2 = SymplecticManifold::canonical(2, "2d");
    let m4 = SymplecticManifold::canonical(4, "4d");
    let m6 = SymplecticManifold::canonical(6, "6d");
    let f = Symplectomorphism::new(4, 2, true, &m2, &m4, "f").unwrap();
    let g = Symplectomorphism::new(6, 4, true, &m4, &m6, "g").unwrap();
    let (a2, a4, a6) = (
        HamiltonianFunctor::map_object(&m2),
        HamiltonianFunctor::map_object(&m4),
        HamiltonianFunctor::map_object(&m6),
    );
    let left = HamiltonianFunctor::map_morphism(&g.compose(&f).unwrap(), &a2, &a6).unwrap();
    let right = HamiltonianFunctor::map_morphism(&g, &a4, &a6)
        .unwrap()
        .compose(&HamiltonianFunctor::map_morphism(&f, &a2, &a4).unwrap())
        .unwrap();
    assert_eq!(left.capability_map, right.capability_map);
    assert_eq!((left.source_dim, left.target_dim), (2, 6));
    assert_eq!((right.source_dim, right.target_dim), (2, 6));
    assert_eq!(left.label, "F(g∘f)");
    assert_eq!(right.label, "F(g)∘F(f)");
}

#[test]
fn functor_rejects_mismatched_agents() {
    let m2 = SymplecticManifold::canonical(2, "2d");
    let m4 = SymplecticManifold::canonical(4, "4d");
    let a2 = HamiltonianFunctor::map_object(&m2);
    let a4 = HamiltonianFunctor::map_object(&m4);
    let id = Symplectomorphism::identity(&m2);
    assert!(HamiltonianFunctor::map_morphism(&id, &a2, &a4).is_none());
}
