use lau_categorical_mechanics::{
    sample_system, Agent, Braiding, HamiltonianFunctor, LauSystem, MonoidalAgent, SymplecticManifold, YonedaEmbedding,
};

#[test]
fn test_sample_system_creation() {
    let system = sample_system();
    assert_eq!(system.agents.len(), 3);
    assert_eq!(system.symplectic_manifolds.len(), 2);
}

#[test]
fn test_physical_agent_from_manifold() {
    let mut system = LauSystem::new("test");
    let m = SymplecticManifold::canonical(2, "T*R");
    let agent = system.add_physical_agent(&m);
    assert_eq!(agent.state_dimension, 2);
    assert_eq!(agent.capabilities.len(), 3);
}

#[test]
fn test_parallel_compose() {
    let system = sample_system();
    let mono = system.parallel_compose(0, 1).unwrap();
    assert_eq!(mono.dimension(), 6); // 2 + 4
}

#[test]
fn parallel_compose_out_of_range() {
    let system = sample_system();
    assert!(system.parallel_compose(0, 3).is_none());
    assert!(system.parallel_compose(7, 0).is_none());
}

#[test]
fn test_profile_all() {
    let system = sample_system();
    let profiles = system.profile_all();
    assert_eq!(profiles.len(), 3);
    assert_eq!(profiles[0].features, vec![4, 8, 8]);
    assert_eq!(profiles[2].features, vec![8, 16, 16]);
    assert_eq!(profiles[2].agent_label, "compute-agent");
}

#[test]
fn test_multi_agent_system() {
    let mut system = LauSystem::new("multi");
    for i in 0..5 {
        let m = SymplecticManifold::canonical(2, &format!("agent_{}", i));
        system.add_physical_agent(&m);
    }
    assert_eq!(system.agents.len(), 5);
    // Pairwise parallel composition
    for i in 0..4 {
        let mono = system.parallel_compose(i, i + 1).unwrap();
        assert_eq!(mono.dimension(), 4);
    }
}

#[test]
fn test_categorical_interoperability() {
    // Agents from different manifolds should compose
    let m2 = SymplecticManifold::canonical(2, "2d");
    let m4 = SymplecticManifold::canonical(4, "4d");
    let a2 = HamiltonianFunctor::map_object(&m2);
    let a4 = HamiltonianFunctor::map_object(&m4);
    let mono = MonoidalAgent::tensor(&a2, &a4);
    assert_eq!(mono.dimension(), 6);

    // They can be braided
    let sigma = Braiding::swap_matrix(2, 4);
    let state = [1, 2, 3, 4, 5, 6];
    let swapped: Vec<i64> = (0..sigma.shape().0).map(|i| (0..6).map(|j| sigma.entry(i, j) * state[j]).sum()).collect();
    assert_eq!(swapped.len(), 6);
    assert_eq!(swapped, vec![3, 4, 5, 6, 1, 2]);
}

#[test]
fn test_yoneda_distinguishes_agents() {
    let a = Agent::new(2, vec![], "small");
    let b = Agent::new(4, vec![], "large");
    let probe = Agent::new(2, vec![], "probe");
    assert!(!YonedaEmbedding::agents_equal_by_relationships(&a, &b, &[probe]));
}

#[test]
fn sample_system_contents() {
    let s = sample_system();
    assert_eq!(s.label, "sample-lau");
    assert_eq!(s.agents[0].label, "H(T*R)");
    assert_eq!(s.agents[1].label, "H(T*R²)");
    assert_eq!(s.agents[2].label, "compute-agent");
    assert_eq!(s.agents[2].capabilities[0].name, "compute");
    assert_eq!(s.agents[2].capabilities[1].name, "communicate");
    assert_eq!(s.symplectic_manifolds[1].label, "T*R²");
}

#[test]
fn test_conservation_across_composition() {
    let m = SymplecticManifold::canonical(2, "T*R");
    let a = HamiltonianFunctor::map_object(&m);
    let b = HamiltonianFunctor::map_object(&m);
    let mono = MonoidalAgent::tensor(&a, &b);
    assert_eq!(mono.dimension(), 4);

    // Conservation should hold in both components
    let mom = lau_categorical_mechanics::NoetherTheorem::linear_momentum(&m);
    let left_state = [1, 5];
    let (rows, cols) = mom.quantity_matrix.shape();
    assert_eq!((rows, cols), (1, 2));
    let val: i64 = (0..cols).map(|j| mom.quantity_matrix.entry(0, j) * left_state[j]).sum();
    assert_eq!(val, 5);
}
