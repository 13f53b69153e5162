use lau_categorical_mechanics::{Agent, AgentProfile, Capability, HomSet, RepresentableFunctor, YonedaEmbedding};

#[test]
fn test_representable_functor() {
    let a = Agent::new(3, vec![Capability::new("act", 1, 1)], "target");
    let repr = RepresentableFunctor::new(a);
    let source = Agent::new(2, vec![], "source");
    let hom = repr.hom(&source);
    assert_eq!(hom.dimension(), 6); // 2 × 3
}

#[test]
fn test_hom_set_rejects_wrong_dim() {
    let hom = HomSet { source_dim: 2, target_dim: 3, label: "test".into() };
    // A 2 × 2 matrix
    assert!(hom.element(2, 2).is_none());
}

#[test]
fn hom_set_element_has_the_hom_set_dimensions() {
    let hom = HomSet { source_dim: 2, target_dim: 3, label: "test".into() };
    let m = hom.element(3, 2).unwrap();
    assert_eq!((m.source_dim, m.target_dim), (2, 3));
    assert!(m.capability_map.is_empty());
    assert_eq!(m.label, "hom_element");
}

#[test]
fn test_yoneda_embedding() {
    let a = Agent::new(4, vec![Capability::new("see", 0, 2)], "observer");
    let repr = YonedaEmbedding::embed(a.copy());
    let source = Agent::new(4, vec![], "source");
    let hom = repr.hom(&source);
    assert_eq!(hom.dimension(), 16);
}

#[test]
fn test_yoneda_lemma() {
    let a = Agent::new(2, vec![], "test");
    let presheaf = |agent: &Agent| vec![agent.state_dimension as f64];
    let corr = YonedaEmbedding::yoneda_lemma(&a, presheaf);
    assert_eq!(corr.dimension(), 1);
    assert!((corr.presheaf_value[0] - 2.0).abs() < 1e-10);
    assert_eq!(corr.agent_label, "test");
}

#[test]
fn test_agents_equal_by_relationships() {
    let a = Agent::new(2, vec![Capability::new("x", 0, 1)], "A");
    let b = Agent::new(2, vec![Capability::new("y", 0, 1)], "B");
    let probe = Agent::new(3, vec![], "probe");
    // Same dimensions → same hom-space dimensions → "equal" by Yoneda
    assert!(YonedaEmbedding::agents_equal_by_relationships(&a, &b, &[probe]));
}

#[test]
fn test_agents_not_equal_by_relationships() {
    let a = Agent::new(2, vec![], "A");
    let b = Agent::new(4, vec![], "B");
    let probe = Agent::new(3, vec![], "probe");
    // Different dimensions → different hom-space dimensions
    assert!(!YonedaEmbedding::agents_equal_by_relationships(&a, &b, &[probe]));
}

#[test]
fn relationships_with_only_trivial_probes_do_not_distinguish() {
    let a = Agent::new(2, vec![], "A");
    let b = Agent::new(4, vec![], "B");
    let trivial = Agent::new(0, vec![], "I");
    assert!(YonedaEmbedding::agents_equal_by_relationships(&a, &b, &[trivial]));
    assert!(YonedaEmbedding::agents_equal_by_relationships(&a, &b, &[]));
}

#[test]
fn test_agent_profile() {
    let a = Agent::new(3, vec![], "agent");
    let obs1 = Agent::new(2, vec![], "obs1");
    let obs2 = Agent::new(4, vec![], "obs2");
    let profile = AgentProfile::profile(&a, &[obs1, obs2]);
    assert_eq!(profile.features.len(), 2);
    assert_eq!(profile.features[0], 6); // 2 * 3
    assert_eq!(profile.features[1], 12); // 4 * 3
}

#[test]
fn test_hom_set_label() {
    let a = Agent::new(2, vec![], "A");
    let b = Agent::new(3, vec![], "B");
    let repr = RepresentableFunctor::new(b);
    let hom = repr.hom(&a);
    assert!(hom.label.contains("A"));
    assert!(hom.label.contains("B"));
    assert_eq!(hom.label, "Hom(A, B)");
}
