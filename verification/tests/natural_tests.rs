use lau_categorical_mechanics::{
    ConservationLaw, NatTransformComponent, NaturalTransformation, NoetherTheorem, SymplecticManifold,
};

fn apply(law: &ConservationLaw, state: &[i64]) -> Vec<i64> {
    let m = &law.quantity_matrix;
    (0..m.shape().0).map(|i| (0..m.shape().1).map(|j| m.entry(i, j) * state[j]).sum()).collect()
}

#[test]
fn test_noether_linear_momentum() {
    let m = SymplecticManifold::canonical(2, "T*R");
    let p = NoetherTheorem::linear_momentum(&m);
    // For canonical (q, p) coordinates, momentum should extract p
    let val = apply(&p, &[1, 5]); // q=1, p=5
    assert_eq!(val[0], 5);
}

#[test]
fn test_noether_linear_momentum_4d() {
    let m = SymplecticManifold::canonical(4, "T*R²");
    let p = NoetherTheorem::linear_momentum(&m);
    let vals = apply(&p, &[1, 2, 3, 4]);
    assert_eq!(vals[0], 3);
    assert_eq!(vals[1], 4);
}

#[test]
fn test_nat_transform_label() {
    let eta = NatTransformComponent::new(2, 2, "my_eta");
    assert_eq!(eta.label, "my_eta");
}

#[test]
fn component_dimensions_follow_matrix_shape() {
    let eta = NatTransformComponent::new(3, 5, "η");
    assert_eq!(eta.source_dim, 5);
    assert_eq!(eta.target_dim, 3);
}

#[test]
fn vertical_composition_pairs_components() {
    let a = NatTransformComponent::new(3, 2, "α");
    let b = NatTransformComponent::new(4, 3, "β");
    let extra = NatTransformComponent::new(1, 1, "γ");
    let nt_a = NaturalTransformation::new("α", vec![a]);
    let nt_b = NaturalTransformation::new("β", vec![b, extra]);
    let composed = nt_a.vertical_compose(&nt_b);
    assert_eq!(composed.label, "β∘α");
    assert_eq!(composed.components.len(), 1);
    assert_eq!(composed.components[0].label, "β∘α");
    assert_eq!(composed.components[0].source_dim, 2);
    assert_eq!(composed.components[0].target_dim, 4);
}

#[test]
fn energy_law_is_one_by_one_identity() {
    let m = SymplecticManifold::canonical(2, "T*R");
    let e = ConservationLaw::energy(&m);
    assert_eq!(e.name, "energy");
    assert_eq!((e.quantity_matrix.shape().0, e.quantity_matrix.shape().1), (1, 1));
    assert_eq!(e.quantity_matrix.entry(0, 0), 1);
}

fn quadratic(law: &ConservationLaw, state: &[i64]) -> i64 {
    apply(law, state).iter().zip(state.iter()).map(|(a, x)| a * x).sum()
}

#[test]
fn angular_momentum_is_q1p2_minus_q2p1() {
    let m = SymplecticManifold::canonical(4, "T*R²");
    let l = NoetherTheorem::angular_momentum(&m);
    assert_eq!(l.name, "angular_momentum");
    assert!(l.quadratic);
    assert_eq!((l.quantity_matrix.shape().0, l.quantity_matrix.shape().1), (4, 4));
    // state (q1, q2, p1, p2) = (1, 0, 0, 1): L = 1
    assert_eq!(quadratic(&l, &[1, 0, 0, 1]), 1);
    // (1, 2, 3, 4): L = 1 * 4 - 2 * 3 = -2
    assert_eq!(quadratic(&l, &[1, 2, 3, 4]), -2);
}

#[test]
fn angular_momentum_in_six_dimensions() {
    let m = SymplecticManifold::canonical(6, "T*R³");
    let l = NoetherTheorem::angular_momentum(&m);
    // (q1, q2, q3, p1, p2, p3) = (1, 2, 3, 4, 5, 6): L = 1 * 5 - 2 * 4 = -3
    assert_eq!(quadratic(&l, &[1, 2, 3, 4, 5, 6]), -3);
}

#[test]
fn angular_momentum_vanishes_with_one_degree_of_freedom() {
    let m = SymplecticManifold::canonical(2, "T*R");
    let l = NoetherTheorem::angular_momentum(&m);
    assert_eq!((l.quantity_matrix.shape().0, l.quantity_matrix.shape().1), (2, 2));
    assert_eq!(quadratic(&l, &[3, 7]), 0);
}

#[test]
fn momentum_and_energy_are_linear() {
    let m = SymplecticManifold::canonical(4, "T*R²");
    assert!(!NoetherTheorem::linear_momentum(&m).quadratic);
    assert!(!ConservationLaw::energy(&m).quadratic);
}

#[test]
fn linear_momentum_shape_and_name() {
    let m = SymplecticManifold::canonical(6, "T*R³");
    let p = NoetherTheorem::linear_momentum(&m);
    assert_eq!(p.name, "linear_momentum");
    assert_eq!((p.quantity_matrix.shape().0, p.quantity_matrix.shape().1), (3, 6));
    assert_eq!(apply(&p, &[1, 2, 3, 4, 5, 6]), vec![4, 5, 6]);
}
