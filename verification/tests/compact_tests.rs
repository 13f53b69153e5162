use lau_categorical_mechanics::{Agent, Cap, Capability, CompactClosed, Cup, DualAgent};

#[test]
fn test_dual_agent() {
    let a = Agent::new(3, vec![
        Capability::new("observe", 0, 1),
        Capability::new("control", 1, 0),
    ], "sensor");
    let dual = DualAgent::dual(&a);
    assert_eq!(dual.original.state_dimension, 3);
    assert_eq!(dual.dual_label, "sensor*");
}

#[test]
fn test_double_dual() {
    let a = Agent::new(2, vec![], "A");
    let dd = DualAgent::double_dual(&a);
    assert_eq!(dd.dual_label, "A**");
    assert!(CompactClosed::verify_double_dual(&a));
}

#[test]
fn test_cup() {
    let a = Agent::new(2, vec![], "A");
    let cup = Cup::new(&a);
    assert_eq!(cup.agent_dim, 2);
    let state = cup.state();
    assert_eq!(state.len(), 4);
    // Maximally entangled: |00⟩ + |11⟩
    assert_eq!(state[0], 1);
    assert_eq!(state[3], 1);
    assert_eq!(state[1], 0);
}

#[test]
fn cap_pattern_and_labels() {
    let a = Agent::new(3, vec![], "A");
    let cap = Cap::new(&a);
    assert_eq!((cap.matrix.shape().0, cap.matrix.shape().1), (1, 9));
    let row: Vec<i64> = (0..9).map(|k| cap.matrix.entry(0, k)).collect();
    assert_eq!(row, vec![1, 0, 0, 0, 1, 0, 0, 0, 1]);
    assert_eq!(cap.label, "ε_A");
    assert_eq!(Cup::new(&a).label, "η_A");
}

#[test]
fn test_snake_identity() {
    let a = Agent::new(2, vec![], "A");
    assert!(CompactClosed::verify_snake_identity(&a));
}

#[test]
fn test_snake_identity_3d() {
    let a = Agent::new(3, vec![], "A");
    assert!(CompactClosed::verify_snake_identity(&a));
}

#[test]
fn test_cup_cap_compose_gives_dimension() {
    let a = Agent::new(3, vec![], "A");
    let cup = Cup::new(&a);
    let cap = Cap::new(&a);
    let result: i64 = (0..9).map(|k| cap.matrix.entry(0, k) * cup.matrix.entry(k, 0)).sum();
    assert_eq!(result, 3);
}

#[test]
fn test_trivial_agent_compact() {
    let a = Agent::new(0, vec![], "I");
    assert!(CompactClosed::verify_snake_identity(&a));
}

#[test]
fn snake_identity_in_many_dimensions() {
    for d in 0..12 {
        let a = Agent::new(d, vec![], "A");
        assert!(CompactClosed::verify_snake_identity(&a));
        let cup = Cup::new(&a);
        let cap = Cap::new(&a);
        let result: i64 = (0..d * d).map(|k| cap.matrix.entry(0, k) * cup.matrix.entry(k, 0)).sum();
        assert_eq!(result, d as i64);
    }
}

#[test]
fn test_cap() {
    let a = Agent::new(2, vec![], "A");
    let cap = Cap::new(&a);
    let state = [1, 0, 0, 1];
    let val: i64 = (0..4).map(|k| cap.matrix.entry(0, k) * state[k]).sum();
    assert_eq!(val, 2); // ⟨00|00⟩ + ⟨11|11⟩
}

fn kron(f: &[Vec<i64>], g: &[Vec<i64>]) -> Vec<Vec<i64>> {
    let (fr, fc) = (f.len(), f[0].len());
    let (gr, gc) = (g.len(), g[0].len());
    let mut m = vec![vec![0; fc * gc]; fr * gr];
    for i in 0..fr * gr {
        for j in 0..fc * gc {
            m[i][j] = f[i / gr][j / gc] * g[i % gr][j % gc];
        }
    }
    m
}

fn mul(a: &[Vec<i64>], b: &[Vec<i64>]) -> Vec<Vec<i64>> {
    (0..a.len())
        .map(|i| (0..b[0].len()).map(|j| (0..b.len()).map(|k| a[i][k] * b[k][j]).sum()).collect())
        .collect()
}

fn eye(d: usize) -> Vec<Vec<i64>> {
    (0..d).map(|i| (0..d).map(|j| if i == j { 1 } else { 0 }).collect()).collect()
}

#[test]
fn snake_identities_hold_as_matrices() {
    for d in 1..5 {
        let a = Agent::new(d, vec![], "A");
        let cup = Cup::new(&a).matrix.to_rows();
        let cap = Cap::new(&a).matrix.to_rows();
        let id = eye(d);
        // (ε ⊗ id) ∘ (id ⊗ η) = id
        assert_eq!(mul(&kron(&cap, &id), &kron(&id, &cup)), id);
        // (id ⊗ ε) ∘ (η ⊗ id) = id
        assert_eq!(mul(&kron(&id, &cap), &kron(&cup, &id)), id);
    }
}

#[test]
fn categorical_trace_is_matrix_trace() {
    let a = Agent::new(2, vec![], "A");
    let cup = Cup::new(&a).matrix.to_rows();
    let cap = Cap::new(&a).matrix.to_rows();
    let f = vec![vec![1, 2], vec![3, 4]];
    let tr = mul(&cap, &mul(&kron(&f, &eye(2)), &cup));
    assert_eq!(tr, vec![vec![5]]); // 1 + 4
}
