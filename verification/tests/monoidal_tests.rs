use lau_categorical_mechanics::{
    unit_agent, verify_associator, Agent, AgentMorphism, Braiding, Capability, IntMatrix, MonoidalAgent,
    MonoidalMorphism,
};

fn apply(m: &IntMatrix, v: &[i64]) -> Vec<i64> {
    (0..m.shape().0).map(|i| (0..m.shape().1).map(|j| m.entry(i, j) * v[j]).sum()).collect()
}

fn multiply(a: &IntMatrix, b: &IntMatrix) -> Vec<Vec<i64>> {
    (0..a.shape().0)
        .map(|i| (0..b.shape().1).map(|j| (0..a.shape().1).map(|k| a.entry(i, k) * b.entry(k, j)).sum()).collect())
        .collect()
}

#[test]
fn test_tensor_product() {
    let a = Agent::new(2, vec![Capability::new("see", 0, 1)], "A");
    let b = Agent::new(3, vec![Capability::new("move", 1, 1)], "B");
    let ab = MonoidalAgent::tensor(&a, &b);
    assert_eq!(ab.dimension(), 5);
    assert_eq!(ab.capabilities().len(), 2);
    assert_eq!(ab.label, "A⊗B");
}

#[test]
fn test_entangled_agents_label() {
    let a = Agent::new(2, vec![], "A");
    let b = Agent::new(2, vec![], "B");
    let ab = MonoidalAgent::tensor_entangled(&a, &b);
    assert_eq!(ab.label, "A⊗B_ent");
    assert_eq!(ab.dimension(), 4);
}

#[test]
fn test_unit_agent() {
    let u = unit_agent();
    assert_eq!(u.state_dimension, 0);
    assert_eq!(u.capabilities.len(), 0);
}

#[test]
fn test_tensor_with_unit() {
    let a = Agent::new(2, vec![], "A");
    let u = unit_agent();
    let au = MonoidalAgent::tensor(&a, &u);
    assert_eq!(au.dimension(), 2);
}

#[test]
fn test_braiding_swap() {
    let sigma = Braiding::swap_matrix(2, 2);
    let swapped = apply(&sigma, &[1, 2, 3, 4]);
    assert_eq!(swapped, vec![3, 4, 1, 2]);
}

#[test]
fn test_braiding_unequal_dims() {
    let sigma = Braiding::swap_matrix(2, 3);
    let swapped = apply(&sigma, &[1, 2, 3, 4, 5]);
    // First 3 elements come from the second block, the last 2 from the first.
    assert_eq!(swapped[0], 3);
    assert_eq!(swapped[4], 2);
    assert_eq!(swapped, vec![3, 4, 5, 1, 2]);
}

#[test]
fn test_braiding_self_inverse() {
    // Self-inverse only for equal dimensions
    let sigma = Braiding::swap_matrix(2, 2);
    let sigma2 = Braiding::swap_matrix(2, 2);
    let double = multiply(&sigma, &sigma2);
    for i in 0..4 {
        for j in 0..4 {
            assert_eq!(double[i][j], if i == j { 1 } else { 0 });
        }
    }
}

#[test]
fn swap_the_other_way_undoes_the_swap() {
    let ab = Braiding::swap_matrix(2, 3);
    let ba = Braiding::swap_matrix(3, 2);
    let round = multiply(&ba, &ab);
    for i in 0..5 {
        for j in 0..5 {
            assert_eq!(round[i][j], if i == j { 1 } else { 0 });
        }
    }
    let s = Braiding::swap(2, 3);
    let inv = s.inverse();
    assert_eq!((inv.dim_a, inv.dim_b), (3, 2));
    assert!(inv.is_trivial);
}

#[test]
fn test_entangled_braiding() {
    let sigma = Braiding::entangled(2, 2);
    assert!(!sigma.is_trivial);
    assert!(Braiding::swap(2, 2).is_trivial);
}

#[test]
fn test_verify_associator() {
    let a = Agent::new(2, vec![], "A");
    let b = Agent::new(2, vec![], "B");
    let c = Agent::new(2, vec![], "C");
    assert!(verify_associator(&a, &b, &c));
}

#[test]
fn tensor_capabilities_are_concatenated_in_order() {
    let a = Agent::new(1, vec![Capability::new("a1", 0, 1), Capability::new("a2", 1, 0)], "A");
    let b = Agent::new(1, vec![Capability::new("b1", 2, 2)], "B");
    let names: Vec<String> = MonoidalAgent::tensor(&a, &b).capabilities().into_iter().map(|c| c.name).collect();
    assert_eq!(names, vec!["a1", "a2", "b1"]);
}

#[test]
fn monoidal_morphism_structure() {
    let a1 = Agent::new(2, vec![], "A1");
    let b1 = Agent::new(3, vec![], "B1");
    let f = AgentMorphism::identity(&a1);
    let g = AgentMorphism::identity(&b1);
    let fg = MonoidalMorphism::tensor(&f, &g);
    assert_eq!(fg.label, "id⊗id");
    assert_eq!(fg.left.source_dim + fg.right.source_dim, 5);
}

fn block_diag(a: &[Vec<i64>], b: &[Vec<i64>]) -> Vec<Vec<i64>> {
    let (n1, n2) = (a.len(), b.len());
    let mut m = vec![vec![0; n1 + n2]; n1 + n2];
    for i in 0..n1 {
        for j in 0..n1 {
            m[i][j] = a[i][j];
        }
    }
    for i in 0..n2 {
        for j in 0..n2 {
            m[n1 + i][n1 + j] = b[i][j];
        }
    }
    m
}

fn mat_mul(a: &[Vec<i64>], b: &[Vec<i64>]) -> Vec<Vec<i64>> {
    let n = a.len();
    (0..n).map(|i| (0..n).map(|j| (0..n).map(|k| a[i][k] * b[k][j]).sum()).collect()).collect()
}

#[test]
fn swap_braiding_satisfies_yang_baxter() {
    let d = 2;
    let sigma = Braiding::swap_matrix(d, d).to_rows();
    let id: Vec<Vec<i64>> = (0..d).map(|i| (0..d).map(|j| if i == j { 1 } else { 0 }).collect()).collect();
    let r1 = block_diag(&sigma, &id);
    let r2 = block_diag(&id, &sigma);
    assert_eq!(mat_mul(&r1, &mat_mul(&r2, &r1)), mat_mul(&r2, &mat_mul(&r1, &r2)));
}
