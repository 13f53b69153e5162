//! Compact closed structure: every agent A has a dual A*, with a cup
//! η_A: I → A* ⊗ A and a cap ε_A: A ⊗ A* → I obeying the snake identities.
//!
//! In dimension d, A* ⊗ A has dimension d²; the cup is the maximally
//! entangled state (a 1 at each position i·d + i) and the cap is the same
//! pattern as a row. Both are built here exactly, and their composite
//! ε ∘ η is proved to be d.
use vstd::prelude::*;
use vstd::arithmetic::div_mod::lemma_fundamental_div_mod_converse;
use crate::agent::Agent;
use crate::exact::{
    IntMatrix, identity_entry, identity_spec, kronecker, lemma_sum_blocks, lemma_sum_ext, lemma_sum_single,
    product_entry, sum,
};

verus! {

/// The dual of an agent: the observation perspective on it.
pub struct DualAgent {
    pub original: Agent,
    pub dual_label: String,
}

impl DualAgent {
    /// The dual A* of an agent A.
    pub fn dual(agent: &Agent) -> (d: DualAgent)
        ensures
            d.original@ == agent@,
            d.dual_label@ == agent.label@ + "*"@,
    {
        let mut label = agent.label.clone();
        label.append("*");
        DualAgent { original: agent.copy(), dual_label: label }
    }

    /// The double dual A**, naturally isomorphic to A.
    pub fn double_dual(agent: &Agent) -> (d: DualAgent)
        ensures
            d.original@ == agent@,
            d.dual_label@ == agent.label@ + "**"@,
    {
        let mut label = agent.label.clone();
        label.append("**");
        DualAgent { original: agent.copy(), dual_label: label }
    }
}

/// Whether position `k` of a d² vector is a diagonal position i·d + i.
pub open spec fn diagonal_entry(d: int, k: int) -> int {
    if 0 <= k < d * d && k % (d + 1) == 0 {
        1
    } else {
        0
    }
}

/// Whether position `k` is one of the first `i` diagonal positions.
pub open spec fn partial_diagonal(d: int, i: int, k: int) -> int {
    if k % (d + 1) == 0 && k / (d + 1) < i {
        1
    } else {
        0
    }
}

/// The cup η_A as a d² × 1 matrix.
pub open spec fn cup_spec(d: int) -> spec_fn(int, int) -> int {
    |i: int, j: int| diagonal_entry(d, i)
}

/// The cap ε_A as a 1 × d² matrix.
pub open spec fn cap_spec(d: int) -> spec_fn(int, int) -> int {
    |i: int, j: int| diagonal_entry(d, j)
}

/// Position i·d + i lies in the d² vector, and it is the `i`-th multiple of d + 1.
proof fn lemma_diagonal_position(d: nat, i: nat)
    requires
        i < d,
    ensures
        i * d + i < d * d,
        (i * d + i) % (d + 1) == 0,
        (i * d + i) / (d + 1) == i,
{
    let di = d as int;
    let ii = i as int;
    assert(ii * di + ii == ii * (di + 1)) by (nonlinear_arith);
    assert(ii * (di + 1) < di * di) by (nonlinear_arith)
        requires
            0 <= ii < di,
    ;
    lemma_fundamental_div_mod_converse(ii * di + ii, di + 1, ii, 0);
}

/// A multiple of d + 1 below d² is one of the first d multiples.
proof fn lemma_diagonal_quotient(d: int, k: int)
    requires
        0 <= d,
        0 <= k < d * d,
        k % (d + 1) == 0,
    ensures
        k / (d + 1) < d,
        k == (k / (d + 1)) * d + k / (d + 1),
{
    let di = d;
    let m = di + 1;
    let q = k / m;
    vstd::arithmetic::div_mod::lemma_fundamental_div_mod(k, m);
    assert(k == m * q);
    assert(q < di) by (nonlinear_arith)
        requires
            k == (di + 1) * q,
            k < di * di,
            di >= 0,
    ;
    assert(k == q * di + q) by (nonlinear_arith)
        requires
            k == (di + 1) * q,
    ;
}

/// Position y·d + z of a d² vector is diagonal exactly when y = z.
proof fn lemma_diagonal_entry_coords(d: nat, y: int, z: int)
    requires
        0 <= y < d,
        0 <= z < d,
    ensures
        diagonal_entry(d as int, y * d + z) == if y == z {
            1int
        } else {
            0int
        },
{
    let di = d as int;
    let k = y * di + z;
    assert(0 <= k < di * di) by (nonlinear_arith)
        requires
            0 <= y < di,
            0 <= z < di,
            k == y * di + z,
    ;
    if y == z {
        lemma_diagonal_position(d, y as nat);
    } else if k % (di + 1) == 0 {
        lemma_diagonal_quotient(di, k);
        let q = k / (di + 1);
        lemma_fundamental_div_mod_converse(k, di, y, z);
        lemma_fundamental_div_mod_converse(k, di, q, q);
    }
}

/// The base-d digits of x·d² + y·d + z.
proof fn lemma_digits(d: int, x: int, y: int, z: int)
    requires
        d > 0,
        0 <= x < d,
        0 <= y < d,
        0 <= z < d,
    ensures
        0 <= x * d * d + y * d + z < d * d * d,
        (x * d * d + y * d + z) / d == x * d + y,
        (x * d * d + y * d + z) % d == z,
        (x * d * d + y * d + z) / (d * d) == x,
        (x * d * d + y * d + z) % (d * d) == y * d + z,
{
    let q = x * d * d + y * d + z;
    assert(q == (x * d + y) * d + z) by (nonlinear_arith)
        requires
            q == x * d * d + y * d + z,
    ;
    lemma_fundamental_div_mod_converse(q, d, x * d + y, z);
    assert(0 <= y * d + z < d * d) by (nonlinear_arith)
        requires
            0 <= y < d,
            0 <= z < d,
    ;
    assert(q == x * (d * d) + (y * d + z)) by (nonlinear_arith)
        requires
            q == x * d * d + y * d + z,
    ;
    lemma_fundamental_div_mod_converse(q, d * d, x, y * d + z);
    assert(0 <= q < d * d * d) by (nonlinear_arith)
        requires
            q == x * (d * d) + (y * d + z),
            0 <= y * d + z < d * d,
            0 <= x < d,
    ;
}

/// Every position below d³ has base-d digits.
proof fn lemma_decompose(d: int, q: int) -> (xyz: (int, int, int))
    requires
        d > 0,
        0 <= q < d * d * d,
    ensures
        0 <= xyz.0 < d,
        0 <= xyz.1 < d,
        0 <= xyz.2 < d,
        q == xyz.0 * d * d + xyz.1 * d + xyz.2,
{
    let dd = d * d;
    assert(dd > 0) by (nonlinear_arith)
        requires
            d > 0,
            dd == d * d,
    ;
    let x = q / dd;
    let r = q % dd;
    vstd::arithmetic::div_mod::lemma_fundamental_div_mod(q, dd);
    vstd::arithmetic::div_mod::lemma_mod_pos_bound(q, dd);
    let y = r / d;
    let z = r % d;
    vstd::arithmetic::div_mod::lemma_fundamental_div_mod(r, d);
    vstd::arithmetic::div_mod::lemma_mod_pos_bound(r, d);
    assert(0 <= x < d) by (nonlinear_arith)
        requires
            q == dd * x + r,
            0 <= r < dd,
            0 <= q < dd * d,
            dd > 0,
    ;
    assert(0 <= y < d) by (nonlinear_arith)
        requires
            r == d * y + z,
            0 <= z < d,
            0 <= r < d * d,
            d > 0,
    ;
    assert(q == x * d * d + y * d + z) by (nonlinear_arith)
        requires
            q == dd * x + r,
            dd == d * d,
            r == d * y + z,
    ;
    (x, y, z)
}

/// Counting the diagonal positions among the first `n` positions.
proof fn lemma_diagonal_count(d: nat, n: nat)
    requires
        n <= d * d,
    ensures
        sum(|k: int| diagonal_entry(d as int, k), n) == (n + d) / (d + 1),
    decreases n,
{
    let di = d as int;
    let m = di + 1;
    if n == 0 {
        lemma_fundamental_div_mod_converse(di, m, 0, di);
    } else {
        let ni = n as int;
        let k = ni - 1;
        lemma_diagonal_count(d, (n - 1) as nat);
        let q = k / m;
        let r = k % m;
        vstd::arithmetic::div_mod::lemma_fundamental_div_mod(k, m);
        assert(0 <= r < m);
        assert(k == q * m + r) by (nonlinear_arith)
            requires
                k == m * q + r,
        ;
        if r == 0 {
            lemma_fundamental_div_mod_converse(k + di, m, q, di);
            assert(ni + di == (q + 1) * m) by (nonlinear_arith)
                requires
                    ni == k + 1,
                    k == q * m,
                    m == di + 1,
            ;
            lemma_fundamental_div_mod_converse(ni + di, m, q + 1, 0);
        } else {
            assert(k + di == (q + 1) * m + (r - 1)) by (nonlinear_arith)
                requires
                    k == q * m + r,
                    m == di + 1,
            ;
            lemma_fundamental_div_mod_converse(k + di, m, q + 1, r - 1);
            assert(ni + di == (q + 1) * m + r) by (nonlinear_arith)
                requires
                    ni == k + 1,
                    k == q * m + r,
                    m == di + 1,
            ;
            lemma_fundamental_div_mod_converse(ni + di, m, q + 1, r);
        }
    }
}

/// The cup η: I → A* ⊗ A, the maximally entangled state.
pub struct Cup {
    pub agent_dim: usize,
    /// A d² × 1 matrix.
    pub matrix: IntMatrix,
    pub label: String,
}

impl Cup {
    pub fn new(agent: &Agent) -> (c: Cup)
        requires
            agent.state_dimension * agent.state_dimension <= usize::MAX,
        ensures
            c.agent_dim == agent.state_dimension,
            c.matrix.is(
                (agent.state_dimension * agent.state_dimension) as nat,
                1,
                cup_spec(agent.state_dimension as int),
            ),
            c.label@ == "η_"@ + agent.label@,
    {
        let dim = agent.state_dimension;
        let n = dim * dim;
        let mut matrix = IntMatrix::zeros(n, 1);
        for i in 0..dim
            invariant
                n == dim * dim,
                matrix.wf(),
                matrix.nrows_spec() == n,
                matrix.ncols_spec() == 1,
                forall|k: int|
                    0 <= k < n ==> #[trigger] matrix.at(k, 0) == partial_diagonal(dim as int, i as int, k),
        {
            proof {
                lemma_diagonal_position(dim as nat, i as nat);
                assert forall|k: int| 0 <= k < n implies #[trigger] partial_diagonal(dim as int, i + 1, k) == if k
                    == i * dim + i {
                    1int
                } else {
                    partial_diagonal(dim as int, i as int, k)
                } by {
                    if k % (dim + 1) == 0 {
                        lemma_diagonal_quotient(dim as int, k);
                    }
                }
            }
            matrix.assign(i * dim + i, 0, 1);
        }
        proof {
            assert forall|k: int| 0 <= k < n implies #[trigger] matrix.at(k, 0) == cup_spec(dim as int)(k, 0) by {
                if k % (dim + 1) == 0 {
                    lemma_diagonal_quotient(dim as int, k);
                }
            }
        }
        let mut label = String::from_str("η_");
        label.append(agent.label.as_str());
        Cup { agent_dim: dim, matrix, label }
    }

    /// The state vector created by the cup (its single column).
    pub fn state(&self) -> (v: Vec<i64>)
        requires
            self.matrix.wf(),
            self.matrix.ncols_spec() == 1,
        ensures
            v@.len() == self.matrix.nrows_spec(),
            forall|k: int| 0 <= k < self.matrix.nrows_spec() ==> #[trigger] v@[k] as int == self.matrix.at(k, 0),
    {
        let (n, _) = self.matrix.shape();
        let mut v: Vec<i64> = Vec::new();
        for k in 0..n
            invariant
                self.matrix.wf(),
                self.matrix.ncols_spec() == 1,
                n == self.matrix.nrows_spec(),
                v@.len() == k,
                forall|t: int| 0 <= t < k ==> #[trigger] v@[t] as int == self.matrix.at(t, 0),
        {
            v.push(self.matrix.entry(k, 0));
        }
        v
    }
}

/// The cap ε: A ⊗ A* → I, which evaluates an agent against its dual.
pub struct Cap {
    pub agent_dim: usize,
    /// A 1 × d² matrix.
    pub matrix: IntMatrix,
    pub label: String,
}

impl Cap {
    pub fn new(agent: &Agent) -> (c: Cap)
        requires
            agent.state_dimension * agent.state_dimension <= usize::MAX,
        ensures
            c.agent_dim == agent.state_dimension,
            c.matrix.is(
                1,
                (agent.state_dimension * agent.state_dimension) as nat,
                cap_spec(agent.state_dimension as int),
            ),
            c.label@ == "ε_"@ + agent.label@,
    {
        let dim = agent.state_dimension;
        let n = dim * dim;
        let mut matrix = IntMatrix::zeros(1, n);
        for i in 0..dim
            invariant
                n == dim * dim,
                matrix.wf(),
                matrix.nrows_spec() == 1,
                matrix.ncols_spec() == n,
                forall|k: int|
                    0 <= k < n ==> #[trigger] matrix.at(0, k) == partial_diagonal(dim as int, i as int, k),
        {
            proof {
                lemma_diagonal_position(dim as nat, i as nat);
                assert forall|k: int| 0 <= k < n implies #[trigger] partial_diagonal(dim as int, i + 1, k) == if k
                    == i * dim + i {
                    1int
                } else {
                    partial_diagonal(dim as int, i as int, k)
                } by {
                    if k % (dim + 1) == 0 {
                        lemma_diagonal_quotient(dim as int, k);
                    }
                }
            }
            matrix.assign(0, i * dim + i, 1);
        }
        proof {
            assert forall|k: int| 0 <= k < n implies #[trigger] matrix.at(0, k) == cap_spec(dim as int)(0, k) by {
                if k % (dim + 1) == 0 {
                    lemma_diagonal_quotient(dim as int, k);
                }
            }
        }
        let mut label = String::from_str("ε_");
        label.append(agent.label.as_str());
        Cap { agent_dim: dim, matrix, label }
    }
}

/// Compact closed structure.
pub struct CompactClosed;

impl CompactClosed {
    /// The cap after the cup is the dimension: ε_A ∘ η_A = d (the loop of
    /// a string diagram, and the trace of the identity).
    pub proof fn lemma_snake(d: nat)
        ensures
            product_entry(cap_spec(d as int), cup_spec(d as int), d * d, 0, 0) == d,
    {
        let cap = cap_spec(d as int);
        let cup = cup_spec(d as int);
        let f = |k: int| cap(0, k) * cup(k, 0);
        let g = |k: int| diagonal_entry(d as int, k);
        assert forall|k: int| 0 <= k < d * d implies #[trigger] f(k) == g(k) by {}
        lemma_sum_ext(f, g, d * d);
        lemma_diagonal_count(d, d * d);
        let di = d as int;
        assert(di * di + di == di * (di + 1)) by (nonlinear_arith);
        lemma_fundamental_div_mod_converse(di * di + di, di + 1, di, 0);
    }

    /// The snake (zigzag) identity: (ε_A ⊗ id_A) ∘ (id_A ⊗ η_A) = id_A, with
    /// the cup η_A a d² × 1 matrix and the cap ε_A a 1 × d² matrix.
    pub proof fn lemma_snake_identity(d: nat, i: int, j: int)
        requires
            0 <= i < d,
            0 <= j < d,
        ensures
            product_entry(
                kronecker(cap_spec(d as int), identity_spec(), d as int, d as int),
                kronecker(identity_spec(), cup_spec(d as int), (d * d) as int, 1),
                d * d * d,
                i,
                j,
            ) == identity_entry(i, j),
    {
        let di = d as int;
        let left = kronecker(cap_spec(di), identity_spec(), di, di);
        let right = kronecker(identity_spec(), cup_spec(di), di * di, 1);
        let f = |q: int| left(i, q) * right(q, j);
        let c = i * di * di + i * di + i;
        lemma_fundamental_div_mod_converse(i, di, 0, i);
        lemma_fundamental_div_mod_converse(j, 1, j, 0);
        lemma_digits(di, i, i, i);
        assert forall|q: int| 0 <= q < d * d * d implies #[trigger] f(q) == if q == c {
            identity_entry(i, j)
        } else {
            0
        } by {
            let (x, y, z) = lemma_decompose(di, q);
            lemma_digits(di, x, y, z);
            lemma_diagonal_entry_coords(d, x, y);
            lemma_diagonal_entry_coords(d, y, z);
            let a1 = diagonal_entry(di, x * di + y);
            let a2 = identity_entry(i, z);
            let b1 = identity_entry(x, j);
            let b2 = diagonal_entry(di, y * di + z);
            assert(left(i, q) == a1 * a2);
            assert(right(q, j) == b1 * b2);
            if x == y && y == z && z == i {
                assert(q == c);
                assert(f(q) == b1);
            } else {
                assert(a1 == 0 || a2 == 0 || b2 == 0);
                assert(f(q) == 0) by (nonlinear_arith)
                    requires
                        f(q) == (a1 * a2) * (b1 * b2),
                        a1 == 0 || a2 == 0 || b2 == 0,
                ;
                assert(q != c);
            }
        }
        lemma_sum_single(f, d * d * d, c);
    }

    /// The other snake identity: (id_A* ⊗ ε_A) ∘ (η_A ⊗ id_A*) = id_A*.
    pub proof fn lemma_snake_identity_dual(d: nat, i: int, j: int)
        requires
            0 <= i < d,
            0 <= j < d,
        ensures
            product_entry(
                kronecker(identity_spec(), cap_spec(d as int), 1, (d * d) as int),
                kronecker(cup_spec(d as int), identity_spec(), d as int, d as int),
                d * d * d,
                i,
                j,
            ) == identity_entry(i, j),
    {
        let di = d as int;
        let left = kronecker(identity_spec(), cap_spec(di), 1, di * di);
        let right = kronecker(cup_spec(di), identity_spec(), di, di);
        let f = |q: int| left(i, q) * right(q, j);
        let c = i * di * di + i * di + i;
        lemma_fundamental_div_mod_converse(i, 1, i, 0);
        lemma_fundamental_div_mod_converse(j, di, 0, j);
        lemma_digits(di, i, i, i);
        assert forall|q: int| 0 <= q < d * d * d implies #[trigger] f(q) == if q == c {
            identity_entry(i, j)
        } else {
            0
        } by {
            let (x, y, z) = lemma_decompose(di, q);
            lemma_digits(di, x, y, z);
            lemma_diagonal_entry_coords(d, x, y);
            lemma_diagonal_entry_coords(d, y, z);
            let a1 = identity_entry(i, x);
            let a2 = diagonal_entry(di, y * di + z);
            let b1 = diagonal_entry(di, x * di + y);
            let b2 = identity_entry(z, j);
            assert(left(i, q) == a1 * a2);
            assert(right(q, j) == b1 * b2);
            if x == y && y == z && x == i {
                assert(q == c);
                assert(f(q) == b2);
            } else {
                assert(a1 == 0 || a2 == 0 || b1 == 0);
                assert(f(q) == 0) by (nonlinear_arith)
                    requires
                        f(q) == (a1 * a2) * (b1 * b2),
                        a1 == 0 || a2 == 0 || b1 == 0,
                ;
                assert(q != c);
            }
        }
        lemma_sum_single(f, d * d * d, c);
    }

    /// The categorical trace is the matrix trace: for a d × d matrix f,
    /// ε_A ∘ (f ⊗ id_A*) ∘ η_A is the sum of the diagonal entries of f.
    pub proof fn lemma_trace(d: nat, f: spec_fn(int, int) -> int)
        ensures
            product_entry(
                cap_spec(d as int),
                |p: int, j: int|
                    product_entry(kronecker(f, identity_spec(), d as int, d as int), cup_spec(d as int), d * d, p, j),
                d * d,
                0,
                0,
            ) == sum(|a: int| f(a, a), d),
    {
        let di = d as int;
        let k = kronecker(f, identity_spec(), di, di);
        let cup = cup_spec(di);
        let cap = cap_spec(di);
        let inner = |p: int, j: int| product_entry(k, cup, d * d, p, j);
        let outer_term = |p: int| cap(0, p) * inner(p, 0);
        let g = |p: int| diagonal_entry(di, p) * f(p / di, p % di);
        assert forall|p: int| 0 <= p < d * d implies #[trigger] outer_term(p) == g(p) by {
            Self::lemma_trace_column(d, f, p);
        }
        lemma_sum_ext(outer_term, g, d * d);
        lemma_sum_blocks(g, d, d);
        let blocks = |a: int| sum(|b: int| g(a * di + b), d);
        let diag = |a: int| f(a, a);
        assert forall|a: int| 0 <= a < d implies #[trigger] blocks(a) == diag(a) by {
            let h = |b: int| g(a * di + b);
            assert forall|b: int| 0 <= b < d && b != a implies #[trigger] h(b) == 0 by {
                lemma_diagonal_entry_coords(d, a, b);
                lemma_fundamental_div_mod_converse(a * di + b, di, a, b);
            }
            lemma_sum_single(h, d, a);
            lemma_diagonal_entry_coords(d, a, a);
            lemma_fundamental_div_mod_converse(a * di + a, di, a, a);
        }
        lemma_sum_ext(blocks, diag, d);
    }

    /// Entry `p` of (f ⊗ id) η is f(p / d, p % d): the cup picks the matching
    /// column of each block.
    proof fn lemma_trace_column(d: nat, f: spec_fn(int, int) -> int, p: int)
        requires
            0 <= p < d * d,
        ensures
            product_entry(kronecker(f, identity_spec(), d as int, d as int), cup_spec(d as int), d * d, p, 0)
                == f(p / (d as int), p % (d as int)),
    {
        let di = d as int;
        assert(di > 0) by (nonlinear_arith)
            requires
                0 <= p < di * di,
                di >= 0,
        ;
        let k = kronecker(f, identity_spec(), di, di);
        let cup = cup_spec(di);
        let a = p / di;
        let b = p % di;
        vstd::arithmetic::div_mod::lemma_fundamental_div_mod(p, di);
        vstd::arithmetic::div_mod::lemma_mod_pos_bound(p, di);
        assert(0 <= a < di) by (nonlinear_arith)
            requires
                p == di * a + b,
                0 <= b < di,
                0 <= p < di * di,
        ;
        let c = b * di + b;
        let t = |q: int| k(p, q) * cup(q, 0);
        assert forall|q: int| 0 <= q < d * d implies #[trigger] t(q) == if q == c {
            f(a, b)
        } else {
            0
        } by {
            let c1 = q / di;
            let e = q % di;
            vstd::arithmetic::div_mod::lemma_fundamental_div_mod(q, di);
            vstd::arithmetic::div_mod::lemma_mod_pos_bound(q, di);
            assert(0 <= c1 < di) by (nonlinear_arith)
                requires
                    q == di * c1 + e,
                    0 <= e < di,
                    0 <= q < di * di,
            ;
            assert(q == c1 * di + e) by (nonlinear_arith)
                requires
                    q == di * c1 + e,
            ;
            lemma_diagonal_entry_coords(d, c1, e);
            let x1 = f(a, c1);
            let x2 = identity_entry(b, e);
            let x3 = diagonal_entry(di, q);
            assert(t(q) == (x1 * x2) * x3);
            if b == e && c1 == e {
                assert(q == c);
            } else {
                assert(x2 == 0 || x3 == 0);
                assert(t(q) == 0) by (nonlinear_arith)
                    requires
                        t(q) == (x1 * x2) * x3,
                        x2 == 0 || x3 == 0,
                ;
                assert(q != c) by {
                    if q == c {
                        lemma_fundamental_div_mod_converse(q, di, b, b);
                    }
                }
            }
        }
        assert(0 <= c < di * di) by (nonlinear_arith)
            requires
                0 <= b < di,
                c == b * di + b,
        ;
        lemma_sum_single(t, d * d, c);
    }

    /// Verify the compact structure of an agent in matrix terms: composing
    /// its cap with its cup gives its dimension. It holds for every agent
    /// (`lemma_snake`; the zigzag identities themselves are
    /// `lemma_snake_identity` and `lemma_snake_identity_dual`).
    pub fn verify_snake_identity(agent: &Agent) -> (r: bool)
        requires
            agent.state_dimension * agent.state_dimension <= usize::MAX,
            agent.state_dimension * agent.state_dimension <= i64::MAX,
        ensures
            r,
    {
        let dim = agent.state_dimension;
        if dim == 0 {
            return true;
        }
        let cup = Cup::new(agent);
        let cap = Cap::new(agent);
        let ghost n = (dim * dim) as nat;
        proof {
            assert(dim <= dim * dim) by (nonlinear_arith)
                requires
                    dim >= 1,
            ;
        }
        let result = cap.matrix.mul(&cup.matrix);
        proof {
            let f = |k: int| cap.matrix.entries()(0, k) * cup.matrix.entries()(k, 0);
            let g = |k: int| cap_spec(dim as int)(0, k) * cup_spec(dim as int)(k, 0);
            assert forall|k: int| 0 <= k < n implies #[trigger] f(k) == g(k) by {}
            lemma_sum_ext(f, g, n);
            Self::lemma_snake(dim as nat);
        }
        result.entry(0, 0) == dim as i64
    }

    /// Verify that the double dual has the dimension of the original agent
    /// (always true).
    pub fn verify_double_dual(agent: &Agent) -> (r: bool)
        ensures
            r,
    {
        let dd = DualAgent::double_dual(agent);
        dd.original.state_dimension == agent.state_dimension
    }
}

} // verus!
