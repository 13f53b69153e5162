# lau-categorical-mechanics

Categorical foundations for symplectic mechanics and agents: symplectic
manifolds map to agents through the Hamiltonian functor, conserved
quantities are natural transformations, observables form a presheaf, agents
compose in parallel through a monoidal product with a braiding, and every
agent has a dual with cups and caps.

## Layout

- `src/` — the verified library. It holds the discrete structure of the
  theory, with contracts and laws proved by Verus:
  - `exact.rs`: exact integer matrices (nalgebra matrices of `i64`) for the
    structural maps, matrix products as sums, and lemmas about them;
  - `symplectic.rs`: manifolds, the canonical form ω (antisymmetric, ω² = -I),
    symplectomorphisms and their composition;
  - `agent.rs`: capabilities, agents, morphisms, capability maps, and the
    category laws on them;
  - `functor.rs`: the Hamiltonian functor and functoriality;
  - `natural.rs`: components, vertical composition, Noether's conserved
    quantities;
  - `presheaf.rs`: observables and their pull-backs;
  - `yoneda.rs`: hom-sets, the Yoneda embedding, profiles;
  - `adjunction.rs`: observation and control functors, unit and counit;
  - `monoidal.rs`: tensor products, the swap braiding and its laws;
  - `compact.rs`: duals, cups, caps and the snake identity;
  - `application.rs`: multi-agent systems.
- `app/` — the floating-point layer: states, matrices, Hamiltonians and the
  numerical checks, computed with nalgebra beside the verified structure, and
  the serde derives.
- `tests/` — tests of the library.
