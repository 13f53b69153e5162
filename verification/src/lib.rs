//! Categorical mechanics: symplectic phase spaces, agents with capabilities,
//! and the functors, natural transformations, presheaves, adjunctions and
//! monoidal and compact closed structure that relate them.
//!
//! This crate holds the discrete structure of the theory: dimensions,
//! capabilities, capability maps, labels, and the exact integer matrices of
//! the structural maps (the canonical symplectic form, the swap braiding,
//! cups and caps, the momentum projection), each with its contract and the
//! laws it obeys. Floating-point states and matrices, and the linear algebra
//! on them, are the caller's.
pub mod exact;
pub mod symplectic;
pub mod agent;
pub mod functor;
pub mod natural;
pub mod presheaf;
pub mod yoneda;
pub mod adjunction;
pub mod monoidal;
pub mod compact;
pub mod application;

pub use exact::IntMatrix;
pub use symplectic::{SymplecticManifold, Symplectomorphism, canonical_form};
pub use agent::{Agent, AgentCategory, AgentMorphism, Capability};
pub use functor::HamiltonianFunctor;
pub use natural::{ConservationLaw, NatTransformComponent, NaturalTransformation, NoetherTheorem};
pub use presheaf::{MeasurementType, Observable, ObservablePresheaf};
pub use yoneda::{AgentProfile, HomSet, RepresentableFunctor, YonedaCorrespondence, YonedaEmbedding};
pub use adjunction::{ControlFunctor, ObsCtrlAdjunction, ObservationFunctor, StateMorphism, StateSpace};
pub use monoidal::{Braiding, MonoidalAgent, MonoidalMorphism, unit_agent, verify_associator};
pub use compact::{Cap, CompactClosed, Cup, DualAgent};
pub use application::{LauSystem, sample_system};
