//! Presheaf of observables: a contravariant functor from agents to
//! measurements. An observable is a linear map from states to measurements
//! plus an offset; along a morphism f: A → B, an observable of B pulls back
//! to the observable `obs ∘ f` of A.
//!
//! The measurement maps are floating point and stay with the caller; here
//! stand their shapes, their kinds and labels, and how they pull back.
use vstd::prelude::*;
use crate::agent::{AgentMorphism, join3};

verus! {

/// A measurement type.
#[derive(Clone, Copy, Debug, PartialEq, Eq, Structural)]
pub enum MeasurementType {
    Scalar,
    Vector(usize),
    Matrix(usize, usize),
}

/// An observable: a map from agent states to measurements, whose matrix has
/// `map_rows` rows and `map_cols` columns, and whose offset has `map_rows`
/// entries.
pub struct Observable {
    pub label: String,
    pub measurement_type: MeasurementType,
    pub map_rows: usize,
    pub map_cols: usize,
}

impl Observable {
    /// A scalar observable from a map with a single row.
    pub fn scalar(map_rows: usize, map_cols: usize, label: &str) -> (o: Observable)
        requires
            map_rows == 1,
        ensures
            o.label@ == label@,
            o.measurement_type == MeasurementType::Scalar,
            o.map_rows == 1,
            o.map_cols == map_cols,
    {
        Observable {
            label: String::from_str(label),
            measurement_type: MeasurementType::Scalar,
            map_rows,
            map_cols,
        }
    }

    /// A vector observable of dimension `dim` from a map with `dim` rows.
    pub fn vector(map_rows: usize, map_cols: usize, dim: usize, label: &str) -> (o: Observable)
        requires
            map_rows == dim,
        ensures
            o.label@ == label@,
            o.measurement_type == MeasurementType::Vector(dim),
            o.map_rows == dim,
            o.map_cols == map_cols,
    {
        Observable {
            label: String::from_str(label),
            measurement_type: MeasurementType::Vector(dim),
            map_rows,
            map_cols,
        }
    }

    /// Pull this observable back along a morphism f: A → B (whose target is
    /// the space this observable reads): the result reads A by `obs ∘ f`;
    /// its matrix is the product of this matrix and the linear map of `f`,
    /// and its offset is this matrix applied to the offset of `f`, plus this
    /// offset.
    pub fn pull_back(&self, f: &AgentMorphism) -> (o: Observable)
        requires
            self.map_cols == f.target_dim,
        ensures
            o.label@ == self.label@ + "∘"@ + f.label@,
            o.measurement_type == self.measurement_type,
            o.map_rows == self.map_rows,
            o.map_cols == f.source_dim,
    {
        Observable {
            label: join3(self.label.as_str(), "∘", f.label.as_str()),
            measurement_type: self.measurement_type,
            map_rows: self.map_rows,
            map_cols: f.source_dim,
        }
    }
}

/// The presheaf of observables on the category of agents.
pub struct ObservablePresheaf {
    pub observables: Vec<Observable>,
}

impl ObservablePresheaf {
    pub fn new(observables: Vec<Observable>) -> (p: ObservablePresheaf)
        ensures
            p.observables@ == observables@,
    {
        ObservablePresheaf { observables }
    }

    /// The contravariant action: given f: A → B, pull every observable of B
    /// back to A.
    pub fn functorial_action(&self, f: &AgentMorphism) -> (p: ObservablePresheaf)
        requires
            forall|i: int| 0 <= i < self.observables@.len() ==> #[trigger] self.observables@[i].map_cols == f.target_dim,
        ensures
            p.observables@.len() == self.observables@.len(),
            forall|i: int|
                0 <= i < p.observables@.len() ==> {
                    let a = self.observables@[i];
                    let b = #[trigger] p.observables@[i];
                    &&& b.label@ == a.label@ + "∘"@ + f.label@
                    &&& b.measurement_type == a.measurement_type
                    &&& b.map_rows == a.map_rows
                    &&& b.map_cols == f.source_dim
                },
    {
        let mut pulled: Vec<Observable> = Vec::new();
        for i in 0..self.observables.len()
            invariant
                forall|k: int| 0 <= k < self.observables@.len() ==> #[trigger] self.observables@[k].map_cols == f.target_dim,
                pulled@.len() == i,
                forall|k: int|
                    0 <= k < i ==> {
                        let a = self.observables@[k];
                        let b = #[trigger] pulled@[k];
                        &&& b.label@ == a.label@ + "∘"@ + f.label@
                        &&& b.measurement_type == a.measurement_type
                        &&& b.map_rows == a.map_rows
                        &&& b.map_cols == f.source_dim
                    },
        {
            pulled.push(self.observables[i].pull_back(f));
        }
        ObservablePresheaf::new(pulled)
    }
}

} // verus!
