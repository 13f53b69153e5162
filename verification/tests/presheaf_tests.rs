use lau_categorical_mechanics::{Agent, AgentMorphism, MeasurementType, Observable, ObservablePresheaf};

#[test]
fn scalar_and_vector_observables() {
    let s = Observable::scalar(1, 2, "position");
    assert_eq!(s.measurement_type, MeasurementType::Scalar);
    assert_eq!((s.map_rows, s.map_cols), (1, 2));
    let v = Observable::vector(2, 4, 2, "momentum");
    assert_eq!(v.measurement_type, MeasurementType::Vector(2));
    assert_eq!(v.label, "momentum");
}

#[test]
fn pull_back_reads_the_source() {
    let obs = Observable::vector(2, 3, 2, "state");
    let a1 = Agent::new(5, vec![], "a1");
    let a2 = Agent::new(3, vec![], "a2");
    let f = AgentMorphism::new(3, 5, 3, &a1, &a2, vec![], "shift").unwrap();
    let pulled = obs.pull_back(&f);
    assert_eq!(pulled.label, "state∘shift");
    assert_eq!(pulled.measurement_type, MeasurementType::Vector(2));
    assert_eq!((pulled.map_rows, pulled.map_cols), (2, 5));
}

#[test]
fn functorial_action_pulls_back_every_observable() {
    let p = ObservablePresheaf::new(vec![
        Observable::vector(2, 2, 2, "state"),
        Observable::scalar(1, 2, "sum"),
    ]);
    let a = Agent::new(2, vec![], "a");
    let id = AgentMorphism::identity(&a);
    let q = p.functorial_action(&id);
    assert_eq!(q.observables.len(), 2);
    assert_eq!(q.observables[0].label, "state∘id");
    assert_eq!(q.observables[1].label, "sum∘id");
    assert_eq!(q.observables[1].measurement_type, MeasurementType::Scalar);
}
