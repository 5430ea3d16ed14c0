use faiss_rabitq::construct::{BuildStep, IndexBuild};
use faiss_rabitq::{FaissError, IndexKind, MetricType};

fn message(step: BuildStep) -> String {
    match step {
        BuildStep::Fail(e) => e.message(),
        _ => panic!("expected the build to stop"),
    }
}

#[test]
fn ivf_rabitq_build_goes_through_every_step() {
    let (mut plan, step) = IndexBuild::start(IndexKind::IvfRaBitQ, 16, 8, MetricType::L2);
    assert!(matches!(step, BuildStep::CheckVersion));
    match plan.on_version(Some(b"1.11.0".to_vec())) {
        BuildStep::Create { dimension, description, metric } => {
            assert_eq!(dimension, 16);
            assert_eq!(description, "IVF8,RaBitQ");
            assert_eq!(metric, 1);
        }
        _ => panic!("expected the factory call"),
    }
    assert!(matches!(plan.on_created(0, || None, false), BuildStep::ReadDimension));
    match plan.on_dimension(16) {
        BuildStep::Done(shape) => assert_eq!(shape.dimension(), 16),
        _ => panic!("expected a built index"),
    }
}

#[test]
fn parameter_is_checked_before_anything_else() {
    let (_, step) = IndexBuild::start(IndexKind::IvfRaBitQ, 0, 0, MetricType::L2);
    assert_eq!(message(step), "nlist must be greater than 0");
    let (_, step) = IndexBuild::start(IndexKind::Hnsw, 0, 0, MetricType::L2);
    assert_eq!(message(step), "hnsw M must be greater than 0");
}

#[test]
fn release_is_checked_before_the_dimension() {
    let (mut plan, step) = IndexBuild::start(IndexKind::IvfRaBitQ, 0, 4, MetricType::L2);
    assert!(matches!(step, BuildStep::CheckVersion));
    assert_eq!(
        message(plan.on_version(Some(b"1.9.0".to_vec()))),
        "Faiss version 1.9.0 does not support IVF-RaBitQ; requires >= 1.11.0"
    );
    let (mut plan, _) = IndexBuild::start(IndexKind::IvfRaBitQ, 0, 4, MetricType::L2);
    assert_eq!(
        message(plan.on_version(Some(b"1.11.1".to_vec()))),
        "dimension must be greater than 0"
    );
    let (mut plan, _) = IndexBuild::start(IndexKind::IvfRaBitQ, 8, 4, MetricType::L2);
    assert!(matches!(plan.on_version(None), BuildStep::Fail(FaissError::NullPointer(_))));
}

#[test]
fn other_kinds_go_straight_to_the_factory() {
    let (_, step) = IndexBuild::start(IndexKind::IvfSq8, 32, 1024, MetricType::InnerProduct);
    match step {
        BuildStep::Create { dimension, description, metric } => {
            assert_eq!(dimension, 32);
            assert_eq!(description, "IVF1024,SQ8");
            assert_eq!(metric, 0);
        }
        _ => panic!("expected the factory call"),
    }
    let (_, step) = IndexBuild::start(IndexKind::Hnsw, 16, 32, MetricType::L2);
    match step {
        BuildStep::Create { description, .. } => assert_eq!(description, "HNSW32"),
        _ => panic!("expected the factory call"),
    }
    let (_, step) = IndexBuild::start(IndexKind::IvfSq8, 0, 8, MetricType::L2);
    assert_eq!(message(step), "dimension must be greater than 0");
    let (_, step) = IndexBuild::start(IndexKind::Hnsw, 3_000_000_000, 8, MetricType::L2);
    assert_eq!(message(step), "dimension 3000000000 exceeds c_int::MAX");
}

#[test]
fn factory_failures_stop_the_build() {
    let (mut plan, _) = IndexBuild::start(IndexKind::Hnsw, 16, 32, MetricType::L2);
    assert_eq!(
        message(plan.on_created(2, || Some(b"unknown index type".to_vec()), false)),
        "Faiss API call failed: unknown index type"
    );
    let (mut plan, _) = IndexBuild::start(IndexKind::Hnsw, 16, 32, MetricType::L2);
    assert_eq!(
        message(plan.on_created(0, || None, true)),
        "faiss_index_factory succeeded but returned a null index pointer"
    );
    let (mut plan, _) = IndexBuild::start(IndexKind::Hnsw, 16, 32, MetricType::L2);
    assert!(matches!(plan.on_created(0, || None, false), BuildStep::ReadDimension));
    assert_eq!(
        message(plan.on_dimension(0)),
        "factory returned invalid index dimension: 0"
    );
}
