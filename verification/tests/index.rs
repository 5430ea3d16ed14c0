use faiss_rabitq::index::{
    check_created, check_factory_dimension, check_ivf, check_nprobe, count_from_raw,
    needs_rabitq_support,
};
use faiss_rabitq::{index_description, labels_for_query, FaissError, IndexKind, IndexShape, MetricType};

#[test]
fn rejects_invalid_rabitq_configuration() {
    let result = index_description(IndexKind::IvfRaBitQ, 0);
    assert!(matches!(result, Err(FaissError::InvalidArgument(_))));
}

#[test]
fn rejects_invalid_ivf_sq8_configuration() {
    let result = index_description(IndexKind::IvfSq8, 0);
    assert!(matches!(result, Err(FaissError::InvalidArgument(_))));
}

#[test]
fn rejects_invalid_hnsw_configuration() {
    let result = index_description(IndexKind::Hnsw, 0);
    assert!(matches!(result, Err(FaissError::InvalidArgument(_))));
}

#[test]
fn factory_descriptions() {
    assert_eq!(index_description(IndexKind::IvfRaBitQ, 8).unwrap(), "IVF8,RaBitQ");
    assert_eq!(index_description(IndexKind::IvfSq8, 1024).unwrap(), "IVF1024,SQ8");
    assert_eq!(index_description(IndexKind::Hnsw, 32).unwrap(), "HNSW32");
    match index_description(IndexKind::Hnsw, 0) {
        Err(FaissError::InvalidArgument(m)) => assert_eq!(m, "hnsw M must be greater than 0"),
        _ => panic!(),
    }
    match index_description(IndexKind::IvfSq8, 0) {
        Err(FaissError::InvalidArgument(m)) => assert_eq!(m, "nlist must be greater than 0"),
        _ => panic!(),
    }
    for kind in [IndexKind::IvfRaBitQ, IndexKind::IvfSq8, IndexKind::Hnsw] {
        for param in [1, 9, 10, 4096, usize::MAX] {
            assert!(!index_description(kind, param).unwrap().contains('\0'));
        }
    }
    assert!(needs_rabitq_support(IndexKind::IvfRaBitQ));
    assert!(!needs_rabitq_support(IndexKind::IvfSq8));
    assert!(!needs_rabitq_support(IndexKind::Hnsw));
}

#[test]
fn metric_codes() {
    assert_eq!(MetricType::InnerProduct.code(), 0);
    assert_eq!(MetricType::L2.code(), 1);
}

#[test]
fn factory_dimension_checks() {
    assert_eq!(check_factory_dimension(16).unwrap(), 16);
    assert_eq!(check_factory_dimension(2147483647).unwrap(), 2147483647);
    match check_factory_dimension(0) {
        Err(FaissError::InvalidArgument(m)) => assert_eq!(m, "dimension must be greater than 0"),
        _ => panic!(),
    }
    match check_factory_dimension(2147483648) {
        Err(FaissError::InvalidArgument(m)) => {
            assert_eq!(m, "dimension 2147483648 exceeds c_int::MAX")
        }
        _ => panic!(),
    }
}

#[test]
fn factory_result_checks() {
    assert!(check_created(false).is_ok());
    match check_created(true) {
        Err(e @ FaissError::NullPointer(_)) => assert_eq!(
            e.message(),
            "faiss_index_factory succeeded but returned a null index pointer"
        ),
        _ => panic!(),
    }
    assert_eq!(IndexShape::from_reported(16).unwrap().dimension(), 16);
    match IndexShape::from_reported(-3) {
        Err(FaissError::InvalidArgument(m)) => {
            assert_eq!(m, "factory returned invalid index dimension: -3")
        }
        _ => panic!(),
    }
    match IndexShape::from_reported(0) {
        Err(FaissError::InvalidArgument(m)) => {
            assert_eq!(m, "factory returned invalid index dimension: 0")
        }
        _ => panic!(),
    }
    match IndexShape::from_reported(i32::MIN) {
        Err(FaissError::InvalidArgument(m)) => {
            assert_eq!(m, "factory returned invalid index dimension: -2147483648")
        }
        _ => panic!(),
    }
}

#[test]
fn nprobe_and_ivf_checks() {
    assert!(check_nprobe(8).is_ok());
    match check_nprobe(0) {
        Err(FaissError::InvalidArgument(m)) => assert_eq!(m, "nprobe must be greater than 0"),
        _ => panic!(),
    }
    assert!(check_ivf(false).is_ok());
    match check_ivf(true) {
        Err(FaissError::UnsupportedIndexType(m)) => {
            assert_eq!(m, "factory result is not an IVF index")
        }
        _ => panic!(),
    }
}

#[test]
fn counts_from_the_library() {
    assert_eq!(count_from_raw(512), 512);
    assert_eq!(count_from_raw(0), 0);
    assert_eq!(count_from_raw(-1), usize::MAX);
}

#[test]
fn vector_buffers_hold_whole_vectors() {
    let shape = IndexShape::from_reported(16).unwrap();
    assert_eq!(shape.validate_vector_matrix(16 * 512).unwrap(), 512);
    assert_eq!(shape.validate_vector_matrix(16).unwrap(), 1);
    match shape.validate_vector_matrix(0) {
        Err(FaissError::InvalidArgument(m)) => {
            assert_eq!(m, "input vector buffer must not be empty")
        }
        _ => panic!(),
    }
    match shape.validate_vector_matrix(33) {
        Err(FaissError::DimensionMismatch { expected_multiple_of, actual_len }) => {
            assert_eq!(expected_multiple_of, 16);
            assert_eq!(actual_len, 33);
        }
        _ => panic!(),
    }
    let unit = IndexShape::from_reported(1).unwrap();
    if usize::MAX as u64 > i64::MAX as u64 {
        match unit.validate_vector_matrix(usize::MAX) {
            Err(FaissError::InvalidArgument(m)) => assert_eq!(
                m,
                format!("number of vectors {} exceeds i64::MAX", usize::MAX)
            ),
            _ => panic!(),
        }
    }
}

#[test]
fn search_plans() {
    let shape = IndexShape::from_reported(16).unwrap();
    let plan = shape.plan_search(3 * 16, 50).unwrap();
    assert_eq!(plan.queries, 3);
    assert_eq!(plan.k, 50);
    assert_eq!(plan.result_len, 150);
    match shape.plan_search(48, 0) {
        Err(FaissError::InvalidArgument(m)) => assert_eq!(m, "k must be greater than 0"),
        _ => panic!(),
    }
    if usize::MAX as u64 > i64::MAX as u64 {
        let k = (i64::MAX as usize) + 1;
        match shape.plan_search(48, k) {
            Err(FaissError::InvalidArgument(m)) => {
                assert_eq!(m, format!("k {k} exceeds i64::MAX"))
            }
            _ => panic!(),
        }
    }
    assert!(matches!(
        shape.plan_search(47, 10),
        Err(FaissError::DimensionMismatch { expected_multiple_of: 16, actual_len: 47 })
    ));
    assert!(matches!(shape.plan_search(0, 10), Err(FaissError::InvalidArgument(_))));
}

#[test]
fn rows_of_search_results() {
    let labels: Vec<i64> = vec![0, 5, 9, 64, 1, 2, 255, 254, -1];
    assert_eq!(labels_for_query(&labels, 3, 0), &[0, 5, 9]);
    assert_eq!(labels_for_query(&labels, 3, 1), &[64, 1, 2]);
    assert_eq!(labels_for_query(&labels, 3, 2), &[255, 254, -1]);
    let mut all = Vec::new();
    for q in 0..3 {
        all.extend_from_slice(labels_for_query(&labels, 3, q));
    }
    assert_eq!(all, labels);
}
