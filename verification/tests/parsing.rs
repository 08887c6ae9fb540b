use kannolo::error::IndexError;
use kannolo::graph_type::{
    graph_type_named, parse_build_graph_type, parse_graph_type, GraphTypeKind, NeighborStorage,
    MAX_NEIGHBORS_PER_NODE,
};
use kannolo::hnsw::{check_build_arguments, check_load_arguments, Reordering};
use kannolo::metric::{metric_named, parse_metric, MetricKind};

#[test]
fn metrics_are_named_in_any_case() {
    for name in ["euclidean", "l2", "L2", "Euclidean", "EUCLIDEAN"] {
        assert!(matches!(parse_metric(name), Ok(MetricKind::Euclidean)), "{name}");
    }
    for name in ["dotproduct", "ip", "IP", "DotProduct", "dotProduct"] {
        assert!(matches!(parse_metric(name), Ok(MetricKind::DotProduct)), "{name}");
    }
    for name in ["", "cosine", "l2 ", "dot product"] {
        assert!(matches!(parse_metric(name), Err(IndexError::InvalidMetric)), "{name}");
    }
    assert_eq!(metric_named("L2"), None);
    assert_eq!(metric_named("ip"), Some(MetricKind::DotProduct));
}

#[test]
fn graph_types_are_named_in_any_case() {
    assert!(matches!(parse_graph_type("standard"), Ok(GraphTypeKind::Standard)));
    assert!(matches!(parse_graph_type("Permuted"), Ok(GraphTypeKind::Permuted)));
    assert!(matches!(parse_graph_type("COMPRESSED"), Ok(GraphTypeKind::Compressed)));
    match parse_graph_type("Sideways") {
        Err(IndexError::UnknownGraphType(other)) => assert_eq!(other, "sideways"),
        _ => panic!("accepted an unknown graph type"),
    }
    assert_eq!(graph_type_named("Permuted"), None);
}

#[test]
fn only_compressed_storage_limits_neighbors() {
    assert_eq!(MAX_NEIGHBORS_PER_NODE, 256);
    for kind in [GraphTypeKind::Standard, GraphTypeKind::Permuted] {
        assert!(kind.holds(128) && kind.holds(129) && kind.holds(usize::MAX));
        assert_eq!(kind.storage(), NeighborStorage::Plain);
    }
    assert!(GraphTypeKind::Compressed.holds(128));
    assert!(!GraphTypeKind::Compressed.holds(129));
    assert_eq!(GraphTypeKind::Compressed.storage(), NeighborStorage::StreamVByte);
    assert!(matches!(parse_build_graph_type("compressed", 128), Ok(GraphTypeKind::Compressed)));
    assert!(matches!(
        parse_build_graph_type("compressed", 129),
        Err(IndexError::TooManyNeighbors { m: 129 })
    ));
    assert!(!GraphTypeKind::Compressed.holds(usize::MAX));
}

#[test]
fn the_graph_type_says_what_happens_to_a_graph() {
    assert_eq!(GraphTypeKind::Standard.reordering(), Reordering::Keep);
    assert_eq!(
        GraphTypeKind::Permuted.reordering(),
        Reordering::Permute(NeighborStorage::Plain)
    );
    assert_eq!(
        GraphTypeKind::Compressed.reordering(),
        Reordering::Permute(NeighborStorage::StreamVByte)
    );
}

#[test]
fn the_graph_type_is_checked_before_the_metric() {
    assert!(matches!(
        check_build_arguments("cosine", "sideways", 16),
        Err(IndexError::UnknownGraphType(_))
    ));
    assert!(matches!(
        check_build_arguments("cosine", "compressed", 300),
        Err(IndexError::TooManyNeighbors { m: 300 })
    ));
    assert!(matches!(check_build_arguments("cosine", "standard", 300), Err(IndexError::InvalidMetric)));
    assert!(matches!(
        check_build_arguments("L2", "Standard", 300),
        Ok((MetricKind::Euclidean, GraphTypeKind::Standard))
    ));
    assert!(matches!(
        check_load_arguments("ip", "compressed"),
        Ok((MetricKind::DotProduct, GraphTypeKind::Compressed))
    ));
    assert!(matches!(check_load_arguments("x", "compressed"), Err(IndexError::InvalidMetric)));
    assert!(matches!(check_load_arguments("ip", "x"), Err(IndexError::UnknownGraphType(_))));
}
