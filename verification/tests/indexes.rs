use kannolo::dense::PlainDenseDataset;
use kannolo::error::{BuildError, IndexError};
use kannolo::flat::DenseFlatIndex;
use kannolo::graph_type::NeighborStorage;
use kannolo::hnsw::{DensePlainHNSW, Eligibility, Reordering};
use kannolo::metric::MetricKind;
use kannolo::query::{EarlyTerminationStrategy, HNSWBuildConfiguration, HNSWSearchConfiguration};
use kannolo::ranking::ScoredVector;

type Rows = PlainDenseDataset<f32>;

fn nearest(rows: &Rows, metric: MetricKind, query: &[f32], k: usize) -> Vec<ScoredVector<f32>> {
    let mut found: Vec<ScoredVector<f32>> = (0..rows.len())
        .map(|i| {
            let row = rows.get(i);
            let distance = match metric {
                MetricKind::Euclidean => row.iter().zip(query).map(|(a, b)| (a - b) * (a - b)).sum(),
                MetricKind::DotProduct => row.iter().zip(query).map(|(a, b)| a * b).sum(),
            };
            ScoredVector { distance, vector: i as u64 }
        })
        .collect();
    found.sort_by(|a, b| match metric {
        MetricKind::Euclidean => a.distance.total_cmp(&b.distance),
        MetricKind::DotProduct => b.distance.total_cmp(&a.distance),
    });
    found.truncate(k);
    found
}

fn over_flat(index: &DenseFlatIndex<Rows>, query: &[f32], k: usize, _: &()) -> Vec<ScoredVector<f32>> {
    nearest(index.dataset(), index.metric(), query, k)
}

fn make(_: MetricKind, values: Vec<f32>, n: usize, dim: usize) -> Rows {
    Rows::from_raw(values, n, dim)
}

const DATA: [f64; 6] = [0.0, 0.0, 1.0, 1.0, 5.0, 5.0];

#[test]
fn a_dense_index_is_exact() {
    let index = DenseFlatIndex::build_from_array(&DATA, 2, "L2", &|v: f64| v as f32, make).unwrap();
    assert_eq!(index.dim(), 2);
    assert_eq!(index.metric(), MetricKind::Euclidean);
    let (distances, ids) = index.search(&[1.0, 2.0], 4, f32::INFINITY, &over_flat).unwrap();
    assert_eq!(distances, vec![1.0, 5.0, 25.0, f32::INFINITY]);
    assert_eq!(ids, vec![1, 0, 2, -1]);
    let (distances, ids) =
        index.batch_search(&[5.0, 5.0, 0.0, 0.0], 1, f32::INFINITY, &over_flat).unwrap();
    assert_eq!((distances, ids), (vec![0.0, 0.0], vec![2, 0]));
    assert!(matches!(
        index.search(&[1.0], 4, f32::INFINITY, &over_flat),
        Err(IndexError::QueryDimension { got: 1, dim: 2 })
    ));
    assert!(matches!(
        index.batch_search(&[1.0], 4, f32::INFINITY, &over_flat),
        Err(IndexError::QueriesLength { len: 1, dim: 2 })
    ));
}

#[test]
fn a_dense_index_needs_a_metric() {
    let failed = DenseFlatIndex::build_from_array(&DATA, 2, "cosine", &|v: f64| v as f32, make);
    assert!(matches!(failed, Err(IndexError::InvalidMetric)));
    let failed: Result<DenseFlatIndex<Rows>, BuildError<String>> =
        DenseFlatIndex::build_from_file("cosine", |_| Err("unread".to_string()));
    assert!(matches!(failed, Err(BuildError::Invalid(IndexError::InvalidMetric))));
    let failed: Result<DenseFlatIndex<Rows>, BuildError<String>> =
        DenseFlatIndex::build_from_file("ip", |_| Err("gone".to_string()));
    assert!(matches!(failed, Err(BuildError::Io(why)) if why == "gone"));
    let failed: Result<DenseFlatIndex<Rows>, BuildError<String>> =
        DenseFlatIndex::load("", |_| Err("unread".to_string()));
    assert!(matches!(failed, Err(BuildError::Invalid(IndexError::InvalidMetric))));
}

#[test]
fn a_dense_index_is_read_and_written() {
    let index: DenseFlatIndex<Rows> = DenseFlatIndex::load("IP", |metric| {
        assert_eq!(metric, MetricKind::DotProduct);
        Ok::<_, String>((Rows::from_raw(vec![1.0, 2.0], 1, 2), 2))
    })
    .map_err(|_| ())
    .unwrap();
    assert_eq!(index.dim(), 2);
    assert_eq!(index.save(|rows: &Rows| Err::<(), usize>(rows.values().len())), Err(2));
}

/// A graph stand-in that remembers how it was made.
struct Graph {
    rows: Rows,
    metric: MetricKind,
    config: HNSWBuildConfiguration,
    reordering: Reordering,
}

fn build(metric: MetricKind, rows: Rows, config: HNSWBuildConfiguration) -> (MetricKind, Rows, HNSWBuildConfiguration) {
    (metric, rows, config)
}

fn finish(plain: (MetricKind, Rows, HNSWBuildConfiguration), reordering: Reordering) -> Graph {
    Graph { metric: plain.0, rows: plain.1, config: plain.2, reordering }
}

type Index = DensePlainHNSW<Graph, usize>;

fn graph(metric: &str, graph_type: &str, m: usize) -> Result<Index, IndexError> {
    DensePlainHNSW::build_from_array(&DATA, 2, m, 150, metric, graph_type, &|v: f64| v as f32, make, build, finish)
}

fn over_graph(graph: &Graph, query: &[f32], k: usize, config: &HNSWSearchConfiguration<f32, ()>) -> Vec<ScoredVector<f32>> {
    let k = match config.early_termination {
        EarlyTerminationStrategy::Disabled => k,
        EarlyTerminationStrategy::DistanceAdaptive { .. } => 1,
    };
    nearest(&graph.rows, graph.metric, query, k.min(config.ef_search))
}

#[test]
fn a_graph_is_built_as_its_arguments_say() {
    let index = graph("dotproduct", "compressed", 16).unwrap();
    assert_eq!(index.metric(), MetricKind::DotProduct);
    assert_eq!(index.storage(), NeighborStorage::StreamVByte);
    assert_eq!(index.dim(), 2);
    let inner = index.index();
    assert_eq!(inner.metric, MetricKind::DotProduct);
    assert_eq!(inner.reordering, Reordering::Permute(NeighborStorage::StreamVByte));
    assert_eq!((inner.config.num_neighbors, inner.config.ef_construction), (16, 150));
    assert_eq!(inner.rows.len(), 3);
    assert_eq!(index.space_usage_bytes(|g: &Graph| g.rows.values().len() * 4), 24);
    assert!(matches!(graph("dotproduct", "compressed", 200), Err(IndexError::TooManyNeighbors { m: 200 })));
    assert!(matches!(graph("dot", "standard", 200), Err(IndexError::InvalidMetric)));
    assert!(matches!(graph("ip", "flat", 200), Err(IndexError::UnknownGraphType(_))));
}

#[test]
fn expanded_lists_leave_plain_searches_alone() {
    let mut index = graph("euclidean", "standard", 16).unwrap();
    let before = index.search(&[1.0, 2.0], 3, 2, None, f32::INFINITY, &over_graph).unwrap();
    let all = index.batch_search(&[5.0, 5.0, 0.0, 0.0], 2, 10, None, f32::INFINITY, &over_graph).unwrap();
    index.build_acorn_gamma(3, |g: &Graph, gamma: usize| g.rows.len() * gamma);
    assert_eq!(index.search(&[1.0, 2.0], 3, 2, None, f32::INFINITY, &over_graph).unwrap(), before);
    assert_eq!(index.batch_search(&[5.0, 5.0, 0.0, 0.0], 2, 10, None, f32::INFINITY, &over_graph).unwrap(), all);
}

#[test]
fn names_are_read_in_any_case() {
    let index = graph("DotProduct", "Compressed", 16).unwrap();
    assert_eq!((index.metric(), index.storage()), (MetricKind::DotProduct, NeighborStorage::StreamVByte));
    assert!(matches!(graph("L2", "FLAT", 8), Err(IndexError::UnknownGraphType(name)) if name == "flat"));
}

#[test]
fn a_graph_is_searched_with_its_settings() {
    let index = graph("euclidean", "standard", 16).unwrap();
    assert_eq!(index.index().reordering, Reordering::Keep);
    let (distances, ids) = index.search(&[1.0, 2.0], 3, 2, None, f32::INFINITY, &over_graph).unwrap();
    assert_eq!((distances, ids), (vec![1.0, 5.0, f32::INFINITY], vec![1, 0, -1]));
    let (_, ids) = index.search(&[1.0, 2.0], 3, 2, Some(0.1), f32::INFINITY, &over_graph).unwrap();
    assert_eq!(ids, vec![1, -1, -1]);
    let (_, ids) =
        index.batch_search(&[5.0, 5.0, 0.0, 0.0], 1, 10, None, f32::INFINITY, &over_graph).unwrap();
    assert_eq!(ids, vec![2, 0]);
    assert!(matches!(
        index.search(&[1.0], 3, 2, None, f32::INFINITY, &over_graph),
        Err(IndexError::QueryDimension { got: 1, dim: 2 })
    ));
    assert!(matches!(
        index.batch_search(&[1.0], 3, 2, None, f32::INFINITY, &over_graph),
        Err(IndexError::QueriesLength { len: 1, dim: 2 })
    ));
}

#[test]
fn a_graph_is_built_from_a_file_and_reloaded() {
    let index: Index = DensePlainHNSW::build_from_file(
        8,
        20,
        "l2",
        "permuted",
        |_| Ok::<_, String>((Rows::from_raw(vec![1.0, 2.0, 3.0], 1, 3), 3)),
        build,
        finish,
    )
    .map_err(|_| ())
    .unwrap();
    assert_eq!((index.dim(), index.storage()), (3, NeighborStorage::Plain));
    assert_eq!(index.save(|g: &Graph| Err::<(), usize>(g.rows.input_dim())), Err(3));
    let failed: Result<Index, BuildError<String>> =
        DensePlainHNSW::build_from_file(8, 20, "l2", "permuted", |_| Err("gone".to_string()), build, finish);
    assert!(matches!(failed, Err(BuildError::Io(why)) if why == "gone"));
    let failed: Result<Index, BuildError<String>> =
        DensePlainHNSW::build_from_file(200, 20, "l2", "compressed", |_| Err("gone".to_string()), build, finish);
    assert!(matches!(failed, Err(BuildError::Invalid(IndexError::TooManyNeighbors { m: 200 }))));

    let graph = graph("l2", "standard", 16).unwrap();
    let loaded: Index = DensePlainHNSW::load("L2", "Permuted", |metric, storage| {
        assert_eq!((metric, storage), (MetricKind::Euclidean, NeighborStorage::Plain));
        Ok::<_, String>((
            finish(build(metric, Rows::from_raw(graph.index().rows.values().clone(), 3, 2), graph.index().config), Reordering::Keep),
            2,
        ))
    })
    .map_err(|_| ())
    .unwrap();
    assert_eq!((loaded.dim(), loaded.storage(), loaded.metric()), (graph.dim(), graph.storage(), graph.metric()));
    let failed: Result<Index, BuildError<String>> =
        DensePlainHNSW::load("l2", "sideways", |_, _| Err("unread".to_string()));
    assert!(matches!(failed, Err(BuildError::Invalid(IndexError::UnknownGraphType(_)))));
}

#[test]
fn a_vector_is_eligible_only_after_a_clear_yes() {
    let eligible = Eligibility::new(|id: i64| if id == 2 { None } else { Some(id % 2 == 0) });
    assert!(eligible.allows(0));
    assert!(!eligible.allows(1));
    assert!(!eligible.allows(2));
    assert!(eligible.allows(4));
}

#[test]
fn filtered_searches_see_the_predicate() {
    let mut index = graph("l2", "standard", 16).unwrap();
    let even = |id: i64| Some(id % 2 == 0);
    let (_, ids) = index.search_filtered(&[1.0, 1.0], 3, even, 10, None, f32::INFINITY, |g, q, k, config, eligible| {
        assert_eq!(config.ef_search, 10);
        let mut found = nearest(&g.rows, g.metric, q, k);
        found.retain(|s| eligible.allows(s.vector as usize));
        found
    });
    assert_eq!(ids, vec![0, 2, -1]);

    let failed = index.search_filtered_gamma(&[1.0, 1.0], 2, even, 10, None, f32::INFINITY, |_, _, _, _, _, _| vec![]);
    assert!(matches!(failed, Err(IndexError::GammaNotBuilt)));
    index.build_acorn_gamma(12, |g, gamma| g.rows.len() * gamma);
    let (distances, ids) = index
        .search_filtered_gamma(&[1.0, 1.0], 2, even, 10, None, f32::INFINITY, |_, _, _, _, lists: &usize, _| {
            vec![ScoredVector { distance: 0.5, vector: *lists as u64 }]
        })
        .unwrap();
    assert_eq!((distances, ids), (vec![0.5, f32::INFINITY], vec![36, -1]));
}
