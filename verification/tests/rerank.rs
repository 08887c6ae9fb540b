use kannolo::dense::PlainDenseDataset;
use kannolo::error::{BuildError, IndexError};
use kannolo::graph_type::{GraphTypeKind, NeighborStorage};
use kannolo::hnsw::Reordering;
use kannolo::metric::MetricKind;
use kannolo::query::{EarlyTerminationStrategy, HNSWBuildConfiguration};
use kannolo::ranking::ScoredVector;
use kannolo::rerank_dense::{
    check_build, check_load, parse_encoder, rerank_params, supports_subspaces, validate_encoder_widths,
    BuildArgs, DenseRerankHNSW, FirstStageEncoder, LoadArgs, LoadedStages, RerankParams,
};
use kannolo::rerank_multivec::{
    search_multi, search_multi_batch, search_multi_nth, SparseMultivecRerankIndex,
    SparseMultivecTwoLevelsPQRerankIndex,
};

#[test]
fn only_the_width_of_the_encoder_is_checked() {
    for bits in 1..=8 {
        assert!(validate_encoder_widths("rabitq", Some(99), bits).is_ok());
    }
    assert!(matches!(validate_encoder_widths("rabitq", None, 0), Err(IndexError::QueryBits { bits: 0 })));
    assert!(matches!(validate_encoder_widths("rabitq", None, 9), Err(IndexError::QueryBits { bits: 9 })));
    for bits in [2, 4, 8] {
        assert!(validate_encoder_widths("rabitq-ext", Some(bits), 99).is_ok());
    }
    assert!(matches!(
        validate_encoder_widths("rabitq-ext", Some(1), 1),
        Err(IndexError::TotalBits { bits: 1 })
    ));
    assert!(validate_encoder_widths("rabitq-ext", None, 99).is_ok());
    assert!(validate_encoder_widths("pq", Some(99), 99).is_ok());
}

#[test]
fn encoders_are_named() {
    let supported: Vec<usize> = (0..400).filter(|m| supports_subspaces(*m)).collect();
    assert_eq!(supported, vec![4, 8, 16, 24, 32, 48, 64, 96, 128, 192, 256]);
    assert!(matches!(parse_encoder("pq", 24), Ok(FirstStageEncoder::Pq { subspaces: 24 })));
    assert!(matches!(parse_encoder("pq", 12), Err(IndexError::UnsupportedSubspaces { m: 12 })));
    assert!(matches!(parse_encoder("rabitq", 12), Ok(FirstStageEncoder::Rabitq)));
    assert!(matches!(parse_encoder("rabitq-ext", 12), Ok(FirstStageEncoder::RabitqExt)));
    assert!(matches!(parse_encoder("PQ", 8), Err(IndexError::UnknownEncoder(name)) if name == "PQ"));
}

fn args(encoder: &str) -> BuildArgs {
    BuildArgs { encoder: encoder.to_string(), pq_subspaces: 8, rabitq_total_bits: 4, rabitq_query_bits: 3 }
}

#[test]
fn build_arguments_are_checked_in_order() {
    let bad = BuildArgs { rabitq_query_bits: 0, ..args("rabitq") };
    assert!(matches!(check_build(5, 0, 300, "x", "y", &bad), Err(IndexError::DimensionZero)));
    assert!(matches!(check_build(5, 2, 300, "x", "y", &bad), Err(IndexError::DataLength { len: 5, dim: 2 })));
    assert!(matches!(check_build(4, 2, 300, "x", "y", &bad), Err(IndexError::QueryBits { bits: 0 })));
    let unknown = args("zip");
    assert!(matches!(check_build(4, 2, 300, "x", "y", &unknown), Err(IndexError::UnknownGraphType(_))));
    assert!(matches!(
        check_build(4, 2, 300, "x", "compressed", &unknown),
        Err(IndexError::TooManyNeighbors { m: 300 })
    ));
    assert!(matches!(check_build(4, 2, 300, "x", "standard", &unknown), Err(IndexError::InvalidMetric)));
    assert!(matches!(check_build(4, 2, 300, "L2", "standard", &unknown), Err(IndexError::UnknownEncoder(_))));
    assert!(matches!(
        check_build(4, 2, 300, "L2", "standard", &args("pq")),
        Ok((MetricKind::Euclidean, GraphTypeKind::Standard, FirstStageEncoder::Pq { subspaces: 8 }))
    ));
}

#[test]
fn load_arguments_are_checked_in_order() {
    let bad = LoadArgs { encoder: "rabitq".to_string(), pq_subspaces: 8, rabitq_query_bits: 9 };
    assert!(matches!(check_load("x", "y", &bad), Err(IndexError::QueryBits { bits: 9 })));
    let unknown = LoadArgs { encoder: "zip".to_string(), ..bad };
    assert!(matches!(check_load("x", "y", &unknown), Err(IndexError::InvalidMetric)));
    assert!(matches!(check_load("ip", "y", &unknown), Err(IndexError::UnknownGraphType(_))));
    assert!(matches!(check_load("ip", "standard", &unknown), Err(IndexError::UnknownEncoder(_))));
}

/// Two stages that remember how they were made.
struct Stages {
    metric: MetricKind,
    config: HNSWBuildConfiguration,
    reordering: Reordering,
    encoder: FirstStageEncoder,
    total_bits: Option<u32>,
    plain: PlainDenseDataset<f32>,
}

type Graph = (MetricKind, HNSWBuildConfiguration);

fn built(data: &[f64], dim: usize, encoder: &str) -> Result<DenseRerankHNSW<Stages>, IndexError> {
    DenseRerankHNSW::build_from_array(
        data,
        dim,
        16,
        100,
        "ip",
        "compressed",
        &args(encoder),
        &|v: f64| v as f32,
        |_: MetricKind, values: Vec<f32>, n: usize, dim: usize| PlainDenseDataset::from_raw(values, n, dim),
        |metric: MetricKind, _: &PlainDenseDataset<f32>, config: HNSWBuildConfiguration| (metric, config),
        |graph: Graph, reordering: Reordering| (graph, reordering),
        |g: (Graph, Reordering), encoder: FirstStageEncoder, bits: Option<u32>| (g, encoder, bits),
        |_: &((Graph, Reordering), FirstStageEncoder, Option<u32>), plain: &PlainDenseDataset<f32>| {
            (100, 4 * plain.values().len())
        },
        |stage: ((Graph, Reordering), FirstStageEncoder, Option<u32>), plain: PlainDenseDataset<f32>| {
            let (((metric, config), reordering), encoder, total_bits) = stage;
            Stages { metric, config, reordering, encoder, total_bits, plain }
        },
    )
}

const DATA: [f64; 4] = [1.0, 2.0, 3.0, 4.0];

#[test]
fn two_stages_are_built_in_order() {
    let index = built(&DATA, 2, "rabitq-ext").unwrap();
    let stages = index.index();
    assert_eq!(stages.metric, MetricKind::DotProduct);
    assert_eq!((stages.config.num_neighbors, stages.config.ef_construction), (16, 100));
    assert_eq!(stages.reordering, Reordering::Permute(NeighborStorage::StreamVByte));
    assert_eq!((stages.encoder, stages.total_bits), (FirstStageEncoder::RabitqExt, Some(4)));
    assert_eq!(stages.plain.values(), &vec![1.0, 2.0, 3.0, 4.0]);
    assert_eq!((index.metric(), index.storage()), (MetricKind::DotProduct, NeighborStorage::StreamVByte));
    assert_eq!((index.dim(), index.space_usage_bytes()), (2, 116));
    assert_eq!((index.encoder(), index.query_bits()), (FirstStageEncoder::RabitqExt, None));
    assert_eq!(index.save(|s: &Stages| Err::<(), usize>(s.plain.len())), Err(2));
    assert!(matches!(built(&DATA, 3, "pq"), Err(IndexError::DataLength { len: 4, dim: 3 })));
}

#[test]
fn the_query_width_can_be_changed() {
    let mut index = built(&DATA, 2, "rabitq").unwrap();
    assert_eq!(index.query_bits(), Some(3));
    assert!(index.set_query_bits(8).is_ok());
    assert_eq!(index.query_bits(), Some(8));
    assert!(matches!(index.set_query_bits(9), Err(IndexError::QueryBits { bits: 9 })));
    assert_eq!(index.query_bits(), Some(8));
    let mut index = built(&DATA, 2, "pq").unwrap();
    assert!(matches!(index.set_query_bits(2), Err(IndexError::QueriesNotQuantized)));
    assert!(matches!(index.set_query_bits(0), Err(IndexError::QueryBits { bits: 0 })));
    assert_eq!(index.query_bits(), None);
}

fn echo(stages: &Stages, query: &[f32], k: usize, params: &RerankParams<f32>) -> Vec<ScoredVector<f32>> {
    assert!(k >= 2 && !params.residuals);
    vec![
        ScoredVector { distance: query[0], vector: params.k_candidates as u64 },
        ScoredVector {
            distance: params.alpha.unwrap_or(0.0),
            vector: params.first_stage.ef_search as u64
                + params.first_stage.query_params.unwrap_or(0) as u64
                + stages.plain.len() as u64,
        },
    ]
}

#[test]
fn two_stage_searches_carry_their_parameters() {
    let index = built(&DATA, 2, "rabitq").unwrap();
    let (distances, ids) =
        index.search(&[7.0, 8.0], 3, 50, 1000, Some(0.25), Some(4), None, f32::INFINITY, &echo).unwrap();
    assert_eq!(distances, vec![7.0, 0.25, f32::INFINITY]);
    assert_eq!(ids, vec![50, 1005, -1]);
    let (distances, _) =
        index.batch_search(&[7.0, 8.0, 9.0, 1.0], 2, 50, 1000, None, None, None, f32::INFINITY, &echo).unwrap();
    assert_eq!(distances, vec![7.0, 0.0, 9.0, 0.0]);
    assert!(matches!(
        index.search(&[7.0], 3, 50, 1000, None, None, None, f32::INFINITY, &echo),
        Err(IndexError::QueryDimension { got: 1, dim: 2 })
    ));
    assert!(matches!(
        index.batch_search(&[7.0], 3, 50, 1000, None, None, None, f32::INFINITY, &echo),
        Err(IndexError::QueriesLength { len: 1, dim: 2 })
    ));
}

#[test]
fn two_stages_are_built_from_a_file() {
    let result: Result<DenseRerankHNSW<usize>, BuildError<String>> = DenseRerankHNSW::build_from_file(
        16,
        100,
        "ip",
        "standard",
        &args("pq"),
        || Ok(PlainDenseDataset::from_raw(vec![1u8, 2, 3, 4], 2, 2)),
        &|v: u8| v as u32,
        |_: MetricKind, values: Vec<u32>, _: usize, _: usize| values,
        |_: MetricKind, values: &Vec<u32>, _: HNSWBuildConfiguration| values.len(),
        |n: usize, _: Reordering| n,
        |n: usize, _: FirstStageEncoder, _: Option<u32>| n,
        |n: &usize, values: &Vec<u32>| (*n, values.len()),
        |n: usize, values: Vec<u32>| n + values.len(),
    );
    let index = result.map_err(|_| ()).unwrap();
    assert_eq!((*index.index(), index.dim(), index.space_usage_bytes()), (8, 2, 8));
    let result: Result<DenseRerankHNSW<usize>, BuildError<String>> = DenseRerankHNSW::build_from_file(
        16,
        100,
        "cosine",
        "standard",
        &args("pq"),
        || Err("gone".to_string()),
        &|v: u8| v as u32,
        |_: MetricKind, values: Vec<u32>, _: usize, _: usize| values,
        |_: MetricKind, values: &Vec<u32>, _: HNSWBuildConfiguration| values.len(),
        |n: usize, _: Reordering| n,
        |n: usize, _: FirstStageEncoder, _: Option<u32>| n,
        |n: &usize, values: &Vec<u32>| (*n, values.len()),
        |n: usize, values: Vec<u32>| n + values.len(),
    );
    assert!(matches!(result, Err(BuildError::Io(why)) if why == "gone"));
}

#[test]
fn two_stages_are_loaded() {
    let load_args = LoadArgs { encoder: "rabitq".to_string(), pq_subspaces: 0, rabitq_query_bits: 5 };
    let loaded: Result<DenseRerankHNSW<u8>, BuildError<String>> =
        DenseRerankHNSW::load("l2", "permuted", &load_args, |metric, storage, encoder| {
            assert_eq!((metric, storage), (MetricKind::Euclidean, NeighborStorage::Plain));
            assert_eq!(encoder, FirstStageEncoder::Rabitq);
            Ok(LoadedStages { index: 7, dim: 64, first_stage_bytes: 10, rerank_bytes: 32 })
        });
    let index = loaded.map_err(|_| ()).unwrap();
    assert_eq!((*index.index(), index.dim(), index.space_usage_bytes()), (7, 64, 42));
    assert_eq!(index.query_bits(), Some(5));
    let failed: Result<DenseRerankHNSW<u8>, BuildError<String>> =
        DenseRerankHNSW::load("l2", "permuted", &load_args, |_, _, _| Err("gone".to_string()));
    assert!(matches!(failed, Err(BuildError::Io(why)) if why == "gone"));
    let failed: Result<DenseRerankHNSW<u8>, BuildError<String>> =
        DenseRerankHNSW::load("cosine", "permuted", &load_args, |_, _, _| Err("unread".to_string()));
    assert!(matches!(failed, Err(BuildError::Invalid(IndexError::InvalidMetric))));
}

/// Answers with the first sparse value, the first token value, and the sizes it sees.
fn multi(
    base: &u64,
    components: &[u16],
    values: &[f32],
    tokens: &[f32],
    token_dim: usize,
    k: usize,
    params: &RerankParams<f32>,
) -> Vec<ScoredVector<f32>> {
    let adaptive = matches!(
        params.first_stage.early_termination,
        EarlyTerminationStrategy::DistanceAdaptive { .. }
    );
    let mut found = vec![
        ScoredVector { distance: values[0], vector: base + components[0] as u64 },
        ScoredVector { distance: tokens[0], vector: (tokens.len() * 10 + token_dim) as u64 },
        ScoredVector {
            distance: 0.0,
            vector: params.residuals as u64 + 2 * adaptive as u64 + 10 * params.k_candidates as u64,
        },
    ];
    found.truncate(k);
    found
}

#[test]
fn multivector_queries_reach_both_stages() {
    let params = rerank_params(9, 20, None, None, Some(0.5f32), None, true);
    let (distances, ids) =
        search_multi(&1000u64, &[5, 6], &[0.5, 0.6], &[1.0, 2.0, 3.0, 4.0], 2, 4, &params, f32::INFINITY, &multi)
            .unwrap();
    assert_eq!(distances, vec![0.5, 1.0, 0.0, f32::INFINITY]);
    assert_eq!(ids, vec![1005, 42, 93, -1]);
    let failed =
        search_multi(&1000u64, &[-5], &[0.5], &[1.0, 2.0], 2, 4, &params, f32::INFINITY, &multi);
    assert!(matches!(failed, Err(IndexError::ComponentOutOfRange)));
}

#[test]
fn multivector_batches_are_split_by_query() {
    let params = rerank_params(9, 20, None, None, None::<f32>, None, false);
    let tokens = [1.0, 2.0, 3.0, 4.0, 5.0, 6.0, 7.0, 8.0];
    let (distances, ids) = search_multi_batch(
        &0u64,
        &[5, 6, 7],
        &[0.5, 0.6, 0.7],
        &[0, 2, 3],
        &tokens,
        2,
        2,
        2,
        &params,
        f32::INFINITY,
        &multi,
    )
    .unwrap();
    assert_eq!(distances, vec![0.5, 1.0, 0.7, 5.0]);
    assert_eq!(ids, vec![5, 42, 7, 42]);
    let second =
        search_multi_nth(&0u64, &[5, 6, 7], &[0.5, 0.6, 0.7], &[0, 2, 3], &tokens, 4, 2, 1, 2, &params, &multi);
    assert_eq!((second[0].vector, second[1].distance), (7, 5.0));
}

#[test]
fn multivector_indexes_pair_two_loads() {
    let index = SparseMultivecRerankIndex::build_from_file(
        || Ok::<u64, String>(40),
        || Ok(2u64),
        |sparse: u64, tokens: u64| sparse + tokens,
    )
    .unwrap();
    assert_eq!(*index.index(), 42);
    assert_eq!(index.save(|i: &u64| Err::<(), u64>(*i)), Err(42));
    let failed: Result<SparseMultivecRerankIndex<u64>, String> = SparseMultivecRerankIndex::build_from_file(
        || Err::<u64, String>("sparse".to_string()),
        || Err::<u64, String>("tokens".to_string()),
        |sparse: u64, tokens: u64| sparse + tokens,
    );
    assert!(matches!(failed, Err(why) if why == "sparse"));
    let loaded = SparseMultivecRerankIndex::load(|| Ok::<u64, String>(100)).unwrap();
    let (_, ids) = loaded
        .search(&[5], &[0.5], &[1.0, 2.0], 2, 9, 1, 20, None, None, None, false, f32::INFINITY, &multi)
        .unwrap();
    assert_eq!(ids, vec![105]);
    let (_, ids) = loaded
        .batch_search(
            &[5, 6],
            &[0.5, 0.6],
            &[0, 1, 2],
            &[1.0, 2.0],
            1,
            1,
            9,
            1,
            20,
            None,
            None,
            None,
            false,
            f32::INFINITY,
            &multi,
        )
        .unwrap();
    assert_eq!(ids, vec![105, 106]);
}

#[test]
fn two_level_indexes_need_supported_subspaces() {
    let build = |m: usize| -> Result<SparseMultivecTwoLevelsPQRerankIndex<u64>, BuildError<String>> {
        SparseMultivecTwoLevelsPQRerankIndex::build_from_file(
            m,
            || Ok(40u64),
            |m: usize| Ok(m as u64),
            |sparse: u64, tokens: u64| sparse + tokens,
        )
    };
    let index = build(16).map_err(|_| ()).unwrap();
    assert_eq!((*index.index(), index.pq_subspaces()), (56, 16));
    assert_eq!(index.save(|i: &u64| Err::<(), u64>(*i)), Err(56));
    assert!(matches!(build(4), Err(BuildError::Invalid(IndexError::UnsupportedSubspaces { m: 4 }))));
    let load = |m: usize| -> Result<SparseMultivecTwoLevelsPQRerankIndex<u64>, BuildError<String>> {
        SparseMultivecTwoLevelsPQRerankIndex::load(m, || Ok(100))
    };
    assert!(matches!(load(128), Err(BuildError::Invalid(IndexError::UnsupportedSubspaces { m: 128 }))));
    let index = load(64).map_err(|_| ()).unwrap();
    let (_, ids) = index
        .search(&[5], &[0.5], &[1.0, 2.0], 2, 9, 3, 20, None, None, Some(0.1), true, f32::INFINITY, &multi)
        .unwrap();
    assert_eq!(ids, vec![105, 22, 93]);
    let (_, ids) = index
        .batch_search(
            &[5],
            &[0.5],
            &[0, 1],
            &[1.0, 2.0],
            1,
            2,
            9,
            2,
            20,
            None,
            None,
            None,
            false,
            f32::INFINITY,
            &multi,
        )
        .unwrap();
    assert_eq!(ids, vec![105, 22]);
}
