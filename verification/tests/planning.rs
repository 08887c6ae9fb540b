use kannolo::arithmetic::Arithmetic;
use kannolo::build_plan::{
    build_converted, build_converted_permuted, check_options, check_rabitq_dim, choose_encoding,
    choose_pq_subspaces, ignored_options, plan_build, rabitq_config, rabitq_ext_config, BuildOptions, Encoding,
};
use kannolo::cli::{
    check_combination, parse_metric, stored_as, ComponentTypeArg, DatasetType, EncoderType, GraphStorage,
    GraphType, StoredAs, ValueTypeArg,
};
use kannolo::error::ArgError;
use kannolo::graph_type::NeighborStorage;
use kannolo::metric::MetricKind;
use kannolo::query::{EarlyTerminationStrategy, HNSWBuildConfiguration};
use kannolo::ranking::ScoredVector;
use kannolo::rerank_dense::FirstStageEncoder;
use kannolo::search_plan::{
    check_collections, cluster_storage, create_search_config, create_search_config_with_params,
    early_termination, make_flat_params, make_params, plan_rerank, plan_search, search_dense_pq_with_distance,
    ClusterStorage, ClusterValue, EarlyTerminationMethod, RerankEncoderArg, RerankGraphArg, RerankOptions,
    SearchOptions,
};
use kannolo::timing::TimedReply;

#[test]
fn value_types_and_encoders_have_names() {
    assert_eq!(ValueTypeArg::F16.name(), "f16");
    assert_eq!(ValueTypeArg::F32.name(), "f32");
    assert_eq!(ValueTypeArg::Fixedu8.name(), "fixedu8");
    assert_eq!(ValueTypeArg::Fixedu16.name(), "fixedu16");
    assert_eq!(EncoderType::Plain.name(), "plain");
    assert_eq!(EncoderType::Pq.name(), "pq");
    assert_eq!(EncoderType::Dotvbyte.name(), "dotvbyte");
    assert_eq!(EncoderType::Rabitq.name(), "rabitq");
    assert_eq!(EncoderType::RabitqExt.name(), "rabitq-ext");
    assert_eq!(ValueTypeArg::default(), ValueTypeArg::F32);
    assert_eq!(EncoderType::default(), EncoderType::Plain);
    assert_eq!(ComponentTypeArg::default(), ComponentTypeArg::U16);
}

#[test]
fn options_combine_by_rules() {
    let check = check_combination;
    let (dense, sparse) = (DatasetType::Dense, DatasetType::Sparse);
    let (u16_type, u32_type) = (ComponentTypeArg::U16, ComponentTypeArg::U32);
    let f32_type = ValueTypeArg::F32;
    assert_eq!(check(sparse, EncoderType::Pq, f32_type, u16_type), Err(ArgError::PqIsDenseOnly));
    assert_eq!(check(sparse, EncoderType::Rabitq, f32_type, u16_type), Err(ArgError::RabitqIsDenseOnly));
    assert_eq!(check(sparse, EncoderType::RabitqExt, f32_type, u16_type), Err(ArgError::RabitqIsDenseOnly));
    assert_eq!(check(dense, EncoderType::Dotvbyte, f32_type, u16_type), Err(ArgError::DotvbyteIsSparseOnly));
    assert_eq!(
        check(dense, EncoderType::Plain, ValueTypeArg::Fixedu8, u16_type),
        Err(ArgError::FixedPointIsSparseOnly)
    );
    assert_eq!(check(dense, EncoderType::Plain, f32_type, u32_type), Err(ArgError::ComponentTypeIsSparseOnly));
    assert_eq!(check(sparse, EncoderType::Dotvbyte, f32_type, u32_type), Err(ArgError::DotvbyteNeedsU16));
    assert_eq!(check(sparse, EncoderType::Plain, ValueTypeArg::Fixedu16, u32_type), Ok(()));
    assert_eq!(check(dense, EncoderType::Pq, ValueTypeArg::Fixedu16, u16_type), Ok(()));
}

#[test]
fn fixed_point_values_are_for_sparse_vectors() {
    let u16_type = ComponentTypeArg::U16;
    for value in [ValueTypeArg::Fixedu8, ValueTypeArg::Fixedu16] {
        for encoder in [EncoderType::Plain, EncoderType::Rabitq, EncoderType::RabitqExt] {
            assert_eq!(
                check_combination(DatasetType::Dense, encoder, value, ComponentTypeArg::U32),
                Err(ArgError::FixedPointIsSparseOnly)
            );
        }
        assert_eq!(check_combination(DatasetType::Dense, EncoderType::Pq, value, u16_type), Ok(()));
        assert_eq!(check_combination(DatasetType::Sparse, EncoderType::Plain, value, u16_type), Ok(()));
        assert_eq!(check_combination(DatasetType::Sparse, EncoderType::Dotvbyte, value, u16_type), Ok(()));
    }
    for encoder in [EncoderType::Rabitq, EncoderType::RabitqExt] {
        assert_eq!(check_combination(DatasetType::Dense, encoder, ValueTypeArg::F16, u16_type), Ok(()));
    }
}

#[test]
fn combinations_say_what_is_stored() {
    let (dense, sparse) = (DatasetType::Dense, DatasetType::Sparse);
    let (component, value) = (ComponentTypeArg::U32, ValueTypeArg::F16);
    assert_eq!(stored_as(dense, EncoderType::Plain, value, component), StoredAs::DensePlain { value });
    assert_eq!(stored_as(dense, EncoderType::Pq, value, component), StoredAs::DensePq);
    assert_eq!(stored_as(dense, EncoderType::Rabitq, value, component), StoredAs::DenseRabitq);
    assert_eq!(stored_as(dense, EncoderType::RabitqExt, value, component), StoredAs::DenseRabitqExt);
    assert_eq!(stored_as(sparse, EncoderType::Plain, value, component), StoredAs::SparsePlain { component, value });
    let value = ValueTypeArg::Fixedu8;
    assert_eq!(stored_as(sparse, EncoderType::Plain, value, component), StoredAs::SparseScalar { component, value });
    assert_eq!(stored_as(sparse, EncoderType::Dotvbyte, value, component), StoredAs::SparseDotvbyte);
}

#[test]
fn distances_are_named_as_written() {
    assert_eq!(parse_metric("l2"), Ok(MetricKind::Euclidean));
    assert_eq!(parse_metric("euclidean"), Ok(MetricKind::Euclidean));
    assert_eq!(parse_metric("ip"), Ok(MetricKind::DotProduct));
    assert_eq!(parse_metric("dotproduct"), Ok(MetricKind::DotProduct));
    assert_eq!(parse_metric("L2"), Err(ArgError::InvalidDistance));
}

fn options() -> BuildOptions {
    BuildOptions {
        dataset_type: DatasetType::Dense,
        value_type: ValueTypeArg::F32,
        component_type: ComponentTypeArg::U16,
        encoder: EncoderType::Plain,
        graph_type: GraphType::Standard,
        m: 16,
        ef_construction: 150,
        distance: "l2".to_string(),
        pq_subspaces: 16,
        nbits: 8,
        sample_size: 100_000,
        rabitq_seed: 42,
        rabitq_no_rotate: false,
        rabitq_total_bits: 4,
        rabitq_exact_quant: false,
    }
}

#[test]
fn builds_are_planned() {
    let plan = plan_build(&options()).unwrap();
    assert_eq!(plan.stored, StoredAs::DensePlain { value: ValueTypeArg::F32 });
    assert_eq!((plan.graph, plan.permute), (GraphStorage::Plain, false));
    assert_eq!(plan.metric, MetricKind::Euclidean);
    assert_eq!((plan.config.num_neighbors, plan.config.ef_construction), (16, 150));
    let plan = plan_build(&BuildOptions { graph_type: GraphType::Permuted, ..options() }).unwrap();
    assert_eq!((plan.graph, plan.permute), (GraphStorage::Plain, true));
    let plan = plan_build(&BuildOptions { graph_type: GraphType::FixedDegree, ..options() }).unwrap();
    assert_eq!((plan.graph, plan.permute), (GraphStorage::FixedDegree, false));
    let plan = plan_build(&BuildOptions { graph_type: GraphType::Streamvbyte, m: 128, ..options() }).unwrap();
    assert_eq!((plan.graph, plan.permute), (GraphStorage::StreamVByte, true));
}

#[test]
fn impossible_builds_are_refused() {
    let crowded = BuildOptions { graph_type: GraphType::Streamvbyte, m: 129, ..options() };
    assert_eq!(check_options(&crowded), Err(ArgError::TooManyNeighbors { m: 129 }));
    assert_eq!(plan_build(&crowded), Err(ArgError::TooManyNeighbors { m: 129 }));
    assert_eq!(check_options(&options()), Ok(()));
    let nameless = BuildOptions { distance: "cosine".to_string(), ..options() };
    assert_eq!(plan_build(&nameless), Err(ArgError::InvalidDistance));
    let sparse = BuildOptions { dataset_type: DatasetType::Sparse, encoder: EncoderType::Dotvbyte, ..options() };
    assert_eq!(plan_build(&sparse), Err(ArgError::DotvbyteNeedsDotProduct));
    let mixed = BuildOptions { encoder: EncoderType::Dotvbyte, ..options() };
    assert_eq!(plan_build(&mixed), Err(ArgError::DotvbyteIsSparseOnly));
}

#[test]
fn options_without_effect_are_told() {
    let pq = BuildOptions { encoder: EncoderType::Pq, nbits: 4, sample_size: 5, ..options() };
    assert_eq!(ignored_options(&pq), (true, true));
    assert_eq!(ignored_options(&BuildOptions { encoder: EncoderType::Pq, ..options() }), (false, false));
    assert_eq!(ignored_options(&BuildOptions { nbits: 4, sample_size: 5, ..options() }), (false, false));
}

#[test]
fn subspaces_divide_the_dimension() {
    assert_eq!(choose_pq_subspaces(768, 0), Ok(128));
    assert_eq!(choose_pq_subspaces(960, 0), Ok(192));
    assert_eq!(choose_pq_subspaces(96, 0), Ok(96));
    assert_eq!(choose_pq_subspaces(100, 0), Ok(4));
    assert_eq!(choose_pq_subspaces(24, 0), Ok(8));
    assert_eq!(choose_pq_subspaces(7, 0), Err(ArgError::NoSubspacesFor { dim: 7 }));
    assert_eq!(choose_pq_subspaces(48, 24), Ok(24));
    assert_eq!(choose_pq_subspaces(48, 5), Err(ArgError::UnsupportedSubspaces { m: 5 }));
    assert_eq!(choose_pq_subspaces(48, 64), Err(ArgError::SubspacesDoNotDivide { m: 64, dim: 48 }));
}

#[test]
fn encodings_follow_the_encoder() {
    assert_eq!(check_rabitq_dim(128), Ok(()));
    assert_eq!(check_rabitq_dim(100), Err(ArgError::RabitqDimension { dim: 100 }));
    assert_eq!(rabitq_config(&options()), Encoding::Rabitq { seed: 42, rotate: true });
    assert_eq!(
        rabitq_ext_config(&BuildOptions { rabitq_no_rotate: true, rabitq_exact_quant: true, ..options() }),
        Ok(Encoding::RabitqExt { total_bits: 4, seed: 42, rotate: false, faster_quant: false })
    );
    assert_eq!(
        rabitq_ext_config(&BuildOptions { rabitq_total_bits: 3, ..options() }),
        Err(ArgError::TotalBits { bits: 3 })
    );
    let value = ValueTypeArg::F16;
    assert_eq!(choose_encoding(StoredAs::DensePlain { value }, 7, &options()), Ok(Encoding::Keep));
    assert_eq!(choose_encoding(StoredAs::SparseDotvbyte, 7, &options()), Ok(Encoding::Convert));
    assert_eq!(choose_encoding(StoredAs::DensePq, 64, &options()), Ok(Encoding::Pq { subspaces: 16 }));
    assert_eq!(
        choose_encoding(StoredAs::DensePq, 7, &options()),
        Err(ArgError::SubspacesDoNotDivide { m: 16, dim: 7 })
    );
    assert_eq!(
        choose_encoding(StoredAs::DenseRabitq, 64, &options()),
        Ok(Encoding::Rabitq { seed: 42, rotate: true })
    );
    assert_eq!(
        choose_encoding(StoredAs::DenseRabitqExt, 65, &options()),
        Err(ArgError::RabitqDimension { dim: 65 })
    );
}

#[test]
fn graphs_are_encoded_before_they_are_reordered() {
    let config = HNSWBuildConfiguration { num_neighbors: 3, ef_construction: 4 };
    let index = build_converted(
        "data",
        config,
        Encoding::Convert,
        |d: &str, c: HNSWBuildConfiguration| format!("{d} {}", c.num_neighbors),
        |plain: String, e: Encoding| format!("{plain} {e:?}"),
    );
    assert_eq!(index, "data 3 Convert");
    let index = build_converted_permuted(
        "data",
        config,
        Encoding::Keep,
        GraphStorage::StreamVByte,
        |d: &str, c: HNSWBuildConfiguration| format!("{d} {}", c.ef_construction),
        |plain: String, e: Encoding| format!("{plain} {e:?}"),
        |encoded: String, g: GraphStorage| format!("{encoded} {g:?}"),
    );
    assert_eq!(index, "data 4 Keep StreamVByte");
}

fn search_options() -> SearchOptions<f32> {
    SearchOptions {
        dataset_type: DatasetType::Dense,
        value_type: ValueTypeArg::F32,
        component_type: ComponentTypeArg::U16,
        encoder: EncoderType::Plain,
        graph_type: GraphType::Standard,
        distance: "l2".to_string(),
        pq_subspaces: 16,
        ef_search: 40,
        early_termination: EarlyTerminationMethod::Off,
        lambda: 0.5,
        query_bits: 3,
    }
}

#[test]
fn searches_are_planned() {
    let built = plan_build(&options()).unwrap();
    let plan = plan_search(&search_options()).unwrap();
    assert_eq!((plan.stored, plan.graph, plan.metric), (built.stored, built.graph, built.metric));
    assert_eq!((plan.subspaces, plan.query_bits), (None, None));
    let plan = plan_search(&SearchOptions { encoder: EncoderType::Pq, ..search_options() }).unwrap();
    assert_eq!((plan.subspaces, plan.query_bits), (Some(16), None));
    let narrow = plan_search(&SearchOptions { encoder: EncoderType::Rabitq, query_bits: 1, ..search_options() }).unwrap();
    let wide = plan_search(&SearchOptions { encoder: EncoderType::Rabitq, query_bits: 8, ..search_options() }).unwrap();
    assert_eq!((narrow.query_bits, wide.query_bits), (Some(1), Some(8)));
    assert_eq!(narrow.stored, wide.stored);
}

#[test]
fn impossible_searches_are_refused() {
    let refuse = |o: SearchOptions<f32>| plan_search(&o).unwrap_err();
    assert_eq!(
        refuse(SearchOptions { encoder: EncoderType::Rabitq, query_bits: 0, ..search_options() }),
        ArgError::QueryBits { bits: 0 }
    );
    assert_eq!(
        refuse(SearchOptions { encoder: EncoderType::Pq, pq_subspaces: 5, ..search_options() }),
        ArgError::UnsupportedSubspaces { m: 5 }
    );
    assert_eq!(
        refuse(SearchOptions { distance: "".to_string(), ..search_options() }),
        ArgError::InvalidDistance
    );
    assert_eq!(
        refuse(SearchOptions { encoder: EncoderType::Dotvbyte, dataset_type: DatasetType::Sparse, ..search_options() }),
        ArgError::DotvbyteNeedsDotProduct
    );
    assert_eq!(
        refuse(SearchOptions { component_type: ComponentTypeArg::U32, ..search_options() }),
        ArgError::ComponentTypeIsSparseOnly
    );
}

#[test]
fn search_parameters_follow_the_options() {
    let config = create_search_config(&search_options());
    assert_eq!(config.ef_search, 40);
    assert!(matches!(config.early_termination, EarlyTerminationStrategy::Disabled));
    let adaptive = SearchOptions { early_termination: EarlyTerminationMethod::DistanceAdaptive, ..search_options() };
    let config = create_search_config_with_params(&adaptive, 6u32);
    assert_eq!(config.query_params, 6);
    assert!(matches!(
        config.early_termination,
        EarlyTerminationStrategy::DistanceAdaptive { lambda } if lambda == 0.5
    ));
}

#[test]
fn quantized_searches_report_each_query_once() {
    let answer = |index: &usize, query: usize| TimedReply {
        found: vec![ScoredVector { distance: 0.5f32, vector: (index + query) as u64 }],
        micros: 2,
    };
    let (index, report) = search_dense_pq_with_distance(64, 2, 2, |m: usize| 10 * m, &answer).unwrap();
    assert_eq!(index, 640);
    assert_eq!(report.replies, vec![vec![(0.5, 640)], vec![(0.5, 641)]]);
    assert_eq!(report.total_micros, 8);
    let (_, once) = search_dense_pq_with_distance(64, 2, 1, |m: usize| 10 * m, &answer).unwrap();
    assert_eq!(once.replies, report.replies);
    assert_eq!(once.total_micros, 4);
    let refused = search_dense_pq_with_distance(384, 2, 2, |m: usize| 10 * m, &answer);
    assert!(matches!(refused, Err(ArgError::UnsupportedSubspaces { m: 384 })));
}

fn rerank_options() -> RerankOptions<f32> {
    RerankOptions {
        encoder: RerankEncoderArg::Pq,
        graph_type: RerankGraphArg::Permuted,
        distance: "dotproduct".to_string(),
        pq_subspaces: 32,
        rabitq_query_bits: 4,
        k_candidates: 100,
        ef_search: 200,
        alpha: Some(0.9),
        beta: Some(3),
        early_termination: EarlyTerminationMethod::Off,
        lambda: None,
    }
}

#[test]
fn two_stage_searches_are_planned() {
    let plan = plan_rerank(&rerank_options()).map_err(|_| ()).unwrap();
    assert_eq!((plan.metric, plan.storage), (MetricKind::DotProduct, NeighborStorage::Plain));
    assert_eq!(plan.encoder, FirstStageEncoder::Pq { subspaces: 32 });
    assert_eq!((plan.params.k_candidates, plan.params.first_stage.ef_search), (100, 200));
    assert_eq!((plan.params.alpha, plan.params.beta, plan.params.residuals), (Some(0.9), Some(3), false));
    let plan = plan_rerank(&RerankOptions {
        encoder: RerankEncoderArg::Rabitq,
        graph_type: RerankGraphArg::Streamvbyte,
        early_termination: EarlyTerminationMethod::DistanceAdaptive,
        lambda: Some(0.1),
        ..rerank_options()
    })
    .map_err(|_| ())
    .unwrap();
    assert_eq!((plan.encoder, plan.storage), (FirstStageEncoder::Rabitq, NeighborStorage::StreamVByte));
    assert_eq!(plan.params.first_stage.query_params, Some(4));
    assert!(matches!(
        plan.params.first_stage.early_termination,
        EarlyTerminationStrategy::DistanceAdaptive { lambda } if lambda == 0.1
    ));
}

#[test]
fn impossible_two_stage_searches_are_refused() {
    let refuse = |o: RerankOptions<f32>| plan_rerank(&o).map(|_| ()).unwrap_err();
    assert_eq!(refuse(RerankOptions { pq_subspaces: 0, ..rerank_options() }), ArgError::SubspacesMissing);
    let wide = || RerankOptions { encoder: RerankEncoderArg::Rabitq, rabitq_query_bits: 9, ..rerank_options() };
    assert_eq!(refuse(RerankOptions { distance: "x".to_string(), ..wide() }), ArgError::InvalidDistance);
    let adaptive = EarlyTerminationMethod::DistanceAdaptive;
    assert_eq!(
        refuse(RerankOptions { early_termination: adaptive, lambda: None, ..wide() }),
        ArgError::LambdaMissing
    );
    assert_eq!(
        refuse(RerankOptions { pq_subspaces: 7, ..rerank_options() }),
        ArgError::UnsupportedSubspaces { m: 7 }
    );
    assert_eq!(refuse(RerankOptions { distance: "x".to_string(), ..rerank_options() }), ArgError::InvalidDistance);
    let adaptive =
        RerankOptions { early_termination: EarlyTerminationMethod::DistanceAdaptive, ..rerank_options() };
    assert_eq!(early_termination(&adaptive), Err(ArgError::LambdaMissing));
    assert_eq!(refuse(adaptive), ArgError::LambdaMissing);
    assert_eq!(check_collections(5, 5), Ok(()));
    assert_eq!(check_collections(5, 6), Err(ArgError::CollectionMismatch { first_stage: 5, rerank: 6 }));
}

#[test]
fn clusters_are_stored_as_asked() {
    assert_eq!(cluster_storage(ClusterValue::F16, None), Ok(ClusterStorage::Plain(ClusterValue::F16)));
    let supported: Vec<usize> =
        (0..400).filter(|m| cluster_storage(ClusterValue::F32, Some(*m)).is_ok()).collect();
    assert_eq!(supported, vec![4, 8, 16, 32, 48, 64, 96, 128, 192]);
    assert_eq!(cluster_storage(ClusterValue::F32, Some(24)), Err(ArgError::UnsupportedSubspaces { m: 24 }));
}

struct Bits;

impl Arithmetic<f32> for Bits {
    fn zero(&self) -> f32 {
        0.0
    }
    fn plus(&self, a: f32, b: f32) -> f32 {
        a + b
    }
    fn minus(&self, a: f32, b: f32) -> f32 {
        a - b
    }
    fn times(&self, a: f32, b: f32) -> f32 {
        a * b
    }
    fn twice(&self, a: f32) -> f32 {
        2.0 * a
    }
    fn bits(&self, a: f32) -> u32 {
        a.to_bits()
    }
}

#[test]
fn centroid_searches_look_at_enough_candidates() {
    assert_eq!(make_flat_params(9).nprobe, 9);
    let params = make_params(9, 4, 0.0, &Bits);
    assert_eq!((params.nprobe, params.centroid_search_params.ef_search), (9, 9));
    assert!(matches!(params.centroid_search_params.early_termination, EarlyTerminationStrategy::Disabled));
    let params = make_params(9, 40, 0.25, &Bits);
    assert_eq!(params.centroid_search_params.ef_search, 40);
    assert!(matches!(
        params.centroid_search_params.early_termination,
        EarlyTerminationStrategy::DistanceAdaptive { lambda } if lambda == 0.25
    ));
    for off in [-1.0, -0.0, f32::NAN] {
        let params = make_params(9, 40, off, &Bits);
        assert!(matches!(params.centroid_search_params.early_termination, EarlyTerminationStrategy::Disabled));
    }
}
