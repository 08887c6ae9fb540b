//! Planning of searches from command-line options, and the searches themselves.

use crate::arithmetic::Arithmetic;
use crate::cli::{
    check_combination, parse_metric, stored_as, ComponentTypeArg, DatasetType, EncoderType, GraphStorage,
    GraphType, StoredAs, ValueTypeArg,
};
use crate::error::ArgError;
use crate::graph_type::NeighborStorage;
use crate::ivf::IVFSearchParams;
use crate::metric::MetricKind;
use crate::query::{EarlyTerminationStrategy, HNSWSearchConfiguration};
use crate::rerank_dense::{rerank_params, supports_subspaces, FirstStageEncoder, RerankParams};
use crate::timing::{run_queries, RunReport, TimedReply};
use vstd::prelude::*;

verus! {

/// Whether a search stops early.
#[derive(Clone, Copy, Debug, PartialEq, Eq, Structural)]
pub enum EarlyTerminationMethod {
    Off,
    DistanceAdaptive,
}

/// The options of a search.
pub struct SearchOptions<T> {
    pub dataset_type: DatasetType,
    pub value_type: ValueTypeArg,
    pub component_type: ComponentTypeArg,
    pub encoder: EncoderType,
    pub graph_type: GraphType,
    pub distance: String,
    pub pq_subspaces: usize,
    pub ef_search: usize,
    pub early_termination: EarlyTerminationMethod,
    pub lambda: T,
    pub query_bits: u32,
}

/// What a search does: the vectors and the graph it loads, the metric, and the
/// settings that belong to the encoder.
#[derive(Clone, Copy, Debug, PartialEq, Eq, Structural)]
pub struct SearchPlan {
    pub stored: StoredAs,
    pub graph: GraphStorage,
    pub metric: MetricKind,
    /// The number of subspaces, for product quantization.
    pub subspaces: Option<usize>,
    /// The width to which queries are quantized, for RaBitQ.
    pub query_bits: Option<u32>,
}

/// What is wrong with the settings that belong to the encoder.
pub open spec fn encoder_error(
    encoder: EncoderType,
    metric: MetricKind,
    pq_subspaces: usize,
    query_bits: u32,
) -> Option<ArgError> {
    if encoder is Dotvbyte && metric is Euclidean {
        Some(ArgError::DotvbyteNeedsDotProduct)
    } else if encoder is Rabitq && !(1 <= query_bits <= 8) {
        Some(ArgError::QueryBits { bits: query_bits })
    } else if encoder is Pq && !crate::rerank_dense::supported_subspaces(pq_subspaces) {
        Some(ArgError::UnsupportedSubspaces { m: pq_subspaces })
    } else {
        None
    }
}

/// The plan of a search, or the error of the first option that is wrong.
pub open spec fn search_plan_spec<T>(options: SearchOptions<T>) -> Result<SearchPlan, ArgError> {
    match crate::cli::combination_error(
        options.dataset_type,
        options.encoder,
        options.value_type,
        options.component_type,
    ) {
        Some(error) => Err(error),
        None => match crate::metric::metric_named_spec(options.distance@) {
            None => Err(ArgError::InvalidDistance),
            Some(metric) => match encoder_error(
                options.encoder,
                metric,
                options.pq_subspaces,
                options.query_bits,
            ) {
                Some(error) => Err(error),
                None => Ok(
                    SearchPlan {
                        stored: crate::cli::stored_as_spec(
                            options.dataset_type,
                            options.encoder,
                            options.value_type,
                            options.component_type,
                        ),
                        graph: options.graph_type.storage_spec(),
                        metric,
                        subspaces: if options.encoder is Pq {
                            Some(options.pq_subspaces)
                        } else {
                            None
                        },
                        query_bits: if options.encoder is Rabitq {
                            Some(options.query_bits)
                        } else {
                            None
                        },
                    },
                ),
            },
        },
    }
}

/// Plans a search.
pub fn plan_search<T>(options: &SearchOptions<T>) -> (plan: Result<SearchPlan, ArgError>)
    ensures
        plan == search_plan_spec(*options),
{
    match check_combination(
        options.dataset_type,
        options.encoder,
        options.value_type,
        options.component_type,
    ) {
        Ok(()) => {},
        Err(error) => {
            return Err(error);
        },
    }
    let metric: MetricKind = match parse_metric(options.distance.as_str()) {
        Ok(metric) => metric,
        Err(error) => {
            return Err(error);
        },
    };
    let mut subspaces: Option<usize> = None;
    let mut query_bits: Option<u32> = None;
    match options.encoder {
        EncoderType::Dotvbyte => match metric {
            MetricKind::Euclidean => {
                return Err(ArgError::DotvbyteNeedsDotProduct);
            },
            MetricKind::DotProduct => {},
        },
        EncoderType::Rabitq => {
            if options.query_bits < 1 || options.query_bits > 8 {
                return Err(ArgError::QueryBits { bits: options.query_bits });
            }
            query_bits = Some(options.query_bits);
        },
        EncoderType::Pq => {
            if !supports_subspaces(options.pq_subspaces) {
                return Err(ArgError::UnsupportedSubspaces { m: options.pq_subspaces });
            }
            subspaces = Some(options.pq_subspaces);
        },
        _ => {},
    }
    Ok(
        SearchPlan {
            stored: stored_as(
                options.dataset_type,
                options.encoder,
                options.value_type,
                options.component_type,
            ),
            graph: options.graph_type.storage(),
            metric,
            subspaces,
            query_bits,
        },
    )
}

/// A search with the options of the build loads what the build stored, under the same
/// metric.
pub proof fn law_search_loads_what_was_built<T>(
    build: crate::build_plan::BuildOptions,
    search: SearchOptions<T>,
)
    requires
        build.dataset_type == search.dataset_type,
        build.encoder == search.encoder,
        build.value_type == search.value_type,
        build.component_type == search.component_type,
        build.graph_type == search.graph_type,
        build.distance@ == search.distance@,
        crate::build_plan::plan_spec(build) is Ok,
        search_plan_spec(search) is Ok,
    ensures
        crate::build_plan::plan_spec(build)->Ok_0.stored == search_plan_spec(search)->Ok_0.stored,
        crate::build_plan::plan_spec(build)->Ok_0.graph == search_plan_spec(search)->Ok_0.graph,
        crate::build_plan::plan_spec(build)->Ok_0.metric == search_plan_spec(search)->Ok_0.metric,
{
}

/// The query width plays no part in what is loaded: it can differ from search to
/// search over one index.
pub proof fn law_query_width_is_free<T>(a: SearchOptions<T>, b: SearchOptions<T>)
    requires
        a.dataset_type == b.dataset_type,
        a.encoder == b.encoder,
        a.value_type == b.value_type,
        a.component_type == b.component_type,
        a.graph_type == b.graph_type,
        a.distance@ == b.distance@,
        a.pq_subspaces == b.pq_subspaces,
        1 <= a.query_bits <= 8,
        1 <= b.query_bits <= 8,
    ensures
        match (search_plan_spec(a), search_plan_spec(b)) {
            (Ok(p), Ok(q)) => p.stored == q.stored && p.graph == q.graph && p.metric == q.metric
                && p.subspaces == q.subspaces,
            (Err(e), Err(f)) => e == f,
            _ => false,
        },
{
}

/// The search parameters that the options stand for.
pub open spec fn search_config_spec<T, P>(options: SearchOptions<T>, query_params: P) -> HNSWSearchConfiguration<
    T,
    P,
> {
    HNSWSearchConfiguration {
        ef_search: options.ef_search,
        early_termination: match options.early_termination {
            EarlyTerminationMethod::Off => EarlyTerminationStrategy::Disabled,
            EarlyTerminationMethod::DistanceAdaptive => EarlyTerminationStrategy::DistanceAdaptive {
                lambda: options.lambda,
            },
        },
        query_params,
    }
}

/// The search parameters among the options, with parameters of the encoder.
pub fn create_search_config_with_params<T: Copy, P>(options: &SearchOptions<T>, query_params: P) -> (config:
    HNSWSearchConfiguration<T, P>)
    ensures
        config == search_config_spec(*options, query_params),
{
    let early_termination = match options.early_termination {
        EarlyTerminationMethod::Off => EarlyTerminationStrategy::Disabled,
        EarlyTerminationMethod::DistanceAdaptive => EarlyTerminationStrategy::DistanceAdaptive {
            lambda: options.lambda,
        },
    };
    HNSWSearchConfiguration { ef_search: options.ef_search, early_termination, query_params }
}

/// The search parameters among the options.
pub fn create_search_config<T: Copy>(options: &SearchOptions<T>) -> (config: HNSWSearchConfiguration<
    T,
    (),
>)
    ensures
        config == search_config_spec(*options, ()),
{
    create_search_config_with_params(options, ())
}

/// Searches an index of product-quantized dense vectors: `load` loads it with the
/// given number of subspaces, and the queries are run over it and timed.
pub fn search_dense_pq_with_distance<I, T, L, S>(
    pq_subspaces: usize,
    num_queries: usize,
    num_runs: usize,
    load: L,
    search: &S,
) -> (outcome: Result<(I, RunReport<T>), ArgError>) where
    T: Copy,
    L: FnOnce(usize) -> I,
    S: Fn(&I, usize) -> TimedReply<T>,

    requires
        num_queries * num_runs <= usize::MAX,
        crate::rerank_dense::supported_subspaces(pq_subspaces) ==> call_requires(load, (pq_subspaces,)),
        forall|index: I| #[trigger]
            call_ensures(load, (pq_subspaces,), index) ==> crate::timing::can_run(*search, &index, num_queries),
    ensures
        match outcome {
            Ok((index, report)) => {
                &&& crate::rerank_dense::supported_subspaces(pq_subspaces)
                &&& call_ensures(load, (pq_subspaces,), index)
                &&& crate::timing::runs_over(report, &index, num_queries, num_runs, *search)
            },
            Err(error) => {
                &&& !crate::rerank_dense::supported_subspaces(pq_subspaces)
                &&& error == (ArgError::UnsupportedSubspaces { m: pq_subspaces })
            },
        },
{
    if !supports_subspaces(pq_subspaces) {
        return Err(ArgError::UnsupportedSubspaces { m: pq_subspaces });
    }
    let index: I = load(pq_subspaces);
    let report = run_queries(&index, num_queries, num_runs, search);
    Ok((index, report))
}

/// The options of a two-stage search.
pub struct RerankOptions<T> {
    pub encoder: RerankEncoderArg,
    pub graph_type: RerankGraphArg,
    pub distance: String,
    pub pq_subspaces: usize,
    pub rabitq_query_bits: u32,
    pub k_candidates: usize,
    pub ef_search: usize,
    pub alpha: Option<T>,
    pub beta: Option<usize>,
    pub early_termination: EarlyTerminationMethod,
    pub lambda: Option<T>,
}

/// How the first stage of a two-stage search is encoded.
#[derive(Clone, Copy, Debug, PartialEq, Eq, Structural)]
pub enum RerankEncoderArg {
    Pq,
    Rabitq,
    RabitqExt,
}

/// How the graph of the first stage is stored.
#[derive(Clone, Copy, Debug, PartialEq, Eq, Structural)]
pub enum RerankGraphArg {
    Standard,
    Permuted,
    Streamvbyte,
}

/// What a two-stage search does.
pub struct RerankPlan<T> {
    pub metric: MetricKind,
    pub storage: NeighborStorage,
    pub encoder: FirstStageEncoder,
    pub params: RerankParams<T>,
}

/// Where early termination is on, its parameter has to be given.
pub open spec fn threshold_spec<T>(options: RerankOptions<T>) -> Result<Option<T>, ArgError> {
    match options.early_termination {
        EarlyTerminationMethod::Off => Ok(None),
        EarlyTerminationMethod::DistanceAdaptive => match options.lambda {
            Some(lambda) => Ok(Some(lambda)),
            None => Err(ArgError::LambdaMissing),
        },
    }
}

/// The parameter of early termination, where it is on.
pub fn early_termination<T: Copy>(options: &RerankOptions<T>) -> (threshold: Result<Option<T>, ArgError>)
    ensures
        threshold == threshold_spec(*options),
{
    match options.early_termination {
        EarlyTerminationMethod::Off => Ok(None),
        EarlyTerminationMethod::DistanceAdaptive => match options.lambda {
            Some(lambda) => Ok(Some(lambda)),
            None => Err(ArgError::LambdaMissing),
        },
    }
}

/// The plan of a two-stage search, or the error of the first option that is wrong.
pub open spec fn rerank_plan_spec<T>(options: RerankOptions<T>) -> Result<RerankPlan<T>, ArgError> {
    if options.encoder is Pq && options.pq_subspaces == 0 {
        Err(ArgError::SubspacesMissing)
    } else {
        match crate::metric::metric_named_spec(options.distance@) {
            None => Err(ArgError::InvalidDistance),
            Some(metric) => match threshold_spec(options) {
                Err(error) => Err(error),
                Ok(threshold) => if options.encoder is Pq
                    && !crate::rerank_dense::supported_subspaces(options.pq_subspaces) {
                    Err(ArgError::UnsupportedSubspaces { m: options.pq_subspaces })
                } else {
                    Ok(
                        RerankPlan {
                            metric,
                            storage: if options.graph_type is Streamvbyte {
                                NeighborStorage::StreamVByte
                            } else {
                                NeighborStorage::Plain
                            },
                            encoder: match options.encoder {
                                RerankEncoderArg::Pq => FirstStageEncoder::Pq {
                                    subspaces: options.pq_subspaces,
                                },
                                RerankEncoderArg::Rabitq => FirstStageEncoder::Rabitq,
                                RerankEncoderArg::RabitqExt => FirstStageEncoder::RabitqExt,
                            },
                            params: crate::rerank_dense::rerank_params_spec(
                                options.k_candidates,
                                options.ef_search,
                                options.alpha,
                                options.beta,
                                threshold,
                                if options.encoder is Rabitq {
                                    Some(options.rabitq_query_bits)
                                } else {
                                    None
                                },
                                false,
                            ),
                        },
                    )
                },
            },
        }
    }
}

/// Plans a two-stage search.
pub fn plan_rerank<T: Copy>(options: &RerankOptions<T>) -> (plan: Result<RerankPlan<T>, ArgError>)
    requires
        options.encoder is Rabitq && crate::metric::metric_named_spec(options.distance@) is Some
            && threshold_spec(*options) is Ok ==> 1 <= options.rabitq_query_bits <= 8,
    ensures
        plan == rerank_plan_spec(*options),
{
    let is_pq: bool = match options.encoder {
        RerankEncoderArg::Pq => true,
        _ => false,
    };
    if is_pq && options.pq_subspaces == 0 {
        return Err(ArgError::SubspacesMissing);
    }
    let metric: MetricKind = match parse_metric(options.distance.as_str()) {
        Ok(metric) => metric,
        Err(error) => {
            return Err(error);
        },
    };
    let threshold: Option<T> = match early_termination(options) {
        Ok(threshold) => threshold,
        Err(error) => {
            return Err(error);
        },
    };
    if is_pq && !supports_subspaces(options.pq_subspaces) {
        return Err(ArgError::UnsupportedSubspaces { m: options.pq_subspaces });
    }
    let storage: NeighborStorage = match options.graph_type {
        RerankGraphArg::Streamvbyte => NeighborStorage::StreamVByte,
        _ => NeighborStorage::Plain,
    };
    let (encoder, query_bits): (FirstStageEncoder, Option<u32>) = match options.encoder {
        RerankEncoderArg::Pq => (FirstStageEncoder::Pq { subspaces: options.pq_subspaces }, None),
        RerankEncoderArg::Rabitq => (FirstStageEncoder::Rabitq, Some(options.rabitq_query_bits)),
        RerankEncoderArg::RabitqExt => (FirstStageEncoder::RabitqExt, None),
    };
    let params = rerank_params(
        options.k_candidates,
        options.ef_search,
        options.alpha,
        options.beta,
        threshold,
        query_bits,
        false,
    );
    Ok(RerankPlan { metric, storage, encoder, params })
}

/// Checks that both stages of a two-stage index hold the same number of vectors.
pub fn check_collections(first_stage: usize, rerank: usize) -> (checked: Result<(), ArgError>)
    ensures
        checked == if first_stage == rerank {
            Ok::<(), ArgError>(())
        } else {
            Err(ArgError::CollectionMismatch { first_stage, rerank })
        },
{
    if first_stage == rerank {
        Ok(())
    } else {
        Err(ArgError::CollectionMismatch { first_stage, rerank })
    }
}

/// The type of values stored in the clusters of an inverted file.
#[derive(Clone, Copy, Debug, PartialEq, Eq, Structural)]
pub enum ClusterValue {
    F32,
    F16,
}

/// How the clusters of an inverted file are stored.
#[derive(Clone, Copy, Debug, PartialEq, Eq, Structural)]
pub enum ClusterStorage {
    Plain(ClusterValue),
    Pq { subspaces: usize },
}

/// The numbers of subspaces that clusters support.
pub open spec fn supported_cluster_subspaces(m: usize) -> bool {
    m == 4 || m == 8 || m == 16 || m == 32 || m == 48 || m == 64 || m == 96 || m == 128 || m == 192
}

/// How the clusters of an inverted file are stored: product-quantized where a number
/// of subspaces is given, as plain values otherwise.
pub fn cluster_storage(value_type: ClusterValue, m_pq: Option<usize>) -> (storage: Result<
    ClusterStorage,
    ArgError,
>)
    ensures
        storage == (match m_pq {
            None => Ok::<ClusterStorage, ArgError>(ClusterStorage::Plain(value_type)),
            Some(m) => if supported_cluster_subspaces(m) {
                Ok(ClusterStorage::Pq { subspaces: m })
            } else {
                Err(ArgError::UnsupportedSubspaces { m })
            },
        }),
{
    match m_pq {
        None => Ok(ClusterStorage::Plain(value_type)),
        Some(m) => {
            if m == 4 || m == 8 || m == 16 || m == 32 || m == 48 || m == 64 || m == 96 || m == 128 || m
                == 192 {
                Ok(ClusterStorage::Pq { subspaces: m })
            } else {
                Err(ArgError::UnsupportedSubspaces { m })
            }
        },
    }
}

/// Whether single-precision bits stand for a number above 0.
pub open spec fn is_positive(bits: u32) -> bool {
    0 < bits <= 0x7F80_0000
}

/// Parameters of a scan over all centroids: there are none besides how many clusters
/// are probed.
pub fn make_flat_params(nprobe: usize) -> (params: IVFSearchParams<(), ()>)
    ensures
        params.nprobe == nprobe,
{
    IVFSearchParams { nprobe, centroid_search_params: (), cluster_query_params: () }
}

/// Parameters of a graph search over centroids: candidates for at least as many
/// clusters as are probed, and early termination where `lambda` is above 0.
pub fn make_params<T: Copy, A: Arithmetic<T>>(nprobe: usize, ef_search: usize, lambda: T, ops: &A) -> (params:
    IVFSearchParams<HNSWSearchConfiguration<T, ()>, ()>)
    ensures
        params.nprobe == nprobe,
        params.centroid_search_params.ef_search == if ef_search > nprobe {
            ef_search
        } else {
            nprobe
        },
        exists|bits: u32| #[trigger]
            call_ensures(A::bits, (ops, lambda), bits)
                && params.centroid_search_params.early_termination == if is_positive(bits) {
                EarlyTerminationStrategy::DistanceAdaptive { lambda }
            } else {
                EarlyTerminationStrategy::Disabled
            },
{
    let ef: usize = if ef_search > nprobe {
        ef_search
    } else {
        nprobe
    };
    let bits: u32 = ops.bits(lambda);
    let early_termination = if 0 < bits && bits <= 0x7F80_0000 {
        EarlyTerminationStrategy::DistanceAdaptive { lambda }
    } else {
        EarlyTerminationStrategy::Disabled
    };
    IVFSearchParams {
        nprobe,
        centroid_search_params: HNSWSearchConfiguration {
            ef_search: ef,
            early_termination,
            query_params: (),
        },
        cluster_query_params: (),
    }
}

} // verus!
