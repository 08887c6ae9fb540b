//! Two-stage dense search: a compressed graph index, reranked against plain vectors.

use crate::dense::{convert_values, PlainDenseDataset};
use crate::error::{BuildError, IndexError};
use crate::graph_type::{parse_graph_type, GraphTypeKind, NeighborStorage};
use crate::hnsw::{check_build_arguments, Reordering};
use crate::metric::{parse_metric, MetricKind};
use crate::query::{
    configured, search_dense, search_dense_batch, HNSWBuildConfiguration, HNSWSearchConfiguration,
};
use crate::ranking::ScoredVector;
use crate::text::same_text;
use vstd::prelude::*;

verus! {

/// How the first stage encodes vectors.
#[derive(Clone, Copy, Debug, PartialEq, Eq, Structural)]
pub enum FirstStageEncoder {
    /// Product quantization with this many subspaces.
    Pq { subspaces: usize },
    /// One bit for each component; queries are quantized too.
    Rabitq,
    /// Several bits for each component.
    RabitqExt,
}

/// What a build is told about the encoder of the first stage.
pub struct BuildArgs {
    pub encoder: String,
    pub pq_subspaces: usize,
    pub rabitq_total_bits: u32,
    pub rabitq_query_bits: u32,
}

/// What a load is told about the encoder. The code width is stored with the index,
/// the query width is not.
pub struct LoadArgs {
    pub encoder: String,
    pub pq_subspaces: usize,
    pub rabitq_query_bits: u32,
}

/// The numbers of subspaces that product quantization supports.
pub open spec fn supported_subspaces(m: usize) -> bool {
    m == 4 || m == 8 || m == 16 || m == 24 || m == 32 || m == 48 || m == 64 || m == 96 || m == 128 || m
        == 192 || m == 256
}

/// Whether product quantization supports this many subspaces.
pub fn supports_subspaces(m: usize) -> (supported: bool)
    ensures
        supported == supported_subspaces(m),
{
    m == 4 || m == 8 || m == 16 || m == 24 || m == 32 || m == 48 || m == 64 || m == 96 || m == 128 || m
        == 192 || m == 256
}

/// What is wrong with the width that belongs to the encoder; other widths are not
/// looked at.
pub open spec fn width_error(
    encoder: Seq<char>,
    total_bits: Option<u32>,
    query_bits: u32,
) -> Option<IndexError> {
    if encoder == "rabitq"@ {
        if 1 <= query_bits <= 8 {
            None
        } else {
            Some(IndexError::QueryBits { bits: query_bits })
        }
    } else if encoder == "rabitq-ext"@ {
        match total_bits {
            Some(bits) => if bits == 2 || bits == 4 || bits == 8 {
                None
            } else {
                Some(IndexError::TotalBits { bits })
            },
            None => None,
        }
    } else {
        None
    }
}

/// Checks the width that belongs to the encoder.
pub fn validate_encoder_widths(encoder: &str, total_bits: Option<u32>, query_bits: u32) -> (checked:
    Result<(), IndexError>)
    ensures
        checked == (match width_error(encoder@, total_bits, query_bits) {
            Some(error) => Err::<(), IndexError>(error),
            None => Ok(()),
        }),
{
    if same_text(encoder, "rabitq") {
        if query_bits < 1 || query_bits > 8 {
            return Err(IndexError::QueryBits { bits: query_bits });
        }
    } else if same_text(encoder, "rabitq-ext") {
        match total_bits {
            Some(bits) => {
                if bits != 2 && bits != 4 && bits != 8 {
                    return Err(IndexError::TotalBits { bits });
                }
            },
            None => {},
        }
    }
    Ok(())
}

/// Whether `parsed` is the encoder with the given name, or the error that it has
/// none.
pub open spec fn names_encoder(
    name: Seq<char>,
    pq_subspaces: usize,
    parsed: Result<FirstStageEncoder, IndexError>,
) -> bool {
    if name == "pq"@ {
        if supported_subspaces(pq_subspaces) {
            parsed == Ok::<FirstStageEncoder, IndexError>(
                FirstStageEncoder::Pq { subspaces: pq_subspaces },
            )
        } else {
            parsed == Err::<FirstStageEncoder, IndexError>(
                IndexError::UnsupportedSubspaces { m: pq_subspaces },
            )
        }
    } else if name == "rabitq"@ {
        parsed == Ok::<FirstStageEncoder, IndexError>(FirstStageEncoder::Rabitq)
    } else if name == "rabitq-ext"@ {
        parsed == Ok::<FirstStageEncoder, IndexError>(FirstStageEncoder::RabitqExt)
    } else {
        parsed matches Err(IndexError::UnknownEncoder(other)) && other@ == name
    }
}

/// The encoder with the given name.
pub fn parse_encoder(name: &str, pq_subspaces: usize) -> (parsed: Result<FirstStageEncoder, IndexError>)
    ensures
        names_encoder(name@, pq_subspaces, parsed),
{
    if same_text(name, "pq") {
        if supports_subspaces(pq_subspaces) {
            Ok(FirstStageEncoder::Pq { subspaces: pq_subspaces })
        } else {
            Err(IndexError::UnsupportedSubspaces { m: pq_subspaces })
        }
    } else if same_text(name, "rabitq") {
        Ok(FirstStageEncoder::Rabitq)
    } else if same_text(name, "rabitq-ext") {
        Ok(FirstStageEncoder::RabitqExt)
    } else {
        Err(IndexError::UnknownEncoder(name.to_owned()))
    }
}

/// The query width of an index with the given encoder.
pub open spec fn query_width(encoder: FirstStageEncoder, bits: u32) -> Option<u32> {
    if encoder is Rabitq {
        Some(bits)
    } else {
        None
    }
}

/// The code width that the given encoder is built with.
pub open spec fn code_width(encoder: FirstStageEncoder, bits: u32) -> Option<u32> {
    if encoder is RabitqExt {
        Some(bits)
    } else {
        None
    }
}

/// Whether `checked` is what the arguments of a build name, or the error of the
/// first of them that is wrong: the dimension, the number of values, the width, the
/// graph type, the metric, the encoder.
pub open spec fn checks_build(
    len: nat,
    dim: usize,
    m: usize,
    metric: Seq<char>,
    graph_type: Seq<char>,
    args: BuildArgs,
    checked: Result<(MetricKind, GraphTypeKind, FirstStageEncoder), IndexError>,
) -> bool {
    if dim == 0 {
        checked == Err::<(MetricKind, GraphTypeKind, FirstStageEncoder), IndexError>(
            IndexError::DimensionZero,
        )
    } else if len % (dim as nat) != 0 {
        checked == Err::<(MetricKind, GraphTypeKind, FirstStageEncoder), IndexError>(
            IndexError::DataLength { len: len as usize, dim },
        )
    } else {
        match width_error(args.encoder@, Some(args.rabitq_total_bits), args.rabitq_query_bits) {
            Some(error) => checked == Err::<
                (MetricKind, GraphTypeKind, FirstStageEncoder),
                IndexError,
            >(error),
            None => exists|names: Result<(MetricKind, GraphTypeKind), IndexError>|
                {
                    &&& #[trigger] crate::hnsw::build_arguments(metric, graph_type, m, names)
                    &&& match names {
                        Err(error) => checked == Err::<
                            (MetricKind, GraphTypeKind, FirstStageEncoder),
                            IndexError,
                        >(error),
                        Ok((kind, graph)) => encoder_completes(kind, graph, args, checked),
                    }
                },
        }
    }
}

/// Whether `checked` adds the encoder to a metric and a graph type.
pub open spec fn encoder_completes(
    kind: MetricKind,
    graph: GraphTypeKind,
    args: BuildArgs,
    checked: Result<(MetricKind, GraphTypeKind, FirstStageEncoder), IndexError>,
) -> bool {
    match checked {
        Ok((k, g, encoder)) => k == kind && g == graph && names_encoder(
            args.encoder@,
            args.pq_subspaces,
            Ok(encoder),
        ),
        Err(error) => names_encoder(args.encoder@, args.pq_subspaces, Err(error)),
    }
}

/// Checks the arguments of a build.
pub fn check_build(
    len: usize,
    dim: usize,
    m: usize,
    metric: &str,
    graph_type: &str,
    args: &BuildArgs,
) -> (checked: Result<(MetricKind, GraphTypeKind, FirstStageEncoder), IndexError>)
    ensures
        checks_build(
            len as nat,
            dim,
            m,
            crate::text::in_lower_case(metric@),
            crate::text::in_lower_case(graph_type@),
            *args,
            checked,
        ),
{
    if dim == 0 {
        return Err(IndexError::DimensionZero);
    }
    if len % dim != 0 {
        return Err(IndexError::DataLength { len, dim });
    }
    match validate_encoder_widths(
        args.encoder.as_str(),
        Some(args.rabitq_total_bits),
        args.rabitq_query_bits,
    ) {
        Ok(()) => {},
        Err(error) => {
            return Err(error);
        },
    }
    match check_build_arguments(metric, graph_type, m) {
        Err(error) => {
            assert(crate::hnsw::build_arguments(
                crate::text::in_lower_case(metric@),
                crate::text::in_lower_case(graph_type@),
                m,
                Err(error),
            ));
            Err(error)
        },
        Ok((kind, graph)) => {
            assert(crate::hnsw::build_arguments(
                crate::text::in_lower_case(metric@),
                crate::text::in_lower_case(graph_type@),
                m,
                Ok((kind, graph)),
            ));
            match parse_encoder(args.encoder.as_str(), args.pq_subspaces) {
                Ok(encoder) => Ok((kind, graph, encoder)),
                Err(error) => Err(error),
            }
        },
    }
}

/// Parameters of a two-stage search.
pub struct RerankParams<T> {
    /// How many candidates the first stage hands to the second.
    pub k_candidates: usize,
    /// Parameters of the first stage, with the query width where queries are
    /// quantized.
    pub first_stage: HNSWSearchConfiguration<T, Option<u32>>,
    /// Slack for pruning candidates.
    pub alpha: Option<T>,
    /// Early exit of the second stage.
    pub beta: Option<usize>,
    /// Whether the scores of both stages are summed.
    pub residuals: bool,
}

pub open spec fn rerank_params_spec<T>(
    k_candidates: usize,
    ef_search: usize,
    alpha: Option<T>,
    beta: Option<usize>,
    threshold: Option<T>,
    query_bits: Option<u32>,
    residuals: bool,
) -> RerankParams<T> {
    RerankParams {
        k_candidates,
        first_stage: crate::query::configured_spec(ef_search, threshold, query_bits),
        alpha,
        beta,
        residuals,
    }
}

/// The parameters of a two-stage search.
pub fn rerank_params<T>(
    k_candidates: usize,
    ef_search: usize,
    alpha: Option<T>,
    beta: Option<usize>,
    threshold: Option<T>,
    query_bits: Option<u32>,
    residuals: bool,
) -> (params: RerankParams<T>)
    ensures
        params == rerank_params_spec(
            k_candidates,
            ef_search,
            alpha,
            beta,
            threshold,
            query_bits,
            residuals,
        ),
{
    let first_stage = configured(ef_search, threshold, query_bits);
    RerankParams { k_candidates, first_stage, alpha, beta, residuals }
}

/// A two-stage index as it was read back.
pub struct LoadedStages<I> {
    pub index: I,
    pub dim: usize,
    pub first_stage_bytes: usize,
    pub rerank_bytes: usize,
}

/// A two-stage dense index `I`.
pub struct DenseRerankHNSW<I> {
    metric: MetricKind,
    storage: NeighborStorage,
    encoder: FirstStageEncoder,
    index: I,
    query_bits: Option<u32>,
    dim: usize,
    space_usage_bytes: usize,
}

impl<I> DenseRerankHNSW<I> {
    pub closed spec fn spec_metric(self) -> MetricKind {
        self.metric
    }

    pub closed spec fn spec_storage(self) -> NeighborStorage {
        self.storage
    }

    pub closed spec fn spec_encoder(self) -> FirstStageEncoder {
        self.encoder
    }

    pub closed spec fn spec_index(self) -> I {
        self.index
    }

    /// The width to which queries are quantized.
    pub closed spec fn spec_query_bits(self) -> Option<u32> {
        self.query_bits
    }

    pub closed spec fn spec_dim(self) -> nat {
        self.dim as nat
    }

    pub closed spec fn spec_bytes(self) -> nat {
        self.space_usage_bytes as nat
    }

    /// A query width of 1 to 8 bits where queries are quantized, none elsewhere.
    pub open spec fn wf(self) -> bool {
        match self.spec_query_bits() {
            Some(bits) => self.spec_encoder() is Rabitq && 1 <= bits <= 8,
            None => !(self.spec_encoder() is Rabitq),
        }
    }

    /// Whether two indexes agree on everything but the query width.
    pub open spec fn same_but_width(self, other: DenseRerankHNSW<I>) -> bool {
        &&& self.spec_metric() == other.spec_metric()
        &&& self.spec_storage() == other.spec_storage()
        &&& self.spec_encoder() == other.spec_encoder()
        &&& self.spec_index() == other.spec_index()
        &&& self.spec_dim() == other.spec_dim()
        &&& self.spec_bytes() == other.spec_bytes()
    }

    pub fn metric(&self) -> (metric: MetricKind)
        ensures
            metric == self.spec_metric(),
    {
        self.metric
    }

    pub fn storage(&self) -> (storage: NeighborStorage)
        ensures
            storage == self.spec_storage(),
    {
        self.storage
    }

    pub fn encoder(&self) -> (encoder: FirstStageEncoder)
        ensures
            encoder == self.spec_encoder(),
    {
        self.encoder
    }

    pub fn index(&self) -> (index: &I)
        ensures
            *index == self.spec_index(),
    {
        &self.index
    }

    /// The width to which queries are quantized.
    pub fn query_bits(&self) -> (bits: Option<u32>)
        ensures
            bits == self.spec_query_bits(),
    {
        self.query_bits
    }

    pub fn dim(&self) -> (dim: usize)
        ensures
            dim == self.spec_dim(),
    {
        self.dim
    }

    /// The bytes held by both stages.
    pub fn space_usage_bytes(&self) -> (bytes: usize)
        ensures
            bytes == self.spec_bytes(),
    {
        self.space_usage_bytes
    }

    /// Writes both stages with `write`; the query width is not written.
    pub fn save<E, W: FnOnce(&I) -> Result<(), E>>(&self, write: W) -> (saved: Result<(), E>)
        requires
            call_requires(write, (&self.spec_index(),)),
        ensures
            call_ensures(write, (&self.spec_index(),), saved),
    {
        write(&self.index)
    }

    /// Changes the width to which queries are quantized; the stored codes stay.
    pub fn set_query_bits(&mut self, bits: u32) -> (changed: Result<(), IndexError>)
        requires
            old(self).wf(),
        ensures
            final(self).wf(),
            final(self).same_but_width(*old(self)),
            if bits < 1 || bits > 8 {
                changed == Err::<(), IndexError>(IndexError::QueryBits { bits })
            } else if !(old(self).spec_encoder() is Rabitq) {
                changed == Err::<(), IndexError>(IndexError::QueriesNotQuantized)
            } else {
                changed == Ok::<(), IndexError>(())
            },
            final(self).spec_query_bits() == if changed is Ok {
                Some(bits)
            } else {
                old(self).spec_query_bits()
            },
    {
        if bits < 1 || bits > 8 {
            return Err(IndexError::QueryBits { bits });
        }
        match self.encoder {
            FirstStageEncoder::Rabitq => {
                self.query_bits = Some(bits);
                Ok(())
            },
            _ => Err(IndexError::QueriesNotQuantized),
        }
    }

    /// The approximate `k` nearest neighbors of one query, padded to `k`.
    pub fn search<T, F>(
        &self,
        query: &[T],
        k: usize,
        k_candidates: usize,
        ef_search: usize,
        alpha: Option<T>,
        beta: Option<usize>,
        early_exit_threshold: Option<T>,
        infinity: T,
        search: &F,
    ) -> (found: Result<(Vec<T>, Vec<i64>), IndexError>) where
        T: Copy,
        F: Fn(&I, &[T], usize, &RerankParams<T>) -> Vec<ScoredVector<T>>,

        requires
            crate::query::accepts(
                *search,
                &self.spec_index(),
                self.spec_dim(),
                k,
                &rerank_params_spec(
                    k_candidates,
                    ef_search,
                    alpha,
                    beta,
                    early_exit_threshold,
                    self.spec_query_bits(),
                    false,
                ),
            ),
        ensures
            query@.len() != self.spec_dim() <==> found is Err,
            match found {
                Ok(packed) => exists|reply: Vec<ScoredVector<T>>| #[trigger]
                    crate::query::answers(
                        *search,
                        &self.spec_index(),
                        query@,
                        k,
                        &rerank_params_spec(
                            k_candidates,
                            ef_search,
                            alpha,
                            beta,
                            early_exit_threshold,
                            self.spec_query_bits(),
                            false,
                        ),
                        reply,
                    ) && crate::query::packs_one(reply@, k as nat, infinity, packed),
                Err(error) => error == (IndexError::QueryDimension {
                    got: query.len(),
                    dim: self.spec_dim() as usize,
                }),
            },
    {
        let params = rerank_params(
            k_candidates,
            ef_search,
            alpha,
            beta,
            early_exit_threshold,
            self.query_bits,
            false,
        );
        search_dense(&self.index, self.dim, query, k, &params, infinity, search)
    }

    /// The approximate `k` nearest neighbors of every query of a batch, each padded
    /// to `k`.
    pub fn batch_search<T, F>(
        &self,
        queries: &[T],
        k: usize,
        k_candidates: usize,
        ef_search: usize,
        alpha: Option<T>,
        beta: Option<usize>,
        early_exit_threshold: Option<T>,
        infinity: T,
        search: &F,
    ) -> (found: Result<(Vec<T>, Vec<i64>), IndexError>) where
        T: Copy,
        F: Fn(&I, &[T], usize, &RerankParams<T>) -> Vec<ScoredVector<T>>,

        requires
            self.spec_dim() > 0,
            crate::query::accepts(
                *search,
                &self.spec_index(),
                self.spec_dim(),
                k,
                &rerank_params_spec(
                    k_candidates,
                    ef_search,
                    alpha,
                    beta,
                    early_exit_threshold,
                    self.spec_query_bits(),
                    false,
                ),
            ),
        ensures
            queries@.len() % self.spec_dim() != 0 <==> found is Err,
            match found {
                Ok(packed) => exists|replies: Seq<Vec<ScoredVector<T>>>| #[trigger]
                    crate::query::answers_batch(
                        *search,
                        &self.spec_index(),
                        queries@,
                        self.spec_dim(),
                        k,
                        &rerank_params_spec(
                            k_candidates,
                            ef_search,
                            alpha,
                            beta,
                            early_exit_threshold,
                            self.spec_query_bits(),
                            false,
                        ),
                        replies,
                    ) && crate::query::packs(replies, k as nat, infinity, packed),
                Err(error) => error == (IndexError::QueriesLength {
                    len: queries.len(),
                    dim: self.spec_dim() as usize,
                }),
            },
    {
        let params = rerank_params(
            k_candidates,
            ef_search,
            alpha,
            beta,
            early_exit_threshold,
            self.query_bits,
            false,
        );
        search_dense_batch(&self.index, self.dim, queries, k, &params, infinity, search)
    }
}

/// Whether `index` is built in order: the plain vectors are stored, a graph is built
/// over them, reordered as the graph type says, its vectors are replaced by codes,
/// and the result is paired with the plain vectors.
pub open spec fn staged<V, D, P, Q, S, I, M, B, R, E, U, X>(
    index: DenseRerankHNSW<I>,
    metric: MetricKind,
    graph: GraphTypeKind,
    encoder: FirstStageEncoder,
    values: Vec<V>,
    n: usize,
    dim: usize,
    config: HNSWBuildConfiguration,
    total_bits: u32,
    make: M,
    build: B,
    reorder: R,
    encode: E,
    usage: U,
    pair: X,
) -> bool where
    M: FnOnce(MetricKind, Vec<V>, usize, usize) -> D,
    B: FnOnce(MetricKind, &D, HNSWBuildConfiguration) -> P,
    R: FnOnce(P, Reordering) -> Q,
    E: FnOnce(Q, FirstStageEncoder, Option<u32>) -> S,
    U: FnOnce(&S, &D) -> (usize, usize),
    X: FnOnce(S, D) -> I,
 {
    exists|plain: D, built: P, reordered: Q, stage: S, bytes: (usize, usize)|
        #![trigger call_ensures(make, (metric, values, n, dim), plain), call_ensures(build, (metric, &plain, config), built), call_ensures(reorder, (built, graph.reordering_spec()), reordered), call_ensures(encode, (reordered, encoder, code_width(encoder, total_bits)), stage), call_ensures(usage, (&stage, &plain), bytes)]
        {
            &&& call_ensures(make, (metric, values, n, dim), plain)
            &&& call_ensures(build, (metric, &plain, config), built)
            &&& call_ensures(reorder, (built, graph.reordering_spec()), reordered)
            &&& call_ensures(encode, (reordered, encoder, code_width(encoder, total_bits)), stage)
            &&& call_ensures(usage, (&stage, &plain), bytes)
            &&& call_ensures(pair, (stage, plain), index.spec_index())
            &&& index.spec_bytes() == bytes.0 + bytes.1
        }
}

/// Whether both stages can be built in order from the given values: each step accepts
/// what the steps before it made, and the bytes of both stages can be counted.
pub open spec fn can_stage<V, D, P, Q, S, I, M, B, R, E, U, X>(
    metric: MetricKind,
    encoder: FirstStageEncoder,
    values: Vec<V>,
    n: usize,
    dim: usize,
    config: HNSWBuildConfiguration,
    total_bits: u32,
    make: M,
    build: B,
    reorder: R,
    encode: E,
    usage: U,
    pair: X,
) -> bool where
    M: FnOnce(MetricKind, Vec<V>, usize, usize) -> D,
    B: FnOnce(MetricKind, &D, HNSWBuildConfiguration) -> P,
    R: FnOnce(P, Reordering) -> Q,
    E: FnOnce(Q, FirstStageEncoder, Option<u32>) -> S,
    U: FnOnce(&S, &D) -> (usize, usize),
    X: FnOnce(S, D) -> I,
 {
    let width = code_width(encoder, total_bits);
    &&& call_requires(make, (metric, values, n, dim))
    &&& forall|plain: D| #[trigger]
        call_ensures(make, (metric, values, n, dim), plain) ==> call_requires(
            build,
            (metric, &plain, config),
        )
    &&& forall|plain: D, built: P, reordering: Reordering|
        #![trigger call_ensures(build, (metric, &plain, config), built), call_requires(reorder, (built, reordering))]
        call_ensures(make, (metric, values, n, dim), plain) && call_ensures(
            build,
            (metric, &plain, config),
            built,
        ) ==> call_requires(reorder, (built, reordering))
    &&& forall|plain: D, built: P, reordering: Reordering, reordered: Q|
        #![trigger call_ensures(build, (metric, &plain, config), built), call_ensures(reorder, (built, reordering), reordered)]
        call_ensures(make, (metric, values, n, dim), plain) && call_ensures(
            build,
            (metric, &plain, config),
            built,
        ) && call_ensures(reorder, (built, reordering), reordered) ==> {
            &&& call_requires(encode, (reordered, encoder, width))
            &&& forall|stage: S| #[trigger]
                call_ensures(encode, (reordered, encoder, width), stage) ==> can_pair(
                    stage,
                    plain,
                    usage,
                    pair,
                )
        }
}

/// Whether two stages can be counted and put together.
pub open spec fn can_pair<D, S, I, U, X>(stage: S, plain: D, usage: U, pair: X) -> bool where
    U: FnOnce(&S, &D) -> (usize, usize),
    X: FnOnce(S, D) -> I,
 {
    &&& call_requires(usage, (&stage, &plain))
    &&& forall|bytes: (usize, usize)| #[trigger]
        call_ensures(usage, (&stage, &plain), bytes) ==> bytes.0 + bytes.1 <= usize::MAX
    &&& call_requires(pair, (stage, plain))
}

/// Whether both stages can be built over vectors of `dim` values each, with any encoder
/// that `args` name.
pub open spec fn can_build_over<T, V, D, P, Q, S, I, N, M, B, R, E, U, X>(
    data: Seq<T>,
    dim: usize,
    config: HNSWBuildConfiguration,
    args: BuildArgs,
    narrow: N,
    make: M,
    build: B,
    reorder: R,
    encode: E,
    usage: U,
    pair: X,
) -> bool where
    N: Fn(T) -> V,
    M: FnOnce(MetricKind, Vec<V>, usize, usize) -> D,
    B: FnOnce(MetricKind, &D, HNSWBuildConfiguration) -> P,
    R: FnOnce(P, Reordering) -> Q,
    E: FnOnce(Q, FirstStageEncoder, Option<u32>) -> S,
    U: FnOnce(&S, &D) -> (usize, usize),
    X: FnOnce(S, D) -> I,
 {
    &&& crate::dense::can_convert(narrow, data)
    &&& dim > 0 && data.len() % (dim as nat) == 0 ==> forall|
        metric: MetricKind,
        encoder: FirstStageEncoder,
        values: Vec<V>,
    |
        names_encoder(args.encoder@, args.pq_subspaces, Ok(encoder)) && crate::dense::converts(
            narrow,
            data,
            values@,
        ) ==> #[trigger] can_stage(
            metric,
            encoder,
            values,
            (data.len() / (dim as nat)) as usize,
            dim,
            config,
            args.rabitq_total_bits,
            make,
            build,
            reorder,
            encode,
            usage,
            pair,
        )
}

impl<I> DenseRerankHNSW<I> {
    /// Whether `built` is what a build over `data` gives: the error of the first
    /// argument that is wrong, or the index built in order from its arguments.
    pub open spec fn array_build<T, V, D, P, Q, S, N, M, B, R, E, U, X>(
        built: Result<DenseRerankHNSW<I>, IndexError>,
        data: Seq<T>,
        dim: usize,
        m: usize,
        ef_construction: usize,
        metric: Seq<char>,
        graph_type: Seq<char>,
        args: BuildArgs,
        narrow: N,
        make: M,
        build: B,
        reorder: R,
        encode: E,
        usage: U,
        pair: X,
    ) -> bool where
        N: Fn(T) -> V,
        M: FnOnce(MetricKind, Vec<V>, usize, usize) -> D,
        B: FnOnce(MetricKind, &D, HNSWBuildConfiguration) -> P,
        R: FnOnce(P, Reordering) -> Q,
        E: FnOnce(Q, FirstStageEncoder, Option<u32>) -> S,
        U: FnOnce(&S, &D) -> (usize, usize),
        X: FnOnce(S, D) -> I,
     {
        exists|checked: Result<(MetricKind, GraphTypeKind, FirstStageEncoder), IndexError>|
            {
                &&& #[trigger] checks_build(
                    data.len(),
                    dim,
                    m,
                    metric,
                    graph_type,
                    args,
                    checked,
                )
                &&& match checked {
                    Err(error) => built == Err::<DenseRerankHNSW<I>, IndexError>(error),
                    Ok((kind, graph, encoder)) => {
                        &&& built matches Ok(index)
                        &&& index.wf()
                        &&& index.spec_metric() == kind
                        &&& index.spec_storage() == graph.storage_spec()
                        &&& index.spec_encoder() == encoder
                        &&& index.spec_query_bits() == query_width(encoder, args.rabitq_query_bits)
                        &&& index.spec_dim() == dim
                        &&& exists|values: Vec<V>| #[trigger]
                            crate::dense::converts(narrow, data, values@) && staged(
                                index,
                                kind,
                                graph,
                                encoder,
                                values,
                                (data.len() / (dim as nat)) as usize,
                                dim,
                                HNSWBuildConfiguration { num_neighbors: m, ef_construction },
                                args.rabitq_total_bits,
                                make,
                                build,
                                reorder,
                                encode,
                                usage,
                                pair,
                            )
                    },
                }
            }
    }

    /// Builds both stages over vectors of `dim` values each, given one after the
    /// other.
    ///
    /// Every value is converted by `narrow`; `make` stores the vectors, `build` builds
    /// a graph over them, `reorder` reorders it, `encode` replaces its vectors by codes
    /// of the given width, `usage` counts the bytes of both stages and `pair` puts them
    /// together.
    pub fn build_from_array<T, V, D, P, Q, S, N, M, B, R, E, U, X>(
        data: &[T],
        dim: usize,
        m: usize,
        ef_construction: usize,
        metric: &str,
        graph_type: &str,
        args: &BuildArgs,
        narrow: &N,
        make: M,
        build: B,
        reorder: R,
        encode: E,
        usage: U,
        pair: X,
    ) -> (built: Result<DenseRerankHNSW<I>, IndexError>) where
        T: Copy,
        N: Fn(T) -> V,
        M: FnOnce(MetricKind, Vec<V>, usize, usize) -> D,
        B: FnOnce(MetricKind, &D, HNSWBuildConfiguration) -> P,
        R: FnOnce(P, Reordering) -> Q,
        E: FnOnce(Q, FirstStageEncoder, Option<u32>) -> S,
        U: FnOnce(&S, &D) -> (usize, usize),
        X: FnOnce(S, D) -> I,

        requires
            can_build_over(
                data@,
                dim,
                HNSWBuildConfiguration { num_neighbors: m, ef_construction },
                *args,
                *narrow,
                make,
                build,
                reorder,
                encode,
                usage,
                pair,
            ),
        ensures
            Self::array_build(
                built,
                data@,
                dim,
                m,
                ef_construction,
                crate::text::in_lower_case(metric@),
                crate::text::in_lower_case(graph_type@),
                *args,
                *narrow,
                make,
                build,
                reorder,
                encode,
                usage,
                pair,
            ),
    {
        let (kind, graph, encoder) = match check_build(data.len(), dim, m, metric, graph_type, args) {
            Ok(checked) => checked,
            Err(error) => {
                assert(checks_build(
                    data@.len(),
                    dim,
                    m,
                    crate::text::in_lower_case(metric@),
                    crate::text::in_lower_case(graph_type@),
                    *args,
                    Err(error),
                ));
                return Err(error);
            },
        };
        assert(checks_build(
            data@.len(),
            dim,
            m,
            crate::text::in_lower_case(metric@),
            crate::text::in_lower_case(graph_type@),
            *args,
            Ok((kind, graph, encoder)),
        ));
        assert(names_encoder(args.encoder@, args.pq_subspaces, Ok(encoder)));
        proof {
            reveal_strlit("pq");
            reveal_strlit("rabitq");
            reveal_strlit("rabitq-ext");
        }
        let values: Vec<V> = convert_values(data, narrow);
        let n: usize = data.len() / dim;
        proof {
            vstd::arithmetic::div_mod::lemma_fundamental_div_mod(data.len() as int, dim as int);
            vstd::arithmetic::mul::lemma_mul_is_commutative(dim as int, n as int);
        }
        let ghost given = values;
        let config = HNSWBuildConfiguration { num_neighbors: m, ef_construction };
        assert(can_stage(
            kind,
            encoder,
            given,
            n,
            dim,
            config,
            args.rabitq_total_bits,
            make,
            build,
            reorder,
            encode,
            usage,
            pair,
        ));
        let plain: D = make(kind, values, n, dim);
        assert(call_ensures(make, (kind, given, n, dim), plain));
        let built: P = build(kind, &plain, config);
        assert(call_ensures(build, (kind, &plain, config), built));
        let ghost ghost_built = built;
        assert(call_requires(reorder, (built, graph.reordering_spec())));
        let reordered: Q = reorder(built, graph.reordering());
        assert(call_ensures(reorder, (ghost_built, graph.reordering_spec()), reordered));
        let ghost ghost_reordered = reordered;
        let total_bits: Option<u32> = match encoder {
            FirstStageEncoder::RabitqExt => Some(args.rabitq_total_bits),
            _ => None,
        };
        let stage: S = encode(reordered, encoder, total_bits);
        assert(call_ensures(encode, (ghost_reordered, encoder, total_bits), stage));
        let bytes: (usize, usize) = usage(&stage, &plain);
        assert(call_ensures(usage, (&stage, &plain), bytes));
        let space_usage_bytes: usize = bytes.0 + bytes.1;
        let query_bits: Option<u32> = match encoder {
            FirstStageEncoder::Rabitq => Some(args.rabitq_query_bits),
            _ => None,
        };
        let ghost ghost_stage = stage;
        let ghost ghost_plain = plain;
        let index: I = pair(stage, plain);
        assert(call_ensures(pair, (ghost_stage, ghost_plain), index));
        let made = DenseRerankHNSW {
            metric: kind,
            storage: graph.storage(),
            encoder,
            index,
            query_bits,
            dim,
            space_usage_bytes,
        };
        assert(staged(
            made,
            kind,
            graph,
            encoder,
            given,
            n,
            dim,
            config,
            args.rabitq_total_bits,
            make,
            build,
            reorder,
            encode,
            usage,
            pair,
        ));
        Ok(made)
    }

    /// Builds both stages over the dataset that `read` reads; otherwise like
    /// [`Self::build_from_array`].
    pub fn build_from_file<Err1, T, V, D, P, Q, S, L, N, M, B, R, E, U, X>(
        m: usize,
        ef_construction: usize,
        metric: &str,
        graph_type: &str,
        args: &BuildArgs,
        read: L,
        narrow: &N,
        make: M,
        build: B,
        reorder: R,
        encode: E,
        usage: U,
        pair: X,
    ) -> (built: Result<DenseRerankHNSW<I>, BuildError<Err1>>) where
        T: Copy,
        L: FnOnce() -> Result<PlainDenseDataset<T>, Err1>,
        N: Fn(T) -> V,
        M: FnOnce(MetricKind, Vec<V>, usize, usize) -> D,
        B: FnOnce(MetricKind, &D, HNSWBuildConfiguration) -> P,
        R: FnOnce(P, Reordering) -> Q,
        E: FnOnce(Q, FirstStageEncoder, Option<u32>) -> S,
        U: FnOnce(&S, &D) -> (usize, usize),
        X: FnOnce(S, D) -> I,

        requires
            call_requires(read, ()),
            forall|dataset: PlainDenseDataset<T>| #[trigger]
                call_ensures(read, (), Ok(dataset)) ==> can_build_over(
                    dataset.spec_values(),
                    dataset.spec_dim() as usize,
                    HNSWBuildConfiguration { num_neighbors: m, ef_construction },
                    *args,
                    *narrow,
                    make,
                    build,
                    reorder,
                    encode,
                    usage,
                    pair,
                ),
        ensures
            exists|out: Result<PlainDenseDataset<T>, Err1>|
                {
                    &&& #[trigger] call_ensures(read, (), out)
                    &&& match out {
                        Err(error) => built == Err::<DenseRerankHNSW<I>, BuildError<Err1>>(
                            BuildError::Io(error),
                        ),
                        Ok(dataset) => exists|inner: Result<DenseRerankHNSW<I>, IndexError>|
                            {
                                &&& #[trigger] Self::array_build(
                                    inner,
                                    dataset.spec_values(),
                                    dataset.spec_dim() as usize,
                                    m,
                                    ef_construction,
                                    crate::text::in_lower_case(metric@),
                                    crate::text::in_lower_case(graph_type@),
                                    *args,
                                    *narrow,
                                    make,
                                    build,
                                    reorder,
                                    encode,
                                    usage,
                                    pair,
                                )
                                &&& built == (match inner {
                                    Ok(index) => Ok::<DenseRerankHNSW<I>, BuildError<Err1>>(index),
                                    Err(error) => Err(BuildError::Invalid(error)),
                                })
                            },
                    }
                },
    {
        match read() {
            Err(error) => Err(BuildError::Io(error)),
            Ok(dataset) => {
                assert(call_ensures(read, (), Ok(dataset)));
                let inner = Self::build_from_array(
                    dataset.values().as_slice(),
                    dataset.input_dim(),
                    m,
                    ef_construction,
                    metric,
                    graph_type,
                    args,
                    narrow,
                    make,
                    build,
                    reorder,
                    encode,
                    usage,
                    pair,
                );
                match inner {
                    Ok(index) => {
                        assert(Self::array_build(
                            Ok(index),
                            dataset.spec_values(),
                            dataset.spec_dim() as usize,
                            m,
                            ef_construction,
                            crate::text::in_lower_case(metric@),
                            crate::text::in_lower_case(graph_type@),
                            *args,
                            *narrow,
                            make,
                            build,
                            reorder,
                            encode,
                            usage,
                            pair,
                        ));
                        Ok(index)
                    },
                    Err(error) => {
                        assert(Self::array_build(
                            Err(error),
                            dataset.spec_values(),
                            dataset.spec_dim() as usize,
                            m,
                            ef_construction,
                            crate::text::in_lower_case(metric@),
                            crate::text::in_lower_case(graph_type@),
                            *args,
                            *narrow,
                            make,
                            build,
                            reorder,
                            encode,
                            usage,
                            pair,
                        ));
                        Err(BuildError::Invalid(error))
                    },
                }
            },
        }
    }

    /// The index that `read` reads back for the metric, the storage and the encoder it
    /// was built with. The query width is free to differ from the one at build time.
    pub fn load<Err1, R>(metric: &str, graph_type: &str, args: &LoadArgs, read: R) -> (loaded: Result<
        DenseRerankHNSW<I>,
        BuildError<Err1>,
    >) where
        R: FnOnce(MetricKind, NeighborStorage, FirstStageEncoder) -> Result<LoadedStages<I>, Err1>,

        requires
            forall|kind: MetricKind, storage: NeighborStorage, encoder: FirstStageEncoder|
                names_encoder(args.encoder@, args.pq_subspaces, Ok(encoder)) ==> #[trigger] call_requires(
                    read,
                    (kind, storage, encoder),
                ),
            forall|
                kind: MetricKind,
                storage: NeighborStorage,
                encoder: FirstStageEncoder,
                stages: LoadedStages<I>,
            |
                names_encoder(args.encoder@, args.pq_subspaces, Ok(encoder)) && #[trigger] call_ensures(
                    read,
                    (kind, storage, encoder),
                    Ok(stages),
                ) ==> stages.first_stage_bytes + stages.rerank_bytes <= usize::MAX,
        ensures
            exists|checked: Result<(MetricKind, GraphTypeKind, FirstStageEncoder), IndexError>|
                {
                    &&& #[trigger] checks_load(
                        crate::text::in_lower_case(metric@),
                        crate::text::in_lower_case(graph_type@),
                        *args,
                        checked,
                    )
                    &&& match checked {
                        Err(error) => loaded == Err::<DenseRerankHNSW<I>, BuildError<Err1>>(
                            BuildError::Invalid(error),
                        ),
                        Ok((kind, graph, encoder)) => exists|out: Result<LoadedStages<I>, Err1>|
                            {
                                &&& #[trigger] call_ensures(
                                    read,
                                    (kind, graph.storage_spec(), encoder),
                                    out,
                                )
                                &&& match out {
                                    Err(error) => loaded == Err::<
                                        DenseRerankHNSW<I>,
                                        BuildError<Err1>,
                                    >(BuildError::Io(error)),
                                    Ok(stages) => {
                                        &&& loaded matches Ok(index)
                                        &&& index.wf()
                                        &&& index.spec_metric() == kind
                                        &&& index.spec_storage() == graph.storage_spec()
                                        &&& index.spec_encoder() == encoder
                                        &&& index.spec_query_bits() == query_width(
                                            encoder,
                                            args.rabitq_query_bits,
                                        )
                                        &&& index.spec_index() == stages.index
                                        &&& index.spec_dim() == stages.dim
                                        &&& index.spec_bytes() == stages.first_stage_bytes
                                            + stages.rerank_bytes
                                    },
                                }
                            },
                    }
                },
    {
        let (kind, graph, encoder) = match check_load(metric, graph_type, args) {
            Ok(checked) => checked,
            Err(error) => {
                assert(checks_load(
                    crate::text::in_lower_case(metric@),
                    crate::text::in_lower_case(graph_type@),
                    *args,
                    Err(error),
                ));
                return Err(BuildError::Invalid(error));
            },
        };
        assert(checks_load(
            crate::text::in_lower_case(metric@),
            crate::text::in_lower_case(graph_type@),
            *args,
            Ok((kind, graph, encoder)),
        ));
        assert(names_encoder(args.encoder@, args.pq_subspaces, Ok(encoder)));
        proof {
            reveal_strlit("pq");
            reveal_strlit("rabitq");
            reveal_strlit("rabitq-ext");
        }
        match read(kind, graph.storage(), encoder) {
            Err(error) => Err(BuildError::Io(error)),
            Ok(stages) => {
                assert(call_ensures(read, (kind, graph.storage_spec(), encoder), Ok(stages)));
                let query_bits: Option<u32> = match encoder {
                    FirstStageEncoder::Rabitq => Some(args.rabitq_query_bits),
                    _ => None,
                };
                let space_usage_bytes: usize = stages.first_stage_bytes + stages.rerank_bytes;
                Ok(
                    DenseRerankHNSW {
                        metric: kind,
                        storage: graph.storage(),
                        encoder,
                        index: stages.index,
                        query_bits,
                        dim: stages.dim,
                        space_usage_bytes,
                    },
                )
            },
        }
    }
}

/// Whether `checked` is what the arguments of a load name, or the error of the first
/// of them that is wrong: the query width, the metric, the graph type, the encoder.
pub open spec fn checks_load(
    metric: Seq<char>,
    graph_type: Seq<char>,
    args: LoadArgs,
    checked: Result<(MetricKind, GraphTypeKind, FirstStageEncoder), IndexError>,
) -> bool {
    match width_error(args.encoder@, None, args.rabitq_query_bits) {
        Some(error) => checked == Err::<(MetricKind, GraphTypeKind, FirstStageEncoder), IndexError>(
            error,
        ),
        None => match crate::metric::metric_named_spec(metric) {
            None => checked == Err::<(MetricKind, GraphTypeKind, FirstStageEncoder), IndexError>(
                IndexError::InvalidMetric,
            ),
            Some(kind) => match crate::graph_type::graph_type_named_spec(graph_type) {
                None => checked matches Err(IndexError::UnknownGraphType(other)) && other@
                    == graph_type,
                Some(graph) => match checked {
                    Ok((k, g, encoder)) => k == kind && g == graph && names_encoder(
                        args.encoder@,
                        args.pq_subspaces,
                        Ok(encoder),
                    ),
                    Err(error) => names_encoder(args.encoder@, args.pq_subspaces, Err(error)),
                },
            },
        },
    }
}

/// Checks the arguments of a load.
pub fn check_load(metric: &str, graph_type: &str, args: &LoadArgs) -> (checked: Result<
    (MetricKind, GraphTypeKind, FirstStageEncoder),
    IndexError,
>)
    ensures
        checks_load(
            crate::text::in_lower_case(metric@),
            crate::text::in_lower_case(graph_type@),
            *args,
            checked,
        ),
{
    match validate_encoder_widths(args.encoder.as_str(), None, args.rabitq_query_bits) {
        Ok(()) => {},
        Err(error) => {
            return Err(error);
        },
    }
    let kind: MetricKind = match parse_metric(metric) {
        Ok(kind) => kind,
        Err(error) => {
            return Err(error);
        },
    };
    let graph: GraphTypeKind = match parse_graph_type(graph_type) {
        Ok(graph) => graph,
        Err(error) => {
            return Err(error);
        },
    };
    match parse_encoder(args.encoder.as_str(), args.pq_subspaces) {
        Ok(encoder) => Ok((kind, graph, encoder)),
        Err(error) => Err(error),
    }
}

/// Changing the query width gives the index that a build at that width gives.
pub proof fn law_width_set_as_built<I>(
    before: DenseRerankHNSW<I>,
    after: DenseRerankHNSW<I>,
    built: DenseRerankHNSW<I>,
    bits: u32,
)
    requires
        after.same_but_width(before),
        after.spec_query_bits() == Some(bits),
        built.same_but_width(before),
        built.spec_query_bits() == Some(bits),
    ensures
        after == built,
{
}

/// An index that is read back under its own metric, storage and encoder is the index
/// that was written, but for the query width: that is the one given when it was read,
/// whatever it was when it was written.
pub proof fn law_reloaded_stages<I>(saved: DenseRerankHNSW<I>, loaded: DenseRerankHNSW<I>, bits: u32)
    requires
        saved.wf(),
        loaded.same_but_width(saved),
        loaded.spec_query_bits() == query_width(saved.spec_encoder(), bits),
    ensures
        saved.spec_encoder() is Rabitq ==> loaded.spec_query_bits() == Some(bits),
        !(saved.spec_encoder() is Rabitq) ==> loaded == saved,
        saved.spec_query_bits() == Some(bits) ==> loaded == saved,
{
}

} // verus!
