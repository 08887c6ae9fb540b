//! What the options of the programs come to.

use crate::arithmetic::Arithmetic;
use crate::build_plan::{
    build_converted, build_converted_permuted, check_options, check_rabitq_dim, choose_encoding,
    choose_pq_subspaces, ignored_options, plan_build, rabitq_config, rabitq_ext_config, BuildOptions, BuildPlan,
    Encoding,
};
use crate::cli::{
    check_combination, stored_as, ComponentTypeArg, DatasetType, EncoderType, GraphStorage, GraphType, StoredAs,
    ValueTypeArg,
};
use crate::error::ArgError;
use crate::graph_type::NeighborStorage;
use crate::ivf::IVFSearchParams;
use crate::metric::MetricKind;
use crate::query::{EarlyTerminationStrategy, HNSWBuildConfiguration, HNSWSearchConfiguration};
use crate::rerank_dense::FirstStageEncoder;
use crate::search_plan::{
    check_collections, cluster_storage, create_search_config, create_search_config_with_params, early_termination,
    make_flat_params, make_params, plan_rerank, plan_search, search_dense_pq_with_distance, ClusterStorage,
    ClusterValue, EarlyTerminationMethod, RerankEncoderArg, RerankGraphArg, RerankOptions, RerankPlan,
    SearchOptions, SearchPlan,
};
use crate::timing::{RunReport, TimedReply};
use vstd::prelude::*;

verus! {

/// Value types and encoders have the names that they are given by on the command line.
pub proof fn law_option_names(value: ValueTypeArg, encoder: EncoderType, v: &'static str, e: &'static str)
    requires
        call_ensures(ValueTypeArg::name, (value,), v),
        call_ensures(EncoderType::name, (encoder,), e),
    ensures
        v@ == "f16"@ <==> value is F16,
        v@ == "f32"@ <==> value is F32,
        v@ == "fixedu8"@ <==> value is Fixedu8,
        v@ == "fixedu16"@ <==> value is Fixedu16,
        e@ == "plain"@ <==> encoder is Plain,
        e@ == "pq"@ <==> encoder is Pq,
        e@ == "dotvbyte"@ <==> encoder is Dotvbyte,
        e@ == "rabitq"@ <==> encoder is Rabitq,
        e@ == "rabitq-ext"@ <==> encoder is RabitqExt,
{
    crate::cli::law_value_type_names_differ(value, ValueTypeArg::F16);
    crate::cli::law_value_type_names_differ(value, ValueTypeArg::F32);
    crate::cli::law_value_type_names_differ(value, ValueTypeArg::Fixedu8);
    crate::cli::law_value_type_names_differ(value, ValueTypeArg::Fixedu16);
    crate::cli::law_encoder_names_differ(encoder, EncoderType::Plain);
    crate::cli::law_encoder_names_differ(encoder, EncoderType::Pq);
    crate::cli::law_encoder_names_differ(encoder, EncoderType::Dotvbyte);
    crate::cli::law_encoder_names_differ(encoder, EncoderType::Rabitq);
    crate::cli::law_encoder_names_differ(encoder, EncoderType::RabitqExt);
}

/// Without a choice, values are 32-bit floats, vectors are not encoded, and components
/// have 16 bits.
pub proof fn law_defaults(value: ValueTypeArg, encoder: EncoderType, component: ComponentTypeArg)
    requires
        call_ensures(<ValueTypeArg as Default>::default, (), value),
        call_ensures(<EncoderType as Default>::default, (), encoder),
        call_ensures(<ComponentTypeArg as Default>::default, (), component),
    ensures
        value is F32,
        encoder is Plain,
        component is U16,
{
}

/// Fixed-point values are the two kinds of them, and nothing else.
pub proof fn law_fixed_point_values(value: ValueTypeArg, fixed: bool)
    requires
        call_ensures(ValueTypeArg::is_fixed, (value,), fixed),
    ensures
        !fixed <==> value is F16 || value is F32,
{
}

/// Each rule on how options combine has its error, and a combination that breaks no rule
/// is accepted. Where several are broken, the encoder's comes before that of the values,
/// and that of the values before that of the components.
pub proof fn law_combination_rules(
    dataset: DatasetType,
    encoder: EncoderType,
    value: ValueTypeArg,
    component: ComponentTypeArg,
    checked: Result<(), ArgError>,
)
    requires
        call_ensures(check_combination, (dataset, encoder, value, component), checked),
    ensures
        checked == Err::<(), ArgError>(ArgError::PqIsDenseOnly) <==> dataset is Sparse && encoder is Pq,
        checked == Err::<(), ArgError>(ArgError::RabitqIsDenseOnly) <==> dataset is Sparse && (encoder is Rabitq
            || encoder is RabitqExt),
        checked == Err::<(), ArgError>(ArgError::DotvbyteIsSparseOnly) <==> dataset is Dense && encoder is Dotvbyte,
        checked == Err::<(), ArgError>(ArgError::DotvbyteNeedsU16) <==> dataset is Sparse && encoder is Dotvbyte
            && component is U32,
        checked == Err::<(), ArgError>(ArgError::FixedPointIsSparseOnly) <==> dataset is Dense && (value is Fixedu8
            || value is Fixedu16) && (encoder is Plain || encoder is Rabitq || encoder is RabitqExt),
        checked == Err::<(), ArgError>(ArgError::ComponentTypeIsSparseOnly) <==> dataset is Dense && component is U32
            && (encoder is Pq || (!(encoder is Dotvbyte) && (value is F16 || value is F32))),
        checked matches Err(error) ==> error is PqIsDenseOnly || error is RabitqIsDenseOnly
            || error is DotvbyteIsSparseOnly || error is DotvbyteNeedsU16 || error is FixedPointIsSparseOnly
            || error is ComponentTypeIsSparseOnly,
        checked is Ok <==> crate::cli::combination_error(dataset, encoder, value, component) is None,
        checked matches Err(error) ==> crate::cli::combination_error(dataset, encoder, value, component) == Some(
            error,
        ),
{
}

/// An encoder fixes how its vectors are stored. Plain vectors are stored as chosen:
/// dense ones with their value type, sparse ones with both types, as scalars where the
/// values are fixed-point.
pub proof fn law_stored_form(
    dataset: DatasetType,
    encoder: EncoderType,
    value: ValueTypeArg,
    component: ComponentTypeArg,
    stored: StoredAs,
)
    requires
        call_ensures(stored_as, (dataset, encoder, value, component), stored),
    ensures
        stored is DensePq <==> encoder is Pq,
        stored is DenseRabitq <==> encoder is Rabitq,
        stored is DenseRabitqExt <==> encoder is RabitqExt,
        stored is SparseDotvbyte <==> encoder is Dotvbyte,
        stored is DensePlain <==> encoder is Plain && dataset is Dense,
        stored is SparseScalar <==> encoder is Plain && dataset is Sparse && (value is Fixedu8 || value is Fixedu16),
        stored is SparsePlain <==> encoder is Plain && dataset is Sparse && (value is F16 || value is F32),
        match stored {
            StoredAs::DensePlain { value: v } => v == value,
            StoredAs::SparsePlain { component: c, value: v } => c == component && v == value,
            StoredAs::SparseScalar { component: c, value: v } => c == component && v == value,
            _ => true,
        },
        stored == crate::cli::stored_as_spec(dataset, encoder, value, component),
{
}

/// The graph types of the command line: which are stored how, and which reorder nodes.
pub proof fn law_graph_options(graph_type: GraphType, storage: GraphStorage, permutes: bool)
    requires
        call_ensures(GraphType::storage, (graph_type,), storage),
        call_ensures(GraphType::permutes, (graph_type,), permutes),
    ensures
        storage is FixedDegree <==> graph_type is FixedDegree,
        storage is StreamVByte <==> graph_type is Streamvbyte,
        storage is Plain <==> graph_type is Standard || graph_type is Permuted,
        !permutes <==> graph_type is Standard || graph_type is FixedDegree,
{
}

/// Before anything is read, a build fails with the error of its combination, and only
/// then where a compressed graph would have more than 128 neighbors per node.
pub proof fn law_build_options(
    options: BuildOptions,
    combined: Result<(), ArgError>,
    checked: Result<(), ArgError>,
)
    requires
        call_ensures(
            check_combination,
            (options.dataset_type, options.encoder, options.value_type, options.component_type),
            combined,
        ),
        call_ensures(check_options, (&options,), checked),
    ensures
        combined is Err ==> checked == combined,
        combined is Ok ==> checked == if options.graph_type is Streamvbyte && options.m > 128 {
            Err::<(), ArgError>(ArgError::TooManyNeighbors { m: options.m })
        } else {
            Ok(())
        },
{
}

/// A build is planned where its options are in order, its distance names a metric, and
/// DotVByte comes with dot products. The plan then holds what the options say.
pub proof fn law_build_plan(
    options: BuildOptions,
    checked: Result<(), ArgError>,
    stored: StoredAs,
    storage: GraphStorage,
    permutes: bool,
    plan: Result<BuildPlan, ArgError>,
)
    requires
        call_ensures(check_options, (&options,), checked),
        call_ensures(
            stored_as,
            (options.dataset_type, options.encoder, options.value_type, options.component_type),
            stored,
        ),
        call_ensures(GraphType::storage, (options.graph_type,), storage),
        call_ensures(GraphType::permutes, (options.graph_type,), permutes),
        call_ensures(plan_build, (&options,), plan),
    ensures
        ({
            let euclidean = options.distance@ == "euclidean"@ || options.distance@ == "l2"@;
            let dot = options.distance@ == "dotproduct"@ || options.distance@ == "ip"@;
            &&& checked matches Err(error) ==> plan == Err::<BuildPlan, ArgError>(error)
            &&& checked is Ok && !euclidean && !dot ==> plan == Err::<BuildPlan, ArgError>(
                ArgError::InvalidDistance,
            )
            &&& checked is Ok && euclidean && options.encoder is Dotvbyte ==> plan == Err::<BuildPlan, ArgError>(
                ArgError::DotvbyteNeedsDotProduct,
            )
            &&& checked is Ok && (dot || (euclidean && !(options.encoder is Dotvbyte))) ==> {
                &&& plan is Ok
                &&& plan->Ok_0.stored == stored
                &&& plan->Ok_0.graph == storage
                &&& plan->Ok_0.permute == permutes
                &&& plan->Ok_0.metric is Euclidean <==> euclidean
                &&& plan->Ok_0.config.num_neighbors == options.m
                &&& plan->Ok_0.config.ef_construction == options.ef_construction
            }
        }),
{
    lemma_metric_names();
}

proof fn lemma_metric_names()
    ensures
        "euclidean"@ != "dotproduct"@,
        "euclidean"@ != "ip"@,
        "l2"@ != "dotproduct"@,
        "l2"@ != "ip"@,
{
    reveal_strlit("euclidean");
    reveal_strlit("l2");
    reveal_strlit("dotproduct");
    reveal_strlit("ip");
    assert("euclidean"@.len() == 9 && "l2"@.len() == 2 && "dotproduct"@.len() == 10 && "ip"@.len() == 2);
    assert("l2"@[0] != "ip"@[0]);
}

/// A warning is due exactly for product quantization with another width than 8 bits or
/// another sample than 100000 vectors.
pub proof fn law_ignored_options(options: BuildOptions, ignored: (bool, bool))
    requires
        call_ensures(ignored_options, (&options,), ignored),
    ensures
        ignored.0 <==> options.encoder is Pq && options.nbits != 8,
        ignored.1 <==> options.encoder is Pq && options.sample_size != 100_000,
{
}

/// A requested number of subspaces is taken where it is supported and divides the
/// dimension, and refused with the reason otherwise.
pub proof fn law_requested_subspaces(
    dim: usize,
    requested: usize,
    supported: bool,
    chosen: Result<usize, ArgError>,
)
    requires
        requested != 0,
        call_ensures(crate::rerank_dense::supports_subspaces, (requested,), supported),
        call_ensures(choose_pq_subspaces, (dim, requested), chosen),
    ensures
        match chosen {
            Ok(m) => m == requested && supported && dim % m == 0,
            Err(ArgError::UnsupportedSubspaces { m }) => m == requested && !supported,
            Err(ArgError::SubspacesDoNotDivide { m, dim: d }) => m == requested && d == dim && supported && dim % m
                != 0,
            Err(_) => false,
        },
{
}

/// Where no number of subspaces is requested, one is found exactly for dimensions that 4
/// divides: 128 before 192, then from 96 down to 4 the largest among 96, 64, 48, 32, 16,
/// 8 and 4 that divides the dimension.
pub proof fn law_chosen_subspaces(dim: usize, chosen: Result<usize, ArgError>)
    requires
        call_ensures(choose_pq_subspaces, (dim, 0usize), chosen),
    ensures
        chosen is Err <==> dim % 4 != 0,
        chosen matches Err(error) ==> error == (ArgError::NoSubspacesFor { dim }),
        chosen matches Ok(m) ==> {
            &&& dim % m == 0
            &&& m == 128 || m == 192 || m == 96 || m == 64 || m == 48 || m == 32 || m == 16 || m == 8 || m == 4
            &&& dim % 128 == 0 <==> m == 128
            &&& dim % 192 == 0 && dim % 128 != 0 <==> m == 192
            &&& m < 128 && dim % 96 == 0 ==> m == 96
            &&& m < 96 && dim % 64 == 0 ==> m == 64
            &&& m < 64 && dim % 48 == 0 ==> m == 48
            &&& m < 48 && dim % 32 == 0 ==> m == 32
            &&& m < 32 && dim % 16 == 0 ==> m == 16
            &&& m < 16 && dim % 8 == 0 ==> m == 8
        },
{
    let order = crate::build_plan::subspace_order();
    assert(order.len() == 11);
    assert(order[0] == 128 && order[1] == 192 && order[2] == 96 && order[3] == 64 && order[4] == 48 && order[5]
        == 32 && order[6] == 16 && order[7] == 8 && order[8] == 4 && order[9] == 24 && order[10] == 256);
    assert(dim % 24 == 0 ==> dim % 8 == 0);
    assert(dim % 256 == 0 ==> dim % 128 == 0);
    assert(dim % 128 == 0 ==> dim % 4 == 0);
    assert(dim % 192 == 0 ==> dim % 4 == 0);
    assert(dim % 96 == 0 ==> dim % 4 == 0);
    assert(dim % 64 == 0 ==> dim % 4 == 0);
    assert(dim % 48 == 0 ==> dim % 4 == 0);
    assert(dim % 32 == 0 ==> dim % 4 == 0);
    assert(dim % 16 == 0 ==> dim % 4 == 0);
    assert(dim % 8 == 0 ==> dim % 4 == 0);
    match chosen {
        Ok(m) => {
            let i = choose|i: int| #[trigger] crate::build_plan::first_divisor(dim, i) && m == order[i];
            crate::build_plan::law_last_entries_are_never_chosen(dim, i);
            assert(0 < i ==> dim % order[0] != 0);
            assert(1 < i ==> dim % order[1] != 0);
            assert(2 < i ==> dim % order[2] != 0);
            assert(3 < i ==> dim % order[3] != 0);
            assert(4 < i ==> dim % order[4] != 0);
            assert(5 < i ==> dim % order[5] != 0);
            assert(6 < i ==> dim % order[6] != 0);
            assert(7 < i ==> dim % order[7] != 0);
            assert(8 < i ==> dim % order[8] != 0);
        },
        Err(_) => {
            assert(dim % order[8] != 0);
        },
    }
}

/// RaBitQ needs dimensions that are multiples of 64.
pub proof fn law_rabitq_dimension(dim: usize, checked: Result<(), ArgError>)
    requires
        call_ensures(check_rabitq_dim, (dim,), checked),
    ensures
        checked is Ok <==> exists|words: nat| dim == #[trigger] (words * 64),
        checked is Err ==> checked == Err::<(), ArgError>(ArgError::RabitqDimension { dim }),
{
    if checked is Ok {
        let words = (dim / 64) as nat;
        assert(dim == words * 64);
    }
}

/// The RaBitQ settings carry the seed as given, rotate unless told not to, and for the
/// extended encoder carry a width of 2, 4 or 8 bits and quantize faster unless told to
/// be exact.
pub proof fn law_rabitq_settings(
    options: BuildOptions,
    plain: Encoding,
    extended: Result<Encoding, ArgError>,
)
    requires
        call_ensures(rabitq_config, (&options,), plain),
        call_ensures(rabitq_ext_config, (&options,), extended),
    ensures
        plain matches Encoding::Rabitq { seed, rotate } && seed == options.rabitq_seed && rotate
            != options.rabitq_no_rotate,
        match extended {
            Ok(encoding) => {
                &&& encoding matches Encoding::RabitqExt { total_bits, seed, rotate, faster_quant }
                &&& total_bits == options.rabitq_total_bits
                &&& total_bits == 2 || total_bits == 4 || total_bits == 8
                &&& seed == options.rabitq_seed
                &&& rotate != options.rabitq_no_rotate
                &&& faster_quant != options.rabitq_exact_quant
            },
            Err(error) => {
                &&& error == (ArgError::TotalBits { bits: options.rabitq_total_bits })
                &&& options.rabitq_total_bits != 2
                &&& options.rabitq_total_bits != 4
                &&& options.rabitq_total_bits != 8
            },
        },
{
}

/// How vectors are encoded: plain ones stay, scalars and DotVByte are converted without
/// settings, and the other encoders take theirs, after the dimension was checked.
pub proof fn law_encoding(
    stored: StoredAs,
    dim: usize,
    options: BuildOptions,
    subspaces: Result<usize, ArgError>,
    fits: Result<(), ArgError>,
    plain: Encoding,
    extended: Result<Encoding, ArgError>,
    chosen: Result<Encoding, ArgError>,
)
    requires
        call_ensures(choose_pq_subspaces, (dim, options.pq_subspaces), subspaces),
        call_ensures(check_rabitq_dim, (dim,), fits),
        call_ensures(rabitq_config, (&options,), plain),
        call_ensures(rabitq_ext_config, (&options,), extended),
        call_ensures(choose_encoding, (stored, dim, &options), chosen),
    ensures
        stored is DensePlain || stored is SparsePlain ==> chosen == Ok::<Encoding, ArgError>(Encoding::Keep),
        stored is SparseScalar || stored is SparseDotvbyte ==> chosen == Ok::<Encoding, ArgError>(
            Encoding::Convert,
        ),
        stored is DensePq ==> match (subspaces, chosen) {
            (Ok(m), Ok(encoding)) => encoding == (Encoding::Pq { subspaces: m }),
            (Err(e), Err(error)) => e == error,
            _ => false,
        },
        stored is DenseRabitq && fits is Ok ==> chosen == Ok::<Encoding, ArgError>(plain),
        stored is DenseRabitqExt && fits is Ok ==> chosen == extended,
        (stored is DenseRabitq || stored is DenseRabitqExt) && fits is Err ==> chosen == Err::<Encoding, ArgError>(
            ArgError::RabitqDimension { dim },
        ),
{
    if stored is DensePq && options.pq_subspaces == 0 {
        lemma_first_divisor_is_unique(dim);
        let order = crate::build_plan::subspace_order();
        if subspaces is Ok && chosen is Ok {
            let i = choose|i: int| #[trigger]
                crate::build_plan::first_divisor(dim, i) && subspaces->Ok_0 == order[i];
            let j = choose|j: int| #[trigger]
                crate::build_plan::first_divisor(dim, j) && chosen->Ok_0 == (Encoding::Pq {
                    subspaces: order[j],
                });
            assert(i == j);
        } else if subspaces is Ok {
            let i = choose|i: int| #[trigger]
                crate::build_plan::first_divisor(dim, i) && subspaces->Ok_0 == order[i];
            assert(dim % order[i] == 0);
        } else if chosen is Ok {
            let j = choose|j: int| #[trigger]
                crate::build_plan::first_divisor(dim, j) && chosen->Ok_0 == (Encoding::Pq {
                    subspaces: order[j],
                });
            assert(dim % order[j] == 0);
        }
    }
}

proof fn lemma_first_divisor_is_unique(dim: usize)
    ensures
        forall|i: int, j: int| #[trigger]
            crate::build_plan::first_divisor(dim, i) && #[trigger] crate::build_plan::first_divisor(dim, j) ==> i
                == j,
{
    let order = crate::build_plan::subspace_order();
    assert forall|i: int, j: int| #[trigger]
        crate::build_plan::first_divisor(dim, i) && #[trigger] crate::build_plan::first_divisor(dim, j) implies i
        == j by {
        if i < j {
            assert(dim % order[i] != 0);
        } else if j < i {
            assert(dim % order[j] != 0);
        }
    }
}

/// A graph is built first and encoded then; where it is reordered, that comes last.
pub proof fn law_steps_of_a_build<D, P, Q, I, J, B, C, K, R>(
    dataset: D,
    config: HNSWBuildConfiguration,
    encoding: Encoding,
    graph: GraphStorage,
    build: B,
    convert: C,
    convert_first: K,
    permute: R,
    index: I,
    permuted: J,
) where
    B: FnOnce(D, HNSWBuildConfiguration) -> P,
    C: FnOnce(P, Encoding) -> I,
    K: FnOnce(P, Encoding) -> Q,
    R: FnOnce(Q, GraphStorage) -> J,

    requires
        call_ensures(build_converted::<D, P, I, B, C>, (dataset, config, encoding, build, convert), index),
        call_ensures(
            build_converted_permuted::<D, P, Q, J, B, K, R>,
            (dataset, config, encoding, graph, build, convert_first, permute),
            permuted,
        ),
    ensures
        exists|plain: P|
            call_ensures(build, (dataset, config), plain) && #[trigger] call_ensures(
                convert,
                (plain, encoding),
                index,
            ),
        exists|plain: P, converted: Q|
            call_ensures(build, (dataset, config), plain) && #[trigger] call_ensures(
                convert_first,
                (plain, encoding),
                converted,
            ) && #[trigger] call_ensures(permute, (converted, graph), permuted),
{
}

/// A search is planned where its options combine, its distance names a metric, and the
/// encoder's own setting is right: dot products for DotVByte, 1 to 8 bits for RaBitQ
/// queries, a supported number of subspaces for product quantization. The plan then
/// holds what the options say.
pub proof fn law_search_plan<T>(
    options: SearchOptions<T>,
    combined: Result<(), ArgError>,
    stored: StoredAs,
    storage: GraphStorage,
    supported: bool,
    plan: Result<SearchPlan, ArgError>,
)
    requires
        call_ensures(
            check_combination,
            (options.dataset_type, options.encoder, options.value_type, options.component_type),
            combined,
        ),
        call_ensures(
            stored_as,
            (options.dataset_type, options.encoder, options.value_type, options.component_type),
            stored,
        ),
        call_ensures(GraphType::storage, (options.graph_type,), storage),
        call_ensures(crate::rerank_dense::supports_subspaces, (options.pq_subspaces,), supported),
        call_ensures(plan_search::<T>, (&options,), plan),
    ensures
        ({
            let euclidean = options.distance@ == "euclidean"@ || options.distance@ == "l2"@;
            let dot = options.distance@ == "dotproduct"@ || options.distance@ == "ip"@;
            let ready = combined is Ok && (euclidean || dot);
            let no_dot = options.encoder is Dotvbyte && euclidean;
            let bad_bits = options.encoder is Rabitq && (options.query_bits == 0 || options.query_bits > 8);
            let bad_pq = options.encoder is Pq && !supported;
            &&& combined matches Err(error) ==> plan == Err::<SearchPlan, ArgError>(error)
            &&& combined is Ok && !euclidean && !dot ==> plan == Err::<SearchPlan, ArgError>(
                ArgError::InvalidDistance,
            )
            &&& ready && no_dot ==> plan == Err::<SearchPlan, ArgError>(ArgError::DotvbyteNeedsDotProduct)
            &&& ready && bad_bits ==> plan == Err::<SearchPlan, ArgError>(
                ArgError::QueryBits { bits: options.query_bits },
            )
            &&& ready && bad_pq ==> plan == Err::<SearchPlan, ArgError>(
                ArgError::UnsupportedSubspaces { m: options.pq_subspaces },
            )
            &&& ready && !no_dot && !bad_bits && !bad_pq ==> {
                &&& plan is Ok
                &&& plan->Ok_0.stored == stored
                &&& plan->Ok_0.graph == storage
                &&& plan->Ok_0.metric is Euclidean <==> euclidean
                &&& plan->Ok_0.subspaces is Some <==> options.encoder is Pq
                &&& plan->Ok_0.subspaces is Some ==> plan->Ok_0.subspaces->0 == options.pq_subspaces
                &&& plan->Ok_0.query_bits is Some <==> options.encoder is Rabitq
                &&& plan->Ok_0.query_bits is Some ==> plan->Ok_0.query_bits->0 == options.query_bits
            }
        }),
{
    lemma_metric_names();
}

/// The parameters of a search are those among the options: early termination is on
/// exactly where it is chosen, with the given parameter.
pub proof fn law_search_parameters<T: Copy, P>(
    options: SearchOptions<T>,
    query_params: P,
    config: HNSWSearchConfiguration<T, P>,
    bare: HNSWSearchConfiguration<T, ()>,
)
    requires
        call_ensures(create_search_config_with_params::<T, P>, (&options, query_params), config),
        call_ensures(create_search_config::<T>, (&options,), bare),
    ensures
        config.ef_search == options.ef_search,
        config.query_params == query_params,
        config.early_termination is Disabled <==> options.early_termination is Off,
        config.early_termination matches EarlyTerminationStrategy::DistanceAdaptive { lambda } ==> lambda
            == options.lambda,
        bare.ef_search == config.ef_search,
        bare.early_termination == config.early_termination,
{
}

/// A search over product-quantized vectors loads the index with the number of subspaces
/// that was asked for, where it is supported, and runs the queries over that index.
pub proof fn law_quantized_search<I, T: Copy, L, S>(
    pq_subspaces: usize,
    num_queries: usize,
    num_runs: usize,
    load: L,
    search: &S,
    supported: bool,
    outcome: Result<(I, RunReport<T>), ArgError>,
) where L: FnOnce(usize) -> I, S: Fn(&I, usize) -> TimedReply<T>
    requires
        call_ensures(crate::rerank_dense::supports_subspaces, (pq_subspaces,), supported),
        call_ensures(
            search_dense_pq_with_distance::<I, T, L, S>,
            (pq_subspaces, num_queries, num_runs, load, search),
            outcome,
        ),
    ensures
        outcome is Ok <==> supported,
        match outcome {
            Ok((index, report)) => {
                &&& call_ensures(load, (pq_subspaces,), index)
                &&& crate::timing::runs_over(report, &index, num_queries, num_runs, *search)
            },
            Err(error) => error == (ArgError::UnsupportedSubspaces { m: pq_subspaces }),
        },
{
}

/// The threshold of a two-stage search is its parameter where early termination is on,
/// and missing parameters are an error only there.
pub proof fn law_threshold<T: Copy>(options: RerankOptions<T>, threshold: Result<Option<T>, ArgError>)
    requires
        call_ensures(early_termination::<T>, (&options,), threshold),
    ensures
        options.early_termination is Off ==> threshold == Ok::<Option<T>, ArgError>(None),
        options.early_termination is DistanceAdaptive ==> match options.lambda {
            Some(lambda) => threshold == Ok::<Option<T>, ArgError>(Some(lambda)),
            None => threshold == Err::<Option<T>, ArgError>(ArgError::LambdaMissing),
        },
{
}

/// A two-stage search reports, in this order, a missing number of subspaces, an invalid
/// distance, a missing threshold and an unsupported number of subspaces. Otherwise its
/// plan holds what the options say.
pub proof fn law_rerank_plan<T: Copy>(
    options: RerankOptions<T>,
    supported: bool,
    threshold: Result<Option<T>, ArgError>,
    plan: Result<RerankPlan<T>, ArgError>,
)
    requires
        call_ensures(crate::rerank_dense::supports_subspaces, (options.pq_subspaces,), supported),
        call_ensures(early_termination::<T>, (&options,), threshold),
        call_ensures(plan_rerank::<T>, (&options,), plan),
    ensures
        ({
            let euclidean = options.distance@ == "euclidean"@ || options.distance@ == "l2"@;
            let dot = options.distance@ == "dotproduct"@ || options.distance@ == "ip"@;
            let missing = options.encoder is Pq && options.pq_subspaces == 0;
            let unsupported = options.encoder is Pq && !supported;
            &&& missing ==> plan == Err::<RerankPlan<T>, ArgError>(ArgError::SubspacesMissing)
            &&& !missing && !euclidean && !dot ==> plan == Err::<RerankPlan<T>, ArgError>(ArgError::InvalidDistance)
            &&& !missing && (euclidean || dot) && threshold is Err ==> plan == Err::<RerankPlan<T>, ArgError>(
                ArgError::LambdaMissing,
            )
            &&& !missing && (euclidean || dot) && threshold is Ok && unsupported ==> plan == Err::<
                RerankPlan<T>,
                ArgError,
            >(ArgError::UnsupportedSubspaces { m: options.pq_subspaces })
            &&& !missing && (euclidean || dot) && threshold is Ok && !unsupported ==> {
                &&& plan is Ok
                &&& plan->Ok_0.metric is Euclidean <==> euclidean
                &&& plan->Ok_0.storage is StreamVByte <==> options.graph_type is Streamvbyte
                &&& plan->Ok_0.encoder is Pq <==> options.encoder is Pq
                &&& plan->Ok_0.encoder is Rabitq <==> options.encoder is Rabitq
                &&& plan->Ok_0.encoder is RabitqExt <==> options.encoder is RabitqExt
                &&& plan->Ok_0.encoder matches FirstStageEncoder::Pq { subspaces } ==> subspaces
                    == options.pq_subspaces
                &&& plan->Ok_0.params.k_candidates == options.k_candidates
                &&& plan->Ok_0.params.alpha == options.alpha
                &&& plan->Ok_0.params.beta == options.beta
                &&& !plan->Ok_0.params.residuals
                &&& plan->Ok_0.params.first_stage.ef_search == options.ef_search
                &&& plan->Ok_0.params.first_stage.query_params is Some <==> options.encoder is Rabitq
                &&& options.encoder is Rabitq ==> plan->Ok_0.params.first_stage.query_params->0
                    == options.rabitq_query_bits
                &&& match plan->Ok_0.params.first_stage.early_termination {
                    EarlyTerminationStrategy::Disabled => threshold->Ok_0 is None,
                    EarlyTerminationStrategy::DistanceAdaptive { lambda } => threshold->Ok_0 == Some(lambda),
                }
            }
        }),
{
    lemma_metric_names();
}

/// Two collections belong together exactly where they have the same size.
pub proof fn law_collections_match(first_stage: usize, rerank: usize, checked: Result<(), ArgError>)
    requires
        call_ensures(check_collections, (first_stage, rerank), checked),
    ensures
        checked is Ok <==> first_stage == rerank,
        checked matches Err(error) ==> error == (ArgError::CollectionMismatch { first_stage, rerank }),
{
}

/// The clusters of an inverted file hold plain values of the chosen type where no number
/// of subspaces is given, and codes of that many subspaces where it is one of nine.
pub proof fn law_cluster_storage(
    value: ClusterValue,
    m_pq: Option<usize>,
    storage: Result<ClusterStorage, ArgError>,
)
    requires
        call_ensures(cluster_storage, (value, m_pq), storage),
    ensures
        m_pq is None ==> storage == Ok::<ClusterStorage, ArgError>(ClusterStorage::Plain(value)),
        m_pq matches Some(m) ==> {
            let supported = m == 4 || m == 8 || m == 16 || m == 32 || (32 < m <= 64 && m % 16 == 0) || (64 < m <= 128
                && m % 32 == 0) || m == 192;
            &&& supported ==> storage == Ok::<ClusterStorage, ArgError>(ClusterStorage::Pq { subspaces: m })
            &&& !supported ==> storage == Err::<ClusterStorage, ArgError>(ArgError::UnsupportedSubspaces { m })
        },
{
}

/// As many clusters are probed as asked for. A search of the centroid graph keeps at
/// least that many candidates, and at least as many as it was told to, but no more than
/// one of the two; it stops early exactly where the parameter is a number above 0.
pub proof fn law_probe_parameters<T: Copy, A: Arithmetic<T>>(
    nprobe: usize,
    ef_search: usize,
    lambda: T,
    ops: &A,
    flat: IVFSearchParams<(), ()>,
    params: IVFSearchParams<HNSWSearchConfiguration<T, ()>, ()>,
)
    requires
        call_ensures(make_flat_params, (nprobe,), flat),
        call_ensures(make_params::<T, A>, (nprobe, ef_search, lambda, ops), params),
    ensures
        flat.nprobe == nprobe,
        params.nprobe == nprobe,
        params.centroid_search_params.ef_search >= nprobe,
        params.centroid_search_params.ef_search >= ef_search,
        params.centroid_search_params.ef_search == nprobe || params.centroid_search_params.ef_search == ef_search,
        params.centroid_search_params.early_termination matches EarlyTerminationStrategy::DistanceAdaptive {
            lambda: l,
        } ==> l == lambda,
        exists|bits: u32| #[trigger]
            call_ensures(A::bits, (ops, lambda), bits) && (
            params.centroid_search_params.early_termination is DistanceAdaptive <==> 0 < bits && bits
                <= 0x7F80_0000),
{
}

} // verus!
