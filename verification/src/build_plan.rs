//! Planning of an index build from command-line options.

use crate::cli::{
    check_combination, parse_metric, stored_as, ComponentTypeArg, DatasetType, EncoderType, GraphStorage,
    GraphType, StoredAs, ValueTypeArg,
};
use crate::error::ArgError;
use crate::graph_type::MAX_NEIGHBORS_PER_NODE;
use crate::metric::MetricKind;
use crate::query::HNSWBuildConfiguration;
use crate::rerank_dense::supports_subspaces;
use vstd::prelude::*;

verus! {

/// The options of a build.
pub struct BuildOptions {
    pub dataset_type: DatasetType,
    pub value_type: ValueTypeArg,
    pub component_type: ComponentTypeArg,
    pub encoder: EncoderType,
    pub graph_type: GraphType,
    pub m: usize,
    pub ef_construction: usize,
    pub distance: String,
    pub pq_subspaces: usize,
    pub nbits: usize,
    pub sample_size: usize,
    pub rabitq_seed: u64,
    pub rabitq_no_rotate: bool,
    pub rabitq_total_bits: u32,
    pub rabitq_exact_quant: bool,
}

/// What a build does: the vectors and the graph it stores, and the metric.
#[derive(Clone, Copy, Debug, PartialEq, Eq, Structural)]
pub struct BuildPlan {
    pub stored: StoredAs,
    pub graph: GraphStorage,
    /// Whether nodes are reordered after the vectors were encoded.
    pub permute: bool,
    pub metric: MetricKind,
    pub config: HNSWBuildConfiguration,
}

/// Whether `m` neighbors per node fit the storage of the graph.
pub open spec fn neighbors_fit(graph_type: GraphType, m: usize) -> bool {
    graph_type is Streamvbyte ==> 2 * m <= MAX_NEIGHBORS_PER_NODE
}

/// Checks the options before anything is read: how they combine, and whether the
/// neighbors fit.
pub fn check_options(options: &BuildOptions) -> (checked: Result<(), ArgError>)
    ensures
        checked == (match options_error(*options) {
            Some(error) => Err::<(), ArgError>(error),
            None => Ok(()),
        }),
{
    match check_combination(
        options.dataset_type,
        options.encoder,
        options.value_type,
        options.component_type,
    ) {
        Err(error) => Err(error),
        Ok(()) => match options.graph_type {
            GraphType::Streamvbyte => {
                if options.m > MAX_NEIGHBORS_PER_NODE / 2 {
                    Err(ArgError::TooManyNeighbors { m: options.m })
                } else {
                    Ok(())
                }
            },
            _ => Ok(()),
        },
    }
}

/// What is wrong with the options before anything is read.
pub open spec fn options_error(options: BuildOptions) -> Option<ArgError> {
    match crate::cli::combination_error(
        options.dataset_type,
        options.encoder,
        options.value_type,
        options.component_type,
    ) {
        Some(error) => Some(error),
        None => if neighbors_fit(options.graph_type, options.m) {
            None
        } else {
            Some(ArgError::TooManyNeighbors { m: options.m })
        },
    }
}

/// Which options are accepted but have no effect: the bits per subspace and the size
/// of the training sample, where they differ from their defaults.
pub fn ignored_options(options: &BuildOptions) -> (ignored: (bool, bool))
    ensures
        ignored.0 == (options.encoder is Pq && options.nbits != 8),
        ignored.1 == (options.encoder is Pq && options.sample_size != 100_000),
{
    match options.encoder {
        EncoderType::Pq => (options.nbits != 8, options.sample_size != 100_000),
        _ => (false, false),
    }
}

/// The plan of a build, or the error of the first option that is wrong.
pub open spec fn plan_spec(options: BuildOptions) -> Result<BuildPlan, ArgError> {
    match options_error(options) {
        Some(error) => Err(error),
        None => match crate::metric::metric_named_spec(options.distance@) {
            None => Err(ArgError::InvalidDistance),
            Some(metric) => if options.encoder is Dotvbyte && metric is Euclidean {
                Err(ArgError::DotvbyteNeedsDotProduct)
            } else {
                Ok(
                    BuildPlan {
                        stored: crate::cli::stored_as_spec(
                            options.dataset_type,
                            options.encoder,
                            options.value_type,
                            options.component_type,
                        ),
                        graph: options.graph_type.storage_spec(),
                        permute: options.graph_type.permutes_spec(),
                        metric,
                        config: HNSWBuildConfiguration {
                            num_neighbors: options.m,
                            ef_construction: options.ef_construction,
                        },
                    },
                )
            },
        },
    }
}

/// Plans a build.
pub fn plan_build(options: &BuildOptions) -> (plan: Result<BuildPlan, ArgError>)
    ensures
        plan == plan_spec(*options),
{
    match check_options(options) {
        Ok(()) => {},
        Err(error) => {
            return Err(error);
        },
    }
    let metric: MetricKind = match parse_metric(options.distance.as_str()) {
        Ok(metric) => metric,
        Err(error) => {
            return Err(error);
        },
    };
    match (options.encoder, metric) {
        (EncoderType::Dotvbyte, MetricKind::Euclidean) => {
            return Err(ArgError::DotvbyteNeedsDotProduct);
        },
        _ => {},
    }
    Ok(
        BuildPlan {
            stored: stored_as(
                options.dataset_type,
                options.encoder,
                options.value_type,
                options.component_type,
            ),
            graph: options.graph_type.storage(),
            permute: options.graph_type.permutes(),
            metric,
            config: HNSWBuildConfiguration {
                num_neighbors: options.m,
                ef_construction: options.ef_construction,
            },
        },
    )
}

/// How the vectors of a graph are encoded after it was built.
#[derive(Clone, Copy, Debug, PartialEq, Eq, Structural)]
pub enum Encoding {
    /// They stay as they are.
    Keep,
    /// They are encoded without further settings.
    Convert,
    /// They are encoded by product quantization.
    Pq { subspaces: usize },
    /// They are encoded by RaBitQ.
    Rabitq { seed: u64, rotate: bool },
    /// They are encoded by extended RaBitQ.
    RabitqExt { total_bits: u32, seed: u64, rotate: bool, faster_quant: bool },
}

/// The order in which numbers of subspaces are tried when none is given.
pub open spec fn subspace_order() -> Seq<usize> {
    seq![128usize, 192, 96, 64, 48, 32, 16, 8, 4, 24, 256]
}

/// Whether place `i` of the order holds the first number that divides `dim`.
pub open spec fn first_divisor(dim: usize, i: int) -> bool {
    &&& 0 <= i < subspace_order().len()
    &&& dim % subspace_order()[i] == 0
    &&& forall|j: int| 0 <= j < i ==> dim % #[trigger] subspace_order()[j] != 0
}

/// The number of subspaces for vectors of `dim` values: the requested one where it is
/// supported and divides `dim`; where 0 is requested, the first that divides it.
pub fn choose_pq_subspaces(dim: usize, requested: usize) -> (chosen: Result<usize, ArgError>)
    ensures
        requested != 0 ==> chosen == (if !crate::rerank_dense::supported_subspaces(requested) {
            Err::<usize, ArgError>(ArgError::UnsupportedSubspaces { m: requested })
        } else if dim % requested != 0 {
            Err(ArgError::SubspacesDoNotDivide { m: requested, dim })
        } else {
            Ok(requested)
        }),
        requested == 0 ==> match chosen {
            Ok(m) => exists|i: int| #[trigger] first_divisor(dim, i) && m == subspace_order()[i],
            Err(error) => error == (ArgError::NoSubspacesFor { dim }) && forall|j: int|
                0 <= j < subspace_order().len() ==> dim % #[trigger] subspace_order()[j] != 0,
        },
{
    if requested == 0 {
        let order: [usize; 11] = [128, 192, 96, 64, 48, 32, 16, 8, 4, 24, 256];
        assert(order@ =~= subspace_order());
        let mut i: usize = 0;
        while i < 11
            invariant
                i <= 11,
                requested == 0,
                order@ == subspace_order(),
                forall|j: int| 0 <= j < i ==> dim % #[trigger] subspace_order()[j] != 0,
            decreases 11 - i,
        {
            let m: usize = order[i];
            if dim % m == 0 {
                assert(first_divisor(dim, i as int));
                return Ok(m);
            }
            i = i + 1;
        }
        return Err(ArgError::NoSubspacesFor { dim });
    }
    if !supports_subspaces(requested) {
        return Err(ArgError::UnsupportedSubspaces { m: requested });
    }
    if dim % requested != 0 {
        return Err(ArgError::SubspacesDoNotDivide { m: requested, dim });
    }
    Ok(requested)
}

/// The numbers 24 and 256 are never chosen when none is given: each dimension that
/// one of them divides is divided by a number that is tried earlier.
pub proof fn law_last_entries_are_never_chosen(dim: usize, i: int)
    requires
        first_divisor(dim, i),
    ensures
        subspace_order()[i] != 24,
        subspace_order()[i] != 256,
{
    assert(subspace_order()[0] == 128);
    assert(subspace_order()[7] == 8);
    assert(dim % 24 == 0 ==> dim % 8 == 0);
    assert(dim % 256 == 0 ==> dim % 128 == 0);
}

/// Whichever number is chosen, it is supported and divides the dimension.
pub proof fn law_chosen_subspaces_fit(dim: usize, i: int)
    requires
        first_divisor(dim, i),
    ensures
        crate::rerank_dense::supported_subspaces(subspace_order()[i]),
        dim % subspace_order()[i] == 0,
{
}

/// Checks that RaBitQ can pack vectors of `dim` values.
pub fn check_rabitq_dim(dim: usize) -> (checked: Result<(), ArgError>)
    ensures
        checked == if dim % 64 == 0 {
            Ok::<(), ArgError>(())
        } else {
            Err(ArgError::RabitqDimension { dim })
        },
{
    if dim % 64 != 0 {
        Err(ArgError::RabitqDimension { dim })
    } else {
        Ok(())
    }
}

/// The RaBitQ settings among the options.
pub fn rabitq_config(options: &BuildOptions) -> (encoding: Encoding)
    ensures
        encoding == (Encoding::Rabitq {
            seed: options.rabitq_seed,
            rotate: !options.rabitq_no_rotate,
        }),
{
    Encoding::Rabitq { seed: options.rabitq_seed, rotate: !options.rabitq_no_rotate }
}

/// The extended RaBitQ settings among the options.
pub fn rabitq_ext_config(options: &BuildOptions) -> (encoding: Result<Encoding, ArgError>)
    ensures
        encoding == (if options.rabitq_total_bits == 2 || options.rabitq_total_bits == 4
            || options.rabitq_total_bits == 8 {
            Ok::<Encoding, ArgError>(
                Encoding::RabitqExt {
                    total_bits: options.rabitq_total_bits,
                    seed: options.rabitq_seed,
                    rotate: !options.rabitq_no_rotate,
                    faster_quant: !options.rabitq_exact_quant,
                },
            )
        } else {
            Err(ArgError::TotalBits { bits: options.rabitq_total_bits })
        }),
{
    let bits: u32 = options.rabitq_total_bits;
    if bits != 2 && bits != 4 && bits != 8 {
        return Err(ArgError::TotalBits { bits });
    }
    Ok(
        Encoding::RabitqExt {
            total_bits: bits,
            seed: options.rabitq_seed,
            rotate: !options.rabitq_no_rotate,
            faster_quant: !options.rabitq_exact_quant,
        },
    )
}

/// Whether `chosen` is how vectors of `dim` values are encoded, or the error of the
/// first setting that is wrong for them.
pub open spec fn encodes(
    stored: StoredAs,
    dim: usize,
    options: BuildOptions,
    chosen: Result<Encoding, ArgError>,
) -> bool {
    match stored {
        StoredAs::DensePlain { .. } | StoredAs::SparsePlain { .. } => chosen == Ok::<Encoding, ArgError>(
            Encoding::Keep,
        ),
        StoredAs::SparseScalar { .. } | StoredAs::SparseDotvbyte => chosen == Ok::<
            Encoding,
            ArgError,
        >(Encoding::Convert),
        StoredAs::DensePq => if options.pq_subspaces != 0 {
            chosen == (if !crate::rerank_dense::supported_subspaces(options.pq_subspaces) {
                Err::<Encoding, ArgError>(
                    ArgError::UnsupportedSubspaces { m: options.pq_subspaces },
                )
            } else if dim % options.pq_subspaces != 0 {
                Err(ArgError::SubspacesDoNotDivide { m: options.pq_subspaces, dim })
            } else {
                Ok(Encoding::Pq { subspaces: options.pq_subspaces })
            })
        } else {
            match chosen {
                Ok(encoding) => exists|i: int| #[trigger]
                    first_divisor(dim, i) && encoding == (Encoding::Pq {
                        subspaces: subspace_order()[i],
                    }),
                Err(error) => error == (ArgError::NoSubspacesFor { dim }) && forall|j: int|
                    0 <= j < subspace_order().len() ==> dim % #[trigger] subspace_order()[j] != 0,
            }
        },
        StoredAs::DenseRabitq => chosen == (if dim % 64 != 0 {
            Err::<Encoding, ArgError>(ArgError::RabitqDimension { dim })
        } else {
            Ok(
                Encoding::Rabitq {
                    seed: options.rabitq_seed,
                    rotate: !options.rabitq_no_rotate,
                },
            )
        }),
        StoredAs::DenseRabitqExt => chosen == (if dim % 64 != 0 {
            Err::<Encoding, ArgError>(ArgError::RabitqDimension { dim })
        } else if options.rabitq_total_bits != 2 && options.rabitq_total_bits != 4
            && options.rabitq_total_bits != 8 {
            Err(ArgError::TotalBits { bits: options.rabitq_total_bits })
        } else {
            Ok(
                Encoding::RabitqExt {
                    total_bits: options.rabitq_total_bits,
                    seed: options.rabitq_seed,
                    rotate: !options.rabitq_no_rotate,
                    faster_quant: !options.rabitq_exact_quant,
                },
            )
        }),
    }
}

/// How vectors of `dim` values are encoded.
pub fn choose_encoding(stored: StoredAs, dim: usize, options: &BuildOptions) -> (chosen: Result<
    Encoding,
    ArgError,
>)
    ensures
        encodes(stored, dim, *options, chosen),
{
    match stored {
        StoredAs::DensePlain { .. } | StoredAs::SparsePlain { .. } => Ok(Encoding::Keep),
        StoredAs::SparseScalar { .. } | StoredAs::SparseDotvbyte => Ok(Encoding::Convert),
        StoredAs::DensePq => match choose_pq_subspaces(dim, options.pq_subspaces) {
            Ok(subspaces) => Ok(Encoding::Pq { subspaces }),
            Err(error) => Err(error),
        },
        StoredAs::DenseRabitq => match check_rabitq_dim(dim) {
            Ok(()) => Ok(rabitq_config(options)),
            Err(error) => Err(error),
        },
        StoredAs::DenseRabitqExt => match check_rabitq_dim(dim) {
            Ok(()) => rabitq_ext_config(options),
            Err(error) => Err(error),
        },
    }
}

/// Builds an index over `dataset` and encodes its vectors; the graph stays as it was
/// built.
pub fn build_converted<D, P, I, B, C>(
    dataset: D,
    config: HNSWBuildConfiguration,
    encoding: Encoding,
    build: B,
    convert: C,
) -> (index: I) where
    B: FnOnce(D, HNSWBuildConfiguration) -> P,
    C: FnOnce(P, Encoding) -> I,

    requires
        call_requires(build, (dataset, config)),
        forall|plain: P|
            call_ensures(build, (dataset, config), plain) ==> #[trigger] call_requires(
                convert,
                (plain, encoding),
            ),
    ensures
        exists|plain: P|
            call_ensures(build, (dataset, config), plain) && #[trigger] call_ensures(
                convert,
                (plain, encoding),
                index,
            ),
{
    let plain: P = build(dataset, config);
    convert(plain, encoding)
}

/// Builds an index over `dataset`, encodes its vectors, and only then reorders its
/// nodes: an encoder that is fitted to the first vectors meets them in their original
/// order.
pub fn build_converted_permuted<D, P, Q, I, B, C, R>(
    dataset: D,
    config: HNSWBuildConfiguration,
    encoding: Encoding,
    graph: GraphStorage,
    build: B,
    convert: C,
    permute: R,
) -> (index: I) where
    B: FnOnce(D, HNSWBuildConfiguration) -> P,
    C: FnOnce(P, Encoding) -> Q,
    R: FnOnce(Q, GraphStorage) -> I,

    requires
        call_requires(build, (dataset, config)),
        forall|plain: P|
            call_ensures(build, (dataset, config), plain) ==> #[trigger] call_requires(
                convert,
                (plain, encoding),
            ),
        forall|plain: P, converted: Q|
            call_ensures(build, (dataset, config), plain) && #[trigger] call_ensures(
                convert,
                (plain, encoding),
                converted,
            ) ==> call_requires(permute, (converted, graph)),
    ensures
        exists|plain: P, converted: Q|
            call_ensures(build, (dataset, config), plain) && #[trigger] call_ensures(
                convert,
                (plain, encoding),
                converted,
            ) && #[trigger] call_ensures(permute, (converted, graph), index),
{
    let plain: P = build(dataset, config);
    let converted: Q = convert(plain, encoding);
    permute(converted, graph)
}

} // verus!
