//! What indexes are built and loaded from, step by step, and what they tell of
//! themselves.

use crate::dense::PlainDenseDataset;
use crate::error::{BuildError, IndexError};
use crate::flat::{DenseFlatIndex, SparseFlatIndex};
use crate::graph_type::{parse_graph_type, GraphTypeKind, NeighborStorage};
use crate::hnsw::{
    build_arguments, check_build_arguments, check_load_arguments, DensePlainHNSW, Eligibility, Reordering,
};
use crate::metric::{parse_metric, MetricKind};
use crate::query::HNSWBuildConfiguration;
use crate::rerank_dense::{
    check_build, check_load, checks_build, checks_load, parse_encoder, staged, validate_encoder_widths,
    BuildArgs, DenseRerankHNSW, FirstStageEncoder, LoadArgs, LoadedStages,
};
use crate::rerank_multivec::{SparseMultivecRerankIndex, SparseMultivecTwoLevelsPQRerankIndex};
use crate::sparse::PlainSparseDataset;
use vstd::prelude::*;

verus! {

/// Whether two errors say the same.
pub open spec fn same_error(a: IndexError, b: IndexError) -> bool {
    match (a, b) {
        (IndexError::UnknownGraphType(x), IndexError::UnknownGraphType(y)) => x@ == y@,
        (IndexError::UnknownEncoder(x), IndexError::UnknownEncoder(y)) => x@ == y@,
        _ => a == b,
    }
}

/// Whether every value of `to` is one of `from`, converted by `f`.
pub open spec fn one_by_one<T, V, F: Fn(T) -> V>(f: F, from: Seq<T>, to: Seq<V>) -> bool {
    &&& to.len() == from.len()
    &&& forall|i: int| 0 <= i < from.len() ==> call_ensures(f, (from[i],), #[trigger] to[i])
}

/// Whether a flat index holds what was read for its metric.
pub open spec fn holds_what_was_read<D, E>(
    outcome: Result<DenseFlatIndex<D>, BuildError<E>>,
    kind: MetricKind,
    out: Result<(D, usize), E>,
) -> bool {
    &&& outcome is Ok <==> out is Ok
    &&& outcome matches Ok(index) ==> {
        &&& index.spec_metric() == kind
        &&& index.spec_dataset() == out->Ok_0.0
        &&& index.spec_dim() == out->Ok_0.1
    }
    &&& outcome matches Err(error) ==> error == BuildError::<E>::Io(out->Err_0)
}

/// A flat index is built from a file, and loaded, with the metric that is named and from
/// what is read for it; a wrong name fails both.
pub proof fn law_flat_files<D, E, R>(
    metric: &str,
    read: R,
    parsed: Result<MetricKind, IndexError>,
    built: Result<DenseFlatIndex<D>, BuildError<E>>,
    loaded: Result<DenseFlatIndex<D>, BuildError<E>>,
) where R: FnOnce(MetricKind) -> Result<(D, usize), E>
    requires
        call_ensures(parse_metric, (metric,), parsed),
        call_ensures(DenseFlatIndex::<D>::build_from_file::<E, R>, (metric, read), built),
        call_ensures(DenseFlatIndex::<D>::load::<E, R>, (metric, read), loaded),
    ensures
        parsed matches Err(error) ==> {
            &&& built == Err::<DenseFlatIndex<D>, BuildError<E>>(BuildError::Invalid(IndexError::InvalidMetric))
            &&& loaded == Err::<DenseFlatIndex<D>, BuildError<E>>(BuildError::Invalid(IndexError::InvalidMetric))
        },
        parsed matches Ok(kind) ==> {
            &&& exists|out: Result<(D, usize), E>| #[trigger]
                call_ensures(read, (kind,), out) && holds_what_was_read(built, kind, out)
            &&& exists|out: Result<(D, usize), E>| #[trigger]
                call_ensures(read, (kind,), out) && holds_what_was_read(loaded, kind, out)
        },
{
    if parsed is Ok {
        let kind = parsed->Ok_0;
        let a = choose|out: Result<(D, usize), E>| #[trigger]
            call_ensures(read, (kind,), out) && DenseFlatIndex::<D>::comes_from(built, kind, out);
        let b = choose|out: Result<(D, usize), E>| #[trigger]
            call_ensures(read, (kind,), out) && DenseFlatIndex::<D>::comes_from(loaded, kind, out);
        assert(holds_what_was_read(built, kind, a));
        assert(holds_what_was_read(loaded, kind, b));
    }
}

/// A flat index over an array stores all of its values, each narrowed, as whole vectors.
pub proof fn law_flat_arrays<D, T, V, N, M>(
    data: &[T],
    dim: usize,
    metric: &str,
    narrow: &N,
    make: M,
    n: usize,
    parsed: Result<MetricKind, IndexError>,
    built: Result<DenseFlatIndex<D>, IndexError>,
) where T: Copy, N: Fn(T) -> V, M: FnOnce(MetricKind, Vec<V>, usize, usize) -> D
    requires
        dim > 0,
        n * dim == data@.len(),
        call_ensures(parse_metric, (metric,), parsed),
        call_ensures(
            DenseFlatIndex::<D>::build_from_array::<T, V, N, M>,
            (data, dim, metric, narrow, make),
            built,
        ),
    ensures
        parsed is Err ==> built == Err::<DenseFlatIndex<D>, IndexError>(IndexError::InvalidMetric),
        parsed matches Ok(kind) ==> {
            &&& built is Ok
            &&& built->Ok_0.spec_metric() == kind
            &&& built->Ok_0.spec_dim() == dim
            &&& exists|values: Vec<V>|
                one_by_one(*narrow, data@, values@) && #[trigger] call_ensures(
                    make,
                    (kind, values, n, dim),
                    built->Ok_0.spec_dataset(),
                )
        },
{
    vstd::arithmetic::div_mod::lemma_div_multiples_vanish(n as int, dim as int);
    vstd::arithmetic::mul::lemma_mul_is_commutative(n as int, dim as int);
    assert((data@.len() / (dim as nat)) as usize == n);
}

/// What a flat index tells of itself.
pub proof fn law_flat_parts<D, E, W: FnOnce(&D) -> Result<(), E>>(
    index: &DenseFlatIndex<D>,
    metric: MetricKind,
    dataset: &D,
    dim: usize,
    write: W,
    saved: Result<(), E>,
    sparse: &SparseFlatIndex<D>,
    sparse_dataset: &D,
    sparse_saved: Result<(), E>,
)
    requires
        call_ensures(DenseFlatIndex::<D>::metric, (index,), metric),
        call_ensures(DenseFlatIndex::<D>::dataset, (index,), dataset),
        call_ensures(DenseFlatIndex::<D>::dim, (index,), dim),
        call_ensures(DenseFlatIndex::<D>::save::<E, W>, (index, write), saved),
        call_ensures(SparseFlatIndex::<D>::dataset, (sparse,), sparse_dataset),
        call_ensures(SparseFlatIndex::<D>::save::<E, W>, (sparse, write), sparse_saved),
    ensures
        metric == index.spec_metric(),
        *dataset == index.spec_dataset(),
        dim == index.spec_dim(),
        call_ensures(write, (&index.spec_dataset(),), saved),
        *sparse_dataset == sparse.spec_dataset(),
        call_ensures(write, (&sparse.spec_dataset(),), sparse_saved),
{
}

/// Whether a sparse index holds what was read.
pub open spec fn holds_sparse<D, E>(outcome: Result<SparseFlatIndex<D>, E>, out: Result<D, E>) -> bool {
    &&& outcome is Ok <==> out is Ok
    &&& outcome matches Ok(index) ==> index.spec_dataset() == out->Ok_0
    &&& outcome matches Err(error) ==> error == out->Err_0
}

/// A sparse flat index is what is read, or the error of reading it.
pub proof fn law_sparse_flat_files<D, E, R: FnOnce() -> Result<D, E>>(
    read: R,
    built: Result<SparseFlatIndex<D>, E>,
    loaded: Result<SparseFlatIndex<D>, E>,
)
    requires
        call_ensures(SparseFlatIndex::<D>::build_from_file::<E, R>, (read,), built),
        call_ensures(SparseFlatIndex::<D>::load::<E, R>, (read,), loaded),
    ensures
        exists|out: Result<D, E>| #[trigger] call_ensures(read, (), out) && holds_sparse(built, out),
        exists|out: Result<D, E>| #[trigger] call_ensures(read, (), out) && holds_sparse(loaded, out),
{
    let a = choose|out: Result<D, E>| #[trigger]
        call_ensures(read, (), out) && match out {
            Ok(dataset) => built matches Ok(index) && index.spec_dataset() == dataset,
            Err(error) => built == Err::<SparseFlatIndex<D>, E>(error),
        };
    let b = choose|out: Result<D, E>| #[trigger]
        call_ensures(read, (), out) && match out {
            Ok(dataset) => loaded matches Ok(index) && index.spec_dataset() == dataset,
            Err(error) => loaded == Err::<SparseFlatIndex<D>, E>(error),
        };
    assert(holds_sparse(built, a));
    assert(holds_sparse(loaded, b));
}

/// A sparse flat index over arrays holds each value narrowed, each component as it is and
/// the offsets as they are; it is built where the components fit 16 bits and the offsets
/// start at 0, end at the number of values and never fall.
pub proof fn law_sparse_flat_arrays<V: Copy, T: Copy, N: Fn(T) -> V>(
    components: &[i32],
    values: &[T],
    offsets: &[i64],
    narrow: &N,
    built: Result<SparseFlatIndex<PlainSparseDataset<V>>, IndexError>,
)
    requires
        values@.len() <= components@.len(),
        values@.len() < usize::MAX,
        call_ensures(
            SparseFlatIndex::<PlainSparseDataset<V>>::build_from_arrays::<T, N>,
            (components, values, offsets, narrow),
            built,
        ),
    ensures
        built is Ok <==> {
            &&& crate::query_laws::in_range(components@)
            &&& offsets@.len() > 0
            &&& offsets@[0] == 0
            &&& offsets@[offsets@.len() - 1] == values@.len()
            &&& forall|i: int, j: int|
                0 <= i < j < offsets@.len() ==> #[trigger] offsets@[i] <= #[trigger] offsets@[j]
        },
        built matches Ok(index) ==> {
            let dataset = index.spec_dataset();
            &&& dataset.spec_offsets().len() == offsets@.len()
            &&& forall|i: int|
                0 <= i < offsets@.len() ==> #[trigger] dataset.spec_offsets()[i] == offsets@[i]
            &&& dataset.spec_components().len() == values@.len()
            &&& forall|i: int|
                0 <= i < values@.len() ==> #[trigger] dataset.spec_components()[i] == components@[i]
            &&& one_by_one(*narrow, values@, dataset.spec_values())
            &&& forall|i: int| 0 <= i < components@.len() ==> #[trigger] components@[i] < dataset.spec_dim()
            &&& components@.len() == 0 ==> dataset.spec_dim() == 0
            &&& components@.len() > 0 ==> exists|i: int|
                0 <= i < components@.len() && #[trigger] components@[i] + 1 == dataset.spec_dim()
        },
        !crate::query_laws::in_range(components@) ==> built
            == Err::<SparseFlatIndex<PlainSparseDataset<V>>, IndexError>(IndexError::ComponentOutOfRange),
{
    let positions = offsets@.map_values(|o: i64| crate::sparse::position_of(o));
    let fit = crate::sparse_query::all_fit(components@);
    let good = crate::sparse::are_offsets(positions, values@.len());
    assert(fit <==> crate::query_laws::in_range(components@)) by {
        if fit {
            assert forall|i: int| 0 <= i < components@.len() implies 0 <= #[trigger] components@[i] <= 65535 by {
                assert(crate::sparse::fits_u16(components@[i]));
            }
        }
    }
    assert(built is Ok <==> fit && good);
    if good {
        assert forall|i: int| 0 <= i < offsets@.len() implies #[trigger] positions[i] == offsets@[i] by {
            assert(positions[i] <= positions[positions.len() - 1]);
        }
        assert forall|i: int, j: int| 0 <= i < j < offsets@.len() implies #[trigger] offsets@[i]
            <= #[trigger] offsets@[j] by {
            assert(positions[i] <= positions[j]);
        }
        assert(offsets@[0] == positions[0]);
        assert(offsets@[offsets@.len() - 1] == positions[positions.len() - 1]);
    }
    if offsets@.len() > 0 && offsets@[0] == 0 && offsets@[offsets@.len() - 1] == values@.len() && (forall|
        i: int,
        j: int,
    |
        0 <= i < j < offsets@.len() ==> #[trigger] offsets@[i] <= #[trigger] offsets@[j]) {
        let last = offsets@.len() - 1;
        assert forall|i: int| 0 <= i < offsets@.len() implies #[trigger] positions[i] == offsets@[i] by {
            if 0 < i {
                assert(offsets@[0] <= offsets@[i]);
            }
            if i < last {
                assert(offsets@[i] <= offsets@[last]);
            }
        }
        assert forall|i: int, j: int| 0 <= i <= j < positions.len() implies #[trigger] positions[i]
            <= #[trigger] positions[j] by {
            if i < j {
                assert(offsets@[i] <= offsets@[j]);
            }
        }
        assert(good);
    }
    if built is Ok {
        let dataset = built->Ok_0.spec_dataset();
        let all = crate::sparse_query::narrowed(components@);
        assert forall|i: int| 0 <= i < components@.len() implies #[trigger] components@[i]
            < dataset.spec_dim() by {
            assert(all[i] == components@[i] as u16);
            assert(all[i] < dataset.spec_dim());
        }
        if components@.len() > 0 {
            let i = choose|i: int| 0 <= i < all.len() && #[trigger] all[i] + 1 == dataset.spec_dim();
            assert(components@[i] + 1 == dataset.spec_dim());
        }
        assert forall|i: int| 0 <= i < values@.len() implies #[trigger] dataset.spec_components()[i]
            == components@[i] by {
            assert(dataset.spec_components()[i] == all[i]);
        }
    }
}

/// Whether a graph is left as it is or reordered and stored, as its type says: standard
/// graphs stay, permuted ones keep plain lists, compressed ones get compressed lists.
pub open spec fn follows_type(graph: GraphTypeKind, reordering: Reordering) -> bool {
    match graph {
        GraphTypeKind::Standard => reordering is Keep,
        GraphTypeKind::Permuted => reordering == Reordering::Permute(NeighborStorage::Plain),
        GraphTypeKind::Compressed => reordering == Reordering::Permute(NeighborStorage::StreamVByte),
    }
}

/// Whether a fresh graph index holds its graph, under its metric and dimension, in the
/// storage of its type.
pub open spec fn is_new<H, G>(
    index: DensePlainHNSW<H, G>,
    kind: MetricKind,
    graph: GraphTypeKind,
    dim: usize,
) -> bool {
    &&& index.spec_metric() == kind
    &&& index.spec_storage() is StreamVByte <==> graph is Compressed
    &&& index.spec_dim() == dim
    &&& index.spec_gamma() is None
}

/// Whether `index` is a graph that was built over `dataset` with the given numbers of
/// neighbors and effort, and then treated as its type says.
pub open spec fn is_graph_over<D, P, H, B, X>(
    build: B,
    finish: X,
    kind: MetricKind,
    dataset: D,
    m: usize,
    ef_construction: usize,
    graph: GraphTypeKind,
    index: H,
) -> bool where
    B: FnOnce(MetricKind, D, HNSWBuildConfiguration) -> P,
    X: FnOnce(P, Reordering) -> H,
 {
    exists|config: HNSWBuildConfiguration, plain: P, reordering: Reordering|
        {
            &&& config.num_neighbors == m
            &&& config.ef_construction == ef_construction
            &&& #[trigger] call_ensures(build, (kind, dataset, config), plain)
            &&& follows_type(graph, reordering)
            &&& #[trigger] call_ensures(finish, (plain, reordering), index)
        }
}

proof fn lemma_is_graph_over<D, P, H, B, X>(
    build: B,
    finish: X,
    kind: MetricKind,
    dataset: D,
    m: usize,
    ef_construction: usize,
    graph: GraphTypeKind,
    index: H,
) where B: FnOnce(MetricKind, D, HNSWBuildConfiguration) -> P, X: FnOnce(P, Reordering) -> H
    requires
        crate::hnsw::built_from(build, finish, kind, dataset, m, ef_construction, graph, index),
    ensures
        is_graph_over(build, finish, kind, dataset, m, ef_construction, graph, index),
{
    let config = HNSWBuildConfiguration { num_neighbors: m, ef_construction };
    let plain = choose|plain: P|
        call_ensures(build, (kind, dataset, config), plain) && #[trigger] call_ensures(
            finish,
            (plain, graph.reordering_spec()),
            index,
        );
    assert(call_ensures(build, (kind, dataset, config), plain));
    assert(follows_type(graph, graph.reordering_spec()));
}

/// Two outcomes of checking the same arguments agree.
proof fn lemma_same_arguments(
    metric: Seq<char>,
    graph_type: Seq<char>,
    m: usize,
    a: Result<(MetricKind, GraphTypeKind), IndexError>,
    b: Result<(MetricKind, GraphTypeKind), IndexError>,
)
    requires
        build_arguments(metric, graph_type, m, a),
        build_arguments(metric, graph_type, m, b),
    ensures
        a is Ok <==> b is Ok,
        a is Ok ==> a == b,
        a is Err ==> same_error(a->Err_0, b->Err_0),
{
}

/// A graph index is built from a file in turn: its arguments are checked, the dataset is
/// read for the metric, a graph is built over it and treated as its type says.
pub proof fn law_graph_files<H, G, E, D, P, R, B, X>(
    m: usize,
    ef_construction: usize,
    metric: &str,
    graph_type: &str,
    read: R,
    build: B,
    finish: X,
    checked: Result<(MetricKind, GraphTypeKind), IndexError>,
    built: Result<DensePlainHNSW<H, G>, BuildError<E>>,
) where
    R: FnOnce(MetricKind) -> Result<(D, usize), E>,
    B: FnOnce(MetricKind, D, HNSWBuildConfiguration) -> P,
    X: FnOnce(P, Reordering) -> H,

    requires
        call_ensures(check_build_arguments, (metric, graph_type, m), checked),
        call_ensures(
            DensePlainHNSW::<H, G>::build_from_file::<E, D, P, R, B, X>,
            (m, ef_construction, metric, graph_type, read, build, finish),
            built,
        ),
    ensures
        checked matches Err(error) ==> built matches Err(BuildError::Invalid(e)) && same_error(e, error),
        checked matches Ok((kind, graph)) ==> match built {
            Err(BuildError::Io(error)) => call_ensures(read, (kind,), Err(error)),
            Err(BuildError::Invalid(_)) => false,
            Ok(index) => exists|dataset: D, dim: usize|
                {
                    &&& #[trigger] call_ensures(read, (kind,), Ok((dataset, dim)))
                    &&& is_new(index, kind, graph, dim)
                    &&& is_graph_over(
                        build,
                        finish,
                        kind,
                        dataset,
                        m,
                        ef_construction,
                        graph,
                        index.spec_index(),
                    )
                },
        },
{
    let lower_metric = crate::text::in_lower_case(metric@);
    let lower_type = crate::text::in_lower_case(graph_type@);
    let own = choose|own: Result<(MetricKind, GraphTypeKind), IndexError>|
        {
            &&& #[trigger] build_arguments(lower_metric, lower_type, m, own)
            &&& match own {
                Err(error) => built == Err::<DensePlainHNSW<H, G>, BuildError<E>>(BuildError::Invalid(error)),
                Ok((kind, graph)) => exists|out: Result<(D, usize), E>| #[trigger]
                    call_ensures(read, (kind,), out) && match out {
                        Err(error) => built == Err::<DensePlainHNSW<H, G>, BuildError<E>>(
                            BuildError::Io(error),
                        ),
                        Ok((dataset, dim)) => built matches Ok(index) && crate::hnsw::built_from(
                            build,
                            finish,
                            kind,
                            dataset,
                            m,
                            ef_construction,
                            graph,
                            index.spec_index(),
                        ) && index.is_fresh(kind, graph, index.spec_index(), dim as nat),
                    },
            }
        };
    lemma_same_arguments(lower_metric, lower_type, m, own, checked);
    if own is Ok {
        let kind = own->Ok_0.0;
        let graph = own->Ok_0.1;
        let out = choose|out: Result<(D, usize), E>| #[trigger]
            call_ensures(read, (kind,), out) && match out {
                Err(error) => built == Err::<DensePlainHNSW<H, G>, BuildError<E>>(BuildError::Io(error)),
                Ok((dataset, dim)) => built matches Ok(index) && crate::hnsw::built_from(
                    build,
                    finish,
                    kind,
                    dataset,
                    m,
                    ef_construction,
                    graph,
                    index.spec_index(),
                ) && index.is_fresh(kind, graph, index.spec_index(), dim as nat),
            };
        if out is Ok {
            let dataset = out->Ok_0.0;
            let dim = out->Ok_0.1;
            assert(call_ensures(read, (kind,), Ok((dataset, dim))));
            lemma_is_graph_over(
                build,
                finish,
                kind,
                dataset,
                m,
                ef_construction,
                graph,
                built->Ok_0.spec_index(),
            );
        }
    }
}

/// A graph index over an array stores all of its values, each narrowed, as whole
/// vectors, and builds a graph over them.
pub proof fn law_graph_arrays<H, G, T, V, D, P, N, M, B, X>(
    data: &[T],
    dim: usize,
    m: usize,
    ef_construction: usize,
    metric: &str,
    graph_type: &str,
    narrow: &N,
    make: M,
    build: B,
    finish: X,
    n: usize,
    checked: Result<(MetricKind, GraphTypeKind), IndexError>,
    built: Result<DensePlainHNSW<H, G>, IndexError>,
) where
    T: Copy,
    N: Fn(T) -> V,
    M: FnOnce(MetricKind, Vec<V>, usize, usize) -> D,
    B: FnOnce(MetricKind, D, HNSWBuildConfiguration) -> P,
    X: FnOnce(P, Reordering) -> H,

    requires
        dim > 0,
        n * dim == data@.len(),
        call_ensures(check_build_arguments, (metric, graph_type, m), checked),
        call_ensures(
            DensePlainHNSW::<H, G>::build_from_array::<T, V, D, P, N, M, B, X>,
            (data, dim, m, ef_construction, metric, graph_type, narrow, make, build, finish),
            built,
        ),
    ensures
        checked matches Err(error) ==> built matches Err(e) && same_error(e, error),
        checked matches Ok((kind, graph)) ==> {
            &&& built is Ok
            &&& is_new(built->Ok_0, kind, graph, dim)
            &&& exists|values: Vec<V>, dataset: D|
                {
                    &&& one_by_one(*narrow, data@, values@)
                    &&& #[trigger] call_ensures(make, (kind, values, n, dim), dataset)
                    &&& is_graph_over(
                        build,
                        finish,
                        kind,
                        dataset,
                        m,
                        ef_construction,
                        graph,
                        built->Ok_0.spec_index(),
                    )
                }
        },
{
    vstd::arithmetic::div_mod::lemma_div_multiples_vanish(n as int, dim as int);
    vstd::arithmetic::mul::lemma_mul_is_commutative(n as int, dim as int);
    assert((data@.len() / (dim as nat)) as usize == n);
    let lower_metric = crate::text::in_lower_case(metric@);
    let lower_type = crate::text::in_lower_case(graph_type@);
    let own = choose|own: Result<(MetricKind, GraphTypeKind), IndexError>|
        {
            &&& #[trigger] build_arguments(lower_metric, lower_type, m, own)
            &&& match own {
                Err(error) => built == Err::<DensePlainHNSW<H, G>, IndexError>(error),
                Ok((kind, graph)) => exists|values: Vec<V>, dataset: D|
                    {
                        &&& crate::dense::converts(*narrow, data@, values@)
                        &&& #[trigger] call_ensures(make, (kind, values, n, dim), dataset)
                        &&& built matches Ok(index) && crate::hnsw::built_from(
                            build,
                            finish,
                            kind,
                            dataset,
                            m,
                            ef_construction,
                            graph,
                            index.spec_index(),
                        ) && index.is_fresh(kind, graph, index.spec_index(), dim as nat)
                    },
            }
        };
    lemma_same_arguments(lower_metric, lower_type, m, own, checked);
    if own is Ok {
        let kind = own->Ok_0.0;
        let graph = own->Ok_0.1;
        let (values, dataset) = choose|values: Vec<V>, dataset: D|
            {
                &&& crate::dense::converts(*narrow, data@, values@)
                &&& #[trigger] call_ensures(make, (kind, values, n, dim), dataset)
                &&& built matches Ok(index) && crate::hnsw::built_from(
                    build,
                    finish,
                    kind,
                    dataset,
                    m,
                    ef_construction,
                    graph,
                    index.spec_index(),
                ) && index.is_fresh(kind, graph, index.spec_index(), dim as nat)
            };
        lemma_is_graph_over(
            build,
            finish,
            kind,
            dataset,
            m,
            ef_construction,
            graph,
            built->Ok_0.spec_index(),
        );
        assert(one_by_one(*narrow, data@, values@));
    }
}

/// A graph index is loaded with what is read for its metric and for the storage of its
/// type, without expanded lists.
pub proof fn law_graph_loads<H, G, E, R>(
    metric: &str,
    graph_type: &str,
    read: R,
    checked: Result<(MetricKind, GraphTypeKind), IndexError>,
    loaded: Result<DensePlainHNSW<H, G>, BuildError<E>>,
) where R: FnOnce(MetricKind, NeighborStorage) -> Result<(H, usize), E>
    requires
        call_ensures(check_load_arguments, (metric, graph_type), checked),
        call_ensures(DensePlainHNSW::<H, G>::load::<E, R>, (metric, graph_type, read), loaded),
    ensures
        checked matches Err(error) ==> loaded matches Err(BuildError::Invalid(e)) && same_error(e, error),
        checked matches Ok((kind, graph)) ==> exists|storage: NeighborStorage, out: Result<(H, usize), E>|
            {
                &&& storage is StreamVByte <==> graph is Compressed
                &&& #[trigger] call_ensures(read, (kind, storage), out)
                &&& loaded is Ok <==> out is Ok
                &&& loaded matches Ok(index) ==> is_new(index, kind, graph, out->Ok_0.1) && index.spec_index()
                    == out->Ok_0.0
                &&& loaded matches Err(error) ==> error == BuildError::<E>::Io(out->Err_0)
            },
{
    let lower_metric = crate::text::in_lower_case(metric@);
    let lower_type = crate::text::in_lower_case(graph_type@);
    let own = choose|own: Result<(MetricKind, GraphTypeKind), IndexError>|
        {
            &&& #[trigger] build_arguments(lower_metric, lower_type, 0, own)
            &&& match own {
                Err(error) => loaded == Err::<DensePlainHNSW<H, G>, BuildError<E>>(BuildError::Invalid(error)),
                Ok((kind, graph)) => exists|out: Result<(H, usize), E>| #[trigger]
                    call_ensures(read, (kind, graph.storage_spec()), out) && match out {
                        Err(error) => loaded == Err::<DensePlainHNSW<H, G>, BuildError<E>>(
                            BuildError::Io(error),
                        ),
                        Ok((index, dim)) => loaded matches Ok(l) && l.is_fresh(kind, graph, index, dim as nat),
                    },
            }
        };
    lemma_same_arguments(lower_metric, lower_type, 0, own, checked);
}

/// What a graph index tells of itself, and what is written of it.
pub proof fn law_graph_parts<H, G, E, W: FnOnce(&H) -> Result<(), E>, U: FnOnce(&H) -> usize, P>(
    index: &DensePlainHNSW<H, G>,
    metric: MetricKind,
    storage: NeighborStorage,
    graph: &H,
    dim: usize,
    write: W,
    saved: Result<(), E>,
    usage: U,
    bytes: usize,
    predicate: P,
    eligible: Eligibility<P>,
) where P: Fn(i64) -> Option<bool>
    requires
        call_ensures(DensePlainHNSW::<H, G>::metric, (index,), metric),
        call_ensures(DensePlainHNSW::<H, G>::storage, (index,), storage),
        call_ensures(DensePlainHNSW::<H, G>::index, (index,), graph),
        call_ensures(DensePlainHNSW::<H, G>::dim, (index,), dim),
        call_ensures(DensePlainHNSW::<H, G>::save::<E, W>, (index, write), saved),
        call_ensures(DensePlainHNSW::<H, G>::space_usage_bytes::<U>, (index, usage), bytes),
        call_ensures(Eligibility::<P>::new, (predicate,), eligible),
    ensures
        metric == index.spec_metric(),
        storage == index.spec_storage(),
        *graph == index.spec_index(),
        dim == index.spec_dim(),
        call_ensures(write, (&index.spec_index(),), saved),
        call_ensures(usage, (&index.spec_index(),), bytes),
        eligible.spec_predicate() == predicate,
{
}

/// Two outcomes of naming an encoder agree.
proof fn lemma_same_encoder(
    name: Seq<char>,
    pq_subspaces: usize,
    a: Result<FirstStageEncoder, IndexError>,
    b: Result<FirstStageEncoder, IndexError>,
)
    requires
        crate::rerank_dense::names_encoder(name, pq_subspaces, a),
        crate::rerank_dense::names_encoder(name, pq_subspaces, b),
    ensures
        a is Ok <==> b is Ok,
        a is Ok ==> a == b,
        a is Err ==> same_error(a->Err_0, b->Err_0),
{
}

/// The arguments of a two-stage build are checked in turn: dimension, number of values,
/// widths, graph type and metric, encoder.
pub proof fn law_build_checks(
    len: usize,
    dim: usize,
    m: usize,
    metric: &str,
    graph_type: &str,
    args: &BuildArgs,
    name: &str,
    widths: Result<(), IndexError>,
    names: Result<(MetricKind, GraphTypeKind), IndexError>,
    encoder: Result<FirstStageEncoder, IndexError>,
    checked: Result<(MetricKind, GraphTypeKind, FirstStageEncoder), IndexError>,
)
    requires
        name@ == args.encoder@,
        call_ensures(
            validate_encoder_widths,
            (name, Some(args.rabitq_total_bits), args.rabitq_query_bits),
            widths,
        ),
        call_ensures(check_build_arguments, (metric, graph_type, m), names),
        call_ensures(parse_encoder, (name, args.pq_subspaces), encoder),
        call_ensures(check_build, (len, dim, m, metric, graph_type, args), checked),
    ensures
        dim == 0 ==> checked == Err::<(MetricKind, GraphTypeKind, FirstStageEncoder), IndexError>(
            IndexError::DimensionZero,
        ),
        dim > 0 && len % dim != 0 ==> checked == Err::<
            (MetricKind, GraphTypeKind, FirstStageEncoder),
            IndexError,
        >(IndexError::DataLength { len, dim }),
        dim > 0 && len % dim == 0 ==> match (widths, names, encoder) {
            (Err(error), _, _) => checked == Err::<(MetricKind, GraphTypeKind, FirstStageEncoder), IndexError>(
                error,
            ),
            (Ok(_), Err(error), _) => checked matches Err(e) && same_error(e, error),
            (Ok(_), Ok(_), Err(error)) => checked matches Err(e) && same_error(e, error),
            (Ok(_), Ok((kind, graph)), Ok(coder)) => checked == Ok::<
                (MetricKind, GraphTypeKind, FirstStageEncoder),
                IndexError,
            >((kind, graph, coder)),
        },
{
    let lower_metric = crate::text::in_lower_case(metric@);
    let lower_type = crate::text::in_lower_case(graph_type@);
    if dim > 0 && len % dim == 0 && widths is Ok {
        let own = choose|own: Result<(MetricKind, GraphTypeKind), IndexError>|
            {
                &&& #[trigger] build_arguments(lower_metric, lower_type, m, own)
                &&& match own {
                    Err(error) => checked == Err::<(MetricKind, GraphTypeKind, FirstStageEncoder), IndexError>(
                        error,
                    ),
                    Ok((kind, graph)) => crate::rerank_dense::encoder_completes(kind, graph, *args, checked),
                }
            };
        lemma_same_arguments(lower_metric, lower_type, m, own, names);
        if own is Ok {
            match checked {
                Ok((_, _, coder)) => {
                    lemma_same_encoder(args.encoder@, args.pq_subspaces, Ok(coder), encoder);
                },
                Err(error) => {
                    lemma_same_encoder(args.encoder@, args.pq_subspaces, Err(error), encoder);
                },
            }
        }
    }
}

/// The arguments of a two-stage load are checked in turn: query width, metric, graph
/// type, encoder.
pub proof fn law_load_checks(
    metric: &str,
    graph_type: &str,
    args: &LoadArgs,
    name: &str,
    widths: Result<(), IndexError>,
    kind: Result<MetricKind, IndexError>,
    graph: Result<GraphTypeKind, IndexError>,
    encoder: Result<FirstStageEncoder, IndexError>,
    checked: Result<(MetricKind, GraphTypeKind, FirstStageEncoder), IndexError>,
)
    requires
        name@ == args.encoder@,
        call_ensures(validate_encoder_widths, (name, None::<u32>, args.rabitq_query_bits), widths),
        call_ensures(parse_metric, (metric,), kind),
        call_ensures(parse_graph_type, (graph_type,), graph),
        call_ensures(parse_encoder, (name, args.pq_subspaces), encoder),
        call_ensures(check_load, (metric, graph_type, args), checked),
    ensures
        match (widths, kind, graph, encoder) {
            (Err(error), _, _, _) => checked == Err::<
                (MetricKind, GraphTypeKind, FirstStageEncoder),
                IndexError,
            >(error),
            (Ok(_), Err(_), _, _) => checked == Err::<
                (MetricKind, GraphTypeKind, FirstStageEncoder),
                IndexError,
            >(IndexError::InvalidMetric),
            (Ok(_), Ok(_), Err(error), _) => checked matches Err(e) && same_error(e, error),
            (Ok(_), Ok(_), Ok(_), Err(error)) => checked matches Err(e) && same_error(e, error),
            (Ok(_), Ok(k), Ok(g), Ok(coder)) => checked == Ok::<
                (MetricKind, GraphTypeKind, FirstStageEncoder),
                IndexError,
            >((k, g, coder)),
        },
{
    if widths is Ok && kind is Ok && graph is Ok {
        match checked {
            Ok((_, _, coder)) => {
                lemma_same_encoder(args.encoder@, args.pq_subspaces, Ok(coder), encoder);
            },
            Err(error) => {
                if checks_load(
                    crate::text::in_lower_case(metric@),
                    crate::text::in_lower_case(graph_type@),
                    *args,
                    checked,
                ) {
                    lemma_same_encoder(args.encoder@, args.pq_subspaces, Err(error), encoder);
                }
            },
        }
    }
}

/// Whether a two-stage index has the metric, storage, encoder, query width and dimension
/// asked for; only one encoder quantizes queries.
pub open spec fn is_as_asked<I>(
    index: DenseRerankHNSW<I>,
    kind: MetricKind,
    graph: GraphTypeKind,
    encoder: FirstStageEncoder,
    query_bits: u32,
    dim: usize,
) -> bool {
    &&& index.spec_metric() == kind
    &&& index.spec_storage() is StreamVByte <==> graph is Compressed
    &&& index.spec_encoder() == encoder
    &&& index.spec_query_bits() is Some <==> encoder is Rabitq
    &&& index.spec_query_bits() matches Some(bits) ==> bits == query_bits
    &&& index.spec_dim() == dim
}

/// Whether both stages are made in turn: the vectors are stored, a graph is built over
/// them, treated as its type says, encoded with the code width where the encoder has one,
/// and paired with the vectors; both stages count towards the size.
pub open spec fn is_staged<V, D, P, Q, S, I, M, B, R, E, U, X>(
    index: DenseRerankHNSW<I>,
    kind: MetricKind,
    graph: GraphTypeKind,
    encoder: FirstStageEncoder,
    values: Vec<V>,
    n: usize,
    dim: usize,
    m: usize,
    ef_construction: usize,
    total_bits: u32,
    make: M,
    build: B,
    reorder: R,
    encode: E,
    usage: U,
    pair: X,
) -> bool where
    M: FnOnce(MetricKind, Vec<V>, usize, usize) -> D,
    B: FnOnce(MetricKind, &D, HNSWBuildConfiguration) -> P,
    R: FnOnce(P, Reordering) -> Q,
    E: FnOnce(Q, FirstStageEncoder, Option<u32>) -> S,
    U: FnOnce(&S, &D) -> (usize, usize),
    X: FnOnce(S, D) -> I,
 {
    exists|
        config: HNSWBuildConfiguration,
        plain: D,
        built: P,
        reordering: Reordering,
        reordered: Q,
        width: Option<u32>,
        stage: S,
        bytes: (usize, usize),
    |
        {
            &&& config.num_neighbors == m
            &&& config.ef_construction == ef_construction
            &&& #[trigger] call_ensures(make, (kind, values, n, dim), plain)
            &&& #[trigger] call_ensures(build, (kind, &plain, config), built)
            &&& follows_type(graph, reordering)
            &&& #[trigger] call_ensures(reorder, (built, reordering), reordered)
            &&& width is Some <==> encoder is RabitqExt
            &&& width is Some ==> width->0 == total_bits
            &&& #[trigger] call_ensures(encode, (reordered, encoder, width), stage)
            &&& #[trigger] call_ensures(usage, (&stage, &plain), bytes)
            &&& call_ensures(pair, (stage, plain), index.spec_index())
            &&& index.spec_bytes() == bytes.0 + bytes.1
        }
}

proof fn lemma_is_staged<V, D, P, Q, S, I, M, B, R, E, U, X>(
    index: DenseRerankHNSW<I>,
    kind: MetricKind,
    graph: GraphTypeKind,
    encoder: FirstStageEncoder,
    values: Vec<V>,
    n: usize,
    dim: usize,
    m: usize,
    ef_construction: usize,
    total_bits: u32,
    make: M,
    build: B,
    reorder: R,
    encode: E,
    usage: U,
    pair: X,
) where
    M: FnOnce(MetricKind, Vec<V>, usize, usize) -> D,
    B: FnOnce(MetricKind, &D, HNSWBuildConfiguration) -> P,
    R: FnOnce(P, Reordering) -> Q,
    E: FnOnce(Q, FirstStageEncoder, Option<u32>) -> S,
    U: FnOnce(&S, &D) -> (usize, usize),
    X: FnOnce(S, D) -> I,

    requires
        staged(
            index,
            kind,
            graph,
            encoder,
            values,
            n,
            dim,
            HNSWBuildConfiguration { num_neighbors: m, ef_construction },
            total_bits,
            make,
            build,
            reorder,
            encode,
            usage,
            pair,
        ),
    ensures
        is_staged(
            index,
            kind,
            graph,
            encoder,
            values,
            n,
            dim,
            m,
            ef_construction,
            total_bits,
            make,
            build,
            reorder,
            encode,
            usage,
            pair,
        ),
{
    let config = HNSWBuildConfiguration { num_neighbors: m, ef_construction };
    let reordering = graph.reordering_spec();
    let width = crate::rerank_dense::code_width(encoder, total_bits);
    let (plain, built, reordered, stage, bytes) = choose|
        plain: D,
        built: P,
        reordered: Q,
        stage: S,
        bytes: (usize, usize),
    |
        #![trigger call_ensures(make, (kind, values, n, dim), plain), call_ensures(build, (kind, &plain, config), built), call_ensures(reorder, (built, reordering), reordered), call_ensures(encode, (reordered, encoder, width), stage), call_ensures(usage, (&stage, &plain), bytes)]
        {
            &&& call_ensures(make, (kind, values, n, dim), plain)
            &&& call_ensures(build, (kind, &plain, config), built)
            &&& call_ensures(reorder, (built, reordering), reordered)
            &&& call_ensures(encode, (reordered, encoder, width), stage)
            &&& call_ensures(usage, (&stage, &plain), bytes)
            &&& call_ensures(pair, (stage, plain), index.spec_index())
            &&& index.spec_bytes() == bytes.0 + bytes.1
        };
    assert(follows_type(graph, reordering));
}

proof fn lemma_same_build_checks(
    len: nat,
    dim: usize,
    m: usize,
    metric: Seq<char>,
    graph_type: Seq<char>,
    args: BuildArgs,
    a: Result<(MetricKind, GraphTypeKind, FirstStageEncoder), IndexError>,
    b: Result<(MetricKind, GraphTypeKind, FirstStageEncoder), IndexError>,
)
    requires
        checks_build(len, dim, m, metric, graph_type, args, a),
        checks_build(len, dim, m, metric, graph_type, args, b),
    ensures
        a is Ok <==> b is Ok,
        a is Ok ==> a == b,
        a is Err ==> same_error(a->Err_0, b->Err_0),
{
    let bits = crate::rerank_dense::width_error(
        args.encoder@,
        Some(args.rabitq_total_bits),
        args.rabitq_query_bits,
    );
    if dim > 0 && len % (dim as nat) == 0 && bits is None {
        let x = choose|x: Result<(MetricKind, GraphTypeKind), IndexError>|
            {
                &&& #[trigger] build_arguments(metric, graph_type, m, x)
                &&& match x {
                    Err(error) => a == Err::<(MetricKind, GraphTypeKind, FirstStageEncoder), IndexError>(error),
                    Ok((kind, graph)) => crate::rerank_dense::encoder_completes(kind, graph, args, a),
                }
            };
        let y = choose|y: Result<(MetricKind, GraphTypeKind), IndexError>|
            {
                &&& #[trigger] build_arguments(metric, graph_type, m, y)
                &&& match y {
                    Err(error) => b == Err::<(MetricKind, GraphTypeKind, FirstStageEncoder), IndexError>(error),
                    Ok((kind, graph)) => crate::rerank_dense::encoder_completes(kind, graph, args, b),
                }
            };
        lemma_same_arguments(metric, graph_type, m, x, y);
        if x is Ok {
            let p = match a {
                Ok((_, _, coder)) => Ok::<FirstStageEncoder, IndexError>(coder),
                Err(error) => Err(error),
            };
            let q = match b {
                Ok((_, _, coder)) => Ok::<FirstStageEncoder, IndexError>(coder),
                Err(error) => Err(error),
            };
            lemma_same_encoder(args.encoder@, args.pq_subspaces, p, q);
        }
    }
}

/// A two-stage index over an array is built where its arguments pass, as asked and in
/// turn, from all of the values, each narrowed.
pub proof fn law_staged_arrays<I, T, V, D, P, Q, S, N, M, B, R, E, U, X>(
    data: &[T],
    dim: usize,
    m: usize,
    ef_construction: usize,
    metric: &str,
    graph_type: &str,
    args: &BuildArgs,
    narrow: &N,
    make: M,
    build: B,
    reorder: R,
    encode: E,
    usage: U,
    pair: X,
    n: usize,
    checked: Result<(MetricKind, GraphTypeKind, FirstStageEncoder), IndexError>,
    built: Result<DenseRerankHNSW<I>, IndexError>,
) where
    T: Copy,
    N: Fn(T) -> V,
    M: FnOnce(MetricKind, Vec<V>, usize, usize) -> D,
    B: FnOnce(MetricKind, &D, HNSWBuildConfiguration) -> P,
    R: FnOnce(P, Reordering) -> Q,
    E: FnOnce(Q, FirstStageEncoder, Option<u32>) -> S,
    U: FnOnce(&S, &D) -> (usize, usize),
    X: FnOnce(S, D) -> I,

    requires
        dim > 0 && data@.len() % (dim as nat) == 0 ==> n * dim == data@.len(),
        call_ensures(
            check_build,
            (data@.len() as usize, dim, m, metric, graph_type, args),
            checked,
        ),
        call_ensures(
            DenseRerankHNSW::<I>::build_from_array::<T, V, D, P, Q, S, N, M, B, R, E, U, X>,
            (
                data,
                dim,
                m,
                ef_construction,
                metric,
                graph_type,
                args,
                narrow,
                make,
                build,
                reorder,
                encode,
                usage,
                pair,
            ),
            built,
        ),
    ensures
        checked matches Err(error) ==> built matches Err(e) && same_error(e, error),
        checked matches Ok((kind, graph, encoder)) ==> {
            &&& built is Ok
            &&& is_as_asked(built->Ok_0, kind, graph, encoder, args.rabitq_query_bits, dim)
            &&& exists|values: Vec<V>|
                one_by_one(*narrow, data@, values@) && #[trigger] is_staged(
                    built->Ok_0,
                    kind,
                    graph,
                    encoder,
                    values,
                    n,
                    dim,
                    m,
                    ef_construction,
                    args.rabitq_total_bits,
                    make,
                    build,
                    reorder,
                    encode,
                    usage,
                    pair,
                )
        },
{
    assert(data@.len() == data.len());
    lemma_staged(
        built,
        data@,
        dim,
        m,
        ef_construction,
        crate::text::in_lower_case(metric@),
        crate::text::in_lower_case(graph_type@),
        *args,
        *narrow,
        make,
        build,
        reorder,
        encode,
        usage,
        pair,
        n,
        checked,
    );
}

proof fn lemma_staged<I, T, V, D, P, Q, S, N, M, B, R, E, U, X>(
    built: Result<DenseRerankHNSW<I>, IndexError>,
    data: Seq<T>,
    dim: usize,
    m: usize,
    ef_construction: usize,
    metric: Seq<char>,
    graph_type: Seq<char>,
    args: BuildArgs,
    narrow: N,
    make: M,
    build: B,
    reorder: R,
    encode: E,
    usage: U,
    pair: X,
    n: usize,
    checked: Result<(MetricKind, GraphTypeKind, FirstStageEncoder), IndexError>,
) where
    N: Fn(T) -> V,
    M: FnOnce(MetricKind, Vec<V>, usize, usize) -> D,
    B: FnOnce(MetricKind, &D, HNSWBuildConfiguration) -> P,
    R: FnOnce(P, Reordering) -> Q,
    E: FnOnce(Q, FirstStageEncoder, Option<u32>) -> S,
    U: FnOnce(&S, &D) -> (usize, usize),
    X: FnOnce(S, D) -> I,

    requires
        dim > 0 && data.len() % (dim as nat) == 0 ==> n * dim == data.len(),
        checks_build(data.len(), dim, m, metric, graph_type, args, checked),
        DenseRerankHNSW::<I>::array_build(
            built,
            data,
            dim,
            m,
            ef_construction,
            metric,
            graph_type,
            args,
            narrow,
            make,
            build,
            reorder,
            encode,
            usage,
            pair,
        ),
    ensures
        checked matches Err(error) ==> built matches Err(e) && same_error(e, error),
        checked matches Ok((kind, graph, encoder)) ==> {
            &&& built is Ok
            &&& is_as_asked(built->Ok_0, kind, graph, encoder, args.rabitq_query_bits, dim)
            &&& exists|values: Vec<V>|
                one_by_one(narrow, data, values@) && #[trigger] is_staged(
                    built->Ok_0,
                    kind,
                    graph,
                    encoder,
                    values,
                    n,
                    dim,
                    m,
                    ef_construction,
                    args.rabitq_total_bits,
                    make,
                    build,
                    reorder,
                    encode,
                    usage,
                    pair,
                )
        },
{
    let config = HNSWBuildConfiguration { num_neighbors: m, ef_construction };
    let own = choose|own: Result<(MetricKind, GraphTypeKind, FirstStageEncoder), IndexError>|
        {
            &&& #[trigger] checks_build(data.len(), dim, m, metric, graph_type, args, own)
            &&& match own {
                Err(error) => built == Err::<DenseRerankHNSW<I>, IndexError>(error),
                Ok((kind, graph, encoder)) => {
                    &&& built matches Ok(index)
                    &&& index.wf()
                    &&& index.spec_metric() == kind
                    &&& index.spec_storage() == graph.storage_spec()
                    &&& index.spec_encoder() == encoder
                    &&& index.spec_query_bits() == crate::rerank_dense::query_width(
                        encoder,
                        args.rabitq_query_bits,
                    )
                    &&& index.spec_dim() == dim
                    &&& exists|values: Vec<V>| #[trigger]
                        crate::dense::converts(narrow, data, values@) && staged(
                            index,
                            kind,
                            graph,
                            encoder,
                            values,
                            (data.len() / (dim as nat)) as usize,
                            dim,
                            config,
                            args.rabitq_total_bits,
                            make,
                            build,
                            reorder,
                            encode,
                            usage,
                            pair,
                        )
                },
            }
        };
    lemma_same_build_checks(data.len(), dim, m, metric, graph_type, args, own, checked);
    if own is Ok {
        let kind = own->Ok_0.0;
        let graph = own->Ok_0.1;
        let encoder = own->Ok_0.2;
        vstd::arithmetic::div_mod::lemma_div_multiples_vanish(n as int, dim as int);
        vstd::arithmetic::mul::lemma_mul_is_commutative(n as int, dim as int);
        assert((data.len() / (dim as nat)) as usize == n);
        let index = built->Ok_0;
        let values = choose|values: Vec<V>| #[trigger]
            crate::dense::converts(narrow, data, values@) && staged(
                index,
                kind,
                graph,
                encoder,
                values,
                n,
                dim,
                config,
                args.rabitq_total_bits,
                make,
                build,
                reorder,
                encode,
                usage,
                pair,
            );
        lemma_is_staged(
            index,
            kind,
            graph,
            encoder,
            values,
            n,
            dim,
            m,
            ef_construction,
            args.rabitq_total_bits,
            make,
            build,
            reorder,
            encode,
            usage,
            pair,
        );
        assert(one_by_one(narrow, data, values@));
    }
}

/// A two-stage index is built from a file as it is over the array of its values; what
/// cannot be read fails it first.
pub proof fn law_staged_files<I, Err1, T, V, D, P, Q, S, L, N, M, B, R, E, U, X>(
    m: usize,
    ef_construction: usize,
    metric: &str,
    graph_type: &str,
    args: &BuildArgs,
    read: L,
    narrow: &N,
    make: M,
    build: B,
    reorder: R,
    encode: E,
    usage: U,
    pair: X,
    built: Result<DenseRerankHNSW<I>, BuildError<Err1>>,
) where
    T: Copy,
    L: FnOnce() -> Result<PlainDenseDataset<T>, Err1>,
    N: Fn(T) -> V,
    M: FnOnce(MetricKind, Vec<V>, usize, usize) -> D,
    B: FnOnce(MetricKind, &D, HNSWBuildConfiguration) -> P,
    R: FnOnce(P, Reordering) -> Q,
    E: FnOnce(Q, FirstStageEncoder, Option<u32>) -> S,
    U: FnOnce(&S, &D) -> (usize, usize),
    X: FnOnce(S, D) -> I,

    requires
        forall|dataset: PlainDenseDataset<T>| #[trigger]
            call_ensures(read, (), Ok(dataset)) ==> dataset.wf() && dataset.spec_len() <= usize::MAX
                && dataset.spec_dim() <= usize::MAX,
        call_ensures(
            DenseRerankHNSW::<I>::build_from_file::<Err1, T, V, D, P, Q, S, L, N, M, B, R, E, U, X>,
            (
                m,
                ef_construction,
                metric,
                graph_type,
                args,
                read,
                narrow,
                make,
                build,
                reorder,
                encode,
                usage,
                pair,
            ),
            built,
        ),
    ensures
        built matches Err(BuildError::Io(error)) ==> call_ensures(read, (), Err(error)),
        built matches Ok(index) ==> exists|
            dataset: PlainDenseDataset<T>,
            kind: MetricKind,
            graph: GraphTypeKind,
            encoder: FirstStageEncoder,
            values: Vec<V>,
        |
            {
                &&& #[trigger] call_ensures(read, (), Ok(dataset))
                &&& one_by_one(*narrow, dataset.spec_values(), values@)
                &&& is_as_asked(
                    index,
                    kind,
                    graph,
                    encoder,
                    args.rabitq_query_bits,
                    dataset.spec_dim() as usize,
                )
                &&& #[trigger] is_staged(
                    index,
                    kind,
                    graph,
                    encoder,
                    values,
                    dataset.spec_len() as usize,
                    dataset.spec_dim() as usize,
                    m,
                    ef_construction,
                    args.rabitq_total_bits,
                    make,
                    build,
                    reorder,
                    encode,
                    usage,
                    pair,
                )
                &&& forall|checked: Result<(MetricKind, GraphTypeKind, FirstStageEncoder), IndexError>|
                    #[trigger]
                    checks_build(
                        dataset.spec_values().len(),
                        dataset.spec_dim() as usize,
                        m,
                        crate::text::in_lower_case(metric@),
                        crate::text::in_lower_case(graph_type@),
                        *args,
                        checked,
                    ) ==> checked == Ok::<(MetricKind, GraphTypeKind, FirstStageEncoder), IndexError>(
                        (kind, graph, encoder),
                    )
            },
        built matches Err(BuildError::Invalid(error)) ==> exists|dataset: PlainDenseDataset<T>|
            {
                &&& #[trigger] call_ensures(read, (), Ok(dataset))
                &&& forall|checked: Result<(MetricKind, GraphTypeKind, FirstStageEncoder), IndexError>|
                    #[trigger]
                    checks_build(
                        dataset.spec_values().len(),
                        dataset.spec_dim() as usize,
                        m,
                        crate::text::in_lower_case(metric@),
                        crate::text::in_lower_case(graph_type@),
                        *args,
                        checked,
                    ) ==> checked is Err && same_error(checked->Err_0, error)
            },
{
    let lower_metric = crate::text::in_lower_case(metric@);
    let lower_type = crate::text::in_lower_case(graph_type@);
    let out = choose|out: Result<PlainDenseDataset<T>, Err1>|
        {
            &&& #[trigger] call_ensures(read, (), out)
            &&& match out {
                Err(error) => built == Err::<DenseRerankHNSW<I>, BuildError<Err1>>(BuildError::Io(error)),
                Ok(dataset) => exists|inner: Result<DenseRerankHNSW<I>, IndexError>|
                    {
                        &&& #[trigger] DenseRerankHNSW::<I>::array_build(
                            inner,
                            dataset.spec_values(),
                            dataset.spec_dim() as usize,
                            m,
                            ef_construction,
                            lower_metric,
                            lower_type,
                            *args,
                            *narrow,
                            make,
                            build,
                            reorder,
                            encode,
                            usage,
                            pair,
                        )
                        &&& built == (match inner {
                            Ok(index) => Ok::<DenseRerankHNSW<I>, BuildError<Err1>>(index),
                            Err(error) => Err(BuildError::Invalid(error)),
                        })
                    },
            }
        };
    if out is Ok {
        let dataset = out->Ok_0;
        let data = dataset.spec_values();
        let dim = dataset.spec_dim() as usize;
        let n = dataset.spec_len() as usize;
        assert(call_ensures(read, (), Ok(dataset)));
        let inner = choose|inner: Result<DenseRerankHNSW<I>, IndexError>|
            {
                &&& #[trigger] DenseRerankHNSW::<I>::array_build(
                    inner,
                    data,
                    dim,
                    m,
                    ef_construction,
                    lower_metric,
                    lower_type,
                    *args,
                    *narrow,
                    make,
                    build,
                    reorder,
                    encode,
                    usage,
                    pair,
                )
                &&& built == (match inner {
                    Ok(index) => Ok::<DenseRerankHNSW<I>, BuildError<Err1>>(index),
                    Err(error) => Err(BuildError::Invalid(error)),
                })
            };
        let own = choose|own: Result<(MetricKind, GraphTypeKind, FirstStageEncoder), IndexError>|
            {
                &&& #[trigger] checks_build(data.len(), dim, m, lower_metric, lower_type, *args, own)
                &&& (own is Err <==> inner is Err)
            };
        lemma_staged(
            inner,
            data,
            dim,
            m,
            ef_construction,
            lower_metric,
            lower_type,
            *args,
            *narrow,
            make,
            build,
            reorder,
            encode,
            usage,
            pair,
            n,
            own,
        );
        assert forall|checked: Result<(MetricKind, GraphTypeKind, FirstStageEncoder), IndexError>| #[trigger]
            checks_build(data.len(), dim, m, lower_metric, lower_type, *args, checked) implies {
            &&& own is Ok ==> checked == own
            &&& own is Err ==> checked is Err && same_error(checked->Err_0, inner->Err_0)
        } by {
            lemma_same_build_checks(
                data.len(),
                dim,
                m,
                lower_metric,
                lower_type,
                *args,
                checked,
                own,
            );
            lemma_staged(
                inner,
                data,
                dim,
                m,
                ef_construction,
                lower_metric,
                lower_type,
                *args,
                *narrow,
                make,
                build,
                reorder,
                encode,
                usage,
                pair,
                n,
                checked,
            );
        }
        if own is Ok {
            let kind = own->Ok_0.0;
            let graph = own->Ok_0.1;
            let encoder = own->Ok_0.2;
            let values = choose|values: Vec<V>|
                one_by_one(*narrow, data, values@) && #[trigger] is_staged(
                    inner->Ok_0,
                    kind,
                    graph,
                    encoder,
                    values,
                    n,
                    dim,
                    m,
                    ef_construction,
                    args.rabitq_total_bits,
                    make,
                    build,
                    reorder,
                    encode,
                    usage,
                    pair,
                );
            assert(built->Ok_0 == inner->Ok_0);
            assert(is_staged(
                built->Ok_0,
                kind,
                graph,
                encoder,
                values,
                dataset.spec_len() as usize,
                dataset.spec_dim() as usize,
                m,
                ef_construction,
                args.rabitq_total_bits,
                make,
                build,
                reorder,
                encode,
                usage,
                pair,
            ));
            assert(is_as_asked(
                built->Ok_0,
                kind,
                graph,
                encoder,
                args.rabitq_query_bits,
                dataset.spec_dim() as usize,
            ));
        }
    }
}

/// A two-stage index is loaded where its arguments pass, with what is read for the
/// metric, the storage of the graph type and the encoder; both stages count towards the
/// size.
pub proof fn law_staged_loads<I, Err1, R>(
    metric: &str,
    graph_type: &str,
    args: &LoadArgs,
    read: R,
    checked: Result<(MetricKind, GraphTypeKind, FirstStageEncoder), IndexError>,
    loaded: Result<DenseRerankHNSW<I>, BuildError<Err1>>,
) where R: FnOnce(MetricKind, NeighborStorage, FirstStageEncoder) -> Result<LoadedStages<I>, Err1>
    requires
        call_ensures(check_load, (metric, graph_type, args), checked),
        call_ensures(DenseRerankHNSW::<I>::load::<Err1, R>, (metric, graph_type, args, read), loaded),
    ensures
        checked matches Err(error) ==> loaded matches Err(BuildError::Invalid(e)) && same_error(e, error),
        checked matches Ok((kind, graph, encoder)) ==> exists|
            storage: NeighborStorage,
            out: Result<LoadedStages<I>, Err1>,
        |
            {
                &&& storage is StreamVByte <==> graph is Compressed
                &&& #[trigger] call_ensures(read, (kind, storage, encoder), out)
                &&& loaded is Ok <==> out is Ok
                &&& loaded matches Err(error) ==> error == BuildError::<Err1>::Io(out->Err_0)
                &&& loaded matches Ok(index) ==> {
                    &&& is_as_asked(index, kind, graph, encoder, args.rabitq_query_bits, out->Ok_0.dim)
                    &&& index.spec_index() == out->Ok_0.index
                    &&& index.spec_bytes() == out->Ok_0.first_stage_bytes + out->Ok_0.rerank_bytes
                }
            },
{
    let lower_metric = crate::text::in_lower_case(metric@);
    let lower_type = crate::text::in_lower_case(graph_type@);
    let own = choose|own: Result<(MetricKind, GraphTypeKind, FirstStageEncoder), IndexError>|
        {
            &&& #[trigger] checks_load(lower_metric, lower_type, *args, own)
            &&& match own {
                Err(error) => loaded == Err::<DenseRerankHNSW<I>, BuildError<Err1>>(BuildError::Invalid(error)),
                Ok((kind, graph, encoder)) => exists|out: Result<LoadedStages<I>, Err1>|
                    {
                        &&& #[trigger] call_ensures(read, (kind, graph.storage_spec(), encoder), out)
                        &&& match out {
                            Err(error) => loaded == Err::<DenseRerankHNSW<I>, BuildError<Err1>>(
                                BuildError::Io(error),
                            ),
                            Ok(stages) => {
                                &&& loaded matches Ok(index)
                                &&& index.wf()
                                &&& index.spec_metric() == kind
                                &&& index.spec_storage() == graph.storage_spec()
                                &&& index.spec_encoder() == encoder
                                &&& index.spec_query_bits() == crate::rerank_dense::query_width(
                                    encoder,
                                    args.rabitq_query_bits,
                                )
                                &&& index.spec_index() == stages.index
                                &&& index.spec_dim() == stages.dim
                                &&& index.spec_bytes() == stages.first_stage_bytes + stages.rerank_bytes
                            },
                        }
                    },
            }
        };
    let p = match own {
        Ok((_, _, coder)) => Ok::<FirstStageEncoder, IndexError>(coder),
        Err(error) => Err(error),
    };
    let q = match checked {
        Ok((_, _, coder)) => Ok::<FirstStageEncoder, IndexError>(coder),
        Err(error) => Err(error),
    };
    if crate::rerank_dense::names_encoder(args.encoder@, args.pq_subspaces, p)
        && crate::rerank_dense::names_encoder(args.encoder@, args.pq_subspaces, q) {
        lemma_same_encoder(args.encoder@, args.pq_subspaces, p, q);
    }
}

/// What a two-stage index tells of itself. Its queries are quantized, to 1 to 8 bits,
/// exactly where its encoder does so.
pub proof fn law_staged_parts<I, E, W: FnOnce(&I) -> Result<(), E>>(
    index: &DenseRerankHNSW<I>,
    metric: MetricKind,
    storage: NeighborStorage,
    encoder: FirstStageEncoder,
    stages: &I,
    bits: Option<u32>,
    dim: usize,
    bytes: usize,
    write: W,
    saved: Result<(), E>,
)
    requires
        index.wf(),
        call_ensures(DenseRerankHNSW::<I>::metric, (index,), metric),
        call_ensures(DenseRerankHNSW::<I>::storage, (index,), storage),
        call_ensures(DenseRerankHNSW::<I>::encoder, (index,), encoder),
        call_ensures(DenseRerankHNSW::<I>::index, (index,), stages),
        call_ensures(DenseRerankHNSW::<I>::query_bits, (index,), bits),
        call_ensures(DenseRerankHNSW::<I>::dim, (index,), dim),
        call_ensures(DenseRerankHNSW::<I>::space_usage_bytes, (index,), bytes),
        call_ensures(DenseRerankHNSW::<I>::save::<E, W>, (index, write), saved),
    ensures
        metric == index.spec_metric(),
        storage == index.spec_storage(),
        encoder == index.spec_encoder(),
        *stages == index.spec_index(),
        bits == index.spec_query_bits(),
        dim == index.spec_dim(),
        bytes == index.spec_bytes(),
        call_ensures(write, (&index.spec_index(),), saved),
        bits is Some <==> encoder is Rabitq,
        bits is Some ==> bits->0 >= 1 && bits->0 <= 8,
{
}

/// Indexes that agree on all but the query width agree on everything else.
pub proof fn law_all_but_the_width<I>(a: DenseRerankHNSW<I>, b: DenseRerankHNSW<I>)
    ensures
        a.same_but_width(b) <==> {
            &&& a.spec_metric() == b.spec_metric()
            &&& a.spec_storage() == b.spec_storage()
            &&& a.spec_encoder() == b.spec_encoder()
            &&& a.spec_index() == b.spec_index()
            &&& a.spec_dim() == b.spec_dim()
            &&& a.spec_bytes() == b.spec_bytes()
        },
{
}

/// A plain multivector index pairs what is loaded for its stages, in their order, or is
/// read back as it was written.
pub proof fn law_multivector_indexes<I, E, H, D, L, M, X, R, W>(
    load_sparse: L,
    load_multivec: M,
    pair: X,
    built: Result<SparseMultivecRerankIndex<I>, E>,
    read: R,
    loaded: Result<SparseMultivecRerankIndex<I>, E>,
    index: &SparseMultivecRerankIndex<I>,
    stages: &I,
    write: W,
    saved: Result<(), E>,
) where
    L: FnOnce() -> Result<H, E>,
    M: FnOnce() -> Result<D, E>,
    X: FnOnce(H, D) -> I,
    R: FnOnce() -> Result<I, E>,
    W: FnOnce(&I) -> Result<(), E>,

    requires
        call_ensures(
            SparseMultivecRerankIndex::<I>::build_from_file::<E, H, D, L, M, X>,
            (load_sparse, load_multivec, pair),
            built,
        ),
        call_ensures(SparseMultivecRerankIndex::<I>::load::<E, R>, (read,), loaded),
        call_ensures(SparseMultivecRerankIndex::<I>::index, (index,), stages),
        call_ensures(SparseMultivecRerankIndex::<I>::save::<E, W>, (index, write), saved),
    ensures
        match built {
            Err(error) => call_ensures(load_sparse, (), Err(error)) || call_ensures(
                load_multivec,
                (),
                Err(error),
            ),
            Ok(index) => exists|first: H, second: D|
                {
                    &&& #[trigger] call_ensures(load_sparse, (), Ok(first))
                    &&& #[trigger] call_ensures(load_multivec, (), Ok(second))
                    &&& call_ensures(pair, (first, second), index.spec_index())
                },
        },
        match loaded {
            Err(error) => call_ensures(read, (), Err(error)),
            Ok(index) => call_ensures(read, (), Ok(index.spec_index())),
        },
        *stages == index.spec_index(),
        call_ensures(write, (&index.spec_index(),), saved),
{
}

/// A two-level multivector index does the same, for 8, 16, 32 or 64 subspaces only, and
/// keeps their number.
pub proof fn law_two_level_indexes<I, E, H, D, L, M, X, R, W>(
    pq_subspaces: usize,
    load_sparse: L,
    load_multivec: M,
    pair: X,
    built: Result<SparseMultivecTwoLevelsPQRerankIndex<I>, BuildError<E>>,
    read: R,
    loaded: Result<SparseMultivecTwoLevelsPQRerankIndex<I>, BuildError<E>>,
    index: &SparseMultivecTwoLevelsPQRerankIndex<I>,
    stages: &I,
    subspaces: usize,
    write: W,
    saved: Result<(), E>,
) where
    L: FnOnce() -> Result<H, E>,
    M: FnOnce(usize) -> Result<D, BuildError<E>>,
    X: FnOnce(H, D) -> I,
    R: FnOnce() -> Result<I, E>,
    W: FnOnce(&I) -> Result<(), E>,

    requires
        call_ensures(
            SparseMultivecTwoLevelsPQRerankIndex::<I>::build_from_file::<E, H, D, L, M, X>,
            (pq_subspaces, load_sparse, load_multivec, pair),
            built,
        ),
        call_ensures(SparseMultivecTwoLevelsPQRerankIndex::<I>::load::<E, R>, (pq_subspaces, read), loaded),
        call_ensures(SparseMultivecTwoLevelsPQRerankIndex::<I>::index, (index,), stages),
        call_ensures(SparseMultivecTwoLevelsPQRerankIndex::<I>::pq_subspaces, (index,), subspaces),
        call_ensures(SparseMultivecTwoLevelsPQRerankIndex::<I>::save::<E, W>, (index, write), saved),
    ensures
        built matches Ok(b) ==> {
            &&& pq_subspaces == 8 || pq_subspaces == 16 || pq_subspaces == 32 || pq_subspaces == 64
            &&& b.spec_subspaces() == pq_subspaces
            &&& exists|first: H, second: D|
                {
                    &&& #[trigger] call_ensures(load_sparse, (), Ok(first))
                    &&& #[trigger] call_ensures(load_multivec, (pq_subspaces,), Ok(second))
                    &&& call_ensures(pair, (first, second), b.spec_index())
                }
        },
        built matches Err(error) ==> {
            ||| error is Io && call_ensures(load_sparse, (), Err(error->Io_0))
            ||| (pq_subspaces != 8 && pq_subspaces != 16 && pq_subspaces != 32 && pq_subspaces != 64) && error
                == BuildError::<E>::Invalid(IndexError::UnsupportedSubspaces { m: pq_subspaces })
            ||| (pq_subspaces == 8 || pq_subspaces == 16 || pq_subspaces == 32 || pq_subspaces == 64)
                && call_ensures(load_multivec, (pq_subspaces,), Err(error))
        },
        loaded matches Ok(l) ==> {
            &&& pq_subspaces == 8 || pq_subspaces == 16 || pq_subspaces == 32 || pq_subspaces == 64
            &&& l.spec_subspaces() == pq_subspaces
            &&& call_ensures(read, (), Ok(l.spec_index()))
        },
        loaded matches Err(error) ==> {
            ||| error is Io && call_ensures(read, (), Err(error->Io_0))
            ||| (pq_subspaces != 8 && pq_subspaces != 16 && pq_subspaces != 32 && pq_subspaces != 64) && error
                == BuildError::<E>::Invalid(IndexError::UnsupportedSubspaces { m: pq_subspaces })
        },
        *stages == index.spec_index(),
        subspaces == index.spec_subspaces(),
        call_ensures(write, (&index.spec_index(),), saved),
{
}

/// The query width is set where it lies in 1 to 8 bits and the encoder quantizes queries,
/// and only there; nothing else changes.
pub proof fn law_query_width_is_set<I>(
    index: &mut DenseRerankHNSW<I>,
    bits: u32,
    changed: Result<(), IndexError>,
)
    requires
        call_ensures(DenseRerankHNSW::<I>::set_query_bits, (index, bits), changed),
    ensures
        changed is Ok <==> bits >= 1 && bits <= 8 && old(index).spec_encoder() is Rabitq,
        bits == 0 || bits > 8 ==> changed == Err::<(), IndexError>(IndexError::QueryBits { bits }),
        bits >= 1 && bits <= 8 && !(old(index).spec_encoder() is Rabitq) ==> changed == Err::<(), IndexError>(
            IndexError::QueriesNotQuantized,
        ),
        changed is Ok ==> final(index).spec_query_bits() == Some(bits),
        changed is Err ==> final(index).spec_query_bits() == old(index).spec_query_bits(),
        final(index).spec_metric() == old(index).spec_metric(),
        final(index).spec_storage() == old(index).spec_storage(),
        final(index).spec_encoder() == old(index).spec_encoder(),
        final(index).spec_index() == old(index).spec_index(),
        final(index).spec_dim() == old(index).spec_dim(),
        final(index).spec_bytes() == old(index).spec_bytes(),
{
}

/// Expanded lists are built over the graph with the factor given; nothing else changes.
pub proof fn law_expanded_lists_are_built<H, G, B: FnOnce(&H, usize) -> G>(
    index: &mut DensePlainHNSW<H, G>,
    gamma: usize,
    build: B,
)
    requires
        call_ensures(DensePlainHNSW::<H, G>::build_acorn_gamma::<B>, (index, gamma, build), ()),
    ensures
        final(index).spec_gamma() matches Some(lists) && call_ensures(
            build,
            (&old(index).spec_index(), gamma),
            lists,
        ),
        final(index).spec_metric() == old(index).spec_metric(),
        final(index).spec_storage() == old(index).spec_storage(),
        final(index).spec_index() == old(index).spec_index(),
        final(index).spec_dim() == old(index).spec_dim(),
{
}

} // verus!
