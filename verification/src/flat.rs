//! Exhaustive search over dense and sparse datasets.

use crate::dense::convert_values;
use crate::error::{BuildError, IndexError};
use crate::metric::{parse_metric, MetricKind};
use crate::query::{search_dense, search_dense_batch};
use crate::ranking::ScoredVector;
use crate::sparse::{
    build_sparse_dataset_from_parts, convert_components_to_u16, dimension_of, offsets_to_positions,
    PlainSparseDataset,
};
use crate::sparse_query::{search_sparse, search_sparse_batch};
use vstd::prelude::*;

verus! {

/// Exhaustive search over a dense dataset `D`.
pub struct DenseFlatIndex<D> {
    metric: MetricKind,
    dataset: D,
    dim: usize,
}

impl<D> DenseFlatIndex<D> {
    pub closed spec fn spec_metric(self) -> MetricKind {
        self.metric
    }

    pub closed spec fn spec_dataset(self) -> D {
        self.dataset
    }

    pub closed spec fn spec_dim(self) -> nat {
        self.dim as nat
    }

    /// Whether the index holds what was read, or reports why nothing was.
    pub open spec fn comes_from<E>(
        outcome: Result<DenseFlatIndex<D>, BuildError<E>>,
        metric: MetricKind,
        read: Result<(D, usize), E>,
    ) -> bool {
        match read {
            Ok((dataset, dim)) => outcome matches Ok(index) && index.spec_metric() == metric
                && index.spec_dataset() == dataset && index.spec_dim() == dim,
            Err(error) => outcome == Err::<DenseFlatIndex<D>, BuildError<E>>(BuildError::Io(error)),
        }
    }

    pub fn metric(&self) -> (metric: MetricKind)
        ensures
            metric == self.spec_metric(),
    {
        self.metric
    }

    pub fn dataset(&self) -> (dataset: &D)
        ensures
            *dataset == self.spec_dataset(),
    {
        &self.dataset
    }

    pub fn dim(&self) -> (dim: usize)
        ensures
            dim == self.spec_dim(),
    {
        self.dim
    }

    /// Writes the dataset with `write`.
    pub fn save<E, W: FnOnce(&D) -> Result<(), E>>(&self, write: W) -> (saved: Result<(), E>)
        requires
            call_requires(write, (&self.spec_dataset(),)),
        ensures
            call_ensures(write, (&self.spec_dataset(),), saved),
    {
        write(&self.dataset)
    }

    /// An index over the dataset that `read` reads for the metric.
    pub fn build_from_file<E, R>(metric: &str, read: R) -> (built: Result<
        DenseFlatIndex<D>,
        BuildError<E>,
    >) where R: FnOnce(MetricKind) -> Result<(D, usize), E>
        requires
            forall|kind: MetricKind| #[trigger] call_requires(read, (kind,)),
        ensures
            match crate::metric::metric_named_spec(crate::text::in_lower_case(metric@)) {
                Some(kind) => exists|out: Result<(D, usize), E>| #[trigger]
                    call_ensures(read, (kind,), out) && Self::comes_from(built, kind, out),
                None => built == Err::<DenseFlatIndex<D>, BuildError<E>>(
                    BuildError::Invalid(IndexError::InvalidMetric),
                ),
            },
    {
        match parse_metric(metric) {
            Ok(kind) => match read(kind) {
                Ok((dataset, dim)) => Ok(DenseFlatIndex { metric: kind, dataset, dim }),
                Err(error) => Err(BuildError::Io(error)),
            },
            Err(error) => Err(BuildError::Invalid(error)),
        }
    }

    /// The index that `read` reads back for the metric it was built with.
    pub fn load<E, R>(metric: &str, read: R) -> (loaded: Result<DenseFlatIndex<D>, BuildError<E>>) where
        R: FnOnce(MetricKind) -> Result<(D, usize), E>,

        requires
            forall|kind: MetricKind| #[trigger] call_requires(read, (kind,)),
        ensures
            match crate::metric::metric_named_spec(crate::text::in_lower_case(metric@)) {
                Some(kind) => exists|out: Result<(D, usize), E>| #[trigger]
                    call_ensures(read, (kind,), out) && Self::comes_from(loaded, kind, out),
                None => loaded == Err::<DenseFlatIndex<D>, BuildError<E>>(
                    BuildError::Invalid(IndexError::InvalidMetric),
                ),
            },
    {
        Self::build_from_file(metric, read)
    }

    /// An index over vectors of `dim` values each, given one after the other. Every
    /// value is converted by `narrow`, and `make` stores the vectors.
    pub fn build_from_array<T, V, N, M>(data: &[T], dim: usize, metric: &str, narrow: &N, make: M) -> (built:
        Result<DenseFlatIndex<D>, IndexError>) where
        T: Copy,
        N: Fn(T) -> V,
        M: FnOnce(MetricKind, Vec<V>, usize, usize) -> D,

        requires
            dim > 0,
            data@.len() % (dim as nat) == 0,
            crate::dense::can_convert(*narrow, data@),
            forall|kind: MetricKind, values: Vec<V>|
                crate::dense::converts(*narrow, data@, values@) ==> #[trigger] call_requires(
                    make,
                    (kind, values, (data@.len() / (dim as nat)) as usize, dim),
                ),
        ensures
            match crate::metric::metric_named_spec(crate::text::in_lower_case(metric@)) {
                Some(kind) => exists|values: Vec<V>, dataset: D|
                    {
                        &&& crate::dense::converts(*narrow, data@, values@)
                        &&& #[trigger] call_ensures(
                            make,
                            (kind, values, (data@.len() / (dim as nat)) as usize, dim),
                            dataset,
                        )
                        &&& built matches Ok(index) && index.spec_metric() == kind
                            && index.spec_dataset() == dataset && index.spec_dim() == dim
                    },
                None => built == Err::<DenseFlatIndex<D>, IndexError>(IndexError::InvalidMetric),
            },
    {
        let values: Vec<V> = convert_values(data, narrow);
        let n: usize = data.len() / dim;
        proof {
            vstd::arithmetic::div_mod::lemma_fundamental_div_mod(data.len() as int, dim as int);
            vstd::arithmetic::mul::lemma_mul_is_commutative(dim as int, n as int);
        }
        match parse_metric(metric) {
            Ok(kind) => {
                let ghost given = values;
                assert(call_requires(make, (kind, values, n, dim)));
                let dataset: D = make(kind, values, n, dim);
                assert(call_ensures(make, (kind, given, n, dim), dataset));
                Ok(DenseFlatIndex { metric: kind, dataset, dim })
            },
            Err(error) => Err(error),
        }
    }

    /// The `k` nearest neighbors of one query, padded to `k`.
    pub fn search<T, F>(&self, query: &[T], k: usize, infinity: T, search: &F) -> (found: Result<
        (Vec<T>, Vec<i64>),
        IndexError,
    >) where T: Copy, F: Fn(&DenseFlatIndex<D>, &[T], usize, &()) -> Vec<ScoredVector<T>>
        requires
            crate::query::accepts(*search, self, self.spec_dim(), k, &()),
        ensures
            query@.len() != self.spec_dim() <==> found is Err,
            match found {
                Ok(packed) => exists|reply: Vec<ScoredVector<T>>| #[trigger]
                    crate::query::answers(*search, self, query@, k, &(), reply)
                        && crate::query::packs_one(reply@, k as nat, infinity, packed),
                Err(error) => error == (IndexError::QueryDimension {
                    got: query.len(),
                    dim: self.spec_dim() as usize,
                }),
            },
    {
        search_dense(self, self.dim, query, k, &(), infinity, search)
    }

    /// The `k` nearest neighbors of every query of a batch, each padded to `k`.
    pub fn batch_search<T, F>(&self, queries: &[T], k: usize, infinity: T, search: &F) -> (found: Result<
        (Vec<T>, Vec<i64>),
        IndexError,
    >) where T: Copy, F: Fn(&DenseFlatIndex<D>, &[T], usize, &()) -> Vec<ScoredVector<T>>
        requires
            self.spec_dim() > 0,
            crate::query::accepts(*search, self, self.spec_dim(), k, &()),
        ensures
            queries@.len() % self.spec_dim() != 0 <==> found is Err,
            match found {
                Ok(packed) => exists|replies: Seq<Vec<ScoredVector<T>>>| #[trigger]
                    crate::query::answers_batch(
                        *search,
                        self,
                        queries@,
                        self.spec_dim(),
                        k,
                        &(),
                        replies,
                    ) && crate::query::packs(replies, k as nat, infinity, packed),
                Err(error) => error == (IndexError::QueriesLength {
                    len: queries.len(),
                    dim: self.spec_dim() as usize,
                }),
            },
    {
        search_dense_batch(self, self.dim, queries, k, &(), infinity, search)
    }
}

/// Exhaustive dot-product search over a sparse dataset `D`.
pub struct SparseFlatIndex<D> {
    dataset: D,
}

impl<D> SparseFlatIndex<D> {
    pub closed spec fn spec_dataset(self) -> D {
        self.dataset
    }

    pub fn dataset(&self) -> (dataset: &D)
        ensures
            *dataset == self.spec_dataset(),
    {
        &self.dataset
    }

    /// Writes the dataset with `write`.
    pub fn save<E, W: FnOnce(&D) -> Result<(), E>>(&self, write: W) -> (saved: Result<(), E>)
        requires
            call_requires(write, (&self.spec_dataset(),)),
        ensures
            call_ensures(write, (&self.spec_dataset(),), saved),
    {
        write(&self.dataset)
    }

    /// An index over the dataset that `read` reads.
    pub fn build_from_file<E, R: FnOnce() -> Result<D, E>>(read: R) -> (built: Result<
        SparseFlatIndex<D>,
        E,
    >)
        requires
            call_requires(read, ()),
        ensures
            exists|out: Result<D, E>| #[trigger]
                call_ensures(read, (), out) && match out {
                    Ok(dataset) => built matches Ok(index) && index.spec_dataset() == dataset,
                    Err(error) => built == Err::<SparseFlatIndex<D>, E>(error),
                },
    {
        match read() {
            Ok(dataset) => Ok(SparseFlatIndex { dataset }),
            Err(error) => Err(error),
        }
    }

    /// The index that `read` reads back.
    pub fn load<E, R: FnOnce() -> Result<D, E>>(read: R) -> (loaded: Result<SparseFlatIndex<D>, E>)
        requires
            call_requires(read, ()),
        ensures
            exists|out: Result<D, E>| #[trigger]
                call_ensures(read, (), out) && match out {
                    Ok(dataset) => loaded matches Ok(index) && index.spec_dataset() == dataset,
                    Err(error) => loaded == Err::<SparseFlatIndex<D>, E>(error),
                },
    {
        Self::build_from_file(read)
    }

    /// The `k` nearest neighbors of one query, padded to `k`.
    pub fn search<T, F>(
        &self,
        query_components: &[i32],
        query_values: &[T],
        k: usize,
        infinity: T,
        search: &F,
    ) -> (found: Result<(Vec<T>, Vec<i64>), IndexError>) where
        T: Copy,
        F: Fn(&SparseFlatIndex<D>, &[u16], &[T], usize, &()) -> Vec<ScoredVector<T>>,

        requires
            crate::sparse_query::all_fit(query_components@) ==> query_components@.len()
                == query_values@.len(),
            crate::sparse_query::accepts_sparse(*search, self, k, &()),
        ensures
            !crate::sparse_query::all_fit(query_components@) <==> found is Err,
            match found {
                Ok(packed) => exists|reply: Vec<ScoredVector<T>>| #[trigger]
                    crate::sparse_query::answers_sparse(
                        *search,
                        self,
                        crate::sparse_query::narrowed(query_components@),
                        query_values@,
                        k,
                        &(),
                        reply,
                    ) && crate::query::packs_one(reply@, k as nat, infinity, packed),
                Err(error) => error == IndexError::ComponentOutOfRange,
            },
    {
        search_sparse(self, query_components, query_values, k, &(), infinity, search)
    }

    /// The `k` nearest neighbors of every query of a batch, each padded to `k`.
    pub fn batch_search<T, F>(
        &self,
        query_components: &[i32],
        query_values: &[T],
        offsets: &[i64],
        k: usize,
        infinity: T,
        search: &F,
    ) -> (found: Result<(Vec<T>, Vec<i64>), IndexError>) where
        T: Copy,
        F: Fn(&SparseFlatIndex<D>, &[u16], &[T], usize, &()) -> Vec<ScoredVector<T>>,

        requires
            crate::sparse_query::all_fit(query_components@) ==> crate::sparse_query::delimit_all(
                offsets@,
                query_components@.len(),
            ) && crate::sparse_query::delimit_all(offsets@, query_values@.len()),
            crate::sparse_query::accepts_sparse(*search, self, k, &()),
        ensures
            !crate::sparse_query::all_fit(query_components@) <==> found is Err,
            match found {
                Ok(packed) => exists|replies: Seq<Vec<ScoredVector<T>>>| #[trigger]
                    crate::sparse_query::answers_sparse_batch(
                        *search,
                        self,
                        crate::sparse_query::narrowed(query_components@),
                        query_values@,
                        offsets@,
                        k,
                        &(),
                        replies,
                    ) && crate::query::packs(replies, k as nat, infinity, packed),
                Err(error) => error == IndexError::ComponentOutOfRange,
            },
    {
        search_sparse_batch(self, query_components, query_values, offsets, k, &(), infinity, search)
    }
}

impl<V: Copy> SparseFlatIndex<PlainSparseDataset<V>> {
    /// An index over rows given by their components, values and offsets. Every value
    /// is converted by `narrow`.
    pub fn build_from_arrays<T: Copy, N: Fn(T) -> V>(
        components: &[i32],
        values: &[T],
        offsets: &[i64],
        narrow: &N,
    ) -> (built: Result<SparseFlatIndex<PlainSparseDataset<V>>, IndexError>)
        requires
            crate::sparse_query::all_fit(components@) && crate::sparse::are_offsets(
                offsets@.map_values(|o: i64| crate::sparse::position_of(o)),
                values@.len(),
            ) ==> values@.len() <= components@.len(),
            crate::sparse_query::all_fit(components@) ==> crate::dense::can_convert(*narrow, values@),
        ensures
            match built {
                Ok(index) => {
                    let dataset = index.spec_dataset();
                    let positions = offsets@.map_values(|o: i64| crate::sparse::position_of(o));
                    let all = crate::sparse_query::narrowed(components@);
                    &&& crate::sparse_query::all_fit(components@)
                    &&& crate::sparse::are_offsets(positions, values@.len())
                    &&& dataset.wf()
                    &&& dataset.spec_offsets() == positions
                    &&& dataset.spec_components() == all.take(values@.len() as int)
                    &&& crate::dense::converts(*narrow, values@, dataset.spec_values())
                    &&& crate::sparse::is_dimension_of(all, dataset.spec_dim() as int)
                },
                Err(error) => if !crate::sparse_query::all_fit(components@) {
                    error == IndexError::ComponentOutOfRange
                } else {
                    crate::sparse::offsets_error(
                        offsets@.map_values(|o: i64| crate::sparse::position_of(o)),
                        values@.len(),
                    ) == Some(error)
                },
            },
    {
        let narrow_components: Vec<u16> = match convert_components_to_u16(components) {
            Ok(converted) => converted,
            Err(error) => {
                return Err(error);
            },
        };
        let narrow_values: Vec<V> = convert_values(values, narrow);
        let positions: Vec<usize> = offsets_to_positions(offsets);
        let dim: usize = dimension_of(narrow_components.as_slice());
        match build_sparse_dataset_from_parts(
            narrow_components.as_slice(),
            narrow_values.as_slice(),
            positions.as_slice(),
            dim,
        ) {
            Ok(dataset) => Ok(SparseFlatIndex { dataset }),
            Err(error) => Err(error),
        }
    }
}

/// A dense index that is read back under its own metric is the index that was written.
pub proof fn law_reloaded_dense_index<D, E>(
    saved: DenseFlatIndex<D>,
    loaded: Result<DenseFlatIndex<D>, BuildError<E>>,
    dim: usize,
)
    requires
        dim == saved.spec_dim(),
        DenseFlatIndex::comes_from(loaded, saved.spec_metric(), Ok((saved.spec_dataset(), dim))),
    ensures
        loaded == Ok::<DenseFlatIndex<D>, BuildError<E>>(saved),
{
}

/// A sparse index is its dataset: read back, it is the index that was written.
pub proof fn law_reloaded_sparse_index<D>(saved: SparseFlatIndex<D>, loaded: SparseFlatIndex<D>)
    requires
        loaded.spec_dataset() == saved.spec_dataset(),
    ensures
        loaded == saved,
{
}

} // verus!
