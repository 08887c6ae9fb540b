//! Graph search over dense vectors.

use crate::dense::convert_values;
use crate::error::{BuildError, IndexError};
use crate::graph_type::{parse_build_graph_type, parse_graph_type, GraphTypeKind, NeighborStorage};
use crate::metric::{parse_metric, MetricKind};
use crate::query::{
    configured, search_dense, search_dense_batch, HNSWBuildConfiguration, HNSWSearchConfiguration,
};
use crate::ranking::ScoredVector;
use crate::results::pack_results;
use vstd::prelude::*;

verus! {

/// What happens to a graph after it was built.
#[derive(Clone, Copy, Debug, PartialEq, Eq, Structural)]
pub enum Reordering {
    /// It stays as it is.
    Keep,
    /// Its nodes are reordered and its neighbor lists stored anew.
    Permute(NeighborStorage),
}

impl GraphTypeKind {
    pub open spec fn reordering_spec(self) -> Reordering {
        match self {
            GraphTypeKind::Standard => Reordering::Keep,
            _ => Reordering::Permute(self.storage_spec()),
        }
    }

    /// What happens to a graph of this type after it was built.
    pub fn reordering(self) -> (reordering: Reordering)
        ensures
            reordering == self.reordering_spec(),
    {
        match self {
            GraphTypeKind::Standard => Reordering::Keep,
            _ => Reordering::Permute(self.storage()),
        }
    }
}

/// Whether `outcome` is what the arguments of a build name, or the error of the
/// first argument that is wrong: the graph type, then the metric.
pub open spec fn build_arguments(
    metric: Seq<char>,
    graph_type: Seq<char>,
    m: usize,
    outcome: Result<(MetricKind, GraphTypeKind), IndexError>,
) -> bool {
    match crate::graph_type::graph_type_named_spec(graph_type) {
        None => outcome matches Err(IndexError::UnknownGraphType(other)) && other@ == graph_type,
        Some(kind) => if !crate::graph_type::fits_storage(kind, m) {
            outcome == Err::<(MetricKind, GraphTypeKind), IndexError>(
                IndexError::TooManyNeighbors { m },
            )
        } else {
            match crate::metric::metric_named_spec(metric) {
                Some(metric_kind) => outcome == Ok::<(MetricKind, GraphTypeKind), IndexError>(
                    (metric_kind, kind),
                ),
                None => outcome == Err::<(MetricKind, GraphTypeKind), IndexError>(
                    IndexError::InvalidMetric,
                ),
            }
        },
    }
}

/// Checks the graph type and then the metric of a build.
pub fn check_build_arguments(metric: &str, graph_type: &str, m: usize) -> (outcome: Result<
    (MetricKind, GraphTypeKind),
    IndexError,
>)
    ensures
        build_arguments(
            crate::text::in_lower_case(metric@),
            crate::text::in_lower_case(graph_type@),
            m,
            outcome,
        ),
{
    match parse_build_graph_type(graph_type, m) {
        Ok(kind) => match parse_metric(metric) {
            Ok(metric_kind) => Ok((metric_kind, kind)),
            Err(error) => Err(error),
        },
        Err(error) => Err(error),
    }
}

/// Checks the graph type and then the metric of an index to load.
pub fn check_load_arguments(metric: &str, graph_type: &str) -> (outcome: Result<
    (MetricKind, GraphTypeKind),
    IndexError,
>)
    ensures
        build_arguments(
            crate::text::in_lower_case(metric@),
            crate::text::in_lower_case(graph_type@),
            0,
            outcome,
        ),
{
    match parse_graph_type(graph_type) {
        Ok(kind) => match parse_metric(metric) {
            Ok(metric_kind) => Ok((metric_kind, kind)),
            Err(error) => Err(error),
        },
        Err(error) => Err(error),
    }
}

/// Which vectors a filtered search may return, as answered for each identifier:
/// only those with a clear yes.
pub struct Eligibility<P> {
    predicate: P,
}

impl<P: Fn(i64) -> Option<bool>> Eligibility<P> {
    pub closed spec fn spec_predicate(self) -> P {
        self.predicate
    }

    pub fn new(predicate: P) -> (eligibility: Eligibility<P>)
        ensures
            eligibility.spec_predicate() == predicate,
    {
        Eligibility { predicate }
    }

    /// Whether the vector may be returned: the predicate answered, and its answer is
    /// yes.
    pub fn allows(&self, id: usize) -> (allowed: bool)
        requires
            call_requires(self.spec_predicate(), (id as i64,)),
        ensures
            exists|answer: Option<bool>| #[trigger]
                call_ensures(self.spec_predicate(), (id as i64,), answer) && allowed == (answer
                    == Some(true)),
    {
        let asked: i64 = #[verifier::truncate]
        (id as i64);
        assert(call_requires(self.spec_predicate(), (asked,)));
        let answer: Option<bool> = (self.predicate)(asked);
        assert(call_ensures(self.spec_predicate(), (asked,), answer));
        match answer {
            Some(allowed) => allowed,
            None => false,
        }
    }
}

/// Graph search over dense vectors: a graph index `H`, and the expanded neighbor
/// lists `G` of a filtered search once they were built.
pub struct DensePlainHNSW<H, G> {
    metric: MetricKind,
    storage: NeighborStorage,
    index: H,
    dim: usize,
    acorn_gamma: Option<G>,
}

impl<H, G> DensePlainHNSW<H, G> {
    pub closed spec fn spec_metric(self) -> MetricKind {
        self.metric
    }

    pub closed spec fn spec_storage(self) -> NeighborStorage {
        self.storage
    }

    pub closed spec fn spec_index(self) -> H {
        self.index
    }

    pub closed spec fn spec_dim(self) -> nat {
        self.dim as nat
    }

    /// The expanded neighbor lists.
    pub closed spec fn spec_gamma(self) -> Option<G> {
        self.acorn_gamma
    }

    /// An index as it comes out of a build or a load, without expanded lists.
    pub open spec fn is_fresh(self, metric: MetricKind, kind: GraphTypeKind, index: H, dim: nat) -> bool {
        &&& self.spec_metric() == metric
        &&& self.spec_storage() == kind.storage_spec()
        &&& self.spec_index() == index
        &&& self.spec_dim() == dim
        &&& self.spec_gamma() is None
    }

    pub fn metric(&self) -> (metric: MetricKind)
        ensures
            metric == self.spec_metric(),
    {
        self.metric
    }

    pub fn storage(&self) -> (storage: NeighborStorage)
        ensures
            storage == self.spec_storage(),
    {
        self.storage
    }

    pub fn index(&self) -> (index: &H)
        ensures
            *index == self.spec_index(),
    {
        &self.index
    }

    pub fn dim(&self) -> (dim: usize)
        ensures
            dim == self.spec_dim(),
    {
        self.dim
    }

    /// Writes the graph index with `write`; expanded neighbor lists are not written.
    pub fn save<E, W: FnOnce(&H) -> Result<(), E>>(&self, write: W) -> (saved: Result<(), E>)
        requires
            call_requires(write, (&self.spec_index(),)),
        ensures
            call_ensures(write, (&self.spec_index(),), saved),
    {
        write(&self.index)
    }

    /// Builds an index over the dataset that `read` reads: `build` builds the graph,
    /// `finish` reorders and stores it as the graph type says.
    pub fn build_from_file<E, D, P, R, B, X>(
        m: usize,
        ef_construction: usize,
        metric: &str,
        graph_type: &str,
        read: R,
        build: B,
        finish: X,
    ) -> (built: Result<DensePlainHNSW<H, G>, BuildError<E>>) where
        R: FnOnce(MetricKind) -> Result<(D, usize), E>,
        B: FnOnce(MetricKind, D, HNSWBuildConfiguration) -> P,
        X: FnOnce(P, Reordering) -> H,

        requires
            forall|kind: MetricKind| #[trigger] call_requires(read, (kind,)),
            forall|kind: MetricKind, dataset: D, dim: usize| #[trigger]
                call_ensures(read, (kind,), Ok((dataset, dim))) ==> can_build(
                    build,
                    finish,
                    kind,
                    dataset,
                    m,
                    ef_construction,
                ),
        ensures
            exists|checked: Result<(MetricKind, GraphTypeKind), IndexError>|
                {
                    &&& #[trigger] build_arguments(
                        crate::text::in_lower_case(metric@),
                        crate::text::in_lower_case(graph_type@),
                        m,
                        checked,
                    )
                    &&& match checked {
                        Err(error) => built == Err::<DensePlainHNSW<H, G>, BuildError<E>>(
                            BuildError::Invalid(error),
                        ),
                        Ok((kind, graph)) => exists|out: Result<(D, usize), E>| #[trigger]
                            call_ensures(read, (kind,), out) && match out {
                                Err(error) => built == Err::<DensePlainHNSW<H, G>, BuildError<E>>(
                                    BuildError::Io(error),
                                ),
                                Ok((dataset, dim)) => built matches Ok(index) && built_from(
                                    build,
                                    finish,
                                    kind,
                                    dataset,
                                    m,
                                    ef_construction,
                                    graph,
                                    index.spec_index(),
                                ) && index.is_fresh(kind, graph, index.spec_index(), dim as nat),
                            },
                    }
                },
    {
        let checked = check_build_arguments(metric, graph_type, m);
        match checked {
            Err(error) => {
                assert(build_arguments(
                    crate::text::in_lower_case(metric@),
                    crate::text::in_lower_case(graph_type@),
                    m,
                    Err(error),
                ));
                Err(BuildError::Invalid(error))
            },
            Ok((kind, graph)) => match read(kind) {
                Err(error) => Err(BuildError::Io(error)),
                Ok((dataset, dim)) => {
                    let config = HNSWBuildConfiguration { num_neighbors: m, ef_construction };
                    let ghost given = dataset;
                    assert(call_ensures(read, (kind,), Ok((given, dim))));
                    let plain: P = build(kind, dataset, config);
                    assert(call_ensures(build, (kind, given, config), plain));
                    let index: H = finish(plain, graph.reordering());
                    assert(built_from(
                        build,
                        finish,
                        kind,
                        given,
                        m,
                        ef_construction,
                        graph,
                        index,
                    ));
                    Ok(
                        DensePlainHNSW {
                            metric: kind,
                            storage: graph.storage(),
                            index,
                            dim,
                            acorn_gamma: None,
                        },
                    )
                },
            },
        }
    }

    /// Builds an index over vectors of `dim` values each, given one after the other.
    /// Every value is converted by `narrow`, `make` stores the vectors.
    pub fn build_from_array<T, V, D, P, N, M, B, X>(
        data: &[T],
        dim: usize,
        m: usize,
        ef_construction: usize,
        metric: &str,
        graph_type: &str,
        narrow: &N,
        make: M,
        build: B,
        finish: X,
    ) -> (built: Result<DensePlainHNSW<H, G>, IndexError>) where
        T: Copy,
        N: Fn(T) -> V,
        M: FnOnce(MetricKind, Vec<V>, usize, usize) -> D,
        B: FnOnce(MetricKind, D, HNSWBuildConfiguration) -> P,
        X: FnOnce(P, Reordering) -> H,

        requires
            dim > 0,
            data@.len() % (dim as nat) == 0,
            crate::dense::can_convert(*narrow, data@),
            forall|kind: MetricKind, values: Vec<V>|
                crate::dense::converts(*narrow, data@, values@) ==> #[trigger] call_requires(
                    make,
                    (kind, values, (data@.len() / (dim as nat)) as usize, dim),
                ),
            forall|kind: MetricKind, values: Vec<V>, dataset: D|
                crate::dense::converts(*narrow, data@, values@) && #[trigger] call_ensures(
                    make,
                    (kind, values, (data@.len() / (dim as nat)) as usize, dim),
                    dataset,
                ) ==> can_build(build, finish, kind, dataset, m, ef_construction),
        ensures
            exists|checked: Result<(MetricKind, GraphTypeKind), IndexError>|
                {
                    &&& #[trigger] build_arguments(
                        crate::text::in_lower_case(metric@),
                        crate::text::in_lower_case(graph_type@),
                        m,
                        checked,
                    )
                    &&& match checked {
                        Err(error) => built == Err::<DensePlainHNSW<H, G>, IndexError>(error),
                        Ok((kind, graph)) => exists|values: Vec<V>, dataset: D|
                            {
                                &&& crate::dense::converts(*narrow, data@, values@)
                                &&& #[trigger] call_ensures(
                                    make,
                                    (kind, values, (data@.len() / (dim as nat)) as usize, dim),
                                    dataset,
                                )
                                &&& built matches Ok(index) && built_from(
                                    build,
                                    finish,
                                    kind,
                                    dataset,
                                    m,
                                    ef_construction,
                                    graph,
                                    index.spec_index(),
                                ) && index.is_fresh(kind, graph, index.spec_index(), dim as nat)
                            },
                    }
                },
    {
        let values: Vec<V> = convert_values(data, narrow);
        let n: usize = data.len() / dim;
        proof {
            vstd::arithmetic::div_mod::lemma_fundamental_div_mod(data.len() as int, dim as int);
            vstd::arithmetic::mul::lemma_mul_is_commutative(dim as int, n as int);
        }
        let checked = check_build_arguments(metric, graph_type, m);
        match checked {
            Err(error) => {
                assert(build_arguments(
                    crate::text::in_lower_case(metric@),
                    crate::text::in_lower_case(graph_type@),
                    m,
                    Err(error),
                ));
                Err(error)
            },
            Ok((kind, graph)) => {
                let ghost given = values;
                assert(call_requires(make, (kind, values, n, dim)));
                let dataset: D = make(kind, values, n, dim);
                assert(call_ensures(make, (kind, given, n, dim), dataset));
                let ghost made = dataset;
                let config = HNSWBuildConfiguration { num_neighbors: m, ef_construction };
                let plain: P = build(kind, dataset, config);
                assert(call_ensures(build, (kind, made, config), plain));
                let index: H = finish(plain, graph.reordering());
                assert(built_from(build, finish, kind, made, m, ef_construction, graph, index));
                Ok(
                    DensePlainHNSW {
                        metric: kind,
                        storage: graph.storage(),
                        index,
                        dim,
                        acorn_gamma: None,
                    },
                )
            },
        }
    }

    /// The index that `read` reads back for the metric and the storage it was built
    /// with. Expanded neighbor lists do not come back with it.
    pub fn load<E, R>(metric: &str, graph_type: &str, read: R) -> (loaded: Result<
        DensePlainHNSW<H, G>,
        BuildError<E>,
    >) where R: FnOnce(MetricKind, NeighborStorage) -> Result<(H, usize), E>
        requires
            forall|kind: MetricKind, storage: NeighborStorage| #[trigger]
                call_requires(read, (kind, storage)),
        ensures
            exists|checked: Result<(MetricKind, GraphTypeKind), IndexError>|
                {
                    &&& #[trigger] build_arguments(
                        crate::text::in_lower_case(metric@),
                        crate::text::in_lower_case(graph_type@),
                        0,
                        checked,
                    )
                    &&& match checked {
                        Err(error) => loaded == Err::<DensePlainHNSW<H, G>, BuildError<E>>(
                            BuildError::Invalid(error),
                        ),
                        Ok((kind, graph)) => exists|out: Result<(H, usize), E>| #[trigger]
                            call_ensures(read, (kind, graph.storage_spec()), out) && match out {
                                Err(error) => loaded == Err::<DensePlainHNSW<H, G>, BuildError<E>>(
                                    BuildError::Io(error),
                                ),
                                Ok((index, dim)) => loaded matches Ok(l) && l.is_fresh(
                                    kind,
                                    graph,
                                    index,
                                    dim as nat,
                                ),
                            },
                    }
                },
    {
        match check_load_arguments(metric, graph_type) {
            Err(error) => {
                assert(build_arguments(
                    crate::text::in_lower_case(metric@),
                    crate::text::in_lower_case(graph_type@),
                    0,
                    Err(error),
                ));
                Err(BuildError::Invalid(error))
            },
            Ok((kind, graph)) => match read(kind, graph.storage()) {
                Err(error) => Err(BuildError::Io(error)),
                Ok((index, dim)) => Ok(
                    DensePlainHNSW {
                        metric: kind,
                        storage: graph.storage(),
                        index,
                        dim,
                        acorn_gamma: None,
                    },
                ),
            },
        }
    }

    /// The bytes held by the dataset and the graph, as the index reports them.
    pub fn space_usage_bytes<U: FnOnce(&H) -> usize>(&self, usage: U) -> (bytes: usize)
        requires
            call_requires(usage, (&self.spec_index(),)),
        ensures
            call_ensures(usage, (&self.spec_index(),), bytes),
    {
        usage(&self.index)
    }

    /// The approximate `k` nearest neighbors of one query, padded to `k`.
    pub fn search<T, F>(
        &self,
        query: &[T],
        k: usize,
        ef_search: usize,
        early_exit_threshold: Option<T>,
        infinity: T,
        search: &F,
    ) -> (found: Result<(Vec<T>, Vec<i64>), IndexError>) where
        T: Copy,
        F: Fn(&H, &[T], usize, &HNSWSearchConfiguration<T, ()>) -> Vec<ScoredVector<T>>,

        requires
            crate::query::accepts(
                *search,
                &self.spec_index(),
                self.spec_dim(),
                k,
                &crate::query::configured_spec(ef_search, early_exit_threshold, ()),
            ),
        ensures
            self.finds(*search, query@, k, ef_search, early_exit_threshold, infinity, found),
    {
        let config = configured(ef_search, early_exit_threshold, ());
        search_dense(&self.index, self.dim, query, k, &config, infinity, search)
    }

    /// The approximate `k` nearest neighbors of every query of a batch, each padded
    /// to `k`.
    pub fn batch_search<T, F>(
        &self,
        queries: &[T],
        k: usize,
        ef_search: usize,
        early_exit_threshold: Option<T>,
        infinity: T,
        search: &F,
    ) -> (found: Result<(Vec<T>, Vec<i64>), IndexError>) where
        T: Copy,
        F: Fn(&H, &[T], usize, &HNSWSearchConfiguration<T, ()>) -> Vec<ScoredVector<T>>,

        requires
            self.spec_dim() > 0,
            crate::query::accepts(
                *search,
                &self.spec_index(),
                self.spec_dim(),
                k,
                &crate::query::configured_spec(ef_search, early_exit_threshold, ()),
            ),
        ensures
            self.finds_all(*search, queries@, k, ef_search, early_exit_threshold, infinity, found),
    {
        let config = configured(ef_search, early_exit_threshold, ());
        search_dense_batch(&self.index, self.dim, queries, k, &config, infinity, search)
    }

    /// The approximate `k` nearest neighbors among the vectors that `predicate`
    /// accepts, padded to `k`.
    pub fn search_filtered<T, P, F>(
        &self,
        query: &[T],
        k: usize,
        predicate: P,
        ef_search: usize,
        early_exit_threshold: Option<T>,
        infinity: T,
        search: F,
    ) -> (packed: (Vec<T>, Vec<i64>)) where
        T: Copy,
        P: Fn(i64) -> Option<bool>,
        F: FnOnce(&H, &[T], usize, &HNSWSearchConfiguration<T, ()>, &Eligibility<P>) -> Vec<
            ScoredVector<T>,
        >,

        requires
            forall|eligible: Eligibility<P>|
                eligible.spec_predicate() == predicate ==> #[trigger] call_requires(
                    search,
                    (
                        &self.spec_index(),
                        query,
                        k,
                        &crate::query::configured_spec(ef_search, early_exit_threshold, ()),
                        &eligible,
                    ),
                ),
        ensures
            exists|eligible: Eligibility<P>, reply: Vec<ScoredVector<T>>|
                {
                    &&& eligible.spec_predicate() == predicate
                    &&& #[trigger] call_ensures(
                        search,
                        (
                            &self.spec_index(),
                            query,
                            k,
                            &crate::query::configured_spec(ef_search, early_exit_threshold, ()),
                            &eligible,
                        ),
                        reply,
                    )
                    &&& crate::query::packs_one(reply@, k as nat, infinity, packed)
                },
    {
        let config = configured(ef_search, early_exit_threshold, ());
        let eligible = Eligibility::new(predicate);
        assert(call_requires(search, (&self.spec_index(), query, k, &config, &eligible)));
        let reply: Vec<ScoredVector<T>> = search(&self.index, query, k, &config, &eligible);
        assert(call_ensures(search, (&self.spec_index(), query, k, &config, &eligible), reply));
        pack_results(reply.as_slice(), k, infinity)
    }

    /// Builds the expanded neighbor lists of a filtered search.
    pub fn build_acorn_gamma<B: FnOnce(&H, usize) -> G>(&mut self, gamma: usize, build: B)
        requires
            call_requires(build, (&old(self).spec_index(), gamma)),
        ensures
            final(self).spec_gamma() is Some,
            call_ensures(build, (&old(self).spec_index(), gamma), final(self).spec_gamma()->0),
            final(self).spec_metric() == old(self).spec_metric(),
            final(self).spec_storage() == old(self).spec_storage(),
            final(self).spec_index() == old(self).spec_index(),
            final(self).spec_dim() == old(self).spec_dim(),
    {
        let lists: G = build(&self.index, gamma);
        self.acorn_gamma = Some(lists);
    }

    /// Like [`Self::search_filtered`], over the expanded neighbor lists.
    pub fn search_filtered_gamma<T, P, F>(
        &self,
        query: &[T],
        k: usize,
        predicate: P,
        ef_search: usize,
        early_exit_threshold: Option<T>,
        infinity: T,
        search: F,
    ) -> (found: Result<(Vec<T>, Vec<i64>), IndexError>) where
        T: Copy,
        P: Fn(i64) -> Option<bool>,
        F: FnOnce(&H, &[T], usize, &HNSWSearchConfiguration<T, ()>, &G, &Eligibility<P>) -> Vec<
            ScoredVector<T>,
        >,

        requires
            self.spec_gamma() matches Some(lists) ==> forall|eligible: Eligibility<P>|
                eligible.spec_predicate() == predicate ==> #[trigger] call_requires(
                    search,
                    (
                        &self.spec_index(),
                        query,
                        k,
                        &crate::query::configured_spec(ef_search, early_exit_threshold, ()),
                        &lists,
                        &eligible,
                    ),
                ),
        ensures
            self.finds_expanded(
                search,
                predicate,
                query,
                k,
                ef_search,
                early_exit_threshold,
                infinity,
                found,
            ),
    {
        match &self.acorn_gamma {
            None => Err(IndexError::GammaNotBuilt),
            Some(lists) => {
                let config = configured(ef_search, early_exit_threshold, ());
                let eligible = Eligibility::new(predicate);
                assert(call_requires(
                    search,
                    (&self.spec_index(), query, k, &config, lists, &eligible),
                ));
                let reply: Vec<ScoredVector<T>> = search(
                    &self.index,
                    query,
                    k,
                    &config,
                    lists,
                    &eligible,
                );
                assert(call_ensures(
                    search,
                    (&self.spec_index(), query, k, &config, lists, &eligible),
                    reply,
                ));
                Ok(pack_results(reply.as_slice(), k, infinity))
            },
        }
    }
}

impl<H, G> DensePlainHNSW<H, G> {
    /// Whether `found` is what a search for one query returns: an error where its length
    /// is not the dimension, a reply of `search` over the graph, padded to `k`, otherwise.
    pub open spec fn finds<T, F>(
        self,
        search: F,
        query: Seq<T>,
        k: usize,
        ef_search: usize,
        early_exit_threshold: Option<T>,
        infinity: T,
        found: Result<(Vec<T>, Vec<i64>), IndexError>,
    ) -> bool where F: Fn(&H, &[T], usize, &HNSWSearchConfiguration<T, ()>) -> Vec<ScoredVector<T>> {
        if query.len() != self.spec_dim() {
            found == Err::<(Vec<T>, Vec<i64>), IndexError>(
                IndexError::QueryDimension { got: query.len() as usize, dim: self.spec_dim() as usize },
            )
        } else {
            found matches Ok(packed) && exists|reply: Vec<ScoredVector<T>>| #[trigger]
                crate::query::answers(
                    search,
                    &self.spec_index(),
                    query,
                    k,
                    &crate::query::configured_spec(ef_search, early_exit_threshold, ()),
                    reply,
                ) && crate::query::packs_one(reply@, k as nat, infinity, packed)
        }
    }

    /// Whether `found` is what a search for a batch of queries returns: an error where
    /// they do not have the dimension each, replies of `search` over the graph, each
    /// padded to `k`, otherwise.
    pub open spec fn finds_all<T, F>(
        self,
        search: F,
        queries: Seq<T>,
        k: usize,
        ef_search: usize,
        early_exit_threshold: Option<T>,
        infinity: T,
        found: Result<(Vec<T>, Vec<i64>), IndexError>,
    ) -> bool where F: Fn(&H, &[T], usize, &HNSWSearchConfiguration<T, ()>) -> Vec<ScoredVector<T>> {
        if queries.len() % self.spec_dim() != 0 {
            found == Err::<(Vec<T>, Vec<i64>), IndexError>(
                IndexError::QueriesLength { len: queries.len() as usize, dim: self.spec_dim() as usize },
            )
        } else {
            found matches Ok(packed) && exists|replies: Seq<Vec<ScoredVector<T>>>| #[trigger]
                crate::query::answers_batch(
                    search,
                    &self.spec_index(),
                    queries,
                    self.spec_dim(),
                    k,
                    &crate::query::configured_spec(ef_search, early_exit_threshold, ()),
                    replies,
                ) && crate::query::packs(replies, k as nat, infinity, packed)
        }
    }

    /// Whether `found` is what a filtered search over the expanded neighbor lists
    /// returns: an error where there are none, a reply of `search` under the predicate,
    /// padded to `k`, otherwise.
    pub open spec fn finds_expanded<T, P, F>(
        self,
        search: F,
        predicate: P,
        query: &[T],
        k: usize,
        ef_search: usize,
        early_exit_threshold: Option<T>,
        infinity: T,
        found: Result<(Vec<T>, Vec<i64>), IndexError>,
    ) -> bool where
        P: Fn(i64) -> Option<bool>,
        F: FnOnce(&H, &[T], usize, &HNSWSearchConfiguration<T, ()>, &G, &Eligibility<P>) -> Vec<
            ScoredVector<T>,
        >,
     {
        match self.spec_gamma() {
            None => found == Err::<(Vec<T>, Vec<i64>), IndexError>(IndexError::GammaNotBuilt),
            Some(lists) => found matches Ok(packed) && exists|
                eligible: Eligibility<P>,
                reply: Vec<ScoredVector<T>>,
            |
                {
                    &&& eligible.spec_predicate() == predicate
                    &&& #[trigger] call_ensures(
                        search,
                        (
                            &self.spec_index(),
                            query,
                            k,
                            &crate::query::configured_spec(ef_search, early_exit_threshold, ()),
                            &lists,
                            &eligible,
                        ),
                        reply,
                    )
                    &&& crate::query::packs_one(reply@, k as nat, infinity, packed)
                },
        }
    }
}

/// Whether the predicate may answer yes for the vector.
pub open spec fn may_allow<P: Fn(i64) -> Option<bool>>(predicate: P, id: i64) -> bool {
    call_ensures(predicate, (id,), Some(true))
}

/// Building the expanded neighbor lists leaves plain searches as they were: an index
/// with the same graph and dimension finds the same.
pub proof fn law_expanded_lists_leave_searches_alone<H, G, T, F>(
    before: DensePlainHNSW<H, G>,
    after: DensePlainHNSW<H, G>,
    search: F,
    queries: Seq<T>,
    k: usize,
    ef_search: usize,
    early_exit_threshold: Option<T>,
    infinity: T,
    found: Result<(Vec<T>, Vec<i64>), IndexError>,
) where F: Fn(&H, &[T], usize, &HNSWSearchConfiguration<T, ()>) -> Vec<ScoredVector<T>>
    requires
        after.spec_index() == before.spec_index(),
        after.spec_dim() == before.spec_dim(),
    ensures
        before.finds(search, queries, k, ef_search, early_exit_threshold, infinity, found) <==> after.finds(
            search,
            queries,
            k,
            ef_search,
            early_exit_threshold,
            infinity,
            found,
        ),
        before.finds_all(search, queries, k, ef_search, early_exit_threshold, infinity, found)
            <==> after.finds_all(
            search,
            queries,
            k,
            ef_search,
            early_exit_threshold,
            infinity,
            found,
        ),
{
}

/// A filtered search over expanded lists fails exactly where the index has none, as one
/// that was just built or loaded. Otherwise it returns `k` entries, and every identifier
/// among them is one that the predicate accepts, as long as `search` replies with such
/// vectors only.
pub proof fn law_filtered_results_are_accepted<H, G, T, P, F>(
    index: DensePlainHNSW<H, G>,
    search: F,
    predicate: P,
    query: &[T],
    k: usize,
    ef_search: usize,
    early_exit_threshold: Option<T>,
    infinity: T,
    found: Result<(Vec<T>, Vec<i64>), IndexError>,
) where
    P: Fn(i64) -> Option<bool>,
    F: FnOnce(&H, &[T], usize, &HNSWSearchConfiguration<T, ()>, &G, &Eligibility<P>) -> Vec<
        ScoredVector<T>,
    >,

    requires
        index.finds_expanded(
            search,
            predicate,
            query,
            k,
            ef_search,
            early_exit_threshold,
            infinity,
            found,
        ),
        forall|lists: G, eligible: Eligibility<P>, reply: Vec<ScoredVector<T>>, i: int|
            #![trigger call_ensures(search, (&index.spec_index(), query, k, &crate::query::configured_spec(ef_search, early_exit_threshold, ()), &lists, &eligible), reply), reply@[i]]
            index.spec_gamma() == Some(lists) && eligible.spec_predicate() == predicate && call_ensures(
                search,
                (
                    &index.spec_index(),
                    query,
                    k,
                    &crate::query::configured_spec(ef_search, early_exit_threshold, ()),
                    &lists,
                    &eligible,
                ),
                reply,
            ) && 0 <= i < reply@.len() ==> may_allow(predicate, reply@[i].vector as i64),
    ensures
        found is Err <==> index.spec_gamma() is None,
        forall|metric: MetricKind, graph: GraphTypeKind, h: H, dim: nat| #[trigger]
            index.is_fresh(metric, graph, h, dim) ==> found is Err,
        found matches Ok(packed) ==> {
            &&& packed.0@.len() == k
            &&& packed.1@.len() == k
            &&& forall|i: int|
                0 <= i < k && #[trigger] packed.1@[i] != -1 ==> may_allow(predicate, packed.1@[i])
        },
{
}

/// Whether a graph can be built over `dataset`, and what comes of it can be finished.
pub open spec fn can_build<D, P, H, B, X>(
    build: B,
    finish: X,
    metric: MetricKind,
    dataset: D,
    m: usize,
    ef_construction: usize,
) -> bool where
    B: FnOnce(MetricKind, D, HNSWBuildConfiguration) -> P,
    X: FnOnce(P, Reordering) -> H,
 {
    let config = HNSWBuildConfiguration { num_neighbors: m, ef_construction };
    &&& call_requires(build, (metric, dataset, config))
    &&& forall|plain: P, reordering: Reordering|
        call_ensures(build, (metric, dataset, config), plain) ==> #[trigger] call_requires(
            finish,
            (plain, reordering),
        )
}

/// Whether `index` is a graph built over `dataset` and then finished as the graph
/// type says.
pub open spec fn built_from<D, P, H, B, X>(
    build: B,
    finish: X,
    metric: MetricKind,
    dataset: D,
    m: usize,
    ef_construction: usize,
    graph: GraphTypeKind,
    index: H,
) -> bool where
    B: FnOnce(MetricKind, D, HNSWBuildConfiguration) -> P,
    X: FnOnce(P, Reordering) -> H,
 {
    exists|plain: P|
        call_ensures(
            build,
            (metric, dataset, HNSWBuildConfiguration { num_neighbors: m, ef_construction }),
            plain,
        ) && #[trigger] call_ensures(finish, (plain, graph.reordering_spec()), index)
}

/// An index that is written and read back under its own metric and graph type is the
/// same index without its expanded neighbor lists.
pub proof fn law_reloaded_index<H, G>(
    saved: DensePlainHNSW<H, G>,
    loaded: DensePlainHNSW<H, G>,
    kind: GraphTypeKind,
)
    requires
        kind.storage_spec() == saved.spec_storage(),
        loaded.is_fresh(saved.spec_metric(), kind, saved.spec_index(), saved.spec_dim()),
    ensures
        loaded.spec_metric() == saved.spec_metric(),
        loaded.spec_storage() == saved.spec_storage(),
        loaded.spec_index() == saved.spec_index(),
        loaded.spec_dim() == saved.spec_dim(),
        loaded.spec_gamma() is None,
        saved.spec_gamma() is None ==> loaded == saved,
{
}

} // verus!
