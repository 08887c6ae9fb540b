//! Two-stage search: a sparse first stage, reranked against a multivector dataset.

use crate::error::{BuildError, IndexError};
use crate::multivec::supports_two_level;
use crate::ranking::ScoredVector;
use crate::rerank_dense::{rerank_params, RerankParams};
use crate::results::{pack_results, push_results};
use crate::sparse::convert_components_to_u16;
use vstd::prelude::*;

verus! {

/// Whether `reply` is what `search` returns for a sparse query and its tokens.
pub open spec fn answers_multi<I, T, F>(
    search: F,
    index: &I,
    components: Seq<u16>,
    values: Seq<T>,
    tokens: Seq<T>,
    token_dim: usize,
    k: usize,
    params: &RerankParams<T>,
    reply: Vec<ScoredVector<T>>,
) -> bool where
    F: Fn(&I, &[u16], &[T], &[T], usize, usize, &RerankParams<T>) -> Vec<ScoredVector<T>>,
 {
    exists|c: &[u16], v: &[T], t: &[T]|
        c@ == components && v@ == values && t@ == tokens && #[trigger] call_ensures(
            search,
            (index, c, v, t, token_dim, k, params),
            reply,
        )
}

/// Whether `search` accepts every sparse query with as many components as values,
/// with tokens of any length.
pub open spec fn accepts_multi<I, T, F>(
    search: F,
    index: &I,
    token_dim: usize,
    k: usize,
    params: &RerankParams<T>,
) -> bool where
    F: Fn(&I, &[u16], &[T], &[T], usize, usize, &RerankParams<T>) -> Vec<ScoredVector<T>>,
 {
    forall|c: &[u16], v: &[T], t: &[T]|
        c@.len() == v@.len() ==> #[trigger] call_requires(
            search,
            (index, c, v, t, token_dim, k, params),
        )
}

/// The tokens of query `i` of a batch with `size` values for each query.
pub open spec fn tokens_at<T>(tokens: Seq<T>, size: nat, i: int) -> Seq<T> {
    tokens.subrange(i * size, i * size + size)
}

/// Whether `replies` are what `search` returns for the queries of a batch.
pub open spec fn answers_multi_batch<I, T, F>(
    search: F,
    index: &I,
    components: Seq<u16>,
    values: Seq<T>,
    offsets: Seq<i64>,
    tokens: Seq<T>,
    size: nat,
    token_dim: usize,
    k: usize,
    params: &RerankParams<T>,
    replies: Seq<Vec<ScoredVector<T>>>,
) -> bool where
    F: Fn(&I, &[u16], &[T], &[T], usize, usize, &RerankParams<T>) -> Vec<ScoredVector<T>>,
 {
    &&& replies.len() == offsets.len() - 1
    &&& forall|i: int|
        0 <= i < replies.len() ==> answers_multi(
            search,
            index,
            crate::sparse_query::part(components, offsets, i),
            crate::sparse_query::part(values, offsets, i),
            tokens_at(tokens, size, i),
            token_dim,
            k,
            params,
            #[trigger] replies[i],
        )
}

/// Whether offsets and tokens make up a batch.
pub open spec fn is_multi_batch(
    offsets: Seq<i64>,
    n_components: nat,
    n_values: nat,
    n_token_values: nat,
    size: nat,
) -> bool {
    &&& crate::sparse_query::delimit_all(offsets, n_components)
    &&& crate::sparse_query::delimit_all(offsets, n_values)
    &&& (offsets.len() - 1) * size <= n_token_values
}

/// Searches `index` for one sparse query and its tokens.
pub fn search_multi<I, T, F>(
    index: &I,
    components: &[i32],
    values: &[T],
    tokens: &[T],
    token_dim: usize,
    k: usize,
    params: &RerankParams<T>,
    infinity: T,
    search: &F,
) -> (found: Result<(Vec<T>, Vec<i64>), IndexError>) where
    T: Copy,
    F: Fn(&I, &[u16], &[T], &[T], usize, usize, &RerankParams<T>) -> Vec<ScoredVector<T>>,

    requires
        crate::sparse_query::all_fit(components@) ==> components@.len() == values@.len(),
        accepts_multi(*search, index, token_dim, k, params),
    ensures
        !crate::sparse_query::all_fit(components@) <==> found is Err,
        match found {
            Ok(packed) => exists|reply: Vec<ScoredVector<T>>| #[trigger]
                answers_multi(
                    *search,
                    index,
                    crate::sparse_query::narrowed(components@),
                    values@,
                    tokens@,
                    token_dim,
                    k,
                    params,
                    reply,
                ) && crate::query::packs_one(reply@, k as nat, infinity, packed),
            Err(error) => error == IndexError::ComponentOutOfRange,
        },
{
    let narrow: Vec<u16> = match convert_components_to_u16(components) {
        Ok(narrow) => narrow,
        Err(error) => {
            return Err(error);
        },
    };
    let c: &[u16] = narrow.as_slice();
    assert(call_requires(*search, (index, c, values, tokens, token_dim, k, params)));
    let reply: Vec<ScoredVector<T>> = search(index, c, values, tokens, token_dim, k, params);
    assert(answers_multi(
        *search,
        index,
        crate::sparse_query::narrowed(components@),
        values@,
        tokens@,
        token_dim,
        k,
        params,
        reply,
    ));
    Ok(pack_results(reply.as_slice(), k, infinity))
}

/// Searches `index` for query `i` of a batch of sparse queries with their tokens.
pub fn search_multi_nth<I, T, F>(
    index: &I,
    components: &[u16],
    values: &[T],
    offsets: &[i64],
    tokens: &[T],
    size: usize,
    token_dim: usize,
    i: usize,
    k: usize,
    params: &RerankParams<T>,
    search: &F,
) -> (reply: Vec<ScoredVector<T>>) where
    T: Copy,
    F: Fn(&I, &[u16], &[T], &[T], usize, usize, &RerankParams<T>) -> Vec<ScoredVector<T>>,

    requires
        is_multi_batch(offsets@, components@.len(), values@.len(), tokens@.len(), size as nat),
        i + 1 < offsets@.len(),
        accepts_multi(*search, index, token_dim, k, params),
    ensures
        answers_multi(
            *search,
            index,
            crate::sparse_query::part(components@, offsets@, i as int),
            crate::sparse_query::part(values@, offsets@, i as int),
            tokens_at(tokens@, size as nat, i as int),
            token_dim,
            k,
            params,
            reply,
        ),
{
    proof {
        assert(crate::sparse_query::delimits(offsets@, components@.len(), i as int));
        assert(crate::sparse_query::delimits(offsets@, values@.len(), i as int));
        assert(components@.len() == components.len());
        assert(tokens@.len() == tokens.len());
        crate::dense::lemma_row(i as int, size as int, offsets@.len() - 1);
    }
    let start: usize = offsets[i] as usize;
    let end: usize = offsets[i + 1] as usize;
    let c = vstd::slice::slice_subrange(components, start, end);
    let v = vstd::slice::slice_subrange(values, start, end);
    let first: usize = i * size;
    let t = vstd::slice::slice_subrange(tokens, first, first + size);
    assert(call_requires(*search, (index, c, v, t, token_dim, k, params)));
    search(index, c, v, t, token_dim, k, params)
}

/// Searches `index` for every query of a batch of sparse queries with their tokens.
pub fn search_multi_batch<I, T, F>(
    index: &I,
    components: &[i32],
    values: &[T],
    offsets: &[i64],
    tokens: &[T],
    n_tokens: usize,
    token_dim: usize,
    k: usize,
    params: &RerankParams<T>,
    infinity: T,
    search: &F,
) -> (found: Result<(Vec<T>, Vec<i64>), IndexError>) where
    T: Copy,
    F: Fn(&I, &[u16], &[T], &[T], usize, usize, &RerankParams<T>) -> Vec<ScoredVector<T>>,

    requires
        crate::sparse_query::all_fit(components@) ==> n_tokens * token_dim <= usize::MAX
            && is_multi_batch(
            offsets@,
            components@.len(),
            values@.len(),
            tokens@.len(),
            (n_tokens * token_dim) as nat,
        ),
        accepts_multi(*search, index, token_dim, k, params),
    ensures
        !crate::sparse_query::all_fit(components@) <==> found is Err,
        match found {
            Ok(packed) => exists|replies: Seq<Vec<ScoredVector<T>>>| #[trigger]
                answers_multi_batch(
                    *search,
                    index,
                    crate::sparse_query::narrowed(components@),
                    values@,
                    offsets@,
                    tokens@,
                    (n_tokens * token_dim) as nat,
                    token_dim,
                    k,
                    params,
                    replies,
                ) && crate::query::packs(replies, k as nat, infinity, packed),
            Err(error) => error == IndexError::ComponentOutOfRange,
        },
{
    let narrow: Vec<u16> = match convert_components_to_u16(components) {
        Ok(narrow) => narrow,
        Err(error) => {
            return Err(error);
        },
    };
    let size: usize = n_tokens * token_dim;
    let n: usize = offsets.len() - 1;
    let ghost mut replies: Seq<Vec<ScoredVector<T>>> = Seq::empty();
    let mut distances: Vec<T> = Vec::new();
    let mut ids: Vec<i64> = Vec::new();
    proof {
        assert(crate::results::batch_distances(replies, k as nat, infinity) =~= Seq::empty());
        assert(crate::results::batch_ids(replies, k as nat) =~= Seq::empty());
    }
    let mut i: usize = 0;
    while i < n
        invariant
            i <= n,
            n == offsets@.len() - 1,
            narrow@ == crate::sparse_query::narrowed(components@),
            is_multi_batch(offsets@, narrow@.len(), values@.len(), tokens@.len(), size as nat),
            accepts_multi(*search, index, token_dim, k, params),
            replies.len() == i,
            forall|j: int|
                0 <= j < i ==> answers_multi(
                    *search,
                    index,
                    crate::sparse_query::part(narrow@, offsets@, j),
                    crate::sparse_query::part(values@, offsets@, j),
                    tokens_at(tokens@, size as nat, j),
                    token_dim,
                    k,
                    params,
                    #[trigger] replies[j],
                ),
            distances@ == crate::results::batch_distances(replies, k as nat, infinity),
            ids@ == crate::results::batch_ids(replies, k as nat),
        decreases n - i,
    {
        let reply: Vec<ScoredVector<T>> = search_multi_nth(
            index,
            narrow.as_slice(),
            values,
            offsets,
            tokens,
            size,
            token_dim,
            i,
            k,
            params,
            search,
        );
        push_results(reply.as_slice(), k, infinity, &mut distances, &mut ids);
        proof {
            crate::results::lemma_batch_push(replies, reply, k as nat, infinity);
            replies = replies.push(reply);
        }
        i = i + 1;
    }
    assert(answers_multi_batch(
        *search,
        index,
        crate::sparse_query::narrowed(components@),
        values@,
        offsets@,
        tokens@,
        size as nat,
        token_dim,
        k,
        params,
        replies,
    ));
    Ok((distances, ids))
}

/// A sparse first stage with plain multivectors for reranking.
pub struct SparseMultivecRerankIndex<I> {
    index: I,
}

impl<I> SparseMultivecRerankIndex<I> {
    pub closed spec fn spec_index(self) -> I {
        self.index
    }

    pub fn index(&self) -> (index: &I)
        ensures
            *index == self.spec_index(),
    {
        &self.index
    }

    /// Writes both stages with `write`.
    pub fn save<E, W: FnOnce(&I) -> Result<(), E>>(&self, write: W) -> (saved: Result<(), E>)
        requires
            call_requires(write, (&self.spec_index(),)),
        ensures
            call_ensures(write, (&self.spec_index(),), saved),
    {
        write(&self.index)
    }

    /// Pairs the first stage that `load_sparse` loads with the dataset that
    /// `load_multivec` loads.
    pub fn build_from_file<E, H, D, L, M, X>(load_sparse: L, load_multivec: M, pair: X) -> (built:
        Result<SparseMultivecRerankIndex<I>, E>) where
        L: FnOnce() -> Result<H, E>,
        M: FnOnce() -> Result<D, E>,
        X: FnOnce(H, D) -> I,

        requires
            call_requires(load_sparse, ()),
            call_requires(load_multivec, ()),
            forall|first: H, second: D|
                call_ensures(load_sparse, (), Ok(first)) && call_ensures(load_multivec, (), Ok(second))
                    ==> #[trigger] call_requires(pair, (first, second)),
        ensures
            exists|l: Result<H, E>|
                {
                    &&& #[trigger] call_ensures(load_sparse, (), l)
                    &&& match l {
                        Err(error) => built == Err::<SparseMultivecRerankIndex<I>, E>(error),
                        Ok(first) => exists|m: Result<D, E>|
                            {
                                &&& #[trigger] call_ensures(load_multivec, (), m)
                                &&& match m {
                                    Err(error) => built == Err::<SparseMultivecRerankIndex<I>, E>(
                                        error,
                                    ),
                                    Ok(second) => built matches Ok(index) && call_ensures(
                                        pair,
                                        (first, second),
                                        index.spec_index(),
                                    ),
                                }
                            },
                    }
                },
    {
        match load_sparse() {
            Err(error) => Err(error),
            Ok(first) => {
                assert(call_ensures(load_sparse, (), Ok(first)));
                match load_multivec() {
                    Err(error) => Err(error),
                    Ok(second) => {
                        assert(call_ensures(load_multivec, (), Ok(second)));
                        Ok(SparseMultivecRerankIndex { index: pair(first, second) })
                    },
                }
            },
        }
    }

    /// The index that `read` reads back.
    pub fn load<E, R: FnOnce() -> Result<I, E>>(read: R) -> (loaded: Result<
        SparseMultivecRerankIndex<I>,
        E,
    >)
        requires
            call_requires(read, ()),
        ensures
            exists|out: Result<I, E>| #[trigger]
                call_ensures(read, (), out) && match out {
                    Ok(index) => loaded matches Ok(l) && l.spec_index() == index,
                    Err(error) => loaded == Err::<SparseMultivecRerankIndex<I>, E>(error),
                },
    {
        match read() {
            Ok(index) => Ok(SparseMultivecRerankIndex { index }),
            Err(error) => Err(error),
        }
    }

    /// The approximate `k` nearest neighbors of one query, padded to `k`. How many
    /// tokens the query has follows from its length.
    pub fn search<T, F>(
        &self,
        query_components: &[i32],
        query_values: &[T],
        multivec_query: &[T],
        token_dim: usize,
        k_candidates: usize,
        k: usize,
        ef_search: usize,
        alpha: Option<T>,
        beta: Option<usize>,
        early_exit_threshold: Option<T>,
        residuals: bool,
        infinity: T,
        search: &F,
    ) -> (found: Result<(Vec<T>, Vec<i64>), IndexError>) where
        T: Copy,
        F: Fn(&I, &[u16], &[T], &[T], usize, usize, &RerankParams<T>) -> Vec<ScoredVector<T>>,

        requires
            crate::sparse_query::all_fit(query_components@) ==> query_components@.len()
                == query_values@.len(),
            accepts_multi(
                *search,
                &self.spec_index(),
                token_dim,
                k,
                &crate::rerank_dense::rerank_params_spec(
                    k_candidates,
                    ef_search,
                    alpha,
                    beta,
                    early_exit_threshold,
                    None,
                    residuals,
                ),
            ),
        ensures
            !crate::sparse_query::all_fit(query_components@) <==> found is Err,
            match found {
                Ok(packed) => exists|reply: Vec<ScoredVector<T>>| #[trigger]
                    answers_multi(
                        *search,
                        &self.spec_index(),
                        crate::sparse_query::narrowed(query_components@),
                        query_values@,
                        multivec_query@,
                        token_dim,
                        k,
                        &crate::rerank_dense::rerank_params_spec(
                            k_candidates,
                            ef_search,
                            alpha,
                            beta,
                            early_exit_threshold,
                            None,
                            residuals,
                        ),
                        reply,
                    ) && crate::query::packs_one(reply@, k as nat, infinity, packed),
                Err(error) => error == IndexError::ComponentOutOfRange,
            },
    {
        let params = rerank_params(
            k_candidates,
            ef_search,
            alpha,
            beta,
            early_exit_threshold,
            None,
            residuals,
        );
        search_multi(
            &self.index,
            query_components,
            query_values,
            multivec_query,
            token_dim,
            k,
            &params,
            infinity,
            search,
        )
    }

    /// The approximate `k` nearest neighbors of every query of a batch, each padded
    /// to `k`.
    pub fn batch_search<T, F>(
        &self,
        query_components: &[i32],
        query_values: &[T],
        sparse_offsets: &[i64],
        multivec_queries: &[T],
        n_tokens: usize,
        token_dim: usize,
        k_candidates: usize,
        k: usize,
        ef_search: usize,
        alpha: Option<T>,
        beta: Option<usize>,
        early_exit_threshold: Option<T>,
        residuals: bool,
        infinity: T,
        search: &F,
    ) -> (found: Result<(Vec<T>, Vec<i64>), IndexError>) where
        T: Copy,
        F: Fn(&I, &[u16], &[T], &[T], usize, usize, &RerankParams<T>) -> Vec<ScoredVector<T>>,

        requires
            crate::sparse_query::all_fit(query_components@) ==> n_tokens * token_dim <= usize::MAX
                && is_multi_batch(
                sparse_offsets@,
                query_components@.len(),
                query_values@.len(),
                multivec_queries@.len(),
                (n_tokens * token_dim) as nat,
            ),
            accepts_multi(
                *search,
                &self.spec_index(),
                token_dim,
                k,
                &crate::rerank_dense::rerank_params_spec(
                    k_candidates,
                    ef_search,
                    alpha,
                    beta,
                    early_exit_threshold,
                    None,
                    residuals,
                ),
            ),
        ensures
            !crate::sparse_query::all_fit(query_components@) <==> found is Err,
            match found {
                Ok(packed) => exists|replies: Seq<Vec<ScoredVector<T>>>| #[trigger]
                    answers_multi_batch(
                        *search,
                        &self.spec_index(),
                        crate::sparse_query::narrowed(query_components@),
                        query_values@,
                        sparse_offsets@,
                        multivec_queries@,
                        (n_tokens * token_dim) as nat,
                        token_dim,
                        k,
                        &crate::rerank_dense::rerank_params_spec(
                            k_candidates,
                            ef_search,
                            alpha,
                            beta,
                            early_exit_threshold,
                            None,
                            residuals,
                        ),
                        replies,
                    ) && crate::query::packs(replies, k as nat, infinity, packed),
                Err(error) => error == IndexError::ComponentOutOfRange,
            },
    {
        let params = rerank_params(
            k_candidates,
            ef_search,
            alpha,
            beta,
            early_exit_threshold,
            None,
            residuals,
        );
        search_multi_batch(
            &self.index,
            query_components,
            query_values,
            sparse_offsets,
            multivec_queries,
            n_tokens,
            token_dim,
            k,
            &params,
            infinity,
            search,
        )
    }
}

/// A sparse first stage with multivectors of two-level codes for reranking.
pub struct SparseMultivecTwoLevelsPQRerankIndex<I> {
    pq_subspaces: usize,
    stages: SparseMultivecRerankIndex<I>,
}

impl<I> SparseMultivecTwoLevelsPQRerankIndex<I> {
    pub closed spec fn spec_subspaces(self) -> usize {
        self.pq_subspaces
    }

    pub closed spec fn spec_index(self) -> I {
        self.stages.spec_index()
    }

    pub open spec fn wf(self) -> bool {
        crate::multivec::supported_two_level(self.spec_subspaces())
    }

    pub fn index(&self) -> (index: &I)
        ensures
            *index == self.spec_index(),
    {
        self.stages.index()
    }

    pub fn pq_subspaces(&self) -> (m: usize)
        ensures
            m == self.spec_subspaces(),
    {
        self.pq_subspaces
    }

    /// Writes both stages with `write`.
    pub fn save<E, W: FnOnce(&I) -> Result<(), E>>(&self, write: W) -> (saved: Result<(), E>)
        requires
            call_requires(write, (&self.spec_index(),)),
        ensures
            call_ensures(write, (&self.spec_index(),), saved),
    {
        write(self.stages.index())
    }

    /// Pairs the first stage that `load_sparse` loads with the dataset that
    /// `load_multivec` rebuilds for the given number of subspaces.
    pub fn build_from_file<E, H, D, L, M, X>(
        pq_subspaces: usize,
        load_sparse: L,
        load_multivec: M,
        pair: X,
    ) -> (built: Result<SparseMultivecTwoLevelsPQRerankIndex<I>, BuildError<E>>) where
        L: FnOnce() -> Result<H, E>,
        M: FnOnce(usize) -> Result<D, BuildError<E>>,
        X: FnOnce(H, D) -> I,

        requires
            call_requires(load_sparse, ()),
            crate::multivec::supported_two_level(pq_subspaces) ==> call_requires(
                load_multivec,
                (pq_subspaces,),
            ),
            forall|first: H, second: D|
                call_ensures(load_sparse, (), Ok(first)) && call_ensures(
                    load_multivec,
                    (pq_subspaces,),
                    Ok(second),
                ) ==> #[trigger] call_requires(pair, (first, second)),
        ensures
            exists|l: Result<H, E>|
                {
                    &&& #[trigger] call_ensures(load_sparse, (), l)
                    &&& match l {
                        Err(error) => built == Err::<
                            SparseMultivecTwoLevelsPQRerankIndex<I>,
                            BuildError<E>,
                        >(BuildError::Io(error)),
                        Ok(first) => if !crate::multivec::supported_two_level(pq_subspaces) {
                            built == Err::<
                                SparseMultivecTwoLevelsPQRerankIndex<I>,
                                BuildError<E>,
                            >(
                                BuildError::Invalid(
                                    IndexError::UnsupportedSubspaces { m: pq_subspaces },
                                ),
                            )
                        } else {
                            exists|m: Result<D, BuildError<E>>|
                                {
                                    &&& #[trigger] call_ensures(load_multivec, (pq_subspaces,), m)
                                    &&& match m {
                                        Err(error) => built == Err::<
                                            SparseMultivecTwoLevelsPQRerankIndex<I>,
                                            BuildError<E>,
                                        >(error),
                                        Ok(second) => built matches Ok(index) && index.wf()
                                            && index.spec_subspaces() == pq_subspaces
                                            && call_ensures(
                                            pair,
                                            (first, second),
                                            index.spec_index(),
                                        ),
                                    }
                                }
                        },
                    }
                },
    {
        match load_sparse() {
            Err(error) => Err(BuildError::Io(error)),
            Ok(first) => {
                assert(call_ensures(load_sparse, (), Ok(first)));
                if !supports_two_level(pq_subspaces) {
                    return Err(
                        BuildError::Invalid(IndexError::UnsupportedSubspaces { m: pq_subspaces }),
                    );
                }
                match load_multivec(pq_subspaces) {
                    Err(error) => {
                        assert(call_ensures(load_multivec, (pq_subspaces,), Err(error)));
                        Err(error)
                    },
                    Ok(second) => {
                        assert(call_ensures(load_multivec, (pq_subspaces,), Ok(second)));
                        let index: I = pair(first, second);
                        Ok(
                            SparseMultivecTwoLevelsPQRerankIndex {
                                pq_subspaces,
                                stages: SparseMultivecRerankIndex { index },
                            },
                        )
                    },
                }
            },
        }
    }

    /// The index that `read` reads back, with the number of subspaces it was built
    /// with.
    pub fn load<E, R: FnOnce() -> Result<I, E>>(pq_subspaces: usize, read: R) -> (loaded: Result<
        SparseMultivecTwoLevelsPQRerankIndex<I>,
        BuildError<E>,
    >)
        requires
            call_requires(read, ()),
        ensures
            exists|out: Result<I, E>|
                {
                    &&& #[trigger] call_ensures(read, (), out)
                    &&& match out {
                        Err(error) => loaded == Err::<
                            SparseMultivecTwoLevelsPQRerankIndex<I>,
                            BuildError<E>,
                        >(BuildError::Io(error)),
                        Ok(index) => if crate::multivec::supported_two_level(pq_subspaces) {
                            loaded matches Ok(l) && l.wf() && l.spec_subspaces() == pq_subspaces
                                && l.spec_index() == index
                        } else {
                            loaded == Err::<
                                SparseMultivecTwoLevelsPQRerankIndex<I>,
                                BuildError<E>,
                            >(
                                BuildError::Invalid(
                                    IndexError::UnsupportedSubspaces { m: pq_subspaces },
                                ),
                            )
                        },
                    }
                },
    {
        match read() {
            Err(error) => Err(BuildError::Io(error)),
            Ok(index) => {
                assert(call_ensures(read, (), Ok(index)));
                if supports_two_level(pq_subspaces) {
                    Ok(
                        SparseMultivecTwoLevelsPQRerankIndex {
                            pq_subspaces,
                            stages: SparseMultivecRerankIndex { index },
                        },
                    )
                } else {
                    Err(BuildError::Invalid(IndexError::UnsupportedSubspaces { m: pq_subspaces }))
                }
            },
        }
    }

    /// The approximate `k` nearest neighbors of one query, padded to `k`. How many
    /// tokens the query has follows from its length.
    pub fn search<T, F>(
        &self,
        query_components: &[i32],
        query_values: &[T],
        multivec_query: &[T],
        token_dim: usize,
        k_candidates: usize,
        k: usize,
        ef_search: usize,
        alpha: Option<T>,
        beta: Option<usize>,
        early_exit_threshold: Option<T>,
        residuals: bool,
        infinity: T,
        search: &F,
    ) -> (found: Result<(Vec<T>, Vec<i64>), IndexError>) where
        T: Copy,
        F: Fn(&I, &[u16], &[T], &[T], usize, usize, &RerankParams<T>) -> Vec<ScoredVector<T>>,

        requires
            crate::sparse_query::all_fit(query_components@) ==> query_components@.len()
                == query_values@.len(),
            accepts_multi(
                *search,
                &self.spec_index(),
                token_dim,
                k,
                &crate::rerank_dense::rerank_params_spec(
                    k_candidates,
                    ef_search,
                    alpha,
                    beta,
                    early_exit_threshold,
                    None,
                    residuals,
                ),
            ),
        ensures
            !crate::sparse_query::all_fit(query_components@) <==> found is Err,
            match found {
                Ok(packed) => exists|reply: Vec<ScoredVector<T>>| #[trigger]
                    answers_multi(
                        *search,
                        &self.spec_index(),
                        crate::sparse_query::narrowed(query_components@),
                        query_values@,
                        multivec_query@,
                        token_dim,
                        k,
                        &crate::rerank_dense::rerank_params_spec(
                            k_candidates,
                            ef_search,
                            alpha,
                            beta,
                            early_exit_threshold,
                            None,
                            residuals,
                        ),
                        reply,
                    ) && crate::query::packs_one(reply@, k as nat, infinity, packed),
                Err(error) => error == IndexError::ComponentOutOfRange,
            },
    {
        self.stages.search(
            query_components,
            query_values,
            multivec_query,
            token_dim,
            k_candidates,
            k,
            ef_search,
            alpha,
            beta,
            early_exit_threshold,
            residuals,
            infinity,
            search,
        )
    }

    /// The approximate `k` nearest neighbors of every query of a batch, each padded
    /// to `k`.
    pub fn batch_search<T, F>(
        &self,
        query_components: &[i32],
        query_values: &[T],
        sparse_offsets: &[i64],
        multivec_queries: &[T],
        n_tokens: usize,
        token_dim: usize,
        k_candidates: usize,
        k: usize,
        ef_search: usize,
        alpha: Option<T>,
        beta: Option<usize>,
        early_exit_threshold: Option<T>,
        residuals: bool,
        infinity: T,
        search: &F,
    ) -> (found: Result<(Vec<T>, Vec<i64>), IndexError>) where
        T: Copy,
        F: Fn(&I, &[u16], &[T], &[T], usize, usize, &RerankParams<T>) -> Vec<ScoredVector<T>>,

        requires
            crate::sparse_query::all_fit(query_components@) ==> n_tokens * token_dim <= usize::MAX
                && is_multi_batch(
                sparse_offsets@,
                query_components@.len(),
                query_values@.len(),
                multivec_queries@.len(),
                (n_tokens * token_dim) as nat,
            ),
            accepts_multi(
                *search,
                &self.spec_index(),
                token_dim,
                k,
                &crate::rerank_dense::rerank_params_spec(
                    k_candidates,
                    ef_search,
                    alpha,
                    beta,
                    early_exit_threshold,
                    None,
                    residuals,
                ),
            ),
        ensures
            !crate::sparse_query::all_fit(query_components@) <==> found is Err,
            match found {
                Ok(packed) => exists|replies: Seq<Vec<ScoredVector<T>>>| #[trigger]
                    answers_multi_batch(
                        *search,
                        &self.spec_index(),
                        crate::sparse_query::narrowed(query_components@),
                        query_values@,
                        sparse_offsets@,
                        multivec_queries@,
                        (n_tokens * token_dim) as nat,
                        token_dim,
                        k,
                        &crate::rerank_dense::rerank_params_spec(
                            k_candidates,
                            ef_search,
                            alpha,
                            beta,
                            early_exit_threshold,
                            None,
                            residuals,
                        ),
                        replies,
                    ) && crate::query::packs(replies, k as nat, infinity, packed),
                Err(error) => error == IndexError::ComponentOutOfRange,
            },
    {
        self.stages.batch_search(
            query_components,
            query_values,
            sparse_offsets,
            multivec_queries,
            n_tokens,
            token_dim,
            k_candidates,
            k,
            ef_search,
            alpha,
            beta,
            early_exit_threshold,
            residuals,
            infinity,
            search,
        )
    }
}

} // verus!
