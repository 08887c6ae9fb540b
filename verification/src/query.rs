//! Single queries and batches of queries against an index.
//!
//! The index is opaque here: a function searches it for one query, and the
//! functions below check queries, cut batches into queries, and pack what comes
//! back.

use crate::error::IndexError;
use crate::ranking::ScoredVector;
use crate::results::{pack_results, push_results};
use vstd::prelude::*;

verus! {

/// When a search of a graph stops early.
#[derive(Debug)]
pub enum EarlyTerminationStrategy<T> {
    Disabled,
    DistanceAdaptive { lambda: T },
}

/// Search parameters of a graph index; `P` are the parameters of its encoder.
pub struct HNSWSearchConfiguration<T, P> {
    pub ef_search: usize,
    pub early_termination: EarlyTerminationStrategy<T>,
    pub query_params: P,
}

/// Build parameters of a graph index.
#[derive(Clone, Copy, Debug, PartialEq, Eq, Structural)]
pub struct HNSWBuildConfiguration {
    pub num_neighbors: usize,
    pub ef_construction: usize,
}

pub open spec fn adaptive_spec<T>(threshold: Option<T>) -> EarlyTerminationStrategy<T> {
    match threshold {
        Some(lambda) => EarlyTerminationStrategy::DistanceAdaptive { lambda },
        None => EarlyTerminationStrategy::Disabled,
    }
}

pub open spec fn configured_spec<T, P>(
    ef_search: usize,
    threshold: Option<T>,
    query_params: P,
) -> HNSWSearchConfiguration<T, P> {
    HNSWSearchConfiguration {
        ef_search,
        early_termination: adaptive_spec(threshold),
        query_params,
    }
}

/// Search parameters that stop adaptively where a threshold is given.
pub fn configured<T, P>(ef_search: usize, threshold: Option<T>, query_params: P) -> (config:
    HNSWSearchConfiguration<T, P>)
    ensures
        config == configured_spec(ef_search, threshold, query_params),
{
    let early_termination = match threshold {
        Some(lambda) => EarlyTerminationStrategy::DistanceAdaptive { lambda },
        None => EarlyTerminationStrategy::Disabled,
    };
    HNSWSearchConfiguration { ef_search, early_termination, query_params }
}

/// How the queries of a batch are shared out.
#[derive(Clone, Copy, Debug, PartialEq, Eq, Structural)]
pub enum ThreadModel {
    /// The default thread pool.
    DefaultPool,
    /// One query after the other, without a pool.
    Serial,
    /// A pool of this many threads for the batch alone.
    Pool(usize),
}

pub open spec fn thread_model_spec(num_threads: usize) -> ThreadModel {
    if num_threads == 0 {
        ThreadModel::DefaultPool
    } else if num_threads == 1 {
        ThreadModel::Serial
    } else {
        ThreadModel::Pool(num_threads)
    }
}

/// How the queries of a batch are shared out over `num_threads` threads.
pub fn thread_model(num_threads: usize) -> (model: ThreadModel)
    ensures
        model == thread_model_spec(num_threads),
{
    if num_threads == 0 {
        ThreadModel::DefaultPool
    } else if num_threads == 1 {
        ThreadModel::Serial
    } else {
        ThreadModel::Pool(num_threads)
    }
}

/// Whether `reply` is what `search` returns for the query `q`.
pub open spec fn answers<I, T, C, F>(
    search: F,
    index: &I,
    q: Seq<T>,
    k: usize,
    config: &C,
    reply: Vec<ScoredVector<T>>,
) -> bool where F: Fn(&I, &[T], usize, &C) -> Vec<ScoredVector<T>> {
    exists|s: &[T]| s@ == q && #[trigger] call_ensures(search, (index, s, k, config), reply)
}

/// Query `i` of a batch.
pub open spec fn query_at<T>(queries: Seq<T>, dim: nat, i: int) -> Seq<T> {
    queries.subrange(i * dim, i * dim + dim)
}

/// Whether `search` accepts every query of `dim` values.
pub open spec fn accepts<I, T, C, F>(search: F, index: &I, dim: nat, k: usize, config: &C) -> bool where
    F: Fn(&I, &[T], usize, &C) -> Vec<ScoredVector<T>>,
 {
    forall|s: &[T]| s@.len() == dim ==> #[trigger] call_requires(search, (index, s, k, config))
}

/// Whether `replies` are what `search` returns for the queries of a batch.
pub open spec fn answers_batch<I, T, C, F>(
    search: F,
    index: &I,
    queries: Seq<T>,
    dim: nat,
    k: usize,
    config: &C,
    replies: Seq<Vec<ScoredVector<T>>>,
) -> bool where F: Fn(&I, &[T], usize, &C) -> Vec<ScoredVector<T>> {
    &&& replies.len() == queries.len() / dim
    &&& forall|i: int|
        0 <= i < replies.len() ==> answers(
            search,
            index,
            query_at(queries, dim, i),
            k,
            config,
            #[trigger] replies[i],
        )
}

/// Whether `packed` holds `replies`, query after query, each padded to `k`.
pub open spec fn packs<T>(
    replies: Seq<Vec<ScoredVector<T>>>,
    k: nat,
    infinity: T,
    packed: (Vec<T>, Vec<i64>),
) -> bool {
    &&& packed.0@ == crate::results::batch_distances(replies, k, infinity)
    &&& packed.1@ == crate::results::batch_ids(replies, k)
}

/// Whether `packed` holds one reply, padded to `k`.
pub open spec fn packs_one<T>(
    reply: Seq<ScoredVector<T>>,
    k: nat,
    infinity: T,
    packed: (Vec<T>, Vec<i64>),
) -> bool {
    &&& packed.0@ == crate::results::padded_distances(reply, k, infinity)
    &&& packed.1@ == crate::results::padded_ids(reply, k)
}

/// Searches `index` for one query of exactly `dim` values.
pub fn search_dense<I, T, C, F>(
    index: &I,
    dim: usize,
    query: &[T],
    k: usize,
    config: &C,
    infinity: T,
    search: &F,
) -> (found: Result<(Vec<T>, Vec<i64>), IndexError>) where
    T: Copy,
    F: Fn(&I, &[T], usize, &C) -> Vec<ScoredVector<T>>,

    requires
        accepts(*search, index, dim as nat, k, config),
    ensures
        query@.len() != dim <==> found is Err,
        match found {
            Ok(packed) => exists|reply: Vec<ScoredVector<T>>| #[trigger]
                answers(*search, index, query@, k, config, reply) && packs_one(
                    reply@,
                    k as nat,
                    infinity,
                    packed,
                ),
            Err(error) => error == (IndexError::QueryDimension { got: query.len(), dim }),
        },
{
    if query.len() != dim {
        return Err(IndexError::QueryDimension { got: query.len(), dim });
    }
    assert(call_requires(*search, (index, query, k, config)));
    let reply: Vec<ScoredVector<T>> = search(index, query, k, config);
    assert(answers(*search, index, query@, k, config, reply));
    Ok(pack_results(reply.as_slice(), k, infinity))
}

/// How many whole queries of `dim` values `len` values make up.
pub fn count_queries(len: usize, dim: usize) -> (count: Result<usize, IndexError>)
    requires
        dim > 0,
    ensures
        len % dim != 0 <==> count is Err,
        match count {
            Ok(n) => n == len / dim && n * dim == len,
            Err(error) => error == (IndexError::QueriesLength { len, dim }),
        },
{
    if len % dim != 0 {
        return Err(IndexError::QueriesLength { len, dim });
    }
    assert((len / dim) * dim == len) by {
        vstd::arithmetic::div_mod::lemma_fundamental_div_mod(len as int, dim as int);
        vstd::arithmetic::mul::lemma_mul_is_commutative(dim as int, len as int / dim as int);
    }
    Ok(len / dim)
}

/// Searches `index` for query `i` of a batch.
pub fn search_nth<I, T, C, F>(
    index: &I,
    dim: usize,
    queries: &[T],
    i: usize,
    k: usize,
    config: &C,
    infinity: T,
    search: &F,
) -> (packed: (Vec<T>, Vec<i64>)) where
    T: Copy,
    F: Fn(&I, &[T], usize, &C) -> Vec<ScoredVector<T>>,

    requires
        (i + 1) * dim <= queries@.len(),
        accepts(*search, index, dim as nat, k, config),
    ensures
        exists|reply: Vec<ScoredVector<T>>| #[trigger]
            answers(*search, index, query_at(queries@, dim as nat, i as int), k, config, reply)
                && packs_one(reply@, k as nat, infinity, packed),
{
    proof {
        crate::dense::lemma_row(i as int, dim as int, i + 1);
        assert(queries@.len() == queries.len());
    }
    let start: usize = i * dim;
    let query = vstd::slice::slice_subrange(queries, start, start + dim);
    assert(call_requires(*search, (index, query, k, config)));
    let reply: Vec<ScoredVector<T>> = search(index, query, k, config);
    assert(answers(*search, index, query_at(queries@, dim as nat, i as int), k, config, reply));
    pack_results(reply.as_slice(), k, infinity)
}

/// Searches `index` for every query of a batch.
pub fn search_dense_batch<I, T, C, F>(
    index: &I,
    dim: usize,
    queries: &[T],
    k: usize,
    config: &C,
    infinity: T,
    search: &F,
) -> (found: Result<(Vec<T>, Vec<i64>), IndexError>) where
    T: Copy,
    F: Fn(&I, &[T], usize, &C) -> Vec<ScoredVector<T>>,

    requires
        dim > 0,
        accepts(*search, index, dim as nat, k, config),
    ensures
        queries@.len() % (dim as nat) != 0 <==> found is Err,
        match found {
            Ok(packed) => exists|replies: Seq<Vec<ScoredVector<T>>>| #[trigger]
                answers_batch(*search, index, queries@, dim as nat, k, config, replies) && packs(
                    replies,
                    k as nat,
                    infinity,
                    packed,
                ),
            Err(error) => error == (IndexError::QueriesLength { len: queries.len(), dim }),
        },
{
    let n: usize = match count_queries(queries.len(), dim) {
        Ok(n) => n,
        Err(error) => {
            return Err(error);
        },
    };
    let ghost mut replies: Seq<Vec<ScoredVector<T>>> = Seq::empty();
    let mut distances: Vec<T> = Vec::new();
    let mut ids: Vec<i64> = Vec::new();
    proof {
        assert(crate::results::batch_distances(replies, k as nat, infinity) =~= Seq::empty());
        assert(crate::results::batch_ids(replies, k as nat) =~= Seq::empty());
    }
    let mut i: usize = 0;
    while i < n
        invariant
            i <= n,
            n * dim == queries@.len(),
            accepts(*search, index, dim as nat, k, config),
            replies.len() == i,
            forall|j: int|
                0 <= j < i ==> answers(
                    *search,
                    index,
                    query_at(queries@, dim as nat, j),
                    k,
                    config,
                    #[trigger] replies[j],
                ),
            distances@ == crate::results::batch_distances(replies, k as nat, infinity),
            ids@ == crate::results::batch_ids(replies, k as nat),
        decreases n - i,
    {
        proof {
            crate::dense::lemma_row(i as int, dim as int, n as int);
            assert(queries@.len() == queries.len());
        }
        let start: usize = i * dim;
        let query = vstd::slice::slice_subrange(queries, start, start + dim);
        assert(call_requires(*search, (index, query, k, config)));
        let reply: Vec<ScoredVector<T>> = search(index, query, k, config);
        push_results(reply.as_slice(), k, infinity, &mut distances, &mut ids);
        proof {
            assert(answers(*search, index, query_at(queries@, dim as nat, i as int), k, config, reply));
            crate::results::lemma_batch_push(replies, reply, k as nat, infinity);
            replies = replies.push(reply);
        }
        i = i + 1;
    }
    assert(answers_batch(*search, index, queries@, dim as nat, k, config, replies));
    Ok((distances, ids))
}

/// Replies packed one by one and then put one after the other are the packed batch.
pub proof fn law_packed_one_by_one<T>(
    replies: Seq<Vec<ScoredVector<T>>>,
    parts: Seq<(Vec<T>, Vec<i64>)>,
    k: nat,
    infinity: T,
)
    requires
        replies.len() == parts.len(),
        forall|i: int|
            0 <= i < parts.len() ==> packs_one(replies[i]@, k, infinity, #[trigger] parts[i]),
    ensures
        parts.map_values(|p: (Vec<T>, Vec<i64>)| p.0@).flatten() == crate::results::batch_distances(
            replies,
            k,
            infinity,
        ),
        parts.map_values(|p: (Vec<T>, Vec<i64>)| p.1@).flatten() == crate::results::batch_ids(replies, k),
{
    assert forall|i: int| 0 <= i < parts.len() implies (#[trigger] parts[i]).0@
        == crate::results::padded_distances(replies[i]@, k, infinity) by {
        assert(packs_one(replies[i]@, k, infinity, parts[i]));
    }
    assert forall|i: int| 0 <= i < parts.len() implies (#[trigger] parts[i]).1@
        == crate::results::padded_ids(replies[i]@, k) by {
        assert(packs_one(replies[i]@, k, infinity, parts[i]));
    }
    assert(parts.map_values(|p: (Vec<T>, Vec<i64>)| p.0@) =~= replies.map_values(
        |r: Vec<ScoredVector<T>>| crate::results::padded_distances(r@, k, infinity),
    ));
    assert(parts.map_values(|p: (Vec<T>, Vec<i64>)| p.1@) =~= replies.map_values(
        |r: Vec<ScoredVector<T>>| crate::results::padded_ids(r@, k),
    ));
}

} // verus!
