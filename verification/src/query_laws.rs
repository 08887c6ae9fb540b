//! What comes back from a search: which queries reach the index, with which settings,
//! and where each result stands in the reply.

use crate::error::IndexError;
use crate::flat::{DenseFlatIndex, SparseFlatIndex};
use crate::hnsw::{DensePlainHNSW, Eligibility};
use crate::query::{
    configured, count_queries, search_dense, search_dense_batch, search_nth, thread_model,
    EarlyTerminationStrategy, HNSWSearchConfiguration, ThreadModel,
};
use crate::ranking::ScoredVector;
use crate::rerank_dense::{rerank_params, DenseRerankHNSW, RerankParams};
use crate::rerank_multivec::{
    search_multi, search_multi_batch, search_multi_nth, SparseMultivecRerankIndex,
    SparseMultivecTwoLevelsPQRerankIndex,
};
use crate::results::{concat_packed, pack_results, padded_distances, padded_ids, push_results};
use crate::sparse_query::{search_sparse, search_sparse_batch, search_sparse_nth};
use vstd::prelude::*;

verus! {

/// Whether the `k` entries from `at` show a reply: each result in its place, and behind
/// the last one nothing but `infinity` and -1.
pub open spec fn shows<T>(
    reply: Seq<ScoredVector<T>>,
    k: int,
    infinity: T,
    distances: Seq<T>,
    ids: Seq<i64>,
    at: int,
) -> bool {
    &&& forall|j: int| 0 <= j < k && j < reply.len() ==> #[trigger] distances[at + j] == reply[j].distance
    &&& forall|j: int| 0 <= j < k && j < reply.len() ==> #[trigger] ids[at + j] == reply[j].vector as i64
    &&& forall|j: int| reply.len() <= j < k ==> #[trigger] distances[at + j] == infinity
    &&& forall|j: int| reply.len() <= j < k ==> #[trigger] ids[at + j] == -1
}

/// Results that were found come back, each in its place; what is missing up to `k` is
/// filled up, and nothing comes back beyond it.
pub proof fn law_found_results_come_back<T: Copy>(
    results: &[ScoredVector<T>],
    k: usize,
    infinity: T,
    packed: (Vec<T>, Vec<i64>),
)
    requires
        call_ensures(pack_results::<T>, (results, k, infinity), packed),
    ensures
        packed.0@.len() == k,
        packed.1@.len() == k,
        forall|j: int| 0 <= j < k && j < results@.len() ==> #[trigger] packed.0@[j] == results@[j].distance,
        forall|j: int| 0 <= j < k && j < results@.len() ==> #[trigger] packed.1@[j] == results@[j].vector as i64,
        forall|j: int| results@.len() <= j < k ==> #[trigger] packed.0@[j] == infinity,
        forall|j: int| results@.len() <= j < k ==> #[trigger] packed.1@[j] == -1,
{
}

/// What is appended for one reply shows all of its results up to `k`.
pub proof fn law_padding_keeps_results<T>(results: Seq<ScoredVector<T>>, k: nat, infinity: T, j: int)
    requires
        0 <= j < k,
    ensures
        padded_distances(results, k, infinity).len() == k,
        padded_ids(results, k).len() == k,
        j < results.len() ==> padded_distances(results, k, infinity)[j] == results[j].distance,
        j < results.len() ==> padded_ids(results, k)[j] == results[j].vector as i64,
        j >= results.len() ==> padded_distances(results, k, infinity)[j] == infinity,
        j >= results.len() ==> padded_ids(results, k)[j] == -1,
{
}

/// Packed replies are put in a row as they are: entry `j` of part `q` comes behind all
/// entries of the parts before it.
pub proof fn law_parts_are_put_in_a_row<T: Copy>(
    parts: &[(Vec<T>, Vec<i64>)],
    all: (Vec<T>, Vec<i64>),
    k: nat,
)
    requires
        call_ensures(concat_packed::<T>, (parts,), all),
        forall|q: int| 0 <= q < parts@.len() ==> (#[trigger] parts@[q]).0@.len() == k && parts@[q].1@.len() == k,
    ensures
        all.0@.len() == parts@.len() * k,
        all.1@.len() == parts@.len() * k,
        forall|q: int, j: int|
            0 <= q < parts@.len() && 0 <= j < k ==> #[trigger] all.0@[q * k + j] == parts@[q].0@[j],
        forall|q: int, j: int|
            0 <= q < parts@.len() && 0 <= j < k ==> #[trigger] all.1@[q * k + j] == parts@[q].1@[j],
{
    let ds = parts@.map_values(|p: (Vec<T>, Vec<i64>)| p.0@);
    let is = parts@.map_values(|p: (Vec<T>, Vec<i64>)| p.1@);
    crate::results::lemma_flatten_uniform(ds, k);
    crate::results::lemma_flatten_uniform(is, k);
}

/// Whether search parameters are the ones given: adaptive early termination exactly
/// where there is a threshold, with that threshold.
pub open spec fn carries<T, P>(
    config: HNSWSearchConfiguration<T, P>,
    ef_search: usize,
    threshold: Option<T>,
    query_params: P,
) -> bool {
    &&& config.ef_search == ef_search
    &&& config.query_params == query_params
    &&& config.early_termination is Disabled <==> threshold is None
    &&& config.early_termination matches EarlyTerminationStrategy::DistanceAdaptive { lambda } ==> threshold == Some(
        lambda,
    )
}

/// Whether the parameters of a two-stage search are the ones given.
pub open spec fn carries_all<T>(
    params: RerankParams<T>,
    k_candidates: usize,
    ef_search: usize,
    alpha: Option<T>,
    beta: Option<usize>,
    threshold: Option<T>,
    query_bits: Option<u32>,
    residuals: bool,
) -> bool {
    &&& params.k_candidates == k_candidates
    &&& params.alpha == alpha
    &&& params.beta == beta
    &&& params.residuals == residuals
    &&& params.first_stage.ef_search == ef_search
    &&& params.first_stage.query_params == query_bits
    &&& params.first_stage.early_termination is Disabled <==> threshold is None
    &&& params.first_stage.early_termination matches EarlyTerminationStrategy::DistanceAdaptive { lambda }
        ==> threshold == Some(lambda)
}

/// Search parameters are handed on as they are given.
pub proof fn law_parameters_are_handed_on<T, P>(
    ef_search: usize,
    threshold: Option<T>,
    query_params: P,
    config: HNSWSearchConfiguration<T, P>,
)
    requires
        call_ensures(configured::<T, P>, (ef_search, threshold, query_params), config),
    ensures
        config.ef_search == ef_search,
        config.query_params == query_params,
        config.early_termination is DistanceAdaptive <==> threshold is Some,
        config.early_termination matches EarlyTerminationStrategy::DistanceAdaptive { lambda } ==> threshold == Some(
            lambda,
        ),
{
}

/// The parameters of a two-stage search are handed on as they are given.
pub proof fn law_rerank_parameters_are_handed_on<T>(
    k_candidates: usize,
    ef_search: usize,
    alpha: Option<T>,
    beta: Option<usize>,
    threshold: Option<T>,
    query_bits: Option<u32>,
    residuals: bool,
    params: RerankParams<T>,
)
    requires
        call_ensures(
            rerank_params::<T>,
            (k_candidates, ef_search, alpha, beta, threshold, query_bits, residuals),
            params,
        ),
    ensures
        params.k_candidates == k_candidates,
        params.alpha == alpha,
        params.beta == beta,
        params.residuals == residuals,
        params.first_stage.ef_search == ef_search,
        params.first_stage.query_params == query_bits,
        params.first_stage.early_termination is DistanceAdaptive <==> threshold is Some,
        params.first_stage.early_termination matches EarlyTerminationStrategy::DistanceAdaptive { lambda }
            ==> threshold == Some(lambda),
{
}

/// No number of threads asks for the default pool, one for none at all, and any other
/// for a pool of that size.
pub proof fn law_thread_models(num_threads: usize, model: ThreadModel)
    requires
        call_ensures(thread_model, (num_threads,), model),
    ensures
        model is DefaultPool <==> num_threads == 0,
        model is Serial <==> num_threads == 1,
        model is Pool <==> num_threads >= 2,
        model matches ThreadModel::Pool(threads) ==> threads == num_threads,
{
}

/// Whether `reply` is what `search` returns for query `q` of queries of `dim` values.
pub open spec fn replies_to<I, T, C, F>(
    search: F,
    index: &I,
    queries: Seq<T>,
    dim: int,
    q: int,
    k: usize,
    config: &C,
    reply: Vec<ScoredVector<T>>,
) -> bool where F: Fn(&I, &[T], usize, &C) -> Vec<ScoredVector<T>> {
    exists|s: &[T]|
        {
            &&& s@.len() == dim
            &&& forall|d: int| 0 <= d < dim ==> s@[d] == #[trigger] queries[q * dim + d]
            &&& #[trigger] call_ensures(search, (index, s, k, config), reply)
        }
}

/// Whether a packed batch shows what `search` returns for query `q`, behind the `q * k`
/// entries of the queries before it.
pub open spec fn shows_nth<I, T, C, F>(
    search: F,
    index: &I,
    queries: Seq<T>,
    dim: nat,
    q: int,
    k: usize,
    config: &C,
    infinity: T,
    packed: (Vec<T>, Vec<i64>),
) -> bool where F: Fn(&I, &[T], usize, &C) -> Vec<ScoredVector<T>> {
    exists|reply: Vec<ScoredVector<T>>| #[trigger]
        replies_to(search, index, queries, dim as int, q, k, config, reply) && shows(
            reply@,
            k as int,
            infinity,
            packed.0@,
            packed.1@,
            q * k,
        )
}

/// Whether a packed batch shows, query after query, what `search` returns for each of
/// the queries.
pub open spec fn shows_batch<I, T, C, F>(
    search: F,
    index: &I,
    queries: Seq<T>,
    dim: nat,
    k: usize,
    config: &C,
    infinity: T,
    packed: (Vec<T>, Vec<i64>),
) -> bool where F: Fn(&I, &[T], usize, &C) -> Vec<ScoredVector<T>> {
    exists|n: nat|
        {
            &&& #[trigger] (n * dim) == queries.len()
            &&& packed.0@.len() == n * k
            &&& packed.1@.len() == n * k
            &&& forall|q: int|
                0 <= q < n ==> #[trigger] shows_nth(search, index, queries, dim, q, k, config, infinity, packed)
        }
}

/// Whether a packed reply shows what `search` returns for one query.
pub open spec fn shows_one<I, T, C, F>(
    search: F,
    index: &I,
    query: Seq<T>,
    k: usize,
    config: &C,
    infinity: T,
    packed: (Vec<T>, Vec<i64>),
) -> bool where F: Fn(&I, &[T], usize, &C) -> Vec<ScoredVector<T>> {
    &&& packed.0@.len() == k
    &&& packed.1@.len() == k
    &&& exists|reply: Vec<ScoredVector<T>>| #[trigger]
        replies_to(search, index, query, query.len() as int, 0, k, config, reply) && shows(
            reply@,
            k as int,
            infinity,
            packed.0@,
            packed.1@,
            0,
        )
}

proof fn lemma_answer<I, T, C, F>(
    search: F,
    index: &I,
    queries: Seq<T>,
    dim: nat,
    n: int,
    q: int,
    k: usize,
    config: &C,
    reply: Vec<ScoredVector<T>>,
) where F: Fn(&I, &[T], usize, &C) -> Vec<ScoredVector<T>>
    requires
        0 <= q < n,
        n * dim <= queries.len(),
        crate::query::answers(search, index, crate::query::query_at(queries, dim, q), k, config, reply),
    ensures
        replies_to(search, index, queries, dim as int, q, k, config, reply),
{
    let part = crate::query::query_at(queries, dim, q);
    let s = choose|s: &[T]| s@ == part && #[trigger] call_ensures(search, (index, s, k, config), reply);
    crate::dense::lemma_row(q, dim as int, n);
    assert forall|d: int| 0 <= d < dim implies s@[d] == #[trigger] queries[q * dim + d] by {
        assert(s@[d] == part[d]);
    }
    assert(s@.len() == dim);
}

proof fn lemma_shows_one<I, T, C, F>(
    search: F,
    index: &I,
    query: Seq<T>,
    k: usize,
    config: &C,
    infinity: T,
    packed: (Vec<T>, Vec<i64>),
    reply: Vec<ScoredVector<T>>,
) where F: Fn(&I, &[T], usize, &C) -> Vec<ScoredVector<T>>
    requires
        crate::query::answers(search, index, query, k, config, reply),
        crate::query::packs_one(reply@, k as nat, infinity, packed),
    ensures
        shows_one(search, index, query, k, config, infinity, packed),
{
    assert(1 * query.len() == query.len());
    assert(crate::query::query_at(query, query.len(), 0) =~= query);
    lemma_answer(search, index, query, query.len(), 1, 0, k, config, reply);
    lemma_shows(reply@, k, infinity, packed);
}

proof fn lemma_shows<T>(reply: Seq<ScoredVector<T>>, k: usize, infinity: T, packed: (Vec<T>, Vec<i64>))
    requires
        crate::query::packs_one(reply, k as nat, infinity, packed),
    ensures
        packed.0@.len() == k,
        packed.1@.len() == k,
        shows(reply, k as int, infinity, packed.0@, packed.1@, 0),
{
}

proof fn lemma_shows_in_batch<T>(
    replies: Seq<Vec<ScoredVector<T>>>,
    k: usize,
    infinity: T,
    packed: (Vec<T>, Vec<i64>),
)
    requires
        crate::query::packs(replies, k as nat, infinity, packed),
    ensures
        packed.0@.len() == replies.len() * k,
        packed.1@.len() == replies.len() * k,
        forall|q: int|
            0 <= q < replies.len() ==> shows(
                (#[trigger] replies[q])@,
                k as int,
                infinity,
                packed.0@,
                packed.1@,
                q * k,
            ),
{
    crate::results::law_batch_is_query_major(replies, k as nat, infinity);
    assert forall|q: int| 0 <= q < replies.len() implies shows(
        (#[trigger] replies[q])@,
        k as int,
        infinity,
        packed.0@,
        packed.1@,
        q * k,
    ) by {
        let ds = padded_distances(replies[q]@, k as nat, infinity);
        let is = padded_ids(replies[q]@, k as nat);
        assert forall|j: int| 0 <= j < k implies #[trigger] packed.0@[q * k + j] == ds[j] by {}
        assert forall|j: int| 0 <= j < k implies #[trigger] packed.1@[q * k + j] == is[j] by {}
    }
}

proof fn lemma_shows_batch<I, T, C, F>(
    search: F,
    index: &I,
    queries: Seq<T>,
    dim: nat,
    k: usize,
    config: &C,
    infinity: T,
    packed: (Vec<T>, Vec<i64>),
    replies: Seq<Vec<ScoredVector<T>>>,
) where F: Fn(&I, &[T], usize, &C) -> Vec<ScoredVector<T>>
    requires
        dim > 0,
        queries.len() % dim == 0,
        crate::query::answers_batch(search, index, queries, dim, k, config, replies),
        crate::query::packs(replies, k as nat, infinity, packed),
    ensures
        shows_batch(search, index, queries, dim, k, config, infinity, packed),
{
    let n = replies.len();
    vstd::arithmetic::div_mod::lemma_fundamental_div_mod(queries.len() as int, dim as int);
    vstd::arithmetic::mul::lemma_mul_is_commutative(dim as int, n as int);
    lemma_shows_in_batch(replies, k, infinity, packed);
    assert(n * dim == queries.len());
    assert forall|q: int| 0 <= q < n implies #[trigger] shows_nth(
        search,
        index,
        queries,
        dim,
        q,
        k,
        config,
        infinity,
        packed,
    ) by {
        lemma_answer(search, index, queries, dim, n as int, q, k, config, replies[q]);
    }
}

/// One dense query is answered where it has the dimension, with what the index replies
/// to exactly this query.
pub proof fn law_one_dense_query<I, T: Copy, C, F>(
    index: &I,
    dim: usize,
    query: &[T],
    k: usize,
    config: &C,
    infinity: T,
    search: &F,
    found: Result<(Vec<T>, Vec<i64>), IndexError>,
) where F: Fn(&I, &[T], usize, &C) -> Vec<ScoredVector<T>>
    requires
        call_ensures(search_dense::<I, T, C, F>, (index, dim, query, k, config, infinity, search), found),
    ensures
        found is Ok <==> query@.len() == dim,
        match found {
            Ok(packed) => shows_one(*search, index, query@, k, config, infinity, packed),
            Err(error) => error == (IndexError::QueryDimension { got: query.len(), dim }),
        },
{
    match found {
        Ok(packed) => {
            let reply = choose|reply: Vec<ScoredVector<T>>| #[trigger]
                crate::query::answers(*search, index, query@, k, config, reply) && crate::query::packs_one(
                    reply@,
                    k as nat,
                    infinity,
                    packed,
                );
            lemma_shows_one(*search, index, query@, k, config, infinity, packed, reply);
        },
        Err(_) => {},
    }
}

/// A batch is answered where it is made up of whole queries, with what the index replies
/// to each of them, in their order.
pub proof fn law_dense_batch<I, T: Copy, C, F>(
    index: &I,
    dim: usize,
    queries: &[T],
    k: usize,
    config: &C,
    infinity: T,
    search: &F,
    found: Result<(Vec<T>, Vec<i64>), IndexError>,
) where F: Fn(&I, &[T], usize, &C) -> Vec<ScoredVector<T>>
    requires
        dim > 0,
        call_ensures(search_dense_batch::<I, T, C, F>, (index, dim, queries, k, config, infinity, search), found),
    ensures
        found is Ok <==> queries@.len() % (dim as nat) == 0,
        match found {
            Ok(packed) => shows_batch(*search, index, queries@, dim as nat, k, config, infinity, packed),
            Err(error) => error == (IndexError::QueriesLength { len: queries.len(), dim }),
        },
{
    match found {
        Ok(packed) => {
            let replies = choose|replies: Seq<Vec<ScoredVector<T>>>| #[trigger]
                crate::query::answers_batch(*search, index, queries@, dim as nat, k, config, replies)
                    && crate::query::packs(replies, k as nat, infinity, packed);
            lemma_shows_batch(*search, index, queries@, dim as nat, k, config, infinity, packed, replies);
        },
        Err(_) => {},
    }
}

/// Query `i` of a batch alone is answered with what the index replies to it.
pub proof fn law_nth_dense_query<I, T: Copy, C, F>(
    index: &I,
    dim: usize,
    queries: &[T],
    i: usize,
    k: usize,
    config: &C,
    infinity: T,
    search: &F,
    packed: (Vec<T>, Vec<i64>),
) where F: Fn(&I, &[T], usize, &C) -> Vec<ScoredVector<T>>
    requires
        (i + 1) * dim <= queries@.len(),
        call_ensures(search_nth::<I, T, C, F>, (index, dim, queries, i, k, config, infinity, search), packed),
    ensures
        packed.0@.len() == k,
        packed.1@.len() == k,
        exists|reply: Vec<ScoredVector<T>>| #[trigger]
            replies_to(*search, index, queries@, dim as int, i as int, k, config, reply) && shows(
                reply@,
                k as int,
                infinity,
                packed.0@,
                packed.1@,
                0,
            ),
{
    let reply = choose|reply: Vec<ScoredVector<T>>| #[trigger]
        crate::query::answers(
            *search,
            index,
            crate::query::query_at(queries@, dim as nat, i as int),
            k,
            config,
            reply,
        ) && crate::query::packs_one(reply@, k as nat, infinity, packed);
    lemma_answer(*search, index, queries@, dim as nat, i + 1, i as int, k, config, reply);
    lemma_shows(reply@, k, infinity, packed);
}

/// The number of queries in a batch, times their dimension, is the number of values; a
/// rest is an error.
pub proof fn law_query_count(len: usize, dim: usize, count: Result<usize, IndexError>)
    requires
        dim > 0,
        call_ensures(count_queries, (len, dim), count),
    ensures
        match count {
            Ok(n) => n * dim == len,
            Err(error) => error == (IndexError::QueriesLength { len, dim }) && forall|n: nat|
                #[trigger] (n * dim) != len,
        },
{
    if count is Err {
        assert forall|n: nat| #[trigger] (n * dim) != len by {
            if n * dim == len {
                vstd::arithmetic::div_mod::lemma_mod_multiples_basic(n as int, dim as int);
            }
        }
    }
}

/// Whether `reply` is what `search` returns for the sparse query whose components and
/// values stand from `start` up to `end`.
pub open spec fn replies_to_sparse<I, T, C, F>(
    search: F,
    index: &I,
    components: Seq<i32>,
    values: Seq<T>,
    start: int,
    end: int,
    k: usize,
    config: &C,
    reply: Vec<ScoredVector<T>>,
) -> bool where F: Fn(&I, &[u16], &[T], usize, &C) -> Vec<ScoredVector<T>> {
    exists|c: &[u16], v: &[T]|
        {
            &&& c@.len() == end - start
            &&& v@.len() == end - start
            &&& forall|j: int| 0 <= j < end - start ==> c@[j] == #[trigger] components[start + j]
            &&& forall|j: int| 0 <= j < end - start ==> v@[j] == #[trigger] values[start + j]
            &&& #[trigger] call_ensures(search, (index, c, v, k, config), reply)
        }
}

/// Whether no component lies outside 0 to 65535.
pub open spec fn in_range(components: Seq<i32>) -> bool {
    forall|i: int| 0 <= i < components.len() ==> 0 <= #[trigger] components[i] <= 65535
}

/// Whether offsets cut `n` entries into parts.
pub open spec fn cut(offsets: Seq<i64>, n: nat) -> bool {
    &&& offsets.len() > 0
    &&& forall|i: int| 0 <= i < offsets.len() - 1 ==> 0 <= #[trigger] offsets[i] <= offsets[i + 1] <= n
}

/// Whether a packed batch shows what `search` returns for sparse query `q`, behind the
/// `q * k` entries of the queries before it.
pub open spec fn shows_sparse_nth<I, T, C, F>(
    search: F,
    index: &I,
    components: Seq<i32>,
    values: Seq<T>,
    offsets: Seq<i64>,
    q: int,
    k: usize,
    config: &C,
    infinity: T,
    packed: (Vec<T>, Vec<i64>),
) -> bool where F: Fn(&I, &[u16], &[T], usize, &C) -> Vec<ScoredVector<T>> {
    exists|reply: Vec<ScoredVector<T>>| #[trigger]
        replies_to_sparse(
            search,
            index,
            components,
            values,
            offsets[q] as int,
            offsets[q + 1] as int,
            k,
            config,
            reply,
        ) && shows(reply@, k as int, infinity, packed.0@, packed.1@, q * k)
}

/// Whether a packed batch shows, query after query, what `search` returns for each
/// sparse query that the offsets delimit.
pub open spec fn shows_sparse_batch<I, T, C, F>(
    search: F,
    index: &I,
    components: Seq<i32>,
    values: Seq<T>,
    offsets: Seq<i64>,
    k: usize,
    config: &C,
    infinity: T,
    packed: (Vec<T>, Vec<i64>),
) -> bool where F: Fn(&I, &[u16], &[T], usize, &C) -> Vec<ScoredVector<T>> {
    &&& packed.0@.len() == (offsets.len() - 1) * k
    &&& packed.1@.len() == (offsets.len() - 1) * k
    &&& forall|q: int|
        0 <= q < offsets.len() - 1 ==> #[trigger] shows_sparse_nth(
            search,
            index,
            components,
            values,
            offsets,
            q,
            k,
            config,
            infinity,
            packed,
        )
}

/// Whether a packed reply shows what `search` returns for one sparse query.
pub open spec fn shows_sparse<I, T, C, F>(
    search: F,
    index: &I,
    components: Seq<i32>,
    values: Seq<T>,
    k: usize,
    config: &C,
    infinity: T,
    packed: (Vec<T>, Vec<i64>),
) -> bool where F: Fn(&I, &[u16], &[T], usize, &C) -> Vec<ScoredVector<T>> {
    &&& packed.0@.len() == k
    &&& packed.1@.len() == k
    &&& exists|reply: Vec<ScoredVector<T>>| #[trigger]
        replies_to_sparse(search, index, components, values, 0, values.len() as int, k, config, reply) && shows(
            reply@,
            k as int,
            infinity,
            packed.0@,
            packed.1@,
            0,
        )
}

proof fn lemma_sparse_answer<I, T, C, F>(
    search: F,
    index: &I,
    components: Seq<i32>,
    values: Seq<T>,
    narrow: Seq<u16>,
    start: int,
    end: int,
    k: usize,
    config: &C,
    reply: Vec<ScoredVector<T>>,
) where F: Fn(&I, &[u16], &[T], usize, &C) -> Vec<ScoredVector<T>>
    requires
        0 <= start <= end <= components.len(),
        end <= values.len(),
        narrow.len() == components.len(),
        forall|j: int| 0 <= j < narrow.len() ==> #[trigger] narrow[j] == components[j],
        crate::sparse_query::answers_sparse(
            search,
            index,
            narrow.subrange(start, end),
            values.subrange(start, end),
            k,
            config,
            reply,
        ),
    ensures
        replies_to_sparse(search, index, components, values, start, end, k, config, reply),
{
    let (c, v) = choose|c: &[u16], v: &[T]|
        c@ == narrow.subrange(start, end) && v@ == values.subrange(start, end) && #[trigger] call_ensures(
            search,
            (index, c, v, k, config),
            reply,
        );
    assert forall|j: int| 0 <= j < end - start implies c@[j] == #[trigger] components[start + j] by {
        assert(c@[j] == narrow[start + j]);
    }
    assert forall|j: int| 0 <= j < end - start implies v@[j] == #[trigger] values[start + j] by {}
}

proof fn lemma_narrowed(components: Seq<i32>)
    ensures
        crate::sparse_query::all_fit(components) <==> in_range(components),
        crate::sparse_query::narrowed(components).len() == components.len(),
        in_range(components) ==> forall|j: int|
            0 <= j < components.len() ==> #[trigger] crate::sparse_query::narrowed(components)[j] == components[j],
{
    if crate::sparse_query::all_fit(components) {
        assert forall|i: int| 0 <= i < components.len() implies 0 <= #[trigger] components[i] <= 65535 by {
            assert(crate::sparse::fits_u16(components[i]));
        }
    }
}

proof fn lemma_shows_sparse<I, T, C, F>(
    search: F,
    index: &I,
    components: Seq<i32>,
    values: Seq<T>,
    k: usize,
    config: &C,
    infinity: T,
    packed: (Vec<T>, Vec<i64>),
    reply: Vec<ScoredVector<T>>,
) where F: Fn(&I, &[u16], &[T], usize, &C) -> Vec<ScoredVector<T>>
    requires
        in_range(components),
        components.len() == values.len(),
        crate::sparse_query::answers_sparse(
            search,
            index,
            crate::sparse_query::narrowed(components),
            values,
            k,
            config,
            reply,
        ),
        crate::query::packs_one(reply@, k as nat, infinity, packed),
    ensures
        shows_sparse(search, index, components, values, k, config, infinity, packed),
{
    let narrow = crate::sparse_query::narrowed(components);
    lemma_narrowed(components);
    assert(narrow.subrange(0, values.len() as int) =~= narrow);
    assert(values.subrange(0, values.len() as int) =~= values);
    lemma_sparse_answer(
        search,
        index,
        components,
        values,
        narrow,
        0,
        values.len() as int,
        k,
        config,
        reply,
    );
    lemma_shows(reply@, k, infinity, packed);
}

proof fn lemma_shows_sparse_batch<I, T, C, F>(
    search: F,
    index: &I,
    components: Seq<i32>,
    values: Seq<T>,
    offsets: Seq<i64>,
    k: usize,
    config: &C,
    infinity: T,
    packed: (Vec<T>, Vec<i64>),
    replies: Seq<Vec<ScoredVector<T>>>,
) where F: Fn(&I, &[u16], &[T], usize, &C) -> Vec<ScoredVector<T>>
    requires
        in_range(components),
        cut(offsets, components.len()),
        cut(offsets, values.len()),
        crate::sparse_query::answers_sparse_batch(
            search,
            index,
            crate::sparse_query::narrowed(components),
            values,
            offsets,
            k,
            config,
            replies,
        ),
        crate::query::packs(replies, k as nat, infinity, packed),
    ensures
        shows_sparse_batch(search, index, components, values, offsets, k, config, infinity, packed),
{
    lemma_narrowed(components);
    lemma_shows_in_batch(replies, k, infinity, packed);
    assert forall|q: int| 0 <= q < offsets.len() - 1 implies #[trigger] shows_sparse_nth(
        search,
        index,
        components,
        values,
        offsets,
        q,
        k,
        config,
        infinity,
        packed,
    ) by {
        let reply = replies[q];
        lemma_sparse_answer(
            search,
            index,
            components,
            values,
            crate::sparse_query::narrowed(components),
            offsets[q] as int,
            offsets[q + 1] as int,
            k,
            config,
            reply,
        );
    }
}

/// One sparse query is answered where its components lie in 0 to 65535, with what the
/// index replies to exactly these components and values.
pub proof fn law_one_sparse_query<I, T: Copy, C, F>(
    index: &I,
    components: &[i32],
    values: &[T],
    k: usize,
    config: &C,
    infinity: T,
    search: &F,
    found: Result<(Vec<T>, Vec<i64>), IndexError>,
) where F: Fn(&I, &[u16], &[T], usize, &C) -> Vec<ScoredVector<T>>
    requires
        components@.len() == values@.len(),
        call_ensures(
            search_sparse::<I, T, C, F>,
            (index, components, values, k, config, infinity, search),
            found,
        ),
    ensures
        found is Ok <==> in_range(components@),
        match found {
            Ok(packed) => shows_sparse(*search, index, components@, values@, k, config, infinity, packed),
            Err(error) => error == IndexError::ComponentOutOfRange,
        },
{
    lemma_narrowed(components@);
    match found {
        Ok(packed) => {
            let reply = choose|reply: Vec<ScoredVector<T>>| #[trigger]
                crate::sparse_query::answers_sparse(
                    *search,
                    index,
                    crate::sparse_query::narrowed(components@),
                    values@,
                    k,
                    config,
                    reply,
                ) && crate::query::packs_one(reply@, k as nat, infinity, packed);
            lemma_shows_sparse(*search, index, components@, values@, k, config, infinity, packed, reply);
        },
        Err(_) => {},
    }
}

/// A sparse batch is answered with what the index replies to each query that the offsets
/// delimit, in their order.
pub proof fn law_sparse_batch<I, T: Copy, C, F>(
    index: &I,
    components: &[i32],
    values: &[T],
    offsets: &[i64],
    k: usize,
    config: &C,
    infinity: T,
    search: &F,
    found: Result<(Vec<T>, Vec<i64>), IndexError>,
) where F: Fn(&I, &[u16], &[T], usize, &C) -> Vec<ScoredVector<T>>
    requires
        cut(offsets@, components@.len()),
        cut(offsets@, values@.len()),
        call_ensures(
            search_sparse_batch::<I, T, C, F>,
            (index, components, values, offsets, k, config, infinity, search),
            found,
        ),
    ensures
        found is Ok <==> in_range(components@),
        match found {
            Ok(packed) => shows_sparse_batch(
                *search,
                index,
                components@,
                values@,
                offsets@,
                k,
                config,
                infinity,
                packed,
            ),
            Err(error) => error == IndexError::ComponentOutOfRange,
        },
{
    lemma_narrowed(components@);
    match found {
        Ok(packed) => {
            let replies = choose|replies: Seq<Vec<ScoredVector<T>>>| #[trigger]
                crate::sparse_query::answers_sparse_batch(
                    *search,
                    index,
                    crate::sparse_query::narrowed(components@),
                    values@,
                    offsets@,
                    k,
                    config,
                    replies,
                ) && crate::query::packs(replies, k as nat, infinity, packed);
            lemma_shows_sparse_batch(
                *search,
                index,
                components@,
                values@,
                offsets@,
                k,
                config,
                infinity,
                packed,
                replies,
            );
        },
        Err(_) => {},
    }
}

/// Sparse query `i` of a batch alone is answered with what the index replies to it.
pub proof fn law_nth_sparse_query<I, T: Copy, C, F>(
    index: &I,
    components: &[u16],
    wide: Seq<i32>,
    values: &[T],
    offsets: &[i64],
    i: usize,
    k: usize,
    config: &C,
    infinity: T,
    search: &F,
    packed: (Vec<T>, Vec<i64>),
) where F: Fn(&I, &[u16], &[T], usize, &C) -> Vec<ScoredVector<T>>
    requires
        wide.len() == components@.len(),
        forall|j: int| 0 <= j < wide.len() ==> components@[j] == #[trigger] wide[j],
        i + 1 < offsets@.len(),
        0 <= offsets@[i as int] <= offsets@[i + 1] <= components@.len(),
        offsets@[i + 1] <= values@.len(),
        call_ensures(
            search_sparse_nth::<I, T, C, F>,
            (index, components, values, offsets, i, k, config, infinity, search),
            packed,
        ),
    ensures
        packed.0@.len() == k,
        packed.1@.len() == k,
        exists|reply: Vec<ScoredVector<T>>| #[trigger]
            replies_to_sparse(
                *search,
                index,
                wide,
                values@,
                offsets@[i as int] as int,
                offsets@[i + 1] as int,
                k,
                config,
                reply,
            ) && shows(reply@, k as int, infinity, packed.0@, packed.1@, 0),
{
    let reply = choose|reply: Vec<ScoredVector<T>>| #[trigger]
        crate::sparse_query::answers_sparse(
            *search,
            index,
            crate::sparse_query::part(components@, offsets@, i as int),
            crate::sparse_query::part(values@, offsets@, i as int),
            k,
            config,
            reply,
        ) && crate::query::packs_one(reply@, k as nat, infinity, packed);
    lemma_sparse_answer(
        *search,
        index,
        wide,
        values@,
        components@,
        offsets@[i as int] as int,
        offsets@[i + 1] as int,
        k,
        config,
        reply,
    );
    lemma_shows(reply@, k, infinity, packed);
}

/// Whether `reply` is what `search` returns for a sparse query, as above, with the
/// tokens from `first` on.
pub open spec fn replies_to_multi<I, T, F>(
    search: F,
    index: &I,
    components: Seq<i32>,
    values: Seq<T>,
    start: int,
    end: int,
    tokens: Seq<T>,
    first: int,
    size: int,
    token_dim: usize,
    k: usize,
    params: &RerankParams<T>,
    reply: Vec<ScoredVector<T>>,
) -> bool where F: Fn(&I, &[u16], &[T], &[T], usize, usize, &RerankParams<T>) -> Vec<ScoredVector<T>> {
    exists|c: &[u16], v: &[T], t: &[T]|
        {
            &&& c@.len() == end - start
            &&& v@.len() == end - start
            &&& t@.len() == size
            &&& forall|j: int| 0 <= j < end - start ==> c@[j] == #[trigger] components[start + j]
            &&& forall|j: int| 0 <= j < end - start ==> v@[j] == #[trigger] values[start + j]
            &&& forall|j: int| 0 <= j < size ==> t@[j] == #[trigger] tokens[first + j]
            &&& #[trigger] call_ensures(search, (index, c, v, t, token_dim, k, params), reply)
        }
}

/// Whether a packed reply shows what `search` returns for one query with its tokens.
pub open spec fn shows_multi<I, T, F>(
    search: F,
    index: &I,
    components: Seq<i32>,
    values: Seq<T>,
    tokens: Seq<T>,
    token_dim: usize,
    k: usize,
    params: &RerankParams<T>,
    infinity: T,
    packed: (Vec<T>, Vec<i64>),
) -> bool where F: Fn(&I, &[u16], &[T], &[T], usize, usize, &RerankParams<T>) -> Vec<ScoredVector<T>> {
    &&& packed.0@.len() == k
    &&& packed.1@.len() == k
    &&& exists|reply: Vec<ScoredVector<T>>| #[trigger]
        replies_to_multi(
            search,
            index,
            components,
            values,
            0,
            values.len() as int,
            tokens,
            0,
            tokens.len() as int,
            token_dim,
            k,
            params,
            reply,
        ) && shows(reply@, k as int, infinity, packed.0@, packed.1@, 0)
}

/// Whether a packed batch shows what `search` returns for query `q` with its tokens,
/// behind the `q * k` entries of the queries before it.
pub open spec fn shows_multi_nth<I, T, F>(
    search: F,
    index: &I,
    components: Seq<i32>,
    values: Seq<T>,
    offsets: Seq<i64>,
    tokens: Seq<T>,
    size: int,
    token_dim: usize,
    q: int,
    k: usize,
    params: &RerankParams<T>,
    infinity: T,
    packed: (Vec<T>, Vec<i64>),
) -> bool where F: Fn(&I, &[u16], &[T], &[T], usize, usize, &RerankParams<T>) -> Vec<ScoredVector<T>> {
    exists|reply: Vec<ScoredVector<T>>| #[trigger]
        replies_to_multi(
            search,
            index,
            components,
            values,
            offsets[q] as int,
            offsets[q + 1] as int,
            tokens,
            q * size,
            size,
            token_dim,
            k,
            params,
            reply,
        ) && shows(reply@, k as int, infinity, packed.0@, packed.1@, q * k)
}

/// Whether a packed batch shows, query after query, what `search` returns for each query
/// with its tokens, of which each has `size` values.
pub open spec fn shows_multi_batch<I, T, F>(
    search: F,
    index: &I,
    components: Seq<i32>,
    values: Seq<T>,
    offsets: Seq<i64>,
    tokens: Seq<T>,
    size: int,
    token_dim: usize,
    k: usize,
    params: &RerankParams<T>,
    infinity: T,
    packed: (Vec<T>, Vec<i64>),
) -> bool where F: Fn(&I, &[u16], &[T], &[T], usize, usize, &RerankParams<T>) -> Vec<ScoredVector<T>> {
    &&& packed.0@.len() == (offsets.len() - 1) * k
    &&& packed.1@.len() == (offsets.len() - 1) * k
    &&& forall|q: int|
        0 <= q < offsets.len() - 1 ==> #[trigger] shows_multi_nth(
            search,
            index,
            components,
            values,
            offsets,
            tokens,
            size,
            token_dim,
            q,
            k,
            params,
            infinity,
            packed,
        )
}

proof fn lemma_multi_answer<I, T, F>(
    search: F,
    index: &I,
    components: Seq<i32>,
    values: Seq<T>,
    narrow: Seq<u16>,
    start: int,
    end: int,
    tokens: Seq<T>,
    first: int,
    size: int,
    token_dim: usize,
    k: usize,
    params: &RerankParams<T>,
    reply: Vec<ScoredVector<T>>,
) where F: Fn(&I, &[u16], &[T], &[T], usize, usize, &RerankParams<T>) -> Vec<ScoredVector<T>>
    requires
        0 <= start <= end <= components.len(),
        end <= values.len(),
        0 <= first <= first + size <= tokens.len(),
        narrow.len() == components.len(),
        forall|j: int| 0 <= j < narrow.len() ==> #[trigger] narrow[j] == components[j],
        crate::rerank_multivec::answers_multi(
            search,
            index,
            narrow.subrange(start, end),
            values.subrange(start, end),
            tokens.subrange(first, first + size),
            token_dim,
            k,
            params,
            reply,
        ),
    ensures
        replies_to_multi(
            search,
            index,
            components,
            values,
            start,
            end,
            tokens,
            first,
            size,
            token_dim,
            k,
            params,
            reply,
        ),
{
    let (c, v, t) = choose|c: &[u16], v: &[T], t: &[T]|
        c@ == narrow.subrange(start, end) && v@ == values.subrange(start, end) && t@ == tokens.subrange(
            first,
            first + size,
        ) && #[trigger] call_ensures(search, (index, c, v, t, token_dim, k, params), reply);
    assert forall|j: int| 0 <= j < end - start implies c@[j] == #[trigger] components[start + j] by {
        assert(c@[j] == narrow[start + j]);
    }
    assert forall|j: int| 0 <= j < end - start implies v@[j] == #[trigger] values[start + j] by {}
    assert forall|j: int| 0 <= j < size implies t@[j] == #[trigger] tokens[first + j] by {}
}

proof fn lemma_shows_multi<I, T, F>(
    search: F,
    index: &I,
    components: Seq<i32>,
    values: Seq<T>,
    tokens: Seq<T>,
    token_dim: usize,
    k: usize,
    params: &RerankParams<T>,
    infinity: T,
    packed: (Vec<T>, Vec<i64>),
    reply: Vec<ScoredVector<T>>,
) where F: Fn(&I, &[u16], &[T], &[T], usize, usize, &RerankParams<T>) -> Vec<ScoredVector<T>>
    requires
        in_range(components),
        components.len() == values.len(),
        crate::rerank_multivec::answers_multi(
            search,
            index,
            crate::sparse_query::narrowed(components),
            values,
            tokens,
            token_dim,
            k,
            params,
            reply,
        ),
        crate::query::packs_one(reply@, k as nat, infinity, packed),
    ensures
        shows_multi(search, index, components, values, tokens, token_dim, k, params, infinity, packed),
{
    let narrow = crate::sparse_query::narrowed(components);
    lemma_narrowed(components);
    assert(narrow.subrange(0, values.len() as int) =~= narrow);
    assert(values.subrange(0, values.len() as int) =~= values);
    assert(tokens.subrange(0, tokens.len() as int) =~= tokens);
    lemma_multi_answer(
        search,
        index,
        components,
        values,
        narrow,
        0,
        values.len() as int,
        tokens,
        0,
        tokens.len() as int,
        token_dim,
        k,
        params,
        reply,
    );
    lemma_shows(reply@, k, infinity, packed);
}

proof fn lemma_shows_multi_batch<I, T, F>(
    search: F,
    index: &I,
    components: Seq<i32>,
    values: Seq<T>,
    offsets: Seq<i64>,
    tokens: Seq<T>,
    size: nat,
    token_dim: usize,
    k: usize,
    params: &RerankParams<T>,
    infinity: T,
    packed: (Vec<T>, Vec<i64>),
    replies: Seq<Vec<ScoredVector<T>>>,
) where F: Fn(&I, &[u16], &[T], &[T], usize, usize, &RerankParams<T>) -> Vec<ScoredVector<T>>
    requires
        in_range(components),
        cut(offsets, components.len()),
        cut(offsets, values.len()),
        (offsets.len() - 1) * size <= tokens.len(),
        crate::rerank_multivec::answers_multi_batch(
            search,
            index,
            crate::sparse_query::narrowed(components),
            values,
            offsets,
            tokens,
            size,
            token_dim,
            k,
            params,
            replies,
        ),
        crate::query::packs(replies, k as nat, infinity, packed),
    ensures
        shows_multi_batch(
            search,
            index,
            components,
            values,
            offsets,
            tokens,
            size as int,
            token_dim,
            k,
            params,
            infinity,
            packed,
        ),
{
    lemma_narrowed(components);
    lemma_shows_in_batch(replies, k, infinity, packed);
    assert forall|q: int| 0 <= q < offsets.len() - 1 implies #[trigger] shows_multi_nth(
        search,
        index,
        components,
        values,
        offsets,
        tokens,
        size as int,
        token_dim,
        q,
        k,
        params,
        infinity,
        packed,
    ) by {
        let reply = replies[q];
        crate::dense::lemma_row(q, size as int, offsets.len() - 1);
        lemma_multi_answer(
            search,
            index,
            components,
            values,
            crate::sparse_query::narrowed(components),
            offsets[q] as int,
            offsets[q + 1] as int,
            tokens,
            q * (size as int),
            size as int,
            token_dim,
            k,
            params,
            reply,
        );
    }
}

/// One sparse query with its tokens is answered with what the index replies to exactly
/// them, under the parameters given.
pub proof fn law_one_multi_query<I, T: Copy, F>(
    index: &I,
    components: &[i32],
    values: &[T],
    tokens: &[T],
    token_dim: usize,
    k: usize,
    params: &RerankParams<T>,
    infinity: T,
    search: &F,
    found: Result<(Vec<T>, Vec<i64>), IndexError>,
) where F: Fn(&I, &[u16], &[T], &[T], usize, usize, &RerankParams<T>) -> Vec<ScoredVector<T>>
    requires
        components@.len() == values@.len(),
        call_ensures(
            search_multi::<I, T, F>,
            (index, components, values, tokens, token_dim, k, params, infinity, search),
            found,
        ),
    ensures
        found is Ok <==> in_range(components@),
        match found {
            Ok(packed) => shows_multi(
                *search,
                index,
                components@,
                values@,
                tokens@,
                token_dim,
                k,
                params,
                infinity,
                packed,
            ),
            Err(error) => error == IndexError::ComponentOutOfRange,
        },
{
    lemma_narrowed(components@);
    match found {
        Ok(packed) => {
            let reply = choose|reply: Vec<ScoredVector<T>>| #[trigger]
                crate::rerank_multivec::answers_multi(
                    *search,
                    index,
                    crate::sparse_query::narrowed(components@),
                    values@,
                    tokens@,
                    token_dim,
                    k,
                    params,
                    reply,
                ) && crate::query::packs_one(reply@, k as nat, infinity, packed);
            lemma_shows_multi(
                *search,
                index,
                components@,
                values@,
                tokens@,
                token_dim,
                k,
                params,
                infinity,
                packed,
                reply,
            );
        },
        Err(_) => {},
    }
}

/// A batch of sparse queries with their tokens is answered with what the index replies
/// to each of them, in their order; every query has `n_tokens` tokens.
pub proof fn law_multi_batch<I, T: Copy, F>(
    index: &I,
    components: &[i32],
    values: &[T],
    offsets: &[i64],
    tokens: &[T],
    n_tokens: usize,
    token_dim: usize,
    k: usize,
    params: &RerankParams<T>,
    infinity: T,
    search: &F,
    found: Result<(Vec<T>, Vec<i64>), IndexError>,
) where F: Fn(&I, &[u16], &[T], &[T], usize, usize, &RerankParams<T>) -> Vec<ScoredVector<T>>
    requires
        cut(offsets@, components@.len()),
        cut(offsets@, values@.len()),
        (offsets@.len() - 1) * (n_tokens * token_dim) <= tokens@.len(),
        call_ensures(
            search_multi_batch::<I, T, F>,
            (index, components, values, offsets, tokens, n_tokens, token_dim, k, params, infinity, search),
            found,
        ),
    ensures
        found is Ok <==> in_range(components@),
        match found {
            Ok(packed) => shows_multi_batch(
                *search,
                index,
                components@,
                values@,
                offsets@,
                tokens@,
                n_tokens * token_dim,
                token_dim,
                k,
                params,
                infinity,
                packed,
            ),
            Err(error) => error == IndexError::ComponentOutOfRange,
        },
{
    lemma_narrowed(components@);
    assert(0 <= n_tokens * token_dim) by (nonlinear_arith);
    let size = (n_tokens * token_dim) as nat;
    match found {
        Ok(packed) => {
            let replies = choose|replies: Seq<Vec<ScoredVector<T>>>| #[trigger]
                crate::rerank_multivec::answers_multi_batch(
                    *search,
                    index,
                    crate::sparse_query::narrowed(components@),
                    values@,
                    offsets@,
                    tokens@,
                    size,
                    token_dim,
                    k,
                    params,
                    replies,
                ) && crate::query::packs(replies, k as nat, infinity, packed);
            lemma_shows_multi_batch(
                *search,
                index,
                components@,
                values@,
                offsets@,
                tokens@,
                size,
                token_dim,
                k,
                params,
                infinity,
                packed,
                replies,
            );
        },
        Err(_) => {},
    }
}

/// Query `i` of such a batch alone is answered with what the index replies to it.
pub proof fn law_nth_multi_query<I, T: Copy, F>(
    index: &I,
    components: &[u16],
    wide: Seq<i32>,
    values: &[T],
    offsets: &[i64],
    tokens: &[T],
    size: usize,
    token_dim: usize,
    i: usize,
    k: usize,
    params: &RerankParams<T>,
    search: &F,
    reply: Vec<ScoredVector<T>>,
) where F: Fn(&I, &[u16], &[T], &[T], usize, usize, &RerankParams<T>) -> Vec<ScoredVector<T>>
    requires
        wide.len() == components@.len(),
        forall|j: int| 0 <= j < wide.len() ==> components@[j] == #[trigger] wide[j],
        i + 1 < offsets@.len(),
        0 <= offsets@[i as int] <= offsets@[i + 1] <= components@.len(),
        offsets@[i + 1] <= values@.len(),
        (offsets@.len() - 1) * size <= tokens@.len(),
        call_ensures(
            search_multi_nth::<I, T, F>,
            (index, components, values, offsets, tokens, size, token_dim, i, k, params, search),
            reply,
        ),
    ensures
        replies_to_multi(
            *search,
            index,
            wide,
            values@,
            offsets@[i as int] as int,
            offsets@[i + 1] as int,
            tokens@,
            i * size,
            size as int,
            token_dim,
            k,
            params,
            reply,
        ),
{
    crate::dense::lemma_row(i as int, size as int, offsets@.len() - 1);
    lemma_multi_answer(
        *search,
        index,
        wide,
        values@,
        components@,
        offsets@[i as int] as int,
        offsets@[i + 1] as int,
        tokens@,
        i * size,
        size as int,
        token_dim,
        k,
        params,
        reply,
    );
}

/// A flat index answers a dense query, or a batch of them, with what it replies to them.
pub proof fn law_flat_dense_search<D, T: Copy, F>(
    index: &DenseFlatIndex<D>,
    query: &[T],
    queries: &[T],
    k: usize,
    infinity: T,
    search: &F,
    one: Result<(Vec<T>, Vec<i64>), IndexError>,
    all: Result<(Vec<T>, Vec<i64>), IndexError>,
) where F: Fn(&DenseFlatIndex<D>, &[T], usize, &()) -> Vec<ScoredVector<T>>
    requires
        index.spec_dim() > 0,
        call_ensures(DenseFlatIndex::<D>::search::<T, F>, (index, query, k, infinity, search), one),
        call_ensures(DenseFlatIndex::<D>::batch_search::<T, F>, (index, queries, k, infinity, search), all),
    ensures
        one is Ok <==> query@.len() == index.spec_dim(),
        one matches Ok(packed) ==> shows_one(*search, index, query@, k, &(), infinity, packed),
        one matches Err(error) ==> error == (IndexError::QueryDimension {
            got: query.len(),
            dim: index.spec_dim() as usize,
        }),
        all is Ok <==> queries@.len() % index.spec_dim() == 0,
        all matches Ok(packed) ==> shows_batch(
            *search,
            index,
            queries@,
            index.spec_dim(),
            k,
            &(),
            infinity,
            packed,
        ),
        all matches Err(error) ==> error == (IndexError::QueriesLength {
            len: queries.len(),
            dim: index.spec_dim() as usize,
        }),
{
    if one is Ok {
        let packed = one->Ok_0;
        let reply = choose|reply: Vec<ScoredVector<T>>| #[trigger]
            crate::query::answers(*search, index, query@, k, &(), reply) && crate::query::packs_one(
                reply@,
                k as nat,
                infinity,
                packed,
            );
        lemma_shows_one(*search, index, query@, k, &(), infinity, packed, reply);
    }
    if all is Ok {
        let packed = all->Ok_0;
        let replies = choose|replies: Seq<Vec<ScoredVector<T>>>| #[trigger]
            crate::query::answers_batch(*search, index, queries@, index.spec_dim(), k, &(), replies)
                && crate::query::packs(replies, k as nat, infinity, packed);
        lemma_shows_batch(*search, index, queries@, index.spec_dim(), k, &(), infinity, packed, replies);
    }
}

/// A flat index answers a sparse query, or a batch of them, with what it replies to them.
pub proof fn law_flat_sparse_search<D, T: Copy, F>(
    index: &SparseFlatIndex<D>,
    components: &[i32],
    values: &[T],
    offsets: &[i64],
    k: usize,
    infinity: T,
    search: &F,
    one: Result<(Vec<T>, Vec<i64>), IndexError>,
    all: Result<(Vec<T>, Vec<i64>), IndexError>,
) where F: Fn(&SparseFlatIndex<D>, &[u16], &[T], usize, &()) -> Vec<ScoredVector<T>>
    requires
        components@.len() == values@.len(),
        cut(offsets@, components@.len()),
        call_ensures(
            SparseFlatIndex::<D>::search::<T, F>,
            (index, components, values, k, infinity, search),
            one,
        ),
        call_ensures(
            SparseFlatIndex::<D>::batch_search::<T, F>,
            (index, components, values, offsets, k, infinity, search),
            all,
        ),
    ensures
        one is Ok <==> in_range(components@),
        all is Ok <==> in_range(components@),
        one matches Ok(packed) ==> shows_sparse(
            *search,
            index,
            components@,
            values@,
            k,
            &(),
            infinity,
            packed,
        ),
        all matches Ok(packed) ==> shows_sparse_batch(
            *search,
            index,
            components@,
            values@,
            offsets@,
            k,
            &(),
            infinity,
            packed,
        ),
        one matches Err(error) ==> error == IndexError::ComponentOutOfRange,
        all matches Err(error) ==> error == IndexError::ComponentOutOfRange,
{
    lemma_narrowed(components@);
    let narrow = crate::sparse_query::narrowed(components@);
    if one is Ok {
        let packed = one->Ok_0;
        let reply = choose|reply: Vec<ScoredVector<T>>| #[trigger]
            crate::sparse_query::answers_sparse(*search, index, narrow, values@, k, &(), reply)
                && crate::query::packs_one(reply@, k as nat, infinity, packed);
        lemma_shows_sparse(*search, index, components@, values@, k, &(), infinity, packed, reply);
    }
    if all is Ok {
        let packed = all->Ok_0;
        let replies = choose|replies: Seq<Vec<ScoredVector<T>>>| #[trigger]
            crate::sparse_query::answers_sparse_batch(
                *search,
                index,
                narrow,
                values@,
                offsets@,
                k,
                &(),
                replies,
            ) && crate::query::packs(replies, k as nat, infinity, packed);
        lemma_shows_sparse_batch(
            *search,
            index,
            components@,
            values@,
            offsets@,
            k,
            &(),
            infinity,
            packed,
            replies,
        );
    }
}

/// A graph index answers a query, or a batch of them, with what its graph replies to
/// them under the given effort and threshold.
pub proof fn law_graph_search<H, G, T: Copy, F>(
    index: &DensePlainHNSW<H, G>,
    query: &[T],
    queries: &[T],
    k: usize,
    ef_search: usize,
    threshold: Option<T>,
    infinity: T,
    search: &F,
    one: Result<(Vec<T>, Vec<i64>), IndexError>,
    all: Result<(Vec<T>, Vec<i64>), IndexError>,
) where F: Fn(&H, &[T], usize, &HNSWSearchConfiguration<T, ()>) -> Vec<ScoredVector<T>>
    requires
        index.spec_dim() > 0,
        call_ensures(
            DensePlainHNSW::<H, G>::search::<T, F>,
            (index, query, k, ef_search, threshold, infinity, search),
            one,
        ),
        call_ensures(
            DensePlainHNSW::<H, G>::batch_search::<T, F>,
            (index, queries, k, ef_search, threshold, infinity, search),
            all,
        ),
    ensures
        one is Ok <==> query@.len() == index.spec_dim(),
        one matches Ok(packed) ==> exists|config: HNSWSearchConfiguration<T, ()>| #[trigger]
            carries(config, ef_search, threshold, ()) && shows_one(
                *search,
                &index.spec_index(),
                query@,
                k,
                &config,
                infinity,
                packed,
            ),
        one matches Err(error) ==> error == (IndexError::QueryDimension {
            got: query@.len() as usize,
            dim: index.spec_dim() as usize,
        }),
        all is Ok <==> queries@.len() % index.spec_dim() == 0,
        all matches Ok(packed) ==> exists|config: HNSWSearchConfiguration<T, ()>| #[trigger]
            carries(config, ef_search, threshold, ()) && shows_batch(
                *search,
                &index.spec_index(),
                queries@,
                index.spec_dim(),
                k,
                &config,
                infinity,
                packed,
            ),
        all matches Err(error) ==> error == (IndexError::QueriesLength {
            len: queries@.len() as usize,
            dim: index.spec_dim() as usize,
        }),
{
    let config = crate::query::configured_spec(ef_search, threshold, ());
    let graph = &index.spec_index();
    assert(carries(config, ef_search, threshold, ()));
    if one is Ok {
        let packed = one->Ok_0;
        let reply = choose|reply: Vec<ScoredVector<T>>| #[trigger]
            crate::query::answers(*search, graph, query@, k, &config, reply) && crate::query::packs_one(
                reply@,
                k as nat,
                infinity,
                packed,
            );
        lemma_shows_one(*search, graph, query@, k, &config, infinity, packed, reply);
    }
    if all is Ok {
        let packed = all->Ok_0;
        let replies = choose|replies: Seq<Vec<ScoredVector<T>>>| #[trigger]
            crate::query::answers_batch(*search, graph, queries@, index.spec_dim(), k, &config, replies)
                && crate::query::packs(replies, k as nat, infinity, packed);
        lemma_shows_batch(*search, graph, queries@, index.spec_dim(), k, &config, infinity, packed, replies);
    }
}

/// A filtered search hands the query, the effort, the threshold and the predicate to the
/// graph, and shows what it replies; over expanded lists it hands these over too, and
/// fails exactly where there are none.
pub proof fn law_filtered_search<H, G, T: Copy, P, F, E>(
    index: &DensePlainHNSW<H, G>,
    query: &[T],
    k: usize,
    predicate: P,
    ef_search: usize,
    threshold: Option<T>,
    infinity: T,
    search: F,
    search_expanded: E,
    packed: (Vec<T>, Vec<i64>),
    found: Result<(Vec<T>, Vec<i64>), IndexError>,
) where
    P: Fn(i64) -> Option<bool>,
    F: FnOnce(&H, &[T], usize, &HNSWSearchConfiguration<T, ()>, &Eligibility<P>) -> Vec<ScoredVector<T>>,
    E: FnOnce(&H, &[T], usize, &HNSWSearchConfiguration<T, ()>, &G, &Eligibility<P>) -> Vec<ScoredVector<T>>,

    requires
        call_ensures(
            DensePlainHNSW::<H, G>::search_filtered::<T, P, F>,
            (index, query, k, predicate, ef_search, threshold, infinity, search),
            packed,
        ),
        call_ensures(
            DensePlainHNSW::<H, G>::search_filtered_gamma::<T, P, E>,
            (index, query, k, predicate, ef_search, threshold, infinity, search_expanded),
            found,
        ),
    ensures
        packed.0@.len() == k,
        packed.1@.len() == k,
        exists|config: HNSWSearchConfiguration<T, ()>, eligible: Eligibility<P>, reply: Vec<ScoredVector<T>>|
            {
                &&& carries(config, ef_search, threshold, ())
                &&& eligible.spec_predicate() == predicate
                &&& #[trigger] call_ensures(search, (&index.spec_index(), query, k, &config, &eligible), reply)
                &&& shows(reply@, k as int, infinity, packed.0@, packed.1@, 0)
            },
        found is Err <==> index.spec_gamma() is None,
        found matches Err(error) ==> error == IndexError::GammaNotBuilt,
        found matches Ok(expanded) ==> {
            &&& expanded.0@.len() == k
            &&& expanded.1@.len() == k
            &&& exists|config: HNSWSearchConfiguration<T, ()>, eligible: Eligibility<P>, reply: Vec<ScoredVector<T>>|
                {
                    &&& carries(config, ef_search, threshold, ())
                    &&& eligible.spec_predicate() == predicate
                    &&& #[trigger] call_ensures(
                        search_expanded,
                        (&index.spec_index(), query, k, &config, &index.spec_gamma()->0, &eligible),
                        reply,
                    )
                    &&& shows(reply@, k as int, infinity, expanded.0@, expanded.1@, 0)
                }
        },
{
    let config = crate::query::configured_spec(ef_search, threshold, ());
    let (eligible, reply) = choose|eligible: Eligibility<P>, reply: Vec<ScoredVector<T>>|
        {
            &&& eligible.spec_predicate() == predicate
            &&& #[trigger] call_ensures(search, (&index.spec_index(), query, k, &config, &eligible), reply)
            &&& crate::query::packs_one(reply@, k as nat, infinity, packed)
        };
    lemma_shows(reply@, k, infinity, packed);
    assert(carries(config, ef_search, threshold, ()));
    if found is Ok {
        let expanded = found->Ok_0;
        let lists = index.spec_gamma()->0;
        let (eligible, reply) = choose|eligible: Eligibility<P>, reply: Vec<ScoredVector<T>>|
            {
                &&& eligible.spec_predicate() == predicate
                &&& #[trigger] call_ensures(
                    search_expanded,
                    (&index.spec_index(), query, k, &config, &lists, &eligible),
                    reply,
                )
                &&& crate::query::packs_one(reply@, k as nat, infinity, expanded)
            };
        lemma_shows(reply@, k, infinity, expanded);
    }
}

/// A vector is eligible exactly where the predicate answered yes for its identifier.
pub proof fn law_eligibility<P: Fn(i64) -> Option<bool>>(eligible: &Eligibility<P>, id: usize, allowed: bool)
    requires
        call_ensures(Eligibility::<P>::allows, (eligible, id), allowed),
    ensures
        allowed ==> call_ensures(eligible.spec_predicate(), (id as i64,), Some(true)),
        !allowed ==> call_ensures(eligible.spec_predicate(), (id as i64,), Some(false)) || call_ensures(
            eligible.spec_predicate(),
            (id as i64,),
            None,
        ),
{
    let answer = choose|answer: Option<bool>| #[trigger]
        call_ensures(eligible.spec_predicate(), (id as i64,), answer) && allowed == (answer == Some(true));
    assert(answer == Some(true) || answer == Some(false) || answer is None);
}

/// A two-stage dense index answers a query, or a batch of them, with what its stages
/// reply to them under the parameters given and its own query width.
pub proof fn law_two_stage_search<I, T: Copy, F>(
    index: &DenseRerankHNSW<I>,
    query: &[T],
    queries: &[T],
    k: usize,
    k_candidates: usize,
    ef_search: usize,
    alpha: Option<T>,
    beta: Option<usize>,
    threshold: Option<T>,
    infinity: T,
    search: &F,
    one: Result<(Vec<T>, Vec<i64>), IndexError>,
    all: Result<(Vec<T>, Vec<i64>), IndexError>,
) where F: Fn(&I, &[T], usize, &RerankParams<T>) -> Vec<ScoredVector<T>>
    requires
        index.spec_dim() > 0,
        call_ensures(
            DenseRerankHNSW::<I>::search::<T, F>,
            (index, query, k, k_candidates, ef_search, alpha, beta, threshold, infinity, search),
            one,
        ),
        call_ensures(
            DenseRerankHNSW::<I>::batch_search::<T, F>,
            (index, queries, k, k_candidates, ef_search, alpha, beta, threshold, infinity, search),
            all,
        ),
    ensures
        one is Ok <==> query@.len() == index.spec_dim(),
        one matches Ok(packed) ==> exists|params: RerankParams<T>| #[trigger]
            carries_all(
                params,
                k_candidates,
                ef_search,
                alpha,
                beta,
                threshold,
                index.spec_query_bits(),
                false,
            ) && shows_one(*search, &index.spec_index(), query@, k, &params, infinity, packed),
        one matches Err(error) ==> error == (IndexError::QueryDimension {
            got: query.len(),
            dim: index.spec_dim() as usize,
        }),
        all is Ok <==> queries@.len() % index.spec_dim() == 0,
        all matches Ok(packed) ==> exists|params: RerankParams<T>| #[trigger]
            carries_all(
                params,
                k_candidates,
                ef_search,
                alpha,
                beta,
                threshold,
                index.spec_query_bits(),
                false,
            ) && shows_batch(
                *search,
                &index.spec_index(),
                queries@,
                index.spec_dim(),
                k,
                &params,
                infinity,
                packed,
            ),
        all matches Err(error) ==> error == (IndexError::QueriesLength {
            len: queries.len(),
            dim: index.spec_dim() as usize,
        }),
{
    let bits = index.spec_query_bits();
    let params = crate::rerank_dense::rerank_params_spec(
        k_candidates,
        ef_search,
        alpha,
        beta,
        threshold,
        bits,
        false,
    );
    let stages = &index.spec_index();
    assert(carries_all(params, k_candidates, ef_search, alpha, beta, threshold, bits, false));
    if one is Ok {
        let packed = one->Ok_0;
        let reply = choose|reply: Vec<ScoredVector<T>>| #[trigger]
            crate::query::answers(*search, stages, query@, k, &params, reply) && crate::query::packs_one(
                reply@,
                k as nat,
                infinity,
                packed,
            );
        lemma_shows_one(*search, stages, query@, k, &params, infinity, packed, reply);
    }
    if all is Ok {
        let packed = all->Ok_0;
        let replies = choose|replies: Seq<Vec<ScoredVector<T>>>| #[trigger]
            crate::query::answers_batch(*search, stages, queries@, index.spec_dim(), k, &params, replies)
                && crate::query::packs(replies, k as nat, infinity, packed);
        lemma_shows_batch(*search, stages, queries@, index.spec_dim(), k, &params, infinity, packed, replies);
    }
}

/// Both indexes with a sparse first stage answer a query with what their stages reply to
/// exactly this query and its tokens, under the parameters given: scores are summed
/// exactly where that was asked for.
pub proof fn law_multivector_search<I, T: Copy, F>(
    plain: &SparseMultivecRerankIndex<I>,
    coded: &SparseMultivecTwoLevelsPQRerankIndex<I>,
    components: &[i32],
    values: &[T],
    tokens: &[T],
    token_dim: usize,
    k_candidates: usize,
    k: usize,
    ef_search: usize,
    alpha: Option<T>,
    beta: Option<usize>,
    threshold: Option<T>,
    residuals: bool,
    infinity: T,
    search: &F,
    found: Result<(Vec<T>, Vec<i64>), IndexError>,
    found_coded: Result<(Vec<T>, Vec<i64>), IndexError>,
) where F: Fn(&I, &[u16], &[T], &[T], usize, usize, &RerankParams<T>) -> Vec<ScoredVector<T>>
    requires
        components@.len() == values@.len(),
        call_ensures(
            SparseMultivecRerankIndex::<I>::search::<T, F>,
            (
                plain,
                components,
                values,
                tokens,
                token_dim,
                k_candidates,
                k,
                ef_search,
                alpha,
                beta,
                threshold,
                residuals,
                infinity,
                search,
            ),
            found,
        ),
        call_ensures(
            SparseMultivecTwoLevelsPQRerankIndex::<I>::search::<T, F>,
            (
                coded,
                components,
                values,
                tokens,
                token_dim,
                k_candidates,
                k,
                ef_search,
                alpha,
                beta,
                threshold,
                residuals,
                infinity,
                search,
            ),
            found_coded,
        ),
    ensures
        found is Ok <==> in_range(components@),
        found_coded is Ok <==> in_range(components@),
        found matches Err(error) ==> error == IndexError::ComponentOutOfRange,
        found_coded matches Err(error) ==> error == IndexError::ComponentOutOfRange,
        found matches Ok(packed) ==> exists|params: RerankParams<T>| #[trigger]
            carries_all(params, k_candidates, ef_search, alpha, beta, threshold, None, residuals) && shows_multi(
                *search,
                &plain.spec_index(),
                components@,
                values@,
                tokens@,
                token_dim,
                k,
                &params,
                infinity,
                packed,
            ),
        found_coded matches Ok(packed) ==> exists|params: RerankParams<T>| #[trigger]
            carries_all(params, k_candidates, ef_search, alpha, beta, threshold, None, residuals) && shows_multi(
                *search,
                &coded.spec_index(),
                components@,
                values@,
                tokens@,
                token_dim,
                k,
                &params,
                infinity,
                packed,
            ),
{
    lemma_narrowed(components@);
    let narrow = crate::sparse_query::narrowed(components@);
    let params = crate::rerank_dense::rerank_params_spec(
        k_candidates,
        ef_search,
        alpha,
        beta,
        threshold,
        None,
        residuals,
    );
    assert(carries_all(params, k_candidates, ef_search, alpha, beta, threshold, None, residuals));
    if found is Ok {
        let packed = found->Ok_0;
        let stages = &plain.spec_index();
        let reply = choose|reply: Vec<ScoredVector<T>>| #[trigger]
            crate::rerank_multivec::answers_multi(
                *search,
                stages,
                narrow,
                values@,
                tokens@,
                token_dim,
                k,
                &params,
                reply,
            ) && crate::query::packs_one(reply@, k as nat, infinity, packed);
        lemma_shows_multi(
            *search,
            stages,
            components@,
            values@,
            tokens@,
            token_dim,
            k,
            &params,
            infinity,
            packed,
            reply,
        );
    }
    if found_coded is Ok {
        let packed = found_coded->Ok_0;
        let stages = &coded.spec_index();
        let reply = choose|reply: Vec<ScoredVector<T>>| #[trigger]
            crate::rerank_multivec::answers_multi(
                *search,
                stages,
                narrow,
                values@,
                tokens@,
                token_dim,
                k,
                &params,
                reply,
            ) && crate::query::packs_one(reply@, k as nat, infinity, packed);
        lemma_shows_multi(
            *search,
            stages,
            components@,
            values@,
            tokens@,
            token_dim,
            k,
            &params,
            infinity,
            packed,
            reply,
        );
    }
}

/// Both answer a batch in the same way, query after query.
pub proof fn law_multivector_batch<I, T: Copy, F>(
    plain: &SparseMultivecRerankIndex<I>,
    coded: &SparseMultivecTwoLevelsPQRerankIndex<I>,
    components: &[i32],
    values: &[T],
    offsets: &[i64],
    tokens: &[T],
    n_tokens: usize,
    token_dim: usize,
    k_candidates: usize,
    k: usize,
    ef_search: usize,
    alpha: Option<T>,
    beta: Option<usize>,
    threshold: Option<T>,
    residuals: bool,
    infinity: T,
    search: &F,
    found: Result<(Vec<T>, Vec<i64>), IndexError>,
    found_coded: Result<(Vec<T>, Vec<i64>), IndexError>,
) where F: Fn(&I, &[u16], &[T], &[T], usize, usize, &RerankParams<T>) -> Vec<ScoredVector<T>>
    requires
        cut(offsets@, components@.len()),
        cut(offsets@, values@.len()),
        (offsets@.len() - 1) * (n_tokens * token_dim) <= tokens@.len(),
        call_ensures(
            SparseMultivecRerankIndex::<I>::batch_search::<T, F>,
            (
                plain,
                components,
                values,
                offsets,
                tokens,
                n_tokens,
                token_dim,
                k_candidates,
                k,
                ef_search,
                alpha,
                beta,
                threshold,
                residuals,
                infinity,
                search,
            ),
            found,
        ),
        call_ensures(
            SparseMultivecTwoLevelsPQRerankIndex::<I>::batch_search::<T, F>,
            (
                coded,
                components,
                values,
                offsets,
                tokens,
                n_tokens,
                token_dim,
                k_candidates,
                k,
                ef_search,
                alpha,
                beta,
                threshold,
                residuals,
                infinity,
                search,
            ),
            found_coded,
        ),
    ensures
        found is Ok <==> in_range(components@),
        found_coded is Ok <==> in_range(components@),
        found matches Err(error) ==> error == IndexError::ComponentOutOfRange,
        found_coded matches Err(error) ==> error == IndexError::ComponentOutOfRange,
        found matches Ok(packed) ==> exists|params: RerankParams<T>| #[trigger]
            carries_all(params, k_candidates, ef_search, alpha, beta, threshold, None, residuals)
                && shows_multi_batch(
                *search,
                &plain.spec_index(),
                components@,
                values@,
                offsets@,
                tokens@,
                n_tokens * token_dim,
                token_dim,
                k,
                &params,
                infinity,
                packed,
            ),
        found_coded matches Ok(packed) ==> exists|params: RerankParams<T>| #[trigger]
            carries_all(params, k_candidates, ef_search, alpha, beta, threshold, None, residuals)
                && shows_multi_batch(
                *search,
                &coded.spec_index(),
                components@,
                values@,
                offsets@,
                tokens@,
                n_tokens * token_dim,
                token_dim,
                k,
                &params,
                infinity,
                packed,
            ),
{
    lemma_narrowed(components@);
    assert(0 <= n_tokens * token_dim) by (nonlinear_arith);
    let size = (n_tokens * token_dim) as nat;
    let narrow = crate::sparse_query::narrowed(components@);
    let params = crate::rerank_dense::rerank_params_spec(
        k_candidates,
        ef_search,
        alpha,
        beta,
        threshold,
        None,
        residuals,
    );
    assert(carries_all(params, k_candidates, ef_search, alpha, beta, threshold, None, residuals));
    if found is Ok {
        let packed = found->Ok_0;
        let stages = &plain.spec_index();
        let replies = choose|replies: Seq<Vec<ScoredVector<T>>>| #[trigger]
            crate::rerank_multivec::answers_multi_batch(
                *search,
                stages,
                narrow,
                values@,
                offsets@,
                tokens@,
                size,
                token_dim,
                k,
                &params,
                replies,
            ) && crate::query::packs(replies, k as nat, infinity, packed);
        lemma_shows_multi_batch(
            *search,
            stages,
            components@,
            values@,
            offsets@,
            tokens@,
            size,
            token_dim,
            k,
            &params,
            infinity,
            packed,
            replies,
        );
    }
    if found_coded is Ok {
        let packed = found_coded->Ok_0;
        let stages = &coded.spec_index();
        let replies = choose|replies: Seq<Vec<ScoredVector<T>>>| #[trigger]
            crate::rerank_multivec::answers_multi_batch(
                *search,
                stages,
                narrow,
                values@,
                offsets@,
                tokens@,
                size,
                token_dim,
                k,
                &params,
                replies,
            ) && crate::query::packs(replies, k as nat, infinity, packed);
        lemma_shows_multi_batch(
            *search,
            stages,
            components@,
            values@,
            offsets@,
            tokens@,
            size,
            token_dim,
            k,
            &params,
            infinity,
            packed,
            replies,
        );
    }
}

/// What is appended for one reply shows it: each result in its place, behind everything
/// that was there.
pub proof fn law_replies_are_appended<T: Copy>(
    results: &[ScoredVector<T>],
    k: usize,
    infinity: T,
    distances: &mut Vec<T>,
    ids: &mut Vec<i64>,
)
    requires
        call_ensures(push_results::<T>, (results, k, infinity, distances, ids), ()),
    ensures
        final(distances)@.len() == old(distances)@.len() + k,
        final(ids)@.len() == old(ids)@.len() + k,
        forall|i: int| 0 <= i < old(distances)@.len() ==> #[trigger] final(distances)@[i] == old(distances)@[i],
        forall|i: int| 0 <= i < old(ids)@.len() ==> #[trigger] final(ids)@[i] == old(ids)@[i],
        forall|j: int|
            0 <= j < k && j < results@.len() ==> #[trigger] final(distances)@[old(distances)@.len() + j]
                == results@[j].distance,
        forall|j: int|
            0 <= j < k && j < results@.len() ==> #[trigger] final(ids)@[old(ids)@.len() + j]
                == results@[j].vector as i64,
        forall|j: int|
            results@.len() <= j < k ==> #[trigger] final(distances)@[old(distances)@.len() + j] == infinity,
        forall|j: int| results@.len() <= j < k ==> #[trigger] final(ids)@[old(ids)@.len() + j] == -1,
{
}

} // verus!
