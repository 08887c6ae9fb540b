//! Single sparse queries and batches of them against an index.

use crate::error::IndexError;
use crate::ranking::ScoredVector;
use crate::results::{pack_results, push_results};
use crate::sparse::convert_components_to_u16;
use vstd::prelude::*;

verus! {

/// Whether `reply` is what `search` returns for the query with these components
/// and values.
pub open spec fn answers_sparse<I, T, C, F>(
    search: F,
    index: &I,
    components: Seq<u16>,
    values: Seq<T>,
    k: usize,
    config: &C,
    reply: Vec<ScoredVector<T>>,
) -> bool where F: Fn(&I, &[u16], &[T], usize, &C) -> Vec<ScoredVector<T>> {
    exists|c: &[u16], v: &[T]|
        c@ == components && v@ == values && #[trigger] call_ensures(
            search,
            (index, c, v, k, config),
            reply,
        )
}

/// Whether `search` accepts every query with as many components as values.
pub open spec fn accepts_sparse<I, T, C, F>(search: F, index: &I, k: usize, config: &C) -> bool where
    F: Fn(&I, &[u16], &[T], usize, &C) -> Vec<ScoredVector<T>>,
 {
    forall|c: &[u16], v: &[T]|
        c@.len() == v@.len() ==> #[trigger] call_requires(search, (index, c, v, k, config))
}

/// Whether every component fits 16 bits.
pub open spec fn all_fit(components: Seq<i32>) -> bool {
    forall|i: int| 0 <= i < components.len() ==> crate::sparse::fits_u16(#[trigger] components[i])
}

/// The components as 16-bit numbers.
pub open spec fn narrowed(components: Seq<i32>) -> Seq<u16> {
    components.map_values(|c: i32| c as u16)
}

/// Whether offsets `i` and `i + 1` delimit a part of `n` entries.
pub open spec fn delimits(offsets: Seq<i64>, n: nat, i: int) -> bool {
    0 <= offsets[i] <= offsets[i + 1] <= n
}

/// Whether the offsets delimit parts of `n` entries.
pub open spec fn delimit_all(offsets: Seq<i64>, n: nat) -> bool {
    &&& offsets.len() > 0
    &&& forall|i: int| 0 <= i < offsets.len() - 1 ==> #[trigger] delimits(offsets, n, i)
}

/// Part `i` of what the offsets delimit.
pub open spec fn part<A>(entries: Seq<A>, offsets: Seq<i64>, i: int) -> Seq<A> {
    entries.subrange(offsets[i] as int, offsets[i + 1] as int)
}

/// Whether `replies` are what `search` returns for the queries of a batch.
pub open spec fn answers_sparse_batch<I, T, C, F>(
    search: F,
    index: &I,
    components: Seq<u16>,
    values: Seq<T>,
    offsets: Seq<i64>,
    k: usize,
    config: &C,
    replies: Seq<Vec<ScoredVector<T>>>,
) -> bool where F: Fn(&I, &[u16], &[T], usize, &C) -> Vec<ScoredVector<T>> {
    &&& replies.len() == offsets.len() - 1
    &&& forall|i: int|
        0 <= i < replies.len() ==> answers_sparse(
            search,
            index,
            part(components, offsets, i),
            part(values, offsets, i),
            k,
            config,
            #[trigger] replies[i],
        )
}

/// Searches `index` for one sparse query.
pub fn search_sparse<I, T, C, F>(
    index: &I,
    components: &[i32],
    values: &[T],
    k: usize,
    config: &C,
    infinity: T,
    search: &F,
) -> (found: Result<(Vec<T>, Vec<i64>), IndexError>) where
    T: Copy,
    F: Fn(&I, &[u16], &[T], usize, &C) -> Vec<ScoredVector<T>>,

    requires
        all_fit(components@) ==> components@.len() == values@.len(),
        accepts_sparse(*search, index, k, config),
    ensures
        !all_fit(components@) <==> found is Err,
        match found {
            Ok(packed) => exists|reply: Vec<ScoredVector<T>>| #[trigger]
                answers_sparse(*search, index, narrowed(components@), values@, k, config, reply)
                    && crate::query::packs_one(reply@, k as nat, infinity, packed),
            Err(error) => error == IndexError::ComponentOutOfRange,
        },
{
    let narrow: Vec<u16> = match convert_components_to_u16(components) {
        Ok(narrow) => narrow,
        Err(error) => {
            return Err(error);
        },
    };
    let c: &[u16] = narrow.as_slice();
    assert(call_requires(*search, (index, c, values, k, config)));
    let reply: Vec<ScoredVector<T>> = search(index, c, values, k, config);
    assert(answers_sparse(*search, index, narrowed(components@), values@, k, config, reply));
    Ok(pack_results(reply.as_slice(), k, infinity))
}

/// Searches `index` for sparse query `i` of a batch.
pub fn search_sparse_nth<I, T, C, F>(
    index: &I,
    components: &[u16],
    values: &[T],
    offsets: &[i64],
    i: usize,
    k: usize,
    config: &C,
    infinity: T,
    search: &F,
) -> (packed: (Vec<T>, Vec<i64>)) where
    T: Copy,
    F: Fn(&I, &[u16], &[T], usize, &C) -> Vec<ScoredVector<T>>,

    requires
        i + 1 < offsets@.len(),
        delimits(offsets@, components@.len(), i as int),
        delimits(offsets@, values@.len(), i as int),
        accepts_sparse(*search, index, k, config),
    ensures
        exists|reply: Vec<ScoredVector<T>>| #[trigger]
            answers_sparse(
                *search,
                index,
                part(components@, offsets@, i as int),
                part(values@, offsets@, i as int),
                k,
                config,
                reply,
            ) && crate::query::packs_one(reply@, k as nat, infinity, packed),
{
    assert(components@.len() == components.len());
    let start: usize = offsets[i] as usize;
    let end: usize = offsets[i + 1] as usize;
    let c = vstd::slice::slice_subrange(components, start, end);
    let v = vstd::slice::slice_subrange(values, start, end);
    assert(call_requires(*search, (index, c, v, k, config)));
    let reply: Vec<ScoredVector<T>> = search(index, c, v, k, config);
    assert(answers_sparse(
        *search,
        index,
        part(components@, offsets@, i as int),
        part(values@, offsets@, i as int),
        k,
        config,
        reply,
    ));
    pack_results(reply.as_slice(), k, infinity)
}

/// Searches `index` for every sparse query of a batch.
pub fn search_sparse_batch<I, T, C, F>(
    index: &I,
    components: &[i32],
    values: &[T],
    offsets: &[i64],
    k: usize,
    config: &C,
    infinity: T,
    search: &F,
) -> (found: Result<(Vec<T>, Vec<i64>), IndexError>) where
    T: Copy,
    F: Fn(&I, &[u16], &[T], usize, &C) -> Vec<ScoredVector<T>>,

    requires
        all_fit(components@) ==> delimit_all(offsets@, components@.len()) && delimit_all(
            offsets@,
            values@.len(),
        ),
        accepts_sparse(*search, index, k, config),
    ensures
        !all_fit(components@) <==> found is Err,
        match found {
            Ok(packed) => exists|replies: Seq<Vec<ScoredVector<T>>>| #[trigger]
                answers_sparse_batch(
                    *search,
                    index,
                    narrowed(components@),
                    values@,
                    offsets@,
                    k,
                    config,
                    replies,
                ) && crate::query::packs(replies, k as nat, infinity, packed),
            Err(error) => error == IndexError::ComponentOutOfRange,
        },
{
    let narrow: Vec<u16> = match convert_components_to_u16(components) {
        Ok(narrow) => narrow,
        Err(error) => {
            return Err(error);
        },
    };
    let n: usize = offsets.len() - 1;
    let ghost mut replies: Seq<Vec<ScoredVector<T>>> = Seq::empty();
    let mut distances: Vec<T> = Vec::new();
    let mut ids: Vec<i64> = Vec::new();
    proof {
        assert(crate::results::batch_distances(replies, k as nat, infinity) =~= Seq::empty());
        assert(crate::results::batch_ids(replies, k as nat) =~= Seq::empty());
    }
    let mut i: usize = 0;
    while i < n
        invariant
            i <= n,
            n == offsets@.len() - 1,
            narrow@ == narrowed(components@),
            delimit_all(offsets@, narrow@.len()),
            delimit_all(offsets@, values@.len()),
            accepts_sparse(*search, index, k, config),
            replies.len() == i,
            forall|j: int|
                0 <= j < i ==> answers_sparse(
                    *search,
                    index,
                    part(narrow@, offsets@, j),
                    part(values@, offsets@, j),
                    k,
                    config,
                    #[trigger] replies[j],
                ),
            distances@ == crate::results::batch_distances(replies, k as nat, infinity),
            ids@ == crate::results::batch_ids(replies, k as nat),
        decreases n - i,
    {
        proof {
            assert(delimits(offsets@, narrow@.len(), i as int));
            assert(delimits(offsets@, values@.len(), i as int));
            assert(narrow@.len() == narrow.len());
        }
        let start: usize = offsets[i] as usize;
        let end: usize = offsets[i + 1] as usize;
        let c = vstd::slice::slice_subrange(narrow.as_slice(), start, end);
        let v = vstd::slice::slice_subrange(values, start, end);
        assert(call_requires(*search, (index, c, v, k, config)));
        let reply: Vec<ScoredVector<T>> = search(index, c, v, k, config);
        push_results(reply.as_slice(), k, infinity, &mut distances, &mut ids);
        proof {
            assert(answers_sparse(
                *search,
                index,
                part(narrow@, offsets@, i as int),
                part(values@, offsets@, i as int),
                k,
                config,
                reply,
            ));
            crate::results::lemma_batch_push(replies, reply, k as nat, infinity);
            replies = replies.push(reply);
        }
        i = i + 1;
    }
    assert(answers_sparse_batch(
        *search,
        index,
        narrowed(components@),
        values@,
        offsets@,
        k,
        config,
        replies,
    ));
    Ok((distances, ids))
}

} // verus!
