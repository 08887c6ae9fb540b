//! Packing of search results: padding to `k`, batches, and result rows.

use crate::ranking::ScoredVector;
use vstd::prelude::*;

verus! {

/// The identifiers of the first `k` results, padded with -1 to exactly `k`.
pub open spec fn padded_ids<T>(results: Seq<ScoredVector<T>>, k: nat) -> Seq<i64> {
    Seq::new(
        k,
        |j: int|
            if j < results.len() {
                results[j].vector as i64
            } else {
                -1i64
            },
    )
}

/// The distances of the first `k` results, padded with `infinity` to exactly `k`.
pub open spec fn padded_distances<T>(results: Seq<ScoredVector<T>>, k: nat, infinity: T) -> Seq<T> {
    Seq::new(
        k,
        |j: int|
            if j < results.len() {
                results[j].distance
            } else {
                infinity
            },
    )
}

/// Appends the distances and identifiers of the first `k` results, padded to
/// exactly `k` entries each.
pub fn push_results<T: Copy>(
    results: &[ScoredVector<T>],
    k: usize,
    infinity: T,
    distances: &mut Vec<T>,
    ids: &mut Vec<i64>,
)
    ensures
        final(distances)@ == old(distances)@ + padded_distances(results@, k as nat, infinity),
        final(ids)@ == old(ids)@ + padded_ids(results@, k as nat),
{
    let ghost d0 = distances@;
    let ghost i0 = ids@;
    let ghost all_d = padded_distances(results@, k as nat, infinity);
    let ghost all_i = padded_ids(results@, k as nat);
    let mut found: usize = 0;
    while found < k
        invariant
            found <= k,
            all_d == padded_distances(results@, k as nat, infinity),
            all_i == padded_ids(results@, k as nat),
            distances@ == d0 + all_d.take(found as int),
            ids@ == i0 + all_i.take(found as int),
        decreases k - found,
    {
        if found < results.len() {
            distances.push(results[found].distance);
            ids.push(
                #[verifier::truncate]
                (results[found].vector as i64),
            );
        } else {
            distances.push(infinity);
            ids.push(-1);
        }
        proof {
            assert(all_d.take(found + 1) =~= all_d.take(found as int).push(all_d[found as int]));
            assert(all_i.take(found + 1) =~= all_i.take(found as int).push(all_i[found as int]));
        }
        found = found + 1;
        assert(distances@ =~= d0 + all_d.take(found as int));
        assert(ids@ =~= i0 + all_i.take(found as int));
    }
    assert(all_d.take(k as int) =~= all_d);
    assert(all_i.take(k as int) =~= all_i);
}

/// The distances and identifiers of one reply, padded to exactly `k` entries each.
pub fn pack_results<T: Copy>(results: &[ScoredVector<T>], k: usize, infinity: T) -> (packed: (
    Vec<T>,
    Vec<i64>,
))
    ensures
        packed.0@ == padded_distances(results@, k as nat, infinity),
        packed.1@ == padded_ids(results@, k as nat),
{
    let mut distances: Vec<T> = Vec::new();
    let mut ids: Vec<i64> = Vec::new();
    push_results(results, k, infinity, &mut distances, &mut ids);
    assert(distances@ =~= padded_distances(results@, k as nat, infinity));
    assert(ids@ =~= padded_ids(results@, k as nat));
    (distances, ids)
}

/// The replies to a batch, reply after reply, each padded to `k`.
pub open spec fn batch_distances<T>(
    replies: Seq<Vec<ScoredVector<T>>>,
    k: nat,
    infinity: T,
) -> Seq<T> {
    replies.map_values(|r: Vec<ScoredVector<T>>| padded_distances(r@, k, infinity)).flatten()
}

/// The identifiers of a batch, reply after reply, each padded to `k`.
pub open spec fn batch_ids<T>(replies: Seq<Vec<ScoredVector<T>>>, k: nat) -> Seq<i64> {
    replies.map_values(|r: Vec<ScoredVector<T>>| padded_ids(r@, k)).flatten()
}

/// Appends one more reply to a batch.
pub proof fn lemma_batch_push<T>(
    replies: Seq<Vec<ScoredVector<T>>>,
    reply: Vec<ScoredVector<T>>,
    k: nat,
    infinity: T,
)
    ensures
        batch_distances(replies.push(reply), k, infinity) == batch_distances(replies, k, infinity)
            + padded_distances(reply@, k, infinity),
        batch_ids(replies.push(reply), k) == batch_ids(replies, k) + padded_ids(reply@, k),
{
    let fd = |r: Vec<ScoredVector<T>>| padded_distances(r@, k, infinity);
    let fi = |r: Vec<ScoredVector<T>>| padded_ids(r@, k);
    assert(replies.push(reply).map_values(fd) =~= replies.map_values(fd).push(fd(reply)));
    assert(replies.push(reply).map_values(fi) =~= replies.map_values(fi).push(fi(reply)));
    replies.map_values(fd).lemma_flatten_push(fd(reply));
    replies.map_values(fi).lemma_flatten_push(fi(reply));
}

/// Parts of `k` entries each, one after the other: entry `q * k + j` is entry `j`
/// of part `q`.
pub proof fn lemma_flatten_uniform<A>(parts: Seq<Seq<A>>, k: nat)
    requires
        forall|q: int| 0 <= q < parts.len() ==> (#[trigger] parts[q]).len() == k,
    ensures
        parts.flatten().len() == parts.len() * k,
        forall|q: int, j: int|
            0 <= q < parts.len() && 0 <= j < k ==> #[trigger] parts.flatten()[q * k + j] == parts[q][j],
    decreases parts.len(),
{
    if parts.len() == 0 {
        assert(parts.flatten() =~= Seq::empty());
        assert(0 * k == 0) by (nonlinear_arith);
    } else {
        let head = parts.drop_last();
        let last = parts.last();
        lemma_flatten_uniform(head, k);
        head.lemma_flatten_push(last);
        assert(head.push(last) =~= parts);
        assert(parts.len() * k == head.len() * k + k) by (nonlinear_arith)
            requires
                parts.len() == head.len() + 1,
        ;
        assert forall|q: int, j: int| 0 <= q < parts.len() && 0 <= j < k implies
            #[trigger] parts.flatten()[q * k + j] == parts[q][j] by {
            if q < head.len() {
                crate::dense::lemma_cell(q, j, k as int, head.len() as int);
                assert(head.flatten()[q * k + j] == head[q][j]);
            } else {
                assert(0 <= q * k) by (nonlinear_arith)
                    requires
                        0 <= q,
                ;
            }
        }
    }
}

/// A batch holds exactly `k` entries for each query, query after query: entry
/// `q * k + j` of the batch is entry `j` of the padded reply to query `q`.
pub proof fn law_batch_is_query_major<T>(replies: Seq<Vec<ScoredVector<T>>>, k: nat, infinity: T)
    ensures
        batch_distances(replies, k, infinity).len() == replies.len() * k,
        batch_ids(replies, k).len() == replies.len() * k,
        forall|q: int, j: int|
            0 <= q < replies.len() && 0 <= j < k ==> #[trigger] batch_distances(replies, k, infinity)[q
                * k + j] == padded_distances(replies[q]@, k, infinity)[j],
        forall|q: int, j: int|
            0 <= q < replies.len() && 0 <= j < k ==> #[trigger] batch_ids(replies, k)[q * k + j]
                == padded_ids(replies[q]@, k)[j],
{
    let fd = |r: Vec<ScoredVector<T>>| padded_distances(r@, k, infinity);
    let fi = |r: Vec<ScoredVector<T>>| padded_ids(r@, k);
    lemma_flatten_uniform(replies.map_values(fd), k);
    lemma_flatten_uniform(replies.map_values(fi), k);
}

/// Packed replies are padded: whatever was found, exactly `k` entries come back,
/// and those past the results are `infinity` and -1.
pub proof fn law_results_are_padded<T>(results: Seq<ScoredVector<T>>, k: nat, infinity: T)
    ensures
        padded_distances(results, k, infinity).len() == k,
        padded_ids(results, k).len() == k,
        forall|j: int|
            results.len() <= j < k ==> #[trigger] padded_distances(results, k, infinity)[j] == infinity,
        forall|j: int| results.len() <= j < k ==> #[trigger] padded_ids(results, k)[j] == -1,
{
}

/// The packed replies of a batch, one after the other.
pub fn concat_packed<T: Copy>(parts: &[(Vec<T>, Vec<i64>)]) -> (all: (Vec<T>, Vec<i64>))
    ensures
        all.0@ == parts@.map_values(|p: (Vec<T>, Vec<i64>)| p.0@).flatten(),
        all.1@ == parts@.map_values(|p: (Vec<T>, Vec<i64>)| p.1@).flatten(),
{
    let ghost fd = |p: (Vec<T>, Vec<i64>)| p.0@;
    let ghost fi = |p: (Vec<T>, Vec<i64>)| p.1@;
    let mut distances: Vec<T> = Vec::new();
    let mut ids: Vec<i64> = Vec::new();
    let mut i: usize = 0;
    assert(parts@.take(0).map_values(fd).flatten() =~= Seq::empty());
    assert(parts@.take(0).map_values(fi).flatten() =~= Seq::empty());
    while i < parts.len()
        invariant
            i <= parts@.len(),
            fd == (|p: (Vec<T>, Vec<i64>)| p.0@),
            fi == (|p: (Vec<T>, Vec<i64>)| p.1@),
            distances@ == parts@.take(i as int).map_values(fd).flatten(),
            ids@ == parts@.take(i as int).map_values(fi).flatten(),
        decreases parts.len() - i,
    {
        let mut d: Vec<T> = crate::dense::copy_values(parts[i].0.as_slice());
        let mut n: Vec<i64> = crate::dense::copy_values(parts[i].1.as_slice());
        distances.append(&mut d);
        ids.append(&mut n);
        proof {
            let head = parts@.take(i as int);
            let next = parts@[i as int];
            assert(parts@.take(i + 1) =~= head.push(next));
            assert(head.push(next).map_values(fd) =~= head.map_values(fd).push(next.0@));
            assert(head.push(next).map_values(fi) =~= head.map_values(fi).push(next.1@));
            head.map_values(fd).lemma_flatten_push(next.0@);
            head.map_values(fi).lemma_flatten_push(next.1@);
        }
        i = i + 1;
    }
    assert(parts@.take(parts@.len() as int) =~= parts@);
    (distances, ids)
}

} // verus!
