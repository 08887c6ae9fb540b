//! What a search of an inverted vector file finds as a whole.

use crate::arithmetic::Arithmetic;
use crate::flatten::{lemma_from_flatten, lemma_in_flatten};
use crate::ivf::IVF;
use crate::ranking::{Ranked, ScoredVector};
use vstd::prelude::*;

verus! {

/// Parts that hold one item for each position of the clusters of `nearest`, in order.
pub open spec fn one_per_position<D, CI, T>(
    index: IVF<D, CI, T>,
    nearest: Seq<ScoredVector<T>>,
    parts: Seq<Seq<Ranked<T>>>,
) -> bool {
    &&& parts.len() == nearest.len()
    &&& forall|i: int|
        0 <= i < parts.len() ==> (#[trigger] parts[i]).len() == index.cluster_end(nearest[i].vector)
            - index.cluster_start(nearest[i].vector)
    &&& forall|i: int, j: int|
        0 <= i < parts.len() && 0 <= j < parts[i].len() ==> (#[trigger] parts[i][j]).position
            == index.cluster_start(nearest[i].vector) + j
}

/// Centroids that name distinct clusters of the index.
pub open spec fn distinct_clusters<D, CI, T>(
    index: IVF<D, CI, T>,
    nearest: Seq<ScoredVector<T>>,
) -> bool {
    &&& forall|i: int|
        0 <= i < nearest.len() ==> (#[trigger] nearest[i]).vector + 1 < index.offsets().len()
    &&& forall|i: int, j: int|
        0 <= i < j < nearest.len() ==> (#[trigger] nearest[i]).vector != (#[trigger] nearest[j]).vector
}

/// A scan finds one item for each position of the clusters it covers.
pub proof fn law_scan_covers_positions<D, CI, T, E, A, B, S>(
    index: IVF<D, CI, T>,
    ops: &A,
    batch6: B,
    single: S,
    evaluator: &E,
    nearest: Seq<ScoredVector<T>>,
    offered: Seq<Ranked<T>>,
) where
    A: Arithmetic<T>,
    B: Fn(&E, &D, [usize; 6]) -> [T; 6],
    S: Fn(&E, &D, usize) -> T,

    requires
        index.full_scan(ops, batch6, single, evaluator, nearest, offered),
    ensures
        exists|parts: Seq<Seq<Ranked<T>>>|
            one_per_position(index, nearest, parts) && #[trigger] parts.flatten() == offered,
{
    let parts = choose|parts: Seq<Seq<Ranked<T>>>|
        offered == #[trigger] parts.flatten() && parts.len() == nearest.len() && forall|i: int|
            0 <= i < parts.len() ==> index.cluster_scan(
                ops,
                batch6,
                single,
                evaluator,
                nearest[i],
                #[trigger] parts[i],
            );
    assert forall|i: int, j: int| 0 <= i < parts.len() && 0 <= j < parts[i].len() implies (
    #[trigger] parts[i][j]).position == index.cluster_start(nearest[i].vector) + j by {
        assert(index.cluster_scan(ops, batch6, single, evaluator, nearest[i], parts[i]));
    }
    assert(one_per_position(index, nearest, parts));
}

/// Where the clusters are distinct, no two items of a scan have the same position.
pub proof fn lemma_positions_differ<D, CI, T>(
    index: IVF<D, CI, T>,
    nearest: Seq<ScoredVector<T>>,
    parts: Seq<Seq<Ranked<T>>>,
    p: int,
    q: int,
)
    requires
        index.wf(),
        distinct_clusters(index, nearest),
        one_per_position(index, nearest, parts),
        0 <= p < q < parts.flatten().len(),
    ensures
        parts.flatten()[p].position != parts.flatten()[q].position,
{
    let (i, j) = lemma_from_flatten(parts, p);
    let (k, l) = lemma_from_flatten(parts, q);
    assert(parts[i][j].position == index.cluster_start(nearest[i].vector) + j);
    assert(parts[k][l].position == index.cluster_start(nearest[k].vector) + l);
    if i != k {
        let a = nearest[i].vector as int;
        let b = nearest[k].vector as int;
        assert(a != b) by {
            if i < k {
                assert(nearest[i].vector != nearest[k].vector);
            } else {
                assert(nearest[k].vector != nearest[i].vector);
            }
        }
        assert(parts[i].len() == index.cluster_end(nearest[i].vector) - index.cluster_start(
            nearest[i].vector,
        ));
        assert(parts[k].len() == index.cluster_end(nearest[k].vector) - index.cluster_start(
            nearest[k].vector,
        ));
        if a < b {
            assert(index.offsets()[a + 1] <= index.offsets()[b]);
        } else {
            assert(index.offsets()[b + 1] <= index.offsets()[a]);
        }
    }
}

/// Where the centroids are distinct and so are the identifiers, a search returns no
/// identifier twice.
pub proof fn law_no_vector_is_found_twice<D, CI, T>(
    index: IVF<D, CI, T>,
    nearest: Seq<ScoredVector<T>>,
    parts: Seq<Seq<Ranked<T>>>,
    kept: Seq<Ranked<T>>,
    k: nat,
    found: Seq<ScoredVector<T>>,
    a: int,
    b: int,
)
    requires
        index.wf(),
        index.ids().no_duplicates(),
        distinct_clusters(index, nearest),
        one_per_position(index, nearest, parts),
        crate::ranking::is_best(kept, parts.flatten(), k),
        index.labelled(kept, found),
        0 <= a < b < found.len(),
    ensures
        found[a].vector != found[b].vector,
{
    let offered = parts.flatten();
    crate::ranking::law_kept_were_offered(kept, offered, k, a);
    crate::ranking::law_kept_were_offered(kept, offered, k, b);
    let p = choose|p: int| 0 <= p < offered.len() && offered[p] == kept[a];
    let q = choose|q: int| 0 <= q < offered.len() && offered[q] == kept[b];
    lemma_position_in_index(index, nearest, parts, p);
    lemma_position_in_index(index, nearest, parts, q);
    if kept[a].position == kept[b].position {
        if p < q {
            lemma_positions_differ(index, nearest, parts, p, q);
        } else if q < p {
            lemma_positions_differ(index, nearest, parts, q, p);
        }
        assert(kept[a] == kept[b]);
        let item = kept[a];
        lemma_counted_twice(kept, a, b);
        assert(kept.to_multiset().count(item) >= 2);
        assert(offered.to_multiset().count(item) >= 2);
        lemma_occurs_twice(offered, item);
        let (r, s) = choose|r: int, s: int|
            0 <= r < s < offered.len() && #[trigger] offered[r] == item && #[trigger] offered[s] == item;
        lemma_positions_differ(index, nearest, parts, r, s);
    }
}

/// Every item of a scan has a position of the index.
pub proof fn lemma_position_in_index<D, CI, T>(
    index: IVF<D, CI, T>,
    nearest: Seq<ScoredVector<T>>,
    parts: Seq<Seq<Ranked<T>>>,
    p: int,
)
    requires
        index.wf(),
        distinct_clusters(index, nearest),
        one_per_position(index, nearest, parts),
        0 <= p < parts.flatten().len(),
    ensures
        parts.flatten()[p].position < index.ids().len(),
{
    let (i, j) = lemma_from_flatten(parts, p);
    assert(parts[i][j].position == index.cluster_start(nearest[i].vector) + j);
    assert(parts[i].len() == index.cluster_end(nearest[i].vector) - index.cluster_start(
        nearest[i].vector,
    ));
    let c = nearest[i].vector as int;
    assert(index.offsets()[c + 1] <= index.offsets()[index.offsets().len() - 1]);
}

proof fn lemma_counted_twice<A>(s: Seq<A>, a: int, b: int)
    requires
        0 <= a < b < s.len(),
        s[a] == s[b],
    ensures
        s.to_multiset().count(s[a]) >= 2,
{
    let rest = s.remove(b);
    s.to_multiset_ensures();
    rest.to_multiset_ensures();
    assert(rest[a] == s[a]);
    assert(rest.contains(s[a]));
    assert(rest.to_multiset() =~= s.to_multiset().remove(s[b]));
    assert(rest.to_multiset().count(s[a]) > 0);
}

proof fn lemma_occurs_twice<A>(s: Seq<A>, item: A)
    requires
        s.to_multiset().count(item) >= 2,
    ensures
        exists|r: int, t: int|
            0 <= r < t < s.len() && #[trigger] s[r] == item && #[trigger] s[t] == item,
{
    s.to_multiset_ensures();
    assert(s.contains(item));
    let r = choose|r: int| 0 <= r < s.len() && s[r] == item;
    let rest = s.remove(r);
    rest.to_multiset_ensures();
    assert(rest.to_multiset() =~= s.to_multiset().remove(s[r]));
    assert(rest.to_multiset().count(item) > 0);
    assert(rest.contains(item));
    let t = choose|t: int| 0 <= t < rest.len() && rest[t] == item;
    if t < r {
        assert(s[t] == item && s[r] == item);
    } else {
        assert(s[t + 1] == rest[t]);
        assert(s[r] == item && s[t + 1] == item);
    }
}

proof fn lemma_cluster_of_position<D, CI, T>(index: IVF<D, CI, T>, p: int, upto: int) -> (c: int)
    requires
        index.wf(),
        index.offsets()[0] == 0,
        0 <= upto < index.offsets().len(),
        0 <= p < index.offsets()[upto],
    ensures
        0 <= c < upto,
        index.offsets()[c] <= p < index.offsets()[c + 1],
    decreases upto,
{
    if upto == 0 {
        0
    } else if index.offsets()[upto - 1] <= p {
        upto - 1
    } else {
        lemma_cluster_of_position(index, p, upto - 1)
    }
}

/// Probing every cluster is exhaustive: each stored vector is among the candidates.
pub proof fn law_probing_all_clusters_is_exhaustive<D, CI, T>(
    index: IVF<D, CI, T>,
    nearest: Seq<ScoredVector<T>>,
    parts: Seq<Seq<Ranked<T>>>,
    p: int,
)
    requires
        index.wf(),
        index.offsets()[0] == 0,
        forall|c: int| 0 <= c < index.offsets().len() - 1 ==> #[trigger] is_probed(nearest, c),
        one_per_position(index, nearest, parts),
        0 <= p < index.ids().len(),
    ensures
        exists|j: int|
            0 <= j < parts.flatten().len() && (#[trigger] parts.flatten()[j]).position == p,
{
    let c = lemma_cluster_of_position(index, p, index.offsets().len() - 1);
    assert(is_probed(nearest, c));
    let i = choose|i: int| 0 <= i < nearest.len() && (#[trigger] nearest[i]).vector == c;
    let at = p - index.offsets()[c];
    assert(parts[i].len() == index.cluster_end(nearest[i].vector) - index.cluster_start(
        nearest[i].vector,
    ));
    assert(parts[i][at].position == p);
    lemma_in_flatten(parts, i, at);
    let j = choose|j: int| 0 <= j < parts.flatten().len() && parts.flatten()[j] == parts[i][at];
    assert(parts.flatten()[j].position == p);
}

/// A search that probes every cluster and has room for every candidate returns every
/// stored vector.
pub proof fn law_exhaustive_search_finds_every_vector<D, CI, T>(
    index: IVF<D, CI, T>,
    nearest: Seq<ScoredVector<T>>,
    parts: Seq<Seq<Ranked<T>>>,
    kept: Seq<Ranked<T>>,
    k: nat,
    found: Seq<ScoredVector<T>>,
    p: int,
)
    requires
        index.wf(),
        index.offsets()[0] == 0,
        forall|c: int| 0 <= c < index.offsets().len() - 1 ==> #[trigger] is_probed(nearest, c),
        one_per_position(index, nearest, parts),
        crate::ranking::is_best(kept, parts.flatten(), k),
        parts.flatten().len() <= k,
        index.labelled(kept, found),
        0 <= p < index.ids().len(),
    ensures
        exists|i: int| 0 <= i < found.len() && (#[trigger] found[i]).vector == index.ids()[p],
{
    law_probing_all_clusters_is_exhaustive(index, nearest, parts, p);
    let offered = parts.flatten();
    let j = choose|j: int| 0 <= j < offered.len() && (#[trigger] offered[j]).position == p;
    crate::ranking::law_all_are_kept(kept, offered, k, j);
    let i = choose|i: int| 0 <= i < kept.len() && kept[i] == offered[j];
    assert(found[i].vector == index.ids()[kept[i].position as int]);
}

/// Whether one of `nearest` names cluster `c`.
pub open spec fn is_probed<T>(nearest: Seq<ScoredVector<T>>, c: int) -> bool {
    exists|i: int| 0 <= i < nearest.len() && (#[trigger] nearest[i]).vector == c
}

} // verus!
