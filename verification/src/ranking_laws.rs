//! What the order of candidates rests on, and what a search of an inverted vector file
//! returns, result by result.

use crate::arithmetic::Arithmetic;
use crate::flatten::lemma_from_flatten;
use crate::ivf::{IVFSearchParams, ReportedMetric, IVF};
use crate::ranking::{
    is_best, law_kept_dominate, law_kept_were_offered, rank_le, signed_magnitude, value_key, Ranked,
    ScoredVector, TopK,
};
use vstd::prelude::*;

verus! {

/// Whether single-precision bits `x` stand for a number no greater than bits `y`: among
/// positive numbers the greater bits are the greater number, among negative ones the
/// smaller, and both zeros are alike.
pub open spec fn bits_le(x: u32, y: u32) -> bool {
    if x < 0x8000_0000 && y < 0x8000_0000 {
        x <= y
    } else if x >= 0x8000_0000 && y >= 0x8000_0000 {
        y <= x
    } else if x >= 0x8000_0000 {
        true
    } else {
        x == 0 && y == 0x8000_0000
    }
}

/// Keys are ordered as the values are: strictly, and over all bits.
pub proof fn law_keys_follow_bits(x: u32, y: u32, a: i64, b: i64)
    requires
        call_ensures(value_key, (x,), a),
        call_ensures(value_key, (y,), b),
    ensures
        a <= b <==> bits_le(x, y),
        a == b <==> x == y || (x == 0 && y == 0x8000_0000) || (y == 0 && x == 0x8000_0000),
        x < y < 0x8000_0000 ==> 0 <= a < b,
        0x8000_0000 <= x < y ==> b < a <= 0,
{
}

/// Flipping the sign of a value negates its key.
pub proof fn law_keys_of_opposites(x: u32, y: u32, a: i64, b: i64)
    requires
        x < 0x8000_0000,
        y == x + 0x8000_0000,
        call_ensures(value_key, (x,), a),
        call_ensures(value_key, (y,), b),
    ensures
        b == -a,
        0 <= a,
{
}

/// The integers behind keys are ordered as the values are.
pub proof fn law_magnitudes_follow_bits(x: u32, y: u32)
    ensures
        signed_magnitude(x) <= signed_magnitude(y) <==> bits_le(x, y),
        x < y < 0x8000_0000 ==> 0 <= signed_magnitude(x) < signed_magnitude(y),
        0x8000_0000 <= x < y ==> signed_magnitude(y) < signed_magnitude(x) <= 0,
{
}

/// Squared Euclidean distances rank smallest first, dot products greatest first.
pub proof fn law_rank_keys_follow_bits(x: u32, y: u32, a: i64, b: i64, c: i64, d: i64)
    requires
        call_ensures(ReportedMetric::rank_key, (ReportedMetric::SquaredEuclidean, x), a),
        call_ensures(ReportedMetric::rank_key, (ReportedMetric::SquaredEuclidean, y), b),
        call_ensures(ReportedMetric::rank_key, (ReportedMetric::DotProduct, x), c),
        call_ensures(ReportedMetric::rank_key, (ReportedMetric::DotProduct, y), d),
    ensures
        a <= b <==> bits_le(x, y),
        c <= d <==> bits_le(y, x),
        a == -c,
{
}

/// Only squared Euclidean distances are corrected.
pub proof fn law_corrected_metrics(euclidean: bool, product: bool)
    requires
        call_ensures(ReportedMetric::uses_correction, (ReportedMetric::SquaredEuclidean,), euclidean),
        call_ensures(ReportedMetric::uses_correction, (ReportedMetric::DotProduct,), product),
    ensures
        euclidean,
        !product,
        ReportedMetric::SquaredEuclidean.corrects(),
        !ReportedMetric::DotProduct.corrects(),
{
}

/// Whether `out` is rebuilt from its parts: `centroid + correction - 2 * raw` for squared
/// Euclidean, `centroid + raw` for dot product.
pub open spec fn is_rebuilt<T, A: Arithmetic<T>>(
    metric: ReportedMetric,
    ops: &A,
    centroid: T,
    correction: T,
    raw: T,
    out: T,
) -> bool {
    if metric is DotProduct {
        call_ensures(A::plus, (ops, centroid, raw), out)
    } else {
        exists|sum: T, doubled: T|
            {
                &&& call_ensures(A::plus, (ops, centroid, correction), sum)
                &&& call_ensures(A::twice, (ops, raw), doubled)
                &&& #[trigger] call_ensures(A::minus, (ops, sum, doubled), out)
            }
    }
}

/// A reported distance is rebuilt from the centroid's part, the correction and the raw
/// dot product.
pub proof fn law_distances_are_rebuilt<T, A: Arithmetic<T>>(
    metric: ReportedMetric,
    ops: &A,
    centroid: T,
    correction: T,
    raw: T,
    out: T,
)
    requires
        call_ensures(ReportedMetric::combine::<T, A>, (metric, ops, centroid, correction, raw), out),
    ensures
        is_rebuilt(metric, ops, centroid, correction, raw, out),
{
}

/// A candidate ranks before another where its key is smaller, or its position where the
/// keys agree.
pub proof fn law_rank_order<T>(a: Ranked<T>, b: Ranked<T>, before: bool)
    requires
        call_ensures(Ranked::<T>::before, (&a, &b), before),
    ensures
        before <==> a.key < b.key || (a.key == b.key && a.position < b.position),
        rank_le(a, b) <==> a.key < b.key || (a.key == b.key && a.position <= b.position),
{
}

/// Whether `kept` is the best of `offered`: no more than `k`, in order of key and
/// position, each as often as it was offered at most, and none behind one that was left
/// out.
pub open spec fn is_selection_of<T>(kept: Seq<Ranked<T>>, offered: Seq<Ranked<T>>, k: nat) -> bool {
    &&& kept.len() <= k
    &&& kept.len() <= offered.len()
    &&& kept.len() < k ==> kept.len() == offered.len()
    &&& forall|i: int, j: int|
        0 <= i < j < kept.len() ==> (#[trigger] kept[i]).key < (#[trigger] kept[j]).key || (kept[i].key
            == kept[j].key && kept[i].position <= kept[j].position)
    &&& forall|i: int| 0 <= i < kept.len() ==> offered.contains(#[trigger] kept[i])
    &&& forall|r: Ranked<T>| #[trigger] kept.to_multiset().count(r) <= offered.to_multiset().count(r)
    &&& forall|i: int, j: int|
        0 <= i < kept.len() && 0 <= j < offered.len() && !kept.contains(#[trigger] offered[j]) ==> (
        #[trigger] kept[i]).key < offered[j].key || (kept[i].key == offered[j].key && kept[i].position
            <= offered[j].position)
}

/// What is kept is the best of what was offered.
pub proof fn law_best_are_kept<T>(kept: Seq<Ranked<T>>, offered: Seq<Ranked<T>>, k: nat)
    requires
        is_best(kept, offered, k),
    ensures
        is_selection_of(kept, offered, k),
{
    assert forall|i: int| 0 <= i < kept.len() implies offered.contains(#[trigger] kept[i]) by {
        law_kept_were_offered(kept, offered, k, i);
    }
    assert forall|i: int, j: int|
        0 <= i < kept.len() && 0 <= j < offered.len() && !kept.contains(#[trigger] offered[j]) implies (
    #[trigger] kept[i]).key < offered[j].key || (kept[i].key == offered[j].key && kept[i].position
        <= offered[j].position) by {
        law_kept_dominate(kept, offered, k, i, j);
    }
    assert forall|i: int, j: int| 0 <= i < j < kept.len() implies (#[trigger] kept[i]).key < (
    #[trigger] kept[j]).key || (kept[i].key == kept[j].key && kept[i].position <= kept[j].position) by {
        assert(rank_le(kept[i], kept[j]));
    }
}

/// A new selection is empty, with the limit it was given, and one that is handed out is
/// the best of what was offered.
pub proof fn law_selections<T>(k: usize, fresh: TopK<T>, full: TopK<T>, items: Vec<Ranked<T>>)
    requires
        call_ensures(TopK::<T>::new, (k,), fresh),
        call_ensures(TopK::<T>::into_sorted_vec, (full,), items),
    ensures
        fresh.limit() == k,
        fresh.offered().len() == 0,
        fresh.kept().len() == 0,
        items@ == full.kept(),
        is_selection_of(items@, full.offered(), full.limit()),
{
    law_best_are_kept(items@, full.offered(), full.limit());
}

/// Whether `raw` is the raw dot product at `pos` of the cluster from `start` to `end`:
/// one of six that are computed at consecutive positions, as far as the cluster can be
/// cut into sixes from its start, and computed alone behind them.
pub open spec fn is_raw<E, D, T, B, S>(
    batch6: B,
    single: S,
    evaluator: &E,
    dataset: &D,
    start: int,
    end: int,
    pos: int,
    raw: T,
) -> bool where B: Fn(&E, &D, [usize; 6]) -> [T; 6], S: Fn(&E, &D, usize) -> T {
    let first = pos - (pos - start) % 6;
    if first + 6 <= end {
        exists|six: [usize; 6], out: [T; 6]|
            {
                &&& #[trigger] call_ensures(batch6, (evaluator, dataset, six), out)
                &&& six@[0] == first
                &&& six@[1] == first + 1
                &&& six@[2] == first + 2
                &&& six@[3] == first + 3
                &&& six@[4] == first + 4
                &&& six@[5] == first + 5
                &&& raw == out@[pos - first]
            }
    } else {
        call_ensures(single, (evaluator, dataset, pos as usize), raw)
    }
}

/// Whether `item` is the vector at `pos` of the cluster that `near` names, with its
/// distance and the key of that distance.
pub open spec fn is_scored<D, CI, T, E, A, B, S>(
    index: IVF<D, CI, T>,
    ops: &A,
    batch6: B,
    single: S,
    evaluator: &E,
    near: ScoredVector<T>,
    pos: int,
    item: Ranked<T>,
) -> bool where
    A: Arithmetic<T>,
    B: Fn(&E, &D, [usize; 6]) -> [T; 6],
    S: Fn(&E, &D, usize) -> T,
 {
    &&& item.position == pos
    &&& exists|centroid: T, correction: T, raw: T, bits: u32|
        {
            &&& index.residuals() ==> centroid == near.distance
            &&& !index.residuals() ==> call_ensures(A::zero, (ops,), centroid)
            &&& index.metric() is SquaredEuclidean ==> correction == index.corrections()->0[pos]
            &&& is_raw(
                batch6,
                single,
                evaluator,
                &index.vectors(),
                index.offsets()[near.vector as int] as int,
                index.offsets()[near.vector + 1] as int,
                pos,
                raw,
            )
            &&& #[trigger] is_rebuilt(index.metric(), ops, centroid, correction, raw, item.distance)
            &&& #[trigger] call_ensures(A::bits, (ops, item.distance), bits)
            &&& item.key == if index.metric() is SquaredEuclidean {
                signed(bits)
            } else {
                -signed(bits)
            }
        }
}

/// The magnitude of single-precision bits, negative where the sign is.
pub open spec fn signed(bits: u32) -> int {
    if bits < 0x8000_0000 {
        bits as int
    } else {
        -(bits - 0x8000_0000)
    }
}

proof fn lemma_is_raw<E, D, T, B, S>(
    batch6: B,
    single: S,
    evaluator: &E,
    dataset: &D,
    start: int,
    end: int,
    pos: int,
    raw: T,
) where B: Fn(&E, &D, [usize; 6]) -> [T; 6], S: Fn(&E, &D, usize) -> T
    requires
        0 <= start <= pos < end <= u32::MAX,
        crate::ivf::raw_dot(batch6, single, evaluator, dataset, start, end, pos, raw),
    ensures
        is_raw(batch6, single, evaluator, dataset, start, end, pos, raw),
{
    let at = pos - start;
    let first = pos - at % 6;
    assert(at / 6 * 6 == at - at % 6);
    assert(at < (end - start) / 6 * 6 <==> first + 6 <= end);
    if first + 6 <= end {
        let (six, out) = choose|six: [usize; 6], out: [T; 6]| #[trigger]
            call_ensures(batch6, (evaluator, dataset, six), out) && six@ == crate::ivf::six_from(
                start + at / 6 * 6,
            ) && raw == out@[at % 6];
        assert(six@[0] == first);
        assert(pos - first == at % 6);
    }
}

proof fn lemma_is_scored<D, CI, T, E, A, B, S>(
    index: IVF<D, CI, T>,
    ops: &A,
    batch6: B,
    single: S,
    evaluator: &E,
    near: ScoredVector<T>,
    part: Seq<Ranked<T>>,
    j: int,
) where
    A: Arithmetic<T>,
    B: Fn(&E, &D, [usize; 6]) -> [T; 6],
    S: Fn(&E, &D, usize) -> T,

    requires
        index.cluster_scan(ops, batch6, single, evaluator, near, part),
        0 <= j < part.len(),
    ensures
        is_scored(
            index,
            ops,
            batch6,
            single,
            evaluator,
            near,
            index.offsets()[near.vector as int] + j,
            part[j],
        ),
{
    let start = index.offsets()[near.vector as int] as int;
    let end = index.offsets()[near.vector + 1] as int;
    let pos = start + j;
    let item = part[j];
    let centroid = choose|centroid: T| #[trigger]
        index.contributes(ops, near, centroid) && forall|j: int|
            0 <= j < part.len() ==> index.candidate(
                ops,
                batch6,
                single,
                evaluator,
                start,
                end,
                centroid,
                start + j,
                #[trigger] part[j],
            );
    assert(index.candidate(ops, batch6, single, evaluator, start, end, centroid, pos, item));
    let raw = choose|raw: T| #[trigger]
        crate::ivf::raw_dot(batch6, single, evaluator, &index.vectors(), start, end, pos, raw) && index.scores(
            ops,
            pos,
            centroid,
            raw,
            item,
        );
    lemma_is_raw(batch6, single, evaluator, &index.vectors(), start, end, pos, raw);
    let (correction, bits) = choose|correction: T, bits: u32|
        #![trigger index.metric().reports(ops, centroid, correction, raw, item.distance), call_ensures(A::bits, (ops, item.distance), bits)]
        {
            &&& if index.metric().corrects() {
                correction == index.corrections()->0[pos]
            } else {
                call_ensures(A::zero, (ops,), correction)
            }
            &&& index.metric().reports(ops, centroid, correction, raw, item.distance)
            &&& call_ensures(A::bits, (ops, item.distance), bits)
            &&& item.key == index.metric().key_of(bits)
        };
    assert(is_rebuilt(index.metric(), ops, centroid, correction, raw, item.distance));
}

/// Whether `parts` hold one item for each vector of each cluster that `near` names, in
/// the order of the clusters and of their positions.
pub open spec fn is_scan<D, CI, T, E, A, B, S>(
    index: IVF<D, CI, T>,
    ops: &A,
    batch6: B,
    single: S,
    evaluator: &E,
    near: Seq<ScoredVector<T>>,
    parts: Seq<Seq<Ranked<T>>>,
) -> bool where
    A: Arithmetic<T>,
    B: Fn(&E, &D, [usize; 6]) -> [T; 6],
    S: Fn(&E, &D, usize) -> T,
 {
    &&& parts.len() == near.len()
    &&& forall|i: int|
        0 <= i < parts.len() ==> (#[trigger] parts[i]).len() == index.offsets()[near[i].vector + 1]
            - index.offsets()[near[i].vector as int]
    &&& forall|i: int, j: int|
        0 <= i < parts.len() && 0 <= j < parts[i].len() ==> is_scored(
            index,
            ops,
            batch6,
            single,
            evaluator,
            near[i],
            index.offsets()[near[i].vector as int] + j,
            #[trigger] parts[i][j],
        )
}

/// A search scores every vector of every cluster that its nearest centroids name, and
/// returns the `k` that rank best, each under the identifier of its position.
pub proof fn law_search_returns_the_best<D, CI, T: Copy, Q: Copy, CP, QP, E, A, N, M, B, S>(
    index: &IVF<D, CI, T>,
    query: Q,
    k: usize,
    params: &IVFSearchParams<CP, QP>,
    ops: &A,
    nearest: N,
    make_evaluator: M,
    batch6: B,
    single: S,
    found: Vec<ScoredVector<T>>,
) where
    A: Arithmetic<T>,
    N: FnOnce(&CI, Q, usize, &CP) -> Vec<ScoredVector<T>>,
    M: FnOnce(&D, Q, &QP) -> E,
    B: Fn(&E, &D, [usize; 6]) -> [T; 6],
    S: Fn(&E, &D, usize) -> T,

    requires
        call_ensures(
            IVF::<D, CI, T>::search::<Q, CP, QP, E, A, N, M, B, S>,
            (index, query, k, params, ops, nearest, make_evaluator, batch6, single),
            found,
        ),
    ensures
        exists|near: Vec<ScoredVector<T>>, e: E, parts: Seq<Seq<Ranked<T>>>, kept: Seq<Ranked<T>>|
            {
                &&& #[trigger] call_ensures(
                    nearest,
                    (&index.centroids(), query, params.nprobe, &params.centroid_search_params),
                    near,
                )
                &&& #[trigger] call_ensures(
                    make_evaluator,
                    (&index.vectors(), query, &params.cluster_query_params),
                    e,
                )
                &&& is_scan(*index, ops, batch6, single, &e, near@, parts)
                &&& #[trigger] is_selection_of(kept, parts.flatten(), k as nat)
                &&& found@.len() == kept.len()
                &&& forall|i: int|
                    0 <= i < found@.len() ==> (#[trigger] found@[i]).distance == kept[i].distance
                &&& forall|i: int|
                    0 <= i < found@.len() ==> (#[trigger] found@[i]).vector
                        == index.ids()[kept[i].position as int]
            },
{
    let (near, e, offered, kept) = choose|
        near: Vec<ScoredVector<T>>,
        e: E,
        offered: Seq<Ranked<T>>,
        kept: Seq<Ranked<T>>,
    |
        {
            &&& #[trigger] call_ensures(
                nearest,
                (&index.centroids(), query, params.nprobe, &params.centroid_search_params),
                near,
            )
            &&& #[trigger] call_ensures(
                make_evaluator,
                (&index.vectors(), query, &params.cluster_query_params),
                e,
            )
            &&& index.full_scan(ops, batch6, single, &e, near@, offered)
            &&& #[trigger] is_best(kept, offered, k as nat)
            &&& index.labelled(kept, found@)
        };
    let parts = choose|parts: Seq<Seq<Ranked<T>>>|
        offered == #[trigger] parts.flatten() && parts.len() == near@.len() && forall|i: int|
            0 <= i < parts.len() ==> index.cluster_scan(
                ops,
                batch6,
                single,
                &e,
                near@[i],
                #[trigger] parts[i],
            );
    assert forall|i: int, j: int| 0 <= i < parts.len() && 0 <= j < parts[i].len() implies is_scored(
        *index,
        ops,
        batch6,
        single,
        &e,
        near@[i],
        index.offsets()[near@[i].vector as int] + j,
        #[trigger] parts[i][j],
    ) by {
        lemma_is_scored(*index, ops, batch6, single, &e, near@[i], parts[i], j);
    }
    assert(is_scan(*index, ops, batch6, single, &e, near@, parts));
    law_best_are_kept(kept, offered, k as nat);
    assert(is_selection_of(kept, parts.flatten(), k as nat));
}

/// An index holds the parts it is made of, and says how many there are.
pub proof fn law_index_holds_its_parts<D, CI, T>(
    metric: ReportedMetric,
    centroid_index: CI,
    dataset: D,
    cluster_offsets: Vec<u32>,
    external_ids: Vec<u32>,
    correction_terms: Option<Vec<T>>,
    residual: bool,
    index: IVF<D, CI, T>,
    clusters: usize,
    elements: usize,
    is_residual: bool,
)
    requires
        cluster_offsets@.len() > 0,
        call_ensures(
            IVF::<D, CI, T>::from_parts,
            (metric, centroid_index, dataset, cluster_offsets, external_ids, correction_terms, residual),
            index,
        ),
        call_ensures(IVF::<D, CI, T>::n_clusters, (&index,), clusters),
        call_ensures(IVF::<D, CI, T>::n_elements, (&index,), elements),
        call_ensures(IVF::<D, CI, T>::is_residual, (&index,), is_residual),
    ensures
        index.metric() == metric,
        index.centroids() == centroid_index,
        index.vectors() == dataset,
        index.offsets() == cluster_offsets@,
        index.ids() == external_ids@,
        index.corrections() is Some <==> correction_terms is Some,
        correction_terms matches Some(terms) ==> index.corrections()->0 == terms@,
        index.residuals() == residual,
        clusters + 1 == cluster_offsets@.len(),
        elements == external_ids@.len(),
        is_residual == residual,
{
}

/// The parts of an index take four bytes an entry, corrections only where there are any.
pub proof fn law_index_sizes<D, CI, T>(
    index: &IVF<D, CI, T>,
    bytes: (usize, usize, usize),
)
    requires
        index.wf(),
        call_ensures(IVF::<D, CI, T>::space_usage_bytes, (index,), bytes),
    ensures
        bytes.0 == 4 * index.offsets().len(),
        bytes.1 == 4 * index.ids().len(),
        index.corrections() matches Some(terms) ==> bytes.2 == 4 * terms.len(),
        index.corrections() is None ==> bytes.2 == 0,
{
}

/// The dimension of an index is that of its vectors.
pub proof fn law_index_dimension<D, CI, T, F: FnOnce(&D) -> usize>(
    index: &IVF<D, CI, T>,
    input_dim: F,
    dim: usize,
)
    requires
        call_ensures(IVF::<D, CI, T>::dim::<F>, (index, input_dim), dim),
    ensures
        call_ensures(input_dim, (&index.vectors(),), dim),
{
}

/// Every result of a search has the identifier of a vector of one of the clusters that
/// were probed.
pub proof fn law_results_come_from_probed_clusters<D, CI, T, E, A, B, S>(
    index: IVF<D, CI, T>,
    ops: &A,
    batch6: B,
    single: S,
    evaluator: &E,
    near: Seq<ScoredVector<T>>,
    parts: Seq<Seq<Ranked<T>>>,
    kept: Seq<Ranked<T>>,
    k: nat,
    r: int,
) where
    A: Arithmetic<T>,
    B: Fn(&E, &D, [usize; 6]) -> [T; 6],
    S: Fn(&E, &D, usize) -> T,

    requires
        is_scan(index, ops, batch6, single, evaluator, near, parts),
        is_selection_of(kept, parts.flatten(), k),
        0 <= r < kept.len(),
    ensures
        exists|i: int|
            0 <= i < near.len() && index.offsets()[(#[trigger] near[i]).vector as int] <= kept[r].position
                < index.offsets()[near[i].vector + 1],
{
    let offered = parts.flatten();
    assert(offered.contains(kept[r]));
    let p = choose|p: int| 0 <= p < offered.len() && offered[p] == kept[r];
    let (i, j) = lemma_from_flatten(parts, p);
    assert(is_scored(
        index,
        ops,
        batch6,
        single,
        evaluator,
        near[i],
        index.offsets()[near[i].vector as int] + j,
        parts[i][j],
    ));
    assert(parts[i].len() == index.offsets()[near[i].vector + 1] - index.offsets()[near[i].vector as int]);
}

/// An offer is counted, and what is kept after it is the best of all offers.
pub proof fn law_offers<T>(top: &mut TopK<T>, item: Ranked<T>)
    requires
        call_ensures(TopK::<T>::offer, (top, item), ()),
    ensures
        final(top).limit() == old(top).limit(),
        final(top).offered() == old(top).offered().push(item),
        is_selection_of(final(top).kept(), old(top).offered().push(item), old(top).limit()),
{
    law_best_are_kept(final(top).kept(), final(top).offered(), final(top).limit());
}

} // verus!
