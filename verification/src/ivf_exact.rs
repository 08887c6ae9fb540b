//! What a search of an inverted vector file returns where arithmetic is exact and every
//! cluster is probed: the true nearest vectors, with residuals as without.

use crate::arithmetic::Arithmetic;
use crate::dense::PlainDenseDataset;
use crate::exact::{
    contribution, correction_fits, correction_value, dot, exact_arithmetic, law_correction_is_exact,
    law_reduced_vectors_are_restored, law_reported_distance_is_exact, rank_value, reduced, report_fits,
    reported_value, restored, storing_fits,
};
use crate::flatten::lemma_from_flatten;
use crate::ivf::{raw_dot, ReportedMetric, IVF};
use crate::ivf_build::{are_corrections, assembled, grouped_by, DenseBuildArtifacts};
use crate::ivf_laws::{
    distinct_clusters, is_probed, law_no_vector_is_found_twice, law_probing_all_clusters_is_exhaustive,
    lemma_position_in_index, lemma_positions_differ, one_per_position,
};
use crate::ranking::{
    is_best, law_kept_dominate, law_kept_were_offered, rank_le, Ranked, ScoredVector,
};
use crate::ranking_laws::{bits_le, law_magnitudes_follow_bits};
use vstd::prelude::*;

verus! {

impl<T> PlainDenseDataset<T> {
    /// The rows, each value read by `val`.
    pub open spec fn points(self, val: spec_fn(T) -> real) -> Seq<Seq<real>> {
        Seq::new(self.spec_len(), |i: int| self.row(i).map_values(val))
    }
}

/// Whether `index` stands for `points`: what it stores at each position is the point that
/// the position is labelled with, reduced by the centroid of its cluster, and each point
/// has one position.
pub open spec fn stands_for<D, CI, T>(
    index: IVF<D, CI, T>,
    val: spec_fn(T) -> real,
    points: Seq<Seq<real>>,
    centroids: Seq<Seq<real>>,
    stored: Seq<Seq<real>>,
    dim: nat,
) -> bool {
    &&& index.wf()
    &&& index.offsets()[0] == 0
    &&& index.offsets().len() <= centroids.len() + 1
    &&& index.ids().len() == points.len()
    &&& index.ids().no_duplicates()
    &&& forall|i: u32| i < points.len() <==> #[trigger] index.ids().contains(i)
    &&& stored.len() == points.len()
    &&& forall|c: int| 0 <= c < centroids.len() ==> (#[trigger] centroids[c]).len() == dim
    &&& forall|pos: int| 0 <= pos < stored.len() ==> (#[trigger] stored[pos]).len() == dim
    &&& index.metric().corrects() ==> index.corrections() is Some
    &&& forall|c: int, pos: int|
        #![trigger centroids[c], stored[pos]]
        0 <= c < index.offsets().len() - 1 && index.offsets()[c] <= pos < index.offsets()[c + 1] ==> {
            &&& stored[pos] == reduced(centroids[c], points[index.ids()[pos] as int], index.residuals())
            &&& index.metric().corrects() ==> val(index.corrections()->0[pos]) == correction_value(
                centroids[c],
                stored[pos],
                index.residuals(),
            )
        }
}

/// Whether `decode` gives back every vector of `stored` as it was encoded.
pub open spec fn decodes_exactly<D, T, W: Fn(&D, usize) -> Vec<T>>(
    decode: W,
    cluster: &D,
    stored: PlainDenseDataset<T>,
) -> bool {
    forall|pos: usize, w: Vec<T>|
        pos < stored.spec_len() && #[trigger] call_ensures(decode, (cluster, pos), w) ==> w@ == stored.row(
            pos as int,
        )
}

/// A built index stands for the dataset it was built from, with residuals as without,
/// where arithmetic is exact and encoding loses nothing.
pub proof fn law_built_index_stands_for_its_dataset<D, CI, T, A, W, H>(
    index: IVF<D, CI, T>,
    metric: ReportedMetric,
    artifacts: DenseBuildArtifacts<T>,
    cluster: D,
    residual: bool,
    ops: &A,
    decode: W,
    centroid_index_builder: H,
    dataset: &PlainDenseDataset<T>,
    n_clusters: usize,
    clusters: Seq<usize>,
    val: spec_fn(T) -> real,
    fits: spec_fn(real) -> bool,
) where A: Arithmetic<T>, W: Fn(&D, usize) -> Vec<T>, H: FnOnce(PlainDenseDataset<T>) -> CI
    requires
        dataset.wf(),
        grouped_by(artifacts, dataset, n_clusters, residual, ops, clusters),
        artifacts.centroids.holds_clusters(n_clusters, dataset.spec_dim()),
        assembled(index, metric, artifacts, cluster, residual, ops, decode, centroid_index_builder),
        decodes_exactly(decode, &cluster, artifacts.reordered_dataset),
        exact_arithmetic(ops, val, fits),
        forall|i: int|
            0 <= i < clusters.len() ==> storing_fits(
                fits,
                metric,
                residual,
                artifacts.centroids.points(val)[clusters[i] as int],
                #[trigger] dataset.points(val)[i],
            ),
    ensures
        stands_for(
            index,
            val,
            dataset.points(val),
            artifacts.centroids.points(val),
            artifacts.reordered_dataset.points(val),
            dataset.spec_dim(),
        ),
{
    let points = dataset.points(val);
    let centroids = artifacts.centroids.points(val);
    let stored = artifacts.reordered_dataset.points(val);
    let dim = dataset.spec_dim() as int;
    let n = dataset.spec_len() as int;
    let order = artifacts.external_ids@;
    let offsets = artifacts.cluster_offsets@;
    crate::ivf_build::law_built_index_is_complete(
        index,
        artifacts,
        dataset,
        n_clusters,
        residual,
        ops,
        clusters,
    );
    assert forall|c: int| 0 <= c < centroids.len() implies (#[trigger] centroids[c]).len() == dim by {
        crate::dense::lemma_row(c, dim, artifacts.centroids.spec_len() as int);
    }
    assert forall|pos: int| 0 <= pos < stored.len() implies (#[trigger] stored[pos]).len() == dim by {
        crate::dense::lemma_row(pos, dim, n);
    }
    assert forall|c: int, pos: int|
        #![trigger centroids[c], stored[pos]]
        0 <= c < index.offsets().len() - 1 && index.offsets()[c] <= pos < index.offsets()[c + 1] implies {
        &&& stored[pos] == reduced(centroids[c], points[index.ids()[pos] as int], residual)
        &&& metric.corrects() ==> val(index.corrections()->0[pos]) == correction_value(
            centroids[c],
            stored[pos],
            residual,
        )
    } by {
        assert(offsets[c + 1] <= offsets[offsets.len() - 1]);
        assert(offsets[c] >= offsets[0]);
        crate::grouping::law_cluster_holds_its_members(clusters, n_clusters as nat, offsets, order, c, pos);
        let i = order[pos] as int;
        assert(clusters[i] == c);
        crate::dense::lemma_row(i, dim, n);
        crate::dense::lemma_row(pos, dim, n);
        crate::dense::lemma_row(c, dim, artifacts.centroids.spec_len() as int);
        assert(storing_fits(fits, metric, residual, centroids[c], points[i]));
        assert forall|j: int| 0 <= j < dim implies stored[pos][j] == #[trigger] reduced(
            centroids[c],
            points[i],
            residual,
        )[j] by {
            assert(crate::ivf_build::stores(
                ops,
                residual,
                dataset.cell(i, j),
                artifacts.centroids.cell(c, j),
                artifacts.reordered_dataset.cell(pos, j),
            ));
            assert(points[i][j] == val(dataset.cell(i, j)));
            assert(centroids[c][j] == val(artifacts.centroids.cell(c, j)));
            assert(stored[pos][j] == val(artifacts.reordered_dataset.cell(pos, j)));
            assert(residual ==> fits(points[i][j]) && fits(centroids[c][j]));
        }
        assert(stored[pos] =~= reduced(centroids[c], points[i], residual));
        if metric.corrects() {
            let terms = index.corrections()->0;
            lemma_term_is_exact(
                ops,
                &cluster,
                decode,
                artifacts.centroids,
                artifacts.reordered_dataset,
                offsets,
                residual,
                terms,
                val,
                fits,
                c,
                pos,
            );
        }
    }
}

proof fn lemma_term_is_exact<D, T, A, W>(
    ops: &A,
    cluster: &D,
    decode: W,
    centroids: PlainDenseDataset<T>,
    stored: PlainDenseDataset<T>,
    offsets: Seq<u32>,
    residual: bool,
    terms: Seq<T>,
    val: spec_fn(T) -> real,
    fits: spec_fn(real) -> bool,
    c: int,
    pos: int,
) where A: Arithmetic<T>, W: Fn(&D, usize) -> Vec<T>
    requires
        exact_arithmetic(ops, val, fits),
        correction_fits(fits, centroids.points(val)[c], stored.points(val)[pos], residual),
        decodes_exactly(decode, cluster, stored),
        centroids.wf(),
        stored.wf(),
        centroids.spec_dim() == stored.spec_dim(),
        are_corrections(
            ops,
            cluster,
            decode,
            centroids.spec_values(),
            stored.spec_dim(),
            offsets,
            residual,
            stored.spec_len(),
            terms,
        ),
        0 <= c < offsets.len() - 1,
        c < centroids.spec_len(),
        offsets[c] <= pos < offsets[c + 1],
        pos < stored.spec_len(),
    ensures
        val(terms[pos]) == correction_value(centroids.points(val)[c], stored.points(val)[pos], residual),
{
    let dim = stored.spec_dim();
    assert(crate::ivf_build::is_correction_at(
        ops,
        cluster,
        decode,
        centroids.spec_values(),
        dim,
        residual,
        c,
        pos,
        terms[pos],
    ));
    let w = choose|w: Vec<T>| #[trigger]
        call_ensures(decode, (cluster, pos as usize), w) && crate::ivf_build::corrects(
            ops,
            centroids.spec_values().subrange(c * dim, c * dim + dim),
            w@,
            residual,
            terms[pos],
        );
    crate::dense::lemma_row(c, dim as int, centroids.spec_len() as int);
    crate::dense::lemma_row(pos, dim as int, stored.spec_len() as int);
    assert(w@ == stored.row(pos));
    law_correction_is_exact(ops, val, fits, centroids.row(c), w@, residual, terms[pos]);
}

/// Whether every cluster is among `nearest` once, each with the exact distance of its
/// centroid where residuals are stored.
pub open spec fn probes_everything<D, CI, T>(
    index: IVF<D, CI, T>,
    val: spec_fn(T) -> real,
    q: Seq<real>,
    centroids: Seq<Seq<real>>,
    nearest: Seq<ScoredVector<T>>,
) -> bool {
    &&& distinct_clusters(index, nearest)
    &&& forall|c: int| 0 <= c < index.offsets().len() - 1 ==> #[trigger] is_probed(nearest, c)
    &&& index.residuals() ==> forall|i: int|
        0 <= i < nearest.len() ==> val((#[trigger] nearest[i]).distance) == contribution(
            index.metric(),
            true,
            q,
            centroids[nearest[i].vector as int],
        )
}

/// Whether `batch6` and `single` compute the exact dot product of the query with each
/// stored vector.
pub open spec fn multiplies_exactly<D, CI, T, E, B, S>(
    index: IVF<D, CI, T>,
    val: spec_fn(T) -> real,
    q: Seq<real>,
    stored: Seq<Seq<real>>,
    batch6: B,
    single: S,
    evaluator: &E,
) -> bool where B: Fn(&E, &D, [usize; 6]) -> [T; 6], S: Fn(&E, &D, usize) -> T {
    &&& forall|six: [usize; 6], out: [T; 6], i: int|
        #![trigger call_ensures(batch6, (evaluator, &index.vectors(), six), out), out@[i]]
        call_ensures(batch6, (evaluator, &index.vectors(), six), out) && 0 <= i < 6 && six@[i] < stored.len()
            ==> val(out@[i]) == dot(q, stored[six@[i] as int])
    &&& forall|pos: usize, out: T|
        pos < stored.len() && #[trigger] call_ensures(single, (evaluator, &index.vectors(), pos), out)
            ==> val(out) == dot(q, stored[pos as int])
}

/// Whether every number met while the distances of the index are rebuilt is one that
/// `fits` accepts.
pub open spec fn reports_fit<D, CI, T>(
    index: IVF<D, CI, T>,
    fits: spec_fn(real) -> bool,
    q: Seq<real>,
    centroids: Seq<Seq<real>>,
    stored: Seq<Seq<real>>,
) -> bool {
    forall|c: int, pos: int|
        #![trigger centroids[c], stored[pos]]
        0 <= c < index.offsets().len() - 1 && index.offsets()[c] <= pos < index.offsets()[c + 1] ==> report_fits(
            fits,
            index.metric(),
            index.residuals(),
            q,
            centroids[c],
            stored[pos],
        )
}

/// Whether the bits of the distances that were found are those of the numbers that the
/// distances stand for, as far as their order goes.
pub open spec fn bits_follow_values<T, A: Arithmetic<T>>(
    ops: &A,
    val: spec_fn(T) -> real,
    offered: Seq<Ranked<T>>,
) -> bool {
    forall|i: int, j: int, x: u32, y: u32|
        #![trigger call_ensures(A::bits, (ops, offered[i].distance), x), call_ensures(A::bits, (ops, offered[j].distance), y)]
        0 <= i < offered.len() && 0 <= j < offered.len() && call_ensures(
            A::bits,
            (ops, offered[i].distance),
            x,
        ) && call_ensures(A::bits, (ops, offered[j].distance), y) ==> (bits_le(x, y) <==> val(
            offered[i].distance,
        ) <= val(offered[j].distance))
}

/// Whether `found` are the `k` points that rank best, all of them where there are no
/// more: best first, none twice, each with its reported distance.
pub open spec fn are_nearest<T>(
    metric: ReportedMetric,
    residual: bool,
    val: spec_fn(T) -> real,
    q: Seq<real>,
    points: Seq<Seq<real>>,
    k: nat,
    found: Seq<ScoredVector<T>>,
) -> bool {
    &&& found.len() == if points.len() < k {
        points.len()
    } else {
        k
    }
    &&& forall|i: int|
        0 <= i < found.len() ==> (#[trigger] found[i]).vector < points.len() && val(found[i].distance)
            == reported_value(metric, residual, q, points[found[i].vector as int])
    &&& forall|i: int, j: int|
        0 <= i < j < found.len() ==> {
            &&& (#[trigger] found[i]).vector != (#[trigger] found[j]).vector
            &&& rank_value(metric, q, points[found[i].vector as int]) <= rank_value(
                metric,
                q,
                points[found[j].vector as int],
            )
        }
    &&& forall|i: int, v: int|
        #![trigger found[i], points[v]]
        0 <= i < found.len() && 0 <= v < points.len() && !is_found(found, v) ==> rank_value(
            metric,
            q,
            points[found[i].vector as int],
        ) <= rank_value(metric, q, points[v])
}

/// Whether `v` is among the identifiers that were found.
pub open spec fn is_found<T>(found: Seq<ScoredVector<T>>, v: int) -> bool {
    exists|i: int| 0 <= i < found.len() && (#[trigger] found[i]).vector == v
}

/// Whether `item` is what an exact scan offers for a position of the index.
spec fn is_exact_item<D, CI, T, A: Arithmetic<T>>(
    index: IVF<D, CI, T>,
    ops: &A,
    val: spec_fn(T) -> real,
    q: Seq<real>,
    points: Seq<Seq<real>>,
    item: Ranked<T>,
) -> bool {
    &&& item.position < index.ids().len()
    &&& val(item.distance) == reported_value(
        index.metric(),
        index.residuals(),
        q,
        points[index.ids()[item.position as int] as int],
    )
    &&& exists|bits: u32| #[trigger]
        call_ensures(A::bits, (ops, item.distance), bits) && item.key == index.metric().key_of(bits)
}

proof fn lemma_item_is_exact<D, CI, T, E, A, B, S>(
    index: IVF<D, CI, T>,
    ops: &A,
    val: spec_fn(T) -> real,
    fits: spec_fn(real) -> bool,
    q: Seq<real>,
    points: Seq<Seq<real>>,
    centroids: Seq<Seq<real>>,
    stored: Seq<Seq<real>>,
    batch6: B,
    single: S,
    evaluator: &E,
    nearest: Seq<ScoredVector<T>>,
    i: int,
    part: Seq<Ranked<T>>,
    j: int,
) where
    A: Arithmetic<T>,
    B: Fn(&E, &D, [usize; 6]) -> [T; 6],
    S: Fn(&E, &D, usize) -> T,

    requires
        exact_arithmetic(ops, val, fits),
        stands_for(index, val, points, centroids, stored, q.len()),
        reports_fit(index, fits, q, centroids, stored),
        probes_everything(index, val, q, centroids, nearest),
        multiplies_exactly(index, val, q, stored, batch6, single, evaluator),
        0 <= i < nearest.len(),
        index.cluster_scan(ops, batch6, single, evaluator, nearest[i], part),
        0 <= j < part.len(),
    ensures
        is_exact_item(index, ops, val, q, points, part[j]),
{
    let c = nearest[i].vector as int;
    let start = index.cluster_start(nearest[i].vector);
    let end = index.cluster_end(nearest[i].vector);
    let pos = start + j;
    let item = part[j];
    assert(index.offsets()[c + 1] <= index.offsets()[index.offsets().len() - 1]);
    let centroid = choose|centroid: T| #[trigger]
        index.contributes(ops, nearest[i], centroid) && forall|j: int|
            0 <= j < part.len() ==> index.candidate(
                ops,
                batch6,
                single,
                evaluator,
                start,
                end,
                centroid,
                start + j,
                #[trigger] part[j],
            );
    assert(index.candidate(ops, batch6, single, evaluator, start, end, centroid, pos, item));
    let raw = choose|raw: T| #[trigger]
        raw_dot(batch6, single, evaluator, &index.vectors(), start, end, pos, raw) && index.scores(
            ops,
            pos,
            centroid,
            raw,
            item,
        );
    assert(val(raw) == dot(q, stored[pos])) by {
        if j < (end - start) / 6 * 6 {
            let (six, out) = choose|six: [usize; 6], out: [T; 6]| #[trigger]
                call_ensures(batch6, (evaluator, &index.vectors(), six), out) && six@
                    == crate::ivf::six_from(start + j / 6 * 6) && raw == out@[j % 6];
            assert(six@[j % 6] == pos);
            assert(val(out@[j % 6]) == dot(q, stored[six@[j % 6] as int]));
        }
    }
    let (correction, bits) = choose|correction: T, bits: u32|
        #![trigger index.metric().reports(ops, centroid, correction, raw, item.distance), call_ensures(A::bits, (ops, item.distance), bits)]
        {
            &&& if index.metric().corrects() {
                correction == index.corrections()->0[pos]
            } else {
                call_ensures(A::zero, (ops,), correction)
            }
            &&& index.metric().reports(ops, centroid, correction, raw, item.distance)
            &&& call_ensures(A::bits, (ops, item.distance), bits)
            &&& item.key == index.metric().key_of(bits)
        };
    let point = points[index.ids()[pos] as int];
    assert(stored[pos] == reduced(centroids[c], point, index.residuals()));
    law_reduced_vectors_are_restored(centroids[c], point, index.residuals());
    assert(point == restored(centroids[c], stored[pos], index.residuals()));
    law_reported_distance_is_exact(
        index.metric(),
        ops,
        val,
        fits,
        q,
        centroids[c],
        stored[pos],
        index.residuals(),
        centroid,
        correction,
        raw,
        item.distance,
    );
}

proof fn lemma_order_is_exact<D, CI, T, A: Arithmetic<T>>(
    index: IVF<D, CI, T>,
    ops: &A,
    val: spec_fn(T) -> real,
    q: Seq<real>,
    points: Seq<Seq<real>>,
    offered: Seq<Ranked<T>>,
    i: int,
    j: int,
)
    requires
        bits_follow_values(ops, val, offered),
        0 <= i < offered.len(),
        0 <= j < offered.len(),
        is_exact_item(index, ops, val, q, points, offered[i]),
        is_exact_item(index, ops, val, q, points, offered[j]),
        rank_le(offered[i], offered[j]),
    ensures
        rank_value(index.metric(), q, points[index.ids()[offered[i].position as int] as int]) <= rank_value(
            index.metric(),
            q,
            points[index.ids()[offered[j].position as int] as int],
        ),
{
    let x = choose|bits: u32| #[trigger]
        call_ensures(A::bits, (ops, offered[i].distance), bits) && offered[i].key == index.metric().key_of(
            bits,
        );
    let y = choose|bits: u32| #[trigger]
        call_ensures(A::bits, (ops, offered[j].distance), bits) && offered[j].key == index.metric().key_of(
            bits,
        );
    law_magnitudes_follow_bits(x, y);
    law_magnitudes_follow_bits(y, x);
    assert(bits_le(x, y) <==> val(offered[i].distance) <= val(offered[j].distance));
    assert(bits_le(y, x) <==> val(offered[j].distance) <= val(offered[i].distance));
}

proof fn lemma_one_item_per_vector<D, CI, T>(
    index: IVF<D, CI, T>,
    nearest: Seq<ScoredVector<T>>,
    parts: Seq<Seq<Ranked<T>>>,
)
    requires
        index.wf(),
        index.offsets()[0] == 0,
        distinct_clusters(index, nearest),
        forall|c: int| 0 <= c < index.offsets().len() - 1 ==> #[trigger] is_probed(nearest, c),
        one_per_position(index, nearest, parts),
    ensures
        parts.flatten().len() == index.ids().len(),
{
    let offered = parts.flatten();
    let n = index.ids().len() as int;
    let positions = Seq::new(offered.len(), |i: int| offered[i].position as int);
    assert forall|p: int, r: int| 0 <= p < positions.len() && 0 <= r < positions.len() && p != r implies positions[p]
        != positions[r] by {
        if p < r {
            lemma_positions_differ(index, nearest, parts, p, r);
        } else {
            lemma_positions_differ(index, nearest, parts, r, p);
        }
    }
    positions.unique_seq_to_set();
    vstd::set_lib::lemma_int_range(0, n);
    let all = vstd::set_lib::set_int_range(0, n);
    assert forall|p: int| positions.to_set().contains(p) <==> #[trigger] all.contains(p) by {
        if positions.to_set().contains(p) {
            let i = choose|i: int| 0 <= i < positions.len() && positions[i] == p;
            lemma_position_in_index(index, nearest, parts, i);
        }
        if all.contains(p) {
            law_probing_all_clusters_is_exhaustive(index, nearest, parts, p);
            let i = choose|i: int| 0 <= i < offered.len() && (#[trigger] offered[i]).position == p;
            assert(positions[i] == p);
            assert(positions.contains(p));
        }
    }
    assert(positions.to_set() =~= all);
}

/// A search that probes every cluster finds the nearest vectors, where arithmetic is
/// exact: the `k` points that rank best under the metric, best first, each with its
/// reported distance.
pub proof fn law_exact_search_finds_the_nearest<D, CI, T, E, A, B, S>(
    index: IVF<D, CI, T>,
    ops: &A,
    val: spec_fn(T) -> real,
    fits: spec_fn(real) -> bool,
    q: Seq<real>,
    points: Seq<Seq<real>>,
    centroids: Seq<Seq<real>>,
    stored: Seq<Seq<real>>,
    batch6: B,
    single: S,
    evaluator: &E,
    nearest: Seq<ScoredVector<T>>,
    offered: Seq<Ranked<T>>,
    kept: Seq<Ranked<T>>,
    k: nat,
    found: Seq<ScoredVector<T>>,
) where
    A: Arithmetic<T>,
    B: Fn(&E, &D, [usize; 6]) -> [T; 6],
    S: Fn(&E, &D, usize) -> T,

    requires
        exact_arithmetic(ops, val, fits),
        stands_for(index, val, points, centroids, stored, q.len()),
        reports_fit(index, fits, q, centroids, stored),
        probes_everything(index, val, q, centroids, nearest),
        multiplies_exactly(index, val, q, stored, batch6, single, evaluator),
        index.full_scan(ops, batch6, single, evaluator, nearest, offered),
        bits_follow_values(ops, val, offered),
        is_best(kept, offered, k),
        index.labelled(kept, found),
    ensures
        are_nearest(index.metric(), index.residuals(), val, q, points, k, found),
{
    let metric = index.metric();
    let parts = choose|parts: Seq<Seq<Ranked<T>>>|
        offered == #[trigger] parts.flatten() && parts.len() == nearest.len() && forall|i: int|
            0 <= i < parts.len() ==> index.cluster_scan(
                ops,
                batch6,
                single,
                evaluator,
                nearest[i],
                #[trigger] parts[i],
            );
    assert(one_per_position(index, nearest, parts)) by {
        assert forall|i: int, j: int| 0 <= i < parts.len() && 0 <= j < parts[i].len() implies (
        #[trigger] parts[i][j]).position == index.cluster_start(nearest[i].vector) + j by {
            assert(index.cluster_scan(ops, batch6, single, evaluator, nearest[i], parts[i]));
        }
    }
    assert forall|p: int| 0 <= p < offered.len() implies is_exact_item(
        index,
        ops,
        val,
        q,
        points,
        #[trigger] offered[p],
    ) by {
        let (i, j) = lemma_from_flatten(parts, p);
        assert(index.cluster_scan(ops, batch6, single, evaluator, nearest[i], parts[i]));
        lemma_item_is_exact(
            index,
            ops,
            val,
            fits,
            q,
            points,
            centroids,
            stored,
            batch6,
            single,
            evaluator,
            nearest,
            i,
            parts[i],
            j,
        );
    }
    lemma_one_item_per_vector(index, nearest, parts);
    assert forall|i: int| 0 <= i < found.len() implies (#[trigger] found[i]).vector < points.len() && val(
        found[i].distance,
    ) == reported_value(metric, index.residuals(), q, points[found[i].vector as int]) by {
        let a = lemma_offered_at(kept, offered, k, i);
        assert(is_exact_item(index, ops, val, q, points, offered[a]));
        assert(index.ids().contains(index.ids()[kept[i].position as int]));
    }
    assert forall|i: int, j: int| 0 <= i < j < found.len() implies {
        &&& (#[trigger] found[i]).vector != (#[trigger] found[j]).vector
        &&& rank_value(metric, q, points[found[i].vector as int]) <= rank_value(
            metric,
            q,
            points[found[j].vector as int],
        )
    } by {
        law_no_vector_is_found_twice(index, nearest, parts, kept, k, found, i, j);
        let a = lemma_offered_at(kept, offered, k, i);
        let b = lemma_offered_at(kept, offered, k, j);
        assert(rank_le(kept[i], kept[j]));
        lemma_order_is_exact(index, ops, val, q, points, offered, a, b);
    }
    assert forall|i: int, v: int|
        #![trigger found[i], points[v]]
        0 <= i < found.len() && 0 <= v < points.len() && !is_found(found, v) implies rank_value(
        metric,
        q,
        points[found[i].vector as int],
    ) <= rank_value(metric, q, points[v]) by {
        assert(points.len() <= u32::MAX);
        assert(index.ids().contains(v as u32));
        let pos = choose|pos: int| 0 <= pos < index.ids().len() && index.ids()[pos] == v as u32;
        law_probing_all_clusters_is_exhaustive(index, nearest, parts, pos);
        let b = choose|b: int| 0 <= b < offered.len() && (#[trigger] offered[b]).position == pos;
        if kept.contains(offered[b]) {
            let j = choose|j: int| 0 <= j < kept.len() && kept[j] == offered[b];
            assert(found[j].vector == v);
        }
        let a = lemma_offered_at(kept, offered, k, i);
        law_kept_dominate(kept, offered, k, i, b);
        lemma_order_is_exact(index, ops, val, q, points, offered, a, b);
    }
}

proof fn lemma_offered_at<T>(kept: Seq<Ranked<T>>, offered: Seq<Ranked<T>>, k: nat, i: int) -> (a: int)
    requires
        is_best(kept, offered, k),
        0 <= i < kept.len(),
    ensures
        0 <= a < offered.len(),
        offered[a] == kept[i],
{
    law_kept_were_offered(kept, offered, k, i);
    choose|a: int| 0 <= a < offered.len() && offered[a] == kept[i]
}

/// Whether no two points rank alike.
pub open spec fn no_ties(metric: ReportedMetric, q: Seq<real>, points: Seq<Seq<real>>) -> bool {
    forall|u: int, v: int|
        0 <= u < v < points.len() ==> rank_value(metric, q, #[trigger] points[u]) != rank_value(
            metric,
            q,
            #[trigger] points[v],
        )
}

proof fn lemma_place_is_unique<T>(
    metric: ReportedMetric,
    val: spec_fn(T) -> real,
    q: Seq<real>,
    points: Seq<Seq<real>>,
    k: nat,
    residual_a: bool,
    a: Seq<ScoredVector<T>>,
    residual_b: bool,
    b: Seq<ScoredVector<T>>,
    i: int,
)
    requires
        are_nearest(metric, residual_a, val, q, points, k, a),
        are_nearest(metric, residual_b, val, q, points, k, b),
        0 <= i < a.len(),
        forall|j: int| 0 <= j < i ==> (#[trigger] a[j]).vector == b[j].vector,
    ensures
        rank_value(metric, q, points[a[i].vector as int]) <= rank_value(metric, q, points[b[i].vector as int]),
{
    let v = b[i].vector as int;
    if is_found(a, v) {
        let j = choose|j: int| 0 <= j < a.len() && (#[trigger] a[j]).vector == v;
        if j < i {
            assert(b[j].vector == b[i].vector);
        }
    } else {
        assert(rank_value(metric, q, points[a[i].vector as int]) <= rank_value(metric, q, points[v]));
    }
}

proof fn lemma_same_up_to<T>(
    metric: ReportedMetric,
    val: spec_fn(T) -> real,
    q: Seq<real>,
    points: Seq<Seq<real>>,
    k: nat,
    residual_a: bool,
    a: Seq<ScoredVector<T>>,
    residual_b: bool,
    b: Seq<ScoredVector<T>>,
    n: nat,
)
    requires
        no_ties(metric, q, points),
        are_nearest(metric, residual_a, val, q, points, k, a),
        are_nearest(metric, residual_b, val, q, points, k, b),
        n <= a.len(),
    ensures
        forall|j: int| 0 <= j < n ==> (#[trigger] a[j]).vector == b[j].vector,
    decreases n,
{
    if n > 0 {
        lemma_same_up_to(metric, val, q, points, k, residual_a, a, residual_b, b, (n - 1) as nat);
        lemma_place_is_unique(metric, val, q, points, k, residual_a, a, residual_b, b, n - 1);
        lemma_place_is_unique(metric, val, q, points, k, residual_b, b, residual_a, a, n - 1);
        let u = a[n - 1].vector as int;
        let v = b[n - 1].vector as int;
        if u < v {
            assert(rank_value(metric, q, points[u]) != rank_value(metric, q, points[v]));
        } else if v < u {
            assert(rank_value(metric, q, points[v]) != rank_value(metric, q, points[u]));
        }
    }
}

/// The nearest vectors are unique where none rank alike: two searches that find them
/// return the same identifiers in the same order, whether they store residuals or not.
pub proof fn law_nearest_are_unique<T>(
    metric: ReportedMetric,
    val: spec_fn(T) -> real,
    q: Seq<real>,
    points: Seq<Seq<real>>,
    k: nat,
    residual_a: bool,
    a: Seq<ScoredVector<T>>,
    residual_b: bool,
    b: Seq<ScoredVector<T>>,
)
    requires
        no_ties(metric, q, points),
        are_nearest(metric, residual_a, val, q, points, k, a),
        are_nearest(metric, residual_b, val, q, points, k, b),
    ensures
        a.len() == b.len(),
        forall|i: int| 0 <= i < a.len() ==> (#[trigger] a[i]).vector == b[i].vector,
{
    lemma_same_up_to(metric, val, q, points, k, residual_a, a, residual_b, b, a.len());
}

/// Whether every number met while the points are stored under the centroids of their
/// clusters and compared with query `q` is one that `fits` accepts.
pub open spec fn numbers_fit(
    fits: spec_fn(real) -> bool,
    metric: ReportedMetric,
    residual: bool,
    q: Seq<real>,
    centroids: Seq<Seq<real>>,
    points: Seq<Seq<real>>,
    clusters: Seq<usize>,
) -> bool {
    forall|i: int|
        #![trigger points[i]]
        0 <= i < points.len() ==> {
            let c = centroids[clusters[i] as int];
            &&& storing_fits(fits, metric, residual, c, points[i])
            &&& report_fits(fits, metric, residual, q, c, reduced(c, points[i], residual))
        }
}

/// Where values stand for every number, as in ideal arithmetic, all numbers fit.
pub proof fn law_all_numbers_fit(
    fits: spec_fn(real) -> bool,
    metric: ReportedMetric,
    residual: bool,
    q: Seq<real>,
    centroids: Seq<Seq<real>>,
    points: Seq<Seq<real>>,
    clusters: Seq<usize>,
)
    requires
        forall|x: real| #[trigger] fits(x),
    ensures
        numbers_fit(fits, metric, residual, q, centroids, points, clusters),
{
}

/// Whether `found` is what a search of an index returns that was built from `dataset`,
/// probes every cluster and computes exactly.
pub open spec fn found_exactly<D, CI, T, E, A, W, H, B, S>(
    index: IVF<D, CI, T>,
    metric: ReportedMetric,
    dataset: &PlainDenseDataset<T>,
    n_clusters: usize,
    residual: bool,
    ops: &A,
    decode: W,
    centroid_index_builder: H,
    val: spec_fn(T) -> real,
    fits: spec_fn(real) -> bool,
    q: Seq<real>,
    batch6: B,
    single: S,
    evaluator: &E,
    nearest: Seq<ScoredVector<T>>,
    k: nat,
    found: Seq<ScoredVector<T>>,
) -> bool where
    A: Arithmetic<T>,
    W: Fn(&D, usize) -> Vec<T>,
    H: FnOnce(PlainDenseDataset<T>) -> CI,
    B: Fn(&E, &D, [usize; 6]) -> [T; 6],
    S: Fn(&E, &D, usize) -> T,
 {
    &&& exists|artifacts: DenseBuildArtifacts<T>, cluster: D, clusters: Seq<usize>|
        {
            &&& #[trigger] grouped_by(artifacts, dataset, n_clusters, residual, ops, clusters)
            &&& #[trigger] assembled(
                index,
                metric,
                artifacts,
                cluster,
                residual,
                ops,
                decode,
                centroid_index_builder,
            )
            &&& artifacts.centroids.holds_clusters(n_clusters, dataset.spec_dim())
            &&& decodes_exactly(decode, &cluster, artifacts.reordered_dataset)
            &&& numbers_fit(
                fits,
                metric,
                residual,
                q,
                artifacts.centroids.points(val),
                dataset.points(val),
                clusters,
            )
            &&& probes_everything(index, val, q, artifacts.centroids.points(val), nearest)
            &&& multiplies_exactly(
                index,
                val,
                q,
                artifacts.reordered_dataset.points(val),
                batch6,
                single,
                evaluator,
            )
        }
    &&& exists|offered: Seq<Ranked<T>>, kept: Seq<Ranked<T>>|
        {
            &&& index.full_scan(ops, batch6, single, evaluator, nearest, offered)
            &&& bits_follow_values(ops, val, offered)
            &&& #[trigger] is_best(kept, offered, k)
            &&& index.labelled(kept, found)
        }
}

/// A search of a built index finds the nearest vectors of its dataset, where it probes
/// every cluster and computes exactly.
pub proof fn law_built_index_finds_the_nearest<D, CI, T, E, A, W, H, B, S>(
    index: IVF<D, CI, T>,
    metric: ReportedMetric,
    dataset: &PlainDenseDataset<T>,
    n_clusters: usize,
    residual: bool,
    ops: &A,
    decode: W,
    centroid_index_builder: H,
    val: spec_fn(T) -> real,
    fits: spec_fn(real) -> bool,
    q: Seq<real>,
    batch6: B,
    single: S,
    evaluator: &E,
    nearest: Seq<ScoredVector<T>>,
    k: nat,
    found: Seq<ScoredVector<T>>,
) where
    A: Arithmetic<T>,
    W: Fn(&D, usize) -> Vec<T>,
    H: FnOnce(PlainDenseDataset<T>) -> CI,
    B: Fn(&E, &D, [usize; 6]) -> [T; 6],
    S: Fn(&E, &D, usize) -> T,

    requires
        dataset.wf(),
        q.len() == dataset.spec_dim(),
        exact_arithmetic(ops, val, fits),
        found_exactly(
            index,
            metric,
            dataset,
            n_clusters,
            residual,
            ops,
            decode,
            centroid_index_builder,
            val,
            fits,
            q,
            batch6,
            single,
            evaluator,
            nearest,
            k,
            found,
        ),
    ensures
        are_nearest(metric, residual, val, q, dataset.points(val), k, found),
{
    let (artifacts, cluster, clusters) = choose|
        artifacts: DenseBuildArtifacts<T>,
        cluster: D,
        clusters: Seq<usize>,
    |
        {
            &&& #[trigger] grouped_by(artifacts, dataset, n_clusters, residual, ops, clusters)
            &&& #[trigger] assembled(
                index,
                metric,
                artifacts,
                cluster,
                residual,
                ops,
                decode,
                centroid_index_builder,
            )
            &&& artifacts.centroids.holds_clusters(n_clusters, dataset.spec_dim())
            &&& decodes_exactly(decode, &cluster, artifacts.reordered_dataset)
            &&& numbers_fit(
                fits,
                metric,
                residual,
                q,
                artifacts.centroids.points(val),
                dataset.points(val),
                clusters,
            )
            &&& probes_everything(index, val, q, artifacts.centroids.points(val), nearest)
            &&& multiplies_exactly(
                index,
                val,
                q,
                artifacts.reordered_dataset.points(val),
                batch6,
                single,
                evaluator,
            )
        };
    let (offered, kept) = choose|offered: Seq<Ranked<T>>, kept: Seq<Ranked<T>>|
        {
            &&& index.full_scan(ops, batch6, single, evaluator, nearest, offered)
            &&& bits_follow_values(ops, val, offered)
            &&& #[trigger] is_best(kept, offered, k)
            &&& index.labelled(kept, found)
        };
    law_built_index_stands_for_its_dataset(
        index,
        metric,
        artifacts,
        cluster,
        residual,
        ops,
        decode,
        centroid_index_builder,
        dataset,
        n_clusters,
        clusters,
        val,
        fits,
    );
    let points = dataset.points(val);
    let centroids = artifacts.centroids.points(val);
    let stored = artifacts.reordered_dataset.points(val);
    assert forall|c: int, pos: int|
        #![trigger centroids[c], stored[pos]]
        0 <= c < index.offsets().len() - 1 && index.offsets()[c] <= pos < index.offsets()[c + 1] implies report_fits(
        fits,
        metric,
        residual,
        q,
        centroids[c],
        stored[pos],
    ) by {
        let offsets = artifacts.cluster_offsets@;
        let order = artifacts.external_ids@;
        assert(offsets[c + 1] <= offsets[offsets.len() - 1]);
        crate::grouping::law_cluster_holds_its_members(clusters, n_clusters as nat, offsets, order, c, pos);
        let i = order[pos] as int;
        assert(clusters[i] == c);
        assert(report_fits(
            fits,
            metric,
            residual,
            q,
            centroids[c],
            reduced(centroids[c], points[i], residual),
        ));
        assert(stored[pos] == reduced(centroids[c], points[i], residual));
    }
    law_exact_search_finds_the_nearest(
        index,
        ops,
        val,
        fits,
        q,
        dataset.points(val),
        artifacts.centroids.points(val),
        artifacts.reordered_dataset.points(val),
        batch6,
        single,
        evaluator,
        nearest,
        offered,
        kept,
        k,
        found,
    );
}

/// Two indexes for squared Euclidean distance over one dataset, `a` without residuals
/// and `b` with them, find the same vectors in the same order, where both probe every
/// cluster and compute exactly and no two vectors are equally far. For vector `v`, `b`
/// reports `|q - v|^2` and `a` reports `|q - v|^2 - |q|^2`.
pub proof fn law_residuals_change_no_result<DA, DB, CA, CB, T, EA, EB, A, WA, WB, HA, HB, BA, BB, SA, SB>(
    a: IVF<DA, CA, T>,
    b: IVF<DB, CB, T>,
    dataset: &PlainDenseDataset<T>,
    n_clusters: usize,
    ops: &A,
    decode_a: WA,
    decode_b: WB,
    builder_a: HA,
    builder_b: HB,
    val: spec_fn(T) -> real,
    fits: spec_fn(real) -> bool,
    q: Seq<real>,
    batch6_a: BA,
    batch6_b: BB,
    single_a: SA,
    single_b: SB,
    evaluator_a: &EA,
    evaluator_b: &EB,
    nearest_a: Seq<ScoredVector<T>>,
    nearest_b: Seq<ScoredVector<T>>,
    k: nat,
    found_a: Seq<ScoredVector<T>>,
    found_b: Seq<ScoredVector<T>>,
) where
    A: Arithmetic<T>,
    WA: Fn(&DA, usize) -> Vec<T>,
    WB: Fn(&DB, usize) -> Vec<T>,
    HA: FnOnce(PlainDenseDataset<T>) -> CA,
    HB: FnOnce(PlainDenseDataset<T>) -> CB,
    BA: Fn(&EA, &DA, [usize; 6]) -> [T; 6],
    BB: Fn(&EB, &DB, [usize; 6]) -> [T; 6],
    SA: Fn(&EA, &DA, usize) -> T,
    SB: Fn(&EB, &DB, usize) -> T,

    requires
        dataset.wf(),
        q.len() == dataset.spec_dim(),
        exact_arithmetic(ops, val, fits),
        no_ties(ReportedMetric::SquaredEuclidean, q, dataset.points(val)),
        found_exactly(
            a,
            ReportedMetric::SquaredEuclidean,
            dataset,
            n_clusters,
            false,
            ops,
            decode_a,
            builder_a,
            val,
            fits,
            q,
            batch6_a,
            single_a,
            evaluator_a,
            nearest_a,
            k,
            found_a,
        ),
        found_exactly(
            b,
            ReportedMetric::SquaredEuclidean,
            dataset,
            n_clusters,
            true,
            ops,
            decode_b,
            builder_b,
            val,
            fits,
            q,
            batch6_b,
            single_b,
            evaluator_b,
            nearest_b,
            k,
            found_b,
        ),
    ensures
        found_a.len() == found_b.len(),
        forall|i: int|
            0 <= i < found_a.len() ==> {
                let v = dataset.points(val)[found_b[i].vector as int];
                &&& (#[trigger] found_a[i]).vector == found_b[i].vector
                &&& val(found_b[i].distance) == crate::exact::squared_distance(q, v)
                &&& val(found_a[i].distance) == crate::exact::squared_distance(q, v) - dot(q, q)
            },
{
    let metric = ReportedMetric::SquaredEuclidean;
    let points = dataset.points(val);
    law_built_index_finds_the_nearest(
        a,
        metric,
        dataset,
        n_clusters,
        false,
        ops,
        decode_a,
        builder_a,
        val,
        fits,
        q,
        batch6_a,
        single_a,
        evaluator_a,
        nearest_a,
        k,
        found_a,
    );
    law_built_index_finds_the_nearest(
        b,
        metric,
        dataset,
        n_clusters,
        true,
        ops,
        decode_b,
        builder_b,
        val,
        fits,
        q,
        batch6_b,
        single_b,
        evaluator_b,
        nearest_b,
        k,
        found_b,
    );
    law_nearest_are_unique(metric, val, q, points, k, false, found_a, true, found_b);
    assert forall|i: int| 0 <= i < found_a.len() implies {
        let v = points[found_b[i].vector as int];
        &&& (#[trigger] found_a[i]).vector == found_b[i].vector
        &&& val(found_b[i].distance) == crate::exact::squared_distance(q, v)
        &&& val(found_a[i].distance) == crate::exact::squared_distance(q, v) - dot(q, q)
    } by {
        assert(found_b[i].vector < points.len());
    }
}

} // verus!
