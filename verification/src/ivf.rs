//! Inverted vector file: a centroid index over clusters of stored vectors.

use crate::arithmetic::Arithmetic;
use crate::ranking::{
    is_best, law_kept_were_offered, value_key, Ranked, ScoredVector, TopK,
};
use vstd::prelude::*;

verus! {

/// The metric an [`IVF`] reports. Clusters always store dot-product vectors, so
/// a candidate contributes a raw dot product, from which the reported distance
/// is rebuilt: `centroid + correction - 2 * raw` for squared Euclidean,
/// `centroid + raw` for dot product.
#[derive(Clone, Copy, Debug, PartialEq, Eq, Structural)]
pub enum ReportedMetric {
    SquaredEuclidean,
    DotProduct,
}

impl ReportedMetric {
    /// Whether `out` is a distance that this metric rebuilds from the parts.
    pub open spec fn reports<T, A: Arithmetic<T>>(
        self,
        ops: &A,
        centroid: T,
        correction: T,
        raw_dot: T,
        out: T,
    ) -> bool {
        match self {
            ReportedMetric::SquaredEuclidean => exists|sum: T, doubled: T|
                #![trigger call_ensures(A::minus, (ops, sum, doubled), out)]
                call_ensures(A::plus, (ops, centroid, correction), sum)
                && call_ensures(A::twice, (ops, raw_dot), doubled)
                && call_ensures(A::minus, (ops, sum, doubled), out),
            ReportedMetric::DotProduct => call_ensures(A::plus, (ops, centroid, raw_dot), out),
        }
    }

    /// The integer that orders distances with these bits: smaller distances
    /// first for squared Euclidean, larger ones first for dot product.
    pub open spec fn key_of(self, bits: u32) -> int {
        match self {
            ReportedMetric::SquaredEuclidean => crate::ranking::signed_magnitude(bits),
            ReportedMetric::DotProduct => -crate::ranking::signed_magnitude(bits),
        }
    }

    pub open spec fn corrects(self) -> bool {
        self is SquaredEuclidean
    }

    /// Whether this metric consumes the correction term of a vector.
    pub fn uses_correction(self) -> (uses: bool)
        ensures
            uses == self.corrects(),
    {
        match self {
            ReportedMetric::SquaredEuclidean => true,
            ReportedMetric::DotProduct => false,
        }
    }

    /// Rebuilds the reported distance from the centroid's contribution, the
    /// vector's correction and the raw dot product.
    pub fn combine<T, A: Arithmetic<T>>(self, ops: &A, centroid: T, correction: T, raw_dot: T) -> (out: T)
        ensures
            self.reports(ops, centroid, correction, raw_dot, out),
    {
        match self {
            ReportedMetric::SquaredEuclidean => {
                let sum = ops.plus(centroid, correction);
                let doubled = ops.twice(raw_dot);
                ops.minus(sum, doubled)
            },
            ReportedMetric::DotProduct => ops.plus(centroid, raw_dot),
        }
    }

    /// The integer by which distances with these bits are ordered, best first.
    pub fn rank_key(self, bits: u32) -> (key: i64)
        ensures
            key == self.key_of(bits),
    {
        let key: i64 = value_key(bits);
        match self {
            ReportedMetric::SquaredEuclidean => key,
            ReportedMetric::DotProduct => -key,
        }
    }
}

/// Search parameters of an [`IVF`].
pub struct IVFSearchParams<CP, QP> {
    /// Number of nearest centroids to probe.
    pub nprobe: usize,
    /// Parameters of the centroid index.
    pub centroid_search_params: CP,
    /// Parameters of the query side of the cluster dataset.
    pub cluster_query_params: QP,
}

/// Inverted vector file index over a centroid index `CI` and a dataset `D` that
/// holds the vectors of all clusters, one cluster after the other.
pub struct IVF<D, CI, T> {
    metric: ReportedMetric,
    centroid_index: CI,
    dataset: D,
    /// Cluster `c` owns the positions from `cluster_offsets[c]` up to
    /// `cluster_offsets[c + 1]`.
    cluster_offsets: Vec<u32>,
    /// The identifier of the vector at each position.
    external_ids: Vec<u32>,
    correction_terms: Option<Vec<T>>,
    residual: bool,
}

/// Offsets of consecutive ranges that end at `n`.
pub open spec fn ranges_up_to(offsets: Seq<u32>, n: nat) -> bool {
    &&& offsets.len() > 0
    &&& forall|i: int, j: int| 0 <= i <= j < offsets.len() ==> #[trigger] offsets[i] <= #[trigger] offsets[j]
    &&& offsets.last() == n
}

/// The six consecutive positions from `first`.
pub open spec fn six_from(first: int) -> Seq<usize> {
    Seq::new(6, |i: int| (first + i) as usize)
}

/// Whether `raw` is the raw dot product at position `pos` of the cluster from
/// `start` to `end`: from a batch of six where the position lies in one of the
/// cluster's whole batches, on its own otherwise.
pub open spec fn raw_dot<E, D, T, B, S>(
    batch6: B,
    single: S,
    evaluator: &E,
    dataset: &D,
    start: int,
    end: int,
    pos: int,
    raw: T,
) -> bool where B: Fn(&E, &D, [usize; 6]) -> [T; 6], S: Fn(&E, &D, usize) -> T {
    let at = pos - start;
    if at < (end - start) / 6 * 6 {
        exists|six: [usize; 6], out: [T; 6]| #[trigger]
            call_ensures(batch6, (evaluator, dataset, six), out) && six@ == six_from(start + at / 6 * 6)
                && raw == out@[at % 6]
    } else {
        call_ensures(single, (evaluator, dataset, pos as usize), raw)
    }
}

impl<D, CI, T> IVF<D, CI, T> {
    pub closed spec fn metric(self) -> ReportedMetric {
        self.metric
    }

    pub closed spec fn centroids(self) -> CI {
        self.centroid_index
    }

    pub closed spec fn vectors(self) -> D {
        self.dataset
    }

    /// The cluster offsets.
    pub closed spec fn offsets(self) -> Seq<u32> {
        self.cluster_offsets@
    }

    /// The identifiers, by position.
    pub closed spec fn ids(self) -> Seq<u32> {
        self.external_ids@
    }

    /// The correction terms, by position.
    pub closed spec fn corrections(self) -> Option<Seq<T>> {
        match self.correction_terms {
            Some(terms) => Some(terms@),
            None => None,
        }
    }

    /// Whether residuals are stored.
    pub closed spec fn residuals(self) -> bool {
        self.residual
    }

    pub open spec fn wf(self) -> bool {
        &&& ranges_up_to(self.offsets(), self.ids().len())
        &&& self.corrections() matches Some(terms) ==> terms.len() == self.ids().len()
    }

    /// The first position of cluster `c`.
    pub open spec fn cluster_start(self, c: u64) -> int {
        self.offsets()[c as int] as int
    }

    /// The position after the last one of cluster `c`.
    pub open spec fn cluster_end(self, c: u64) -> int {
        self.offsets()[c + 1] as int
    }

    /// Whether `item` is what the vector at `pos` scores, given its raw dot
    /// product and the contribution of its centroid.
    pub open spec fn scores<A: Arithmetic<T>>(
        self,
        ops: &A,
        pos: int,
        centroid: T,
        raw: T,
        item: Ranked<T>,
    ) -> bool {
        &&& item.position == pos
        &&& exists|correction: T, bits: u32|
            #![trigger self.metric().reports(ops, centroid, correction, raw, item.distance), call_ensures(A::bits, (ops, item.distance), bits)]
            {
                &&& if self.metric().corrects() {
                    correction == self.corrections()->0[pos]
                } else {
                    call_ensures(A::zero, (ops,), correction)
                }
                &&& self.metric().reports(ops, centroid, correction, raw, item.distance)
                &&& call_ensures(A::bits, (ops, item.distance), bits)
                &&& item.key == self.metric().key_of(bits)
            }
    }

    /// Whether `item` is a candidate that a scan of the cluster from `start` to
    /// `end` finds at `pos`.
    pub open spec fn candidate<E, A, B, S>(
        self,
        ops: &A,
        batch6: B,
        single: S,
        evaluator: &E,
        start: int,
        end: int,
        centroid: T,
        pos: int,
        item: Ranked<T>,
    ) -> bool where
        A: Arithmetic<T>,
        B: Fn(&E, &D, [usize; 6]) -> [T; 6],
        S: Fn(&E, &D, usize) -> T,
     {
        exists|raw: T| #[trigger]
            raw_dot(batch6, single, evaluator, &self.vectors(), start, end, pos, raw) && self.scores(
                ops,
                pos,
                centroid,
                raw,
                item,
            )
    }

    /// What a nearest centroid contributes: its distance where residuals are
    /// stored, 0 otherwise.
    pub open spec fn contributes<A: Arithmetic<T>>(
        self,
        ops: &A,
        nearest: ScoredVector<T>,
        centroid: T,
    ) -> bool {
        if self.residuals() {
            centroid == nearest.distance
        } else {
            call_ensures(A::zero, (ops,), centroid)
        }
    }

    /// Whether `part` is what a scan of the cluster of `nearest` finds, one item
    /// for each of its positions in order.
    pub open spec fn cluster_scan<E, A, B, S>(
        self,
        ops: &A,
        batch6: B,
        single: S,
        evaluator: &E,
        nearest: ScoredVector<T>,
        part: Seq<Ranked<T>>,
    ) -> bool where
        A: Arithmetic<T>,
        B: Fn(&E, &D, [usize; 6]) -> [T; 6],
        S: Fn(&E, &D, usize) -> T,
     {
        let start = self.cluster_start(nearest.vector);
        let end = self.cluster_end(nearest.vector);
        &&& part.len() == end - start
        &&& exists|centroid: T| #[trigger]
            self.contributes(ops, nearest, centroid) && forall|j: int|
                0 <= j < part.len() ==> self.candidate(
                    ops,
                    batch6,
                    single,
                    evaluator,
                    start,
                    end,
                    centroid,
                    start + j,
                    #[trigger] part[j],
                )
    }

    /// Whether `offered` is what a scan of the clusters of `nearest` finds, one
    /// cluster after the other.
    pub open spec fn full_scan<E, A, B, S>(
        self,
        ops: &A,
        batch6: B,
        single: S,
        evaluator: &E,
        nearest: Seq<ScoredVector<T>>,
        offered: Seq<Ranked<T>>,
    ) -> bool where
        A: Arithmetic<T>,
        B: Fn(&E, &D, [usize; 6]) -> [T; 6],
        S: Fn(&E, &D, usize) -> T,
     {
        exists|parts: Seq<Seq<Ranked<T>>>|
            offered == #[trigger] parts.flatten() && parts.len() == nearest.len() && forall|i: int|
                0 <= i < parts.len() ==> self.cluster_scan(
                    ops,
                    batch6,
                    single,
                    evaluator,
                    nearest[i],
                    #[trigger] parts[i],
                )
    }

    /// Centroids that name clusters of this index, at least one of them with a
    /// vector only where `k` leaves room for a result.
    pub open spec fn can_probe(self, nearest: Seq<ScoredVector<T>>, k: nat) -> bool {
        forall|i: int|
            0 <= i < nearest.len() ==> {
                &&& (#[trigger] nearest[i]).vector + 1 < self.offsets().len()
                &&& k > 0 || self.cluster_start(nearest[i].vector) == self.cluster_end(nearest[i].vector)
            }
    }

    /// Whether `batch6` and `single` accept every position of this index.
    pub open spec fn can_multiply<E, B, S>(self, batch6: B, single: S, evaluator: &E) -> bool where
        B: Fn(&E, &D, [usize; 6]) -> [T; 6],
        S: Fn(&E, &D, usize) -> T,
     {
        &&& forall|six: [usize; 6]|
            (forall|i: int| 0 <= i < 6 ==> #[trigger] six@[i] < self.ids().len())
                ==> #[trigger] call_requires(batch6, (evaluator, &self.vectors(), six))
        &&& forall|pos: usize|
            pos < self.ids().len() ==> #[trigger] call_requires(single, (evaluator, &self.vectors(), pos))
    }

    /// The results that label `kept` with identifiers.
    pub open spec fn labelled(self, kept: Seq<Ranked<T>>, found: Seq<ScoredVector<T>>) -> bool {
        &&& found.len() == kept.len()
        &&& forall|i: int|
            0 <= i < found.len() ==> (#[trigger] found[i]).distance == kept[i].distance
                && found[i].vector == self.ids()[kept[i].position as int]
    }
}

impl<D, CI, T> IVF<D, CI, T> {
    /// An index from its parts: `cluster_offsets` are the ranges of the clusters,
    /// `external_ids` the identifier of the vector at each position, and
    /// `correction_terms` one term for each position where the metric has them.
    pub fn from_parts(
        metric: ReportedMetric,
        centroid_index: CI,
        dataset: D,
        cluster_offsets: Vec<u32>,
        external_ids: Vec<u32>,
        correction_terms: Option<Vec<T>>,
        residual: bool,
    ) -> (index: IVF<D, CI, T>)
        requires
            ranges_up_to(cluster_offsets@, external_ids@.len()),
            correction_terms matches Some(terms) ==> terms@.len() == external_ids@.len(),
        ensures
            index.wf(),
            index.metric() == metric,
            index.centroids() == centroid_index,
            index.vectors() == dataset,
            index.offsets() == cluster_offsets@,
            index.ids() == external_ids@,
            correction_terms matches Some(terms) ==> index.corrections() == Some(terms@),
            correction_terms is None ==> index.corrections() is None,
            index.residuals() == residual,
    {
        IVF {
            metric,
            centroid_index,
            dataset,
            cluster_offsets,
            external_ids,
            correction_terms,
            residual,
        }
    }

    pub fn n_clusters(&self) -> (n: usize)
        ensures
            n == if self.offsets().len() == 0 {
                0
            } else {
                self.offsets().len() - 1
            },
    {
        self.cluster_offsets.len().saturating_sub(1)
    }

    pub fn n_elements(&self) -> (n: usize)
        ensures
            n == self.ids().len(),
    {
        self.external_ids.len()
    }

    /// Whether residuals are stored rather than the vectors themselves.
    pub fn is_residual(&self) -> (residual: bool)
        ensures
            residual == self.residuals(),
    {
        self.residual
    }

    /// The dimension of the stored vectors, as the dataset reports it.
    pub fn dim<F: FnOnce(&D) -> usize>(&self, input_dim: F) -> (dim: usize)
        requires
            call_requires(input_dim, (&self.vectors(),)),
        ensures
            call_ensures(input_dim, (&self.vectors(),), dim),
    {
        input_dim(&self.dataset)
    }

    /// The bytes taken by the offsets, the identifiers and the correction terms,
    /// at four bytes an entry.
    pub fn space_usage_bytes(&self) -> (bytes: (usize, usize, usize))
        requires
            self.wf(),
            self.offsets().len() * 4 <= usize::MAX,
            self.ids().len() * 4 <= usize::MAX,
        ensures
            bytes.0 == self.offsets().len() * 4,
            bytes.1 == self.ids().len() * 4,
            bytes.2 == if self.corrections() is Some {
                self.ids().len() * 4
            } else {
                0
            },
    {
        let terms: usize = match &self.correction_terms {
            Some(terms) => terms.len() * 4,
            None => 0,
        };
        (self.cluster_offsets.len() * 4, self.external_ids.len() * 4, terms)
    }
}

impl<D, CI, T: Copy> IVF<D, CI, T> {
    /// Scores the vector at `pos`.
    fn score<A: Arithmetic<T>>(&self, ops: &A, pos: usize, centroid: T, raw: T) -> (item: Ranked<T>)
        requires
            self.wf(),
            self.metric().corrects() ==> self.corrections() is Some,
            pos < self.ids().len(),
        ensures
            self.scores(ops, pos as int, centroid, raw, item),
    {
        let correction: T = if self.metric.uses_correction() {
            match &self.correction_terms {
                Some(terms) => terms[pos],
                None => ops.zero(),
            }
        } else {
            ops.zero()
        };
        let distance = self.metric.combine(ops, centroid, correction, raw);
        let bits: u32 = ops.bits(distance);
        let key: i64 = self.metric.rank_key(bits);
        let item = Ranked { key, position: pos as u32, distance };
        assert(self.metric().reports(ops, centroid, correction, raw, item.distance));
        assert(call_ensures(A::bits, (ops, item.distance), bits));
        item
    }

    /// Offers every vector of the cluster from `start` to `end` to `top`.
    fn scan_cluster<E, A, B, S>(
        &self,
        top: &mut TopK<T>,
        ops: &A,
        batch6: &B,
        single: &S,
        evaluator: &E,
        start: usize,
        end: usize,
        centroid: T,
    ) where
        A: Arithmetic<T>,
        B: Fn(&E, &D, [usize; 6]) -> [T; 6],
        S: Fn(&E, &D, usize) -> T,

        requires
            self.wf(),
            self.metric().corrects() ==> self.corrections() is Some,
            start <= end <= self.ids().len(),
            old(top).wf(),
            start < end ==> old(top).limit() > 0,
            self.can_multiply(*batch6, *single, evaluator),
        ensures
            final(top).wf(),
            final(top).limit() == old(top).limit(),
            final(top).offered().len() == old(top).offered().len() + (end - start),
            final(top).offered().take(old(top).offered().len() as int) == old(top).offered(),
            forall|j: int|
                0 <= j < end - start ==> self.candidate(
                    ops,
                    *batch6,
                    *single,
                    evaluator,
                    start as int,
                    end as int,
                    centroid,
                    start + j,
                    #[trigger] final(top).offered()[old(top).offered().len() + j],
                ),
    {
        let ghost first = top.offered();
        let ghost base = first.len();
        let batch_end: usize = start + ((end - start) / 6) * 6;
        let mut pos: usize = start;
        while pos < batch_end
            invariant
                self.wf(),
                self.metric().corrects() ==> self.corrections() is Some,
                start <= pos <= batch_end <= end <= self.ids().len(),
                batch_end == start + ((end - start) as int / 6) * 6,
                (pos - start) % 6 == 0,
                top.wf(),
                top.limit() == old(top).limit(),
                start < end ==> top.limit() > 0,
                base == first.len(),
                top.offered().len() == base + (pos - start),
                top.offered().take(base as int) == first,
                self.can_multiply(*batch6, *single, evaluator),
                forall|j: int|
                    0 <= j < pos - start ==> self.candidate(
                        ops,
                        *batch6,
                        *single,
                        evaluator,
                        start as int,
                        end as int,
                        centroid,
                        start + j,
                        #[trigger] top.offered()[base + j],
                    ),
            decreases batch_end - pos,
        {
            let six: [usize; 6] = [pos, pos + 1, pos + 2, pos + 3, pos + 4, pos + 5];
            let raws: [T; 6] = batch6(evaluator, &self.dataset, six);
            assert(six@ =~= six_from(pos as int));
            let mut i: usize = 0;
            while i < 6
                invariant
                    self.wf(),
                    self.metric().corrects() ==> self.corrections() is Some,
                    i <= 6,
                    start <= pos,
                    pos + 6 <= batch_end <= end <= self.ids().len(),
                    batch_end == start + ((end - start) as int / 6) * 6,
                    (pos - start) % 6 == 0,
                    six@ == six_from(pos as int),
                    call_ensures(*batch6, (evaluator, &self.vectors(), six), raws),
                    top.wf(),
                    top.limit() == old(top).limit(),
                    top.limit() > 0,
                    base == first.len(),
                    top.offered().len() == base + (pos - start) + i,
                    top.offered().take(base as int) == first,
                    forall|j: int|
                        0 <= j < pos - start + i ==> self.candidate(
                            ops,
                            *batch6,
                            *single,
                            evaluator,
                            start as int,
                            end as int,
                            centroid,
                            start + j,
                            #[trigger] top.offered()[base + j],
                        ),
                decreases 6 - i,
            {
                let item = self.score(ops, pos + i, centroid, raws[i]);
                proof {
                    let at = pos + i - start;
                    assert(at / 6 * 6 == pos - start);
                    assert(at % 6 == i);
                    assert(raw_dot(
                        *batch6,
                        *single,
                        evaluator,
                        &self.vectors(),
                        start as int,
                        end as int,
                        pos + i,
                        raws@[i as int],
                    ));
                }
                let ghost so_far = top.offered();
                top.offer(item);
                assert(top.offered().take(base as int) =~= so_far.take(base as int));
                i = i + 1;
            }
            pos = pos + 6;
        }
        let mut p: usize = batch_end;
        while p < end
            invariant
                self.wf(),
                self.metric().corrects() ==> self.corrections() is Some,
                start <= batch_end <= p <= end <= self.ids().len(),
                batch_end == start + ((end - start) as int / 6) * 6,
                top.wf(),
                top.limit() == old(top).limit(),
                start < end ==> top.limit() > 0,
                base == first.len(),
                top.offered().len() == base + (p - start),
                top.offered().take(base as int) == first,
                self.can_multiply(*batch6, *single, evaluator),
                forall|j: int|
                    0 <= j < p - start ==> self.candidate(
                        ops,
                        *batch6,
                        *single,
                        evaluator,
                        start as int,
                        end as int,
                        centroid,
                        start + j,
                        #[trigger] top.offered()[base + j],
                    ),
            decreases end - p,
        {
            assert(call_requires(*single, (evaluator, &self.vectors(), p)));
            let raw: T = single(evaluator, &self.dataset, p);
            let item = self.score(ops, p, centroid, raw);
            assert(raw_dot(
                *batch6,
                *single,
                evaluator,
                &self.vectors(),
                start as int,
                end as int,
                p as int,
                raw,
            ));
            let ghost so_far = top.offered();
            top.offer(item);
            assert(top.offered().take(base as int) =~= so_far.take(base as int));
            p = p + 1;
        }
    }

    /// Searches the index for the `k` vectors that rank best among those of the
    /// `nprobe` nearest clusters.
    ///
    /// `nearest` searches the centroid index, `make_evaluator` prepares the query
    /// for the cluster dataset, `batch6` and `single` compute raw dot products at
    /// six positions and at one.
    pub fn search<Q, CP, QP, E, A, N, M, B, S>(
        &self,
        query: Q,
        k: usize,
        params: &IVFSearchParams<CP, QP>,
        ops: &A,
        nearest: N,
        make_evaluator: M,
        batch6: B,
        single: S,
    ) -> (found: Vec<ScoredVector<T>>) where
        Q: Copy,
        A: Arithmetic<T>,
        N: FnOnce(&CI, Q, usize, &CP) -> Vec<ScoredVector<T>>,
        M: FnOnce(&D, Q, &QP) -> E,
        B: Fn(&E, &D, [usize; 6]) -> [T; 6],
        S: Fn(&E, &D, usize) -> T,

        requires
            self.wf(),
            self.metric().corrects() ==> self.corrections() is Some,
            call_requires(
                nearest,
                (&self.centroids(), query, params.nprobe, &params.centroid_search_params),
            ),
            forall|near: Vec<ScoredVector<T>>| #[trigger]
                call_ensures(
                    nearest,
                    (&self.centroids(), query, params.nprobe, &params.centroid_search_params),
                    near,
                ) ==> self.can_probe(near@, k as nat),
            call_requires(make_evaluator, (&self.vectors(), query, &params.cluster_query_params)),
            forall|e: E| #[trigger]
                call_ensures(
                    make_evaluator,
                    (&self.vectors(), query, &params.cluster_query_params),
                    e,
                ) ==> self.can_multiply(batch6, single, &e),
        ensures
            exists|
                near: Vec<ScoredVector<T>>,
                e: E,
                offered: Seq<Ranked<T>>,
                kept: Seq<Ranked<T>>,
            |
                {
                    &&& #[trigger] call_ensures(
                        nearest,
                        (&self.centroids(), query, params.nprobe, &params.centroid_search_params),
                        near,
                    )
                    &&& #[trigger] call_ensures(
                        make_evaluator,
                        (&self.vectors(), query, &params.cluster_query_params),
                        e,
                    )
                    &&& self.full_scan(ops, batch6, single, &e, near@, offered)
                    &&& #[trigger] is_best(kept, offered, k as nat)
                    &&& self.labelled(kept, found@)
                },
    {
        let near: Vec<ScoredVector<T>> = nearest(
            &self.centroid_index,
            query,
            params.nprobe,
            &params.centroid_search_params,
        );
        let evaluator: E = make_evaluator(&self.dataset, query, &params.cluster_query_params);
        let mut top: TopK<T> = TopK::new(k);
        let ghost mut parts: Seq<Seq<Ranked<T>>> = Seq::empty();
        let mut at: usize = 0;
        while at < near.len()
            invariant
                at <= near@.len(),
                self.wf(),
                self.metric().corrects() ==> self.corrections() is Some,
                self.can_probe(near@, k as nat),
                self.can_multiply(batch6, single, &evaluator),
                top.wf(),
                top.limit() == k,
                parts.len() == at,
                top.offered() == parts.flatten(),
                forall|j: int|
                    0 <= j < top.offered().len() ==> (#[trigger] top.offered()[j]).position
                        < self.ids().len(),
                forall|i: int|
                    0 <= i < parts.len() ==> self.cluster_scan(
                        ops,
                        batch6,
                        single,
                        &evaluator,
                        near@[i],
                        #[trigger] parts[i],
                    ),
            decreases near.len() - at,
        {
            assert(near@[at as int].vector + 1 < self.cluster_offsets.len());
            let cluster: usize = near[at].vector as usize;
            let centroid: T = if self.residual {
                near[at].distance
            } else {
                ops.zero()
            };
            let start: usize = self.cluster_offsets[cluster] as usize;
            let end: usize = self.cluster_offsets[cluster + 1] as usize;
            let ghost before = top.offered();
            assert(self.offsets()[cluster as int] <= self.offsets()[cluster + 1]);
            assert(self.offsets()[cluster + 1] <= self.offsets()[self.offsets().len() - 1]);
            self.scan_cluster(&mut top, ops, &batch6, &single, &evaluator, start, end, centroid);
            proof {
                let part = top.offered().skip(before.len() as int);
                assert(self.contributes(ops, near@[at as int], centroid));
                assert forall|j: int| 0 <= j < part.len() implies self.candidate(
                    ops,
                    batch6,
                    single,
                    &evaluator,
                    start as int,
                    end as int,
                    centroid,
                    start + j,
                    #[trigger] part[j],
                ) by {
                    assert(part[j] == top.offered()[before.len() + j]);
                }
                assert(self.cluster_scan(ops, batch6, single, &evaluator, near@[at as int], part));
                parts.lemma_flatten_push(part);
                assert(top.offered() =~= before + part);
                assert forall|j: int| 0 <= j < top.offered().len() implies (
                #[trigger] top.offered()[j]).position < self.ids().len() by {
                    if j < before.len() {
                        assert(top.offered()[j] == before[j]);
                    } else {
                        assert(top.offered()[j] == part[j - before.len()]);
                    }
                }
                parts = parts.push(part);
            }
            at = at + 1;
        }
        let ghost offered = top.offered();
        let kept = top.into_sorted_vec();
        assert forall|j: int| 0 <= j < kept@.len() implies (#[trigger] kept@[j]).position
            < self.ids().len() by {
            law_kept_were_offered(kept@, offered, k as nat, j);
        }
        assert(is_best(kept@, offered, k as nat));
        assert(self.full_scan(ops, batch6, single, &evaluator, near@, offered));
        let mut found: Vec<ScoredVector<T>> = Vec::new();
        let mut i: usize = 0;
        while i < kept.len()
            invariant
                i <= kept@.len(),
                self.wf(),
                forall|j: int| 0 <= j < kept@.len() ==> (#[trigger] kept@[j]).position < self.ids().len(),
                found@.len() == i,
                forall|j: int|
                    0 <= j < i ==> (#[trigger] found@[j]).distance == kept@[j].distance && found@[j].vector
                        == self.ids()[kept@[j].position as int],
            decreases kept.len() - i,
        {
            found.push(
                ScoredVector {
                    distance: kept[i].distance,
                    vector: self.external_ids[kept[i].position as usize] as u64,
                },
            );
            i = i + 1;
        }
        found
    }
}

} // verus!
