//! What corrections and reported distances amount to where arithmetic is exact.
//!
//! A map reads values as real numbers. An operation is exact where the numbers it is
//! given and the number it should give are ones that values can stand for; a set of such
//! numbers comes with the map. Vectors are then sequences of real numbers, and distances
//! are what they are in a Euclidean space.

use crate::arithmetic::Arithmetic;
use crate::ivf::ReportedMetric;
use crate::ivf_build::{adds_part, corrects};
use vstd::prelude::*;

verus! {

/// Whether every operation does on values what it does on the numbers they stand for,
/// as long as these numbers and the result are among those that `fits` accepts.
///
/// Single-precision operations are exact in this sense on the finite single-precision
/// numbers.
pub open spec fn exact_arithmetic<T, A: Arithmetic<T>>(
    ops: &A,
    val: spec_fn(T) -> real,
    fits: spec_fn(real) -> bool,
) -> bool {
    &&& forall|r: T| #[trigger] call_ensures(A::zero, (ops,), r) ==> val(r) == 0real
    &&& forall|a: T, b: T, r: T| #[trigger]
        call_ensures(A::plus, (ops, a, b), r) && fits(val(a)) && fits(val(b)) && fits(val(a) + val(b))
            ==> val(r) == val(a) + val(b)
    &&& forall|a: T, b: T, r: T| #[trigger]
        call_ensures(A::minus, (ops, a, b), r) && fits(val(a)) && fits(val(b)) && fits(val(a) - val(b))
            ==> val(r) == val(a) - val(b)
    &&& forall|a: T, b: T, r: T| #[trigger]
        call_ensures(A::times, (ops, a, b), r) && fits(val(a)) && fits(val(b)) && fits(val(a) * val(b))
            ==> val(r) == val(a) * val(b)
    &&& forall|a: T, r: T| #[trigger]
        call_ensures(A::twice, (ops, a), r) && fits(val(a)) && fits(2real * val(a)) ==> val(r) == 2real * val(a)
}

/// The dot product of the first `n` coordinates.
pub open spec fn dot_upto(a: Seq<real>, b: Seq<real>, n: nat) -> real
    decreases n,
{
    if n == 0 {
        0real
    } else {
        dot_upto(a, b, (n - 1) as nat) + a[n - 1] * b[n - 1]
    }
}

/// The dot product of two vectors.
pub open spec fn dot(a: Seq<real>, b: Seq<real>) -> real {
    dot_upto(a, b, a.len())
}

/// The squared distance between the first `n` coordinates.
pub open spec fn squared_distance_upto(a: Seq<real>, b: Seq<real>, n: nat) -> real
    decreases n,
{
    if n == 0 {
        0real
    } else {
        squared_distance_upto(a, b, (n - 1) as nat) + (a[n - 1] - b[n - 1]) * (a[n - 1] - b[n - 1])
    }
}

/// The squared Euclidean distance between two vectors.
pub open spec fn squared_distance(a: Seq<real>, b: Seq<real>) -> real {
    squared_distance_upto(a, b, a.len())
}

/// What is stored for vector `v` under centroid `c`: their difference where residuals
/// are stored, `v` itself otherwise.
pub open spec fn reduced(c: Seq<real>, v: Seq<real>, residual: bool) -> Seq<real> {
    if residual {
        Seq::new(v.len(), |j: int| v[j] - c[j])
    } else {
        v
    }
}

/// The vector that stored vector `w` stands for under centroid `c`: their sum where
/// residuals are stored, `w` itself otherwise.
pub open spec fn restored(c: Seq<real>, w: Seq<real>, residual: bool) -> Seq<real> {
    if residual {
        Seq::new(w.len(), |j: int| c[j] + w[j])
    } else {
        w
    }
}

/// The correction of the first `n` coordinates of stored vector `w` under centroid `c`:
/// `|w|^2`, and `2 c.w` more where residuals are stored.
pub open spec fn correction_upto(c: Seq<real>, w: Seq<real>, residual: bool, n: nat) -> real {
    dot_upto(w, w, n) + if residual {
        2real * dot_upto(c, w, n)
    } else {
        0real
    }
}

/// The correction of stored vector `w` under centroid `c`.
pub open spec fn correction_value(c: Seq<real>, w: Seq<real>, residual: bool) -> real {
    correction_upto(c, w, residual, w.len())
}

/// Whether every number met while the correction of `w` under `c` is summed up is one
/// that `fits` accepts.
pub open spec fn correction_fits(
    fits: spec_fn(real) -> bool,
    c: Seq<real>,
    w: Seq<real>,
    residual: bool,
) -> bool {
    &&& fits(0real)
    &&& forall|j: int| 0 <= j < w.len() ==> #[trigger] part_fits(fits, c[j], w[j], residual)
    &&& forall|n: nat| n <= w.len() ==> fits(#[trigger] correction_upto(c, w, residual, n))
}

/// Whether every number met while the part of one coordinate is computed is one that
/// `fits` accepts.
pub open spec fn part_fits(fits: spec_fn(real) -> bool, c: real, w: real, residual: bool) -> bool {
    &&& fits(w)
    &&& fits(w * w)
    &&& residual ==> {
        &&& fits(c)
        &&& fits(2real * c)
        &&& fits(2real * c * w)
        &&& fits(w * w + 2real * c * w)
    }
}

/// What centroid `c` contributes to the distances of its cluster from query `q`: its own
/// distance where residuals are stored, 0 otherwise.
pub open spec fn contribution(metric: ReportedMetric, residual: bool, q: Seq<real>, c: Seq<real>) -> real {
    if residual {
        match metric {
            ReportedMetric::SquaredEuclidean => squared_distance(q, c),
            ReportedMetric::DotProduct => dot(q, c),
        }
    } else {
        0real
    }
}

/// The distance that is reported between query `q` and vector `v`. Squared Euclidean
/// distances lack the constant `|q|^2` where no residuals are stored.
pub open spec fn reported_value(metric: ReportedMetric, residual: bool, q: Seq<real>, v: Seq<real>) -> real {
    match metric {
        ReportedMetric::SquaredEuclidean => squared_distance(q, v) - if residual {
            0real
        } else {
            dot(q, q)
        },
        ReportedMetric::DotProduct => dot(q, v),
    }
}

/// Whether every number met while the distance of stored vector `w` under centroid `c`
/// is rebuilt from its parts is one that `fits` accepts.
pub open spec fn report_fits(
    fits: spec_fn(real) -> bool,
    metric: ReportedMetric,
    residual: bool,
    q: Seq<real>,
    c: Seq<real>,
    w: Seq<real>,
) -> bool {
    &&& fits(contribution(metric, residual, q, c))
    &&& fits(dot(q, w))
    &&& fits(reported_value(metric, residual, q, restored(c, w, residual)))
    &&& metric.corrects() ==> {
        &&& fits(correction_value(c, w, residual))
        &&& fits(contribution(metric, residual, q, c) + correction_value(c, w, residual))
        &&& fits(2real * dot(q, w))
    }
}

/// Whether every number met while vector `v` is stored under centroid `c` is one that
/// `fits` accepts.
pub open spec fn storing_fits(
    fits: spec_fn(real) -> bool,
    metric: ReportedMetric,
    residual: bool,
    c: Seq<real>,
    v: Seq<real>,
) -> bool {
    let w = reduced(c, v, residual);
    &&& residual ==> forall|j: int|
        0 <= j < v.len() ==> fits(#[trigger] v[j]) && fits(c[j]) && fits(v[j] - c[j])
    &&& metric.corrects() ==> correction_fits(fits, c, w, residual)
}

/// What the metric ranks vectors by, smallest first.
pub open spec fn rank_value(metric: ReportedMetric, q: Seq<real>, v: Seq<real>) -> real {
    match metric {
        ReportedMetric::SquaredEuclidean => squared_distance(q, v),
        ReportedMetric::DotProduct => 0real - dot(q, v),
    }
}

proof fn lemma_expand(a: Seq<real>, b: Seq<real>, n: nat)
    ensures
        squared_distance_upto(a, b, n) == dot_upto(a, a, n) + dot_upto(b, b, n) - 2real * dot_upto(a, b, n),
    decreases n,
{
    if n > 0 {
        lemma_expand(a, b, (n - 1) as nat);
        let x = a[n - 1];
        let y = b[n - 1];
        let before = dot_upto(a, b, (n - 1) as nat);
        assert((x - y) * (x - y) == x * x + y * y - 2real * (x * y)) by (nonlinear_arith);
        assert(2real * (before + x * y) == 2real * before + 2real * (x * y)) by (nonlinear_arith);
    }
}

/// The squared distance of two vectors is `|a|^2 + |b|^2 - 2 a.b`.
pub proof fn law_squared_distance_expands(a: Seq<real>, b: Seq<real>)
    requires
        a.len() == b.len(),
    ensures
        squared_distance(a, b) == dot(a, a) + dot(b, b) - 2real * dot(a, b),
{
    lemma_expand(a, b, a.len());
}

proof fn lemma_dot_of_sum(q: Seq<real>, c: Seq<real>, w: Seq<real>, n: nat)
    requires
        n <= w.len(),
    ensures
        dot_upto(q, restored(c, w, true), n) == dot_upto(q, c, n) + dot_upto(q, w, n),
        dot_upto(restored(c, w, true), restored(c, w, true), n) == dot_upto(c, c, n) + 2real * dot_upto(c, w, n)
            + dot_upto(w, w, n),
    decreases n,
{
    if n > 0 {
        lemma_dot_of_sum(q, c, w, (n - 1) as nat);
        let x = q[n - 1];
        let y = c[n - 1];
        let z = w[n - 1];
        let before = dot_upto(c, w, (n - 1) as nat);
        assert(x * (y + z) == x * y + x * z) by (nonlinear_arith);
        assert((y + z) * (y + z) == y * y + 2real * (y * z) + z * z) by (nonlinear_arith);
        assert(2real * (before + y * z) == 2real * before + 2real * (y * z)) by (nonlinear_arith);
    }
}

/// What is stored for a vector restores it.
pub proof fn law_reduced_vectors_are_restored(c: Seq<real>, v: Seq<real>, residual: bool)
    ensures
        restored(c, reduced(c, v, residual), residual) == v,
{
    assert(restored(c, reduced(c, v, residual), residual) =~= v);
}

proof fn lemma_part<T, A: Arithmetic<T>>(
    ops: &A,
    val: spec_fn(T) -> real,
    fits: spec_fn(real) -> bool,
    c: T,
    w: T,
    residual: bool,
    part: T,
)
    requires
        exact_arithmetic(ops, val, fits),
        fits(0real),
        part_fits(fits, val(c), val(w), residual),
        crate::ivf_build::correction_part(ops, c, w, residual, part),
    ensures
        val(part) == val(w) * val(w) + if residual {
            2real * (val(c) * val(w))
        } else {
            0real
        },
{
    let (square, cross) = choose|square: T, cross: T| #[trigger]
        call_ensures(A::plus, (ops, square, cross), part) && call_ensures(A::times, (ops, w, w), square)
            && crate::ivf_build::cross_part(ops, c, w, residual, cross);
    let x = val(c);
    let y = val(w);
    assert(val(square) == y * y);
    assert(2real * x * y == 2real * (x * y)) by (nonlinear_arith);
    if residual {
        let doubled = choose|doubled: T| #[trigger]
            call_ensures(A::twice, (ops, c), doubled) && call_ensures(A::times, (ops, doubled, w), cross);
        assert(val(doubled) == 2real * x);
        assert(val(cross) == 2real * x * y);
    } else {
        assert(y * y + 0real == y * y);
    }
}

proof fn lemma_partial_correction<T, A: Arithmetic<T>>(
    ops: &A,
    val: spec_fn(T) -> real,
    fits: spec_fn(real) -> bool,
    c: Seq<T>,
    w: Seq<T>,
    residual: bool,
    sums: Seq<T>,
    n: nat,
)
    requires
        exact_arithmetic(ops, val, fits),
        correction_fits(fits, c.map_values(val), w.map_values(val), residual),
        c.len() == w.len(),
        n <= w.len(),
        sums.len() == w.len() + 1,
        call_ensures(A::zero, (ops,), sums[0]),
        forall|j: int|
            0 <= j < w.len() ==> #[trigger] adds_part(ops, c[j], w[j], residual, sums[j], sums[j + 1]),
    ensures
        val(sums[n as int]) == correction_upto(c.map_values(val), w.map_values(val), residual, n),
    decreases n,
{
    let cs = c.map_values(val);
    let ws = w.map_values(val);
    if n == 0 {
        assert(2real * 0real == 0real) by (nonlinear_arith);
    } else {
        let j = n - 1;
        lemma_partial_correction(ops, val, fits, c, w, residual, sums, j as nat);
        assert(adds_part(ops, c[j], w[j], residual, sums[j], sums[j + 1]));
        let part = choose|part: T| #[trigger]
            call_ensures(A::plus, (ops, sums[j], part), sums[j + 1]) && crate::ivf_build::correction_part(
                ops,
                c[j],
                w[j],
                residual,
                part,
            );
        assert(part_fits(fits, cs[j], ws[j], residual));
        lemma_part(ops, val, fits, c[j], w[j], residual, part);
        let x = val(c[j]);
        let y = val(w[j]);
        let before = dot_upto(cs, ws, j as nat);
        assert(2real * (before + x * y) == 2real * before + 2real * (x * y)) by (nonlinear_arith);
        assert(2real * x * y == 2real * (x * y)) by (nonlinear_arith);
        assert(correction_upto(cs, ws, residual, n) == correction_upto(cs, ws, residual, j as nat) + val(part));
        assert(fits(correction_upto(cs, ws, residual, j as nat)));
        assert(fits(correction_upto(cs, ws, residual, n)));
        assert(fits(val(part)));
    }
}

/// In exact arithmetic a correction is `|w|^2`, and `2 c.w` more where residuals are
/// stored.
pub proof fn law_correction_is_exact<T, A: Arithmetic<T>>(
    ops: &A,
    val: spec_fn(T) -> real,
    fits: spec_fn(real) -> bool,
    c: Seq<T>,
    w: Seq<T>,
    residual: bool,
    out: T,
)
    requires
        exact_arithmetic(ops, val, fits),
        correction_fits(fits, c.map_values(val), w.map_values(val), residual),
        c.len() == w.len(),
        corrects(ops, c, w, residual, out),
    ensures
        val(out) == correction_value(c.map_values(val), w.map_values(val), residual),
{
    let n = w.len();
    let sums = choose|sums: Seq<T>|
        {
            &&& sums.len() == n + 1
            &&& call_ensures(A::zero, (ops,), sums[0])
            &&& forall|j: int|
                0 <= j < n ==> #[trigger] adds_part(ops, c[j], w[j], residual, sums[j], sums[j + 1])
            &&& out == #[trigger] sums.last()
        };
    lemma_partial_correction(ops, val, fits, c, w, residual, sums, n);
}

/// In exact arithmetic the distance that is rebuilt from its parts is the distance
/// between the query and the vector that the stored one stands for:
/// `|q - (c + w)|^2` with residuals and `|q - w|^2 - |q|^2` without for squared
/// Euclidean, the dot product of the two for dot product.
///
/// The stored vector is taken as it is decoded, so this holds of lossy storage too.
pub proof fn law_reported_distance_is_exact<T, A: Arithmetic<T>>(
    metric: ReportedMetric,
    ops: &A,
    val: spec_fn(T) -> real,
    fits: spec_fn(real) -> bool,
    q: Seq<real>,
    c: Seq<real>,
    w: Seq<real>,
    residual: bool,
    centroid: T,
    correction: T,
    raw: T,
    out: T,
)
    requires
        exact_arithmetic(ops, val, fits),
        report_fits(fits, metric, residual, q, c, w),
        q.len() == c.len() == w.len(),
        val(centroid) == contribution(metric, residual, q, c),
        metric.corrects() ==> val(correction) == correction_value(c, w, residual),
        val(raw) == dot(q, w),
        metric.reports(ops, centroid, correction, raw, out),
    ensures
        val(out) == reported_value(metric, residual, q, restored(c, w, residual)),
{
    let v = restored(c, w, residual);
    law_squared_distance_expands(q, v);
    law_squared_distance_expands(q, c);
    lemma_dot_of_sum(q, c, w, w.len());
    let qc = dot(q, c);
    let qw = dot(q, w);
    assert(2real * (qc + qw) == 2real * qc + 2real * qw) by (nonlinear_arith);
    if metric.corrects() {
        let (sum, doubled) = choose|sum: T, doubled: T|
            #![trigger call_ensures(A::minus, (ops, sum, doubled), out)]
            call_ensures(A::plus, (ops, centroid, correction), sum)
            && call_ensures(A::twice, (ops, raw), doubled)
            && call_ensures(A::minus, (ops, sum, doubled), out);
        assert(val(sum) == contribution(metric, residual, q, c) + correction_value(c, w, residual));
        assert(val(doubled) == 2real * qw);
        assert(val(sum) - val(doubled) == reported_value(metric, residual, q, v));
    }
}

/// Whether residuals are stored makes no difference to how vectors rank: both distances
/// order any two vectors alike, as the metric does.
pub proof fn law_residuals_rank_alike(
    metric: ReportedMetric,
    residual: bool,
    q: Seq<real>,
    u: Seq<real>,
    v: Seq<real>,
)
    ensures
        reported_value(metric, residual, q, u) <= reported_value(metric, residual, q, v) <==> if metric.corrects() {
            rank_value(metric, q, u) <= rank_value(metric, q, v)
        } else {
            rank_value(metric, q, v) <= rank_value(metric, q, u)
        },
{
}

} // verus!
