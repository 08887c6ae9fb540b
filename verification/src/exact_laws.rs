//! The numbers that exact results are measured by, and what it means for results to be
//! the nearest.

use crate::exact::{
    contribution, correction_value, dot, dot_upto, rank_value, reduced, reported_value, restored,
    squared_distance, squared_distance_upto,
};
use crate::ivf::ReportedMetric;
use crate::ivf_exact::are_nearest;
use crate::ranking::ScoredVector;
use vstd::prelude::*;

verus! {

proof fn lemma_prefix(a: Seq<real>, b: Seq<real>, x: real, y: real, n: nat)
    requires
        a.len() == b.len(),
        n <= a.len(),
    ensures
        dot_upto(a.push(x), b.push(y), n) == dot_upto(a, b, n),
        squared_distance_upto(a.push(x), b.push(y), n) == squared_distance_upto(a, b, n),
    decreases n,
{
    if n > 0 {
        lemma_prefix(a, b, x, y, (n - 1) as nat);
    }
}

/// Dot products and squared distances start from 0, and each coordinate adds its product
/// and the square of its difference.
pub proof fn law_coordinates_add_up(a: Seq<real>, b: Seq<real>, x: real, y: real)
    requires
        a.len() == b.len(),
    ensures
        a.len() == 0 ==> dot(a, b) == 0real && squared_distance(a, b) == 0real,
        dot(a.push(x), b.push(y)) == dot(a, b) + x * y,
        squared_distance(a.push(x), b.push(y)) == squared_distance(a, b) + (x - y) * (x - y),
{
    lemma_prefix(a, b, x, y, a.len());
}

proof fn lemma_symmetric(a: Seq<real>, b: Seq<real>, n: nat)
    ensures
        dot_upto(a, b, n) == dot_upto(b, a, n),
        squared_distance_upto(a, b, n) == squared_distance_upto(b, a, n),
        squared_distance_upto(a, b, n) >= 0real,
        squared_distance_upto(a, a, n) == 0real,
    decreases n,
{
    if n > 0 {
        lemma_symmetric(a, b, (n - 1) as nat);
        let x = a[n - 1];
        let y = b[n - 1];
        assert(x * y == y * x) by (nonlinear_arith);
        assert((x - y) * (x - y) == (y - x) * (y - x)) by (nonlinear_arith);
        assert((x - y) * (x - y) >= 0real) by (nonlinear_arith);
        assert((x - x) * (x - x) == 0real) by (nonlinear_arith);
    }
}

/// Both are symmetric, a squared distance is never negative, and a vector is at distance
/// 0 from itself.
pub proof fn law_distances_are_distances(a: Seq<real>, b: Seq<real>)
    requires
        a.len() == b.len(),
    ensures
        dot(a, b) == dot(b, a),
        squared_distance(a, b) == squared_distance(b, a),
        squared_distance(a, b) >= 0real,
        squared_distance(a, a) == 0real,
{
    lemma_symmetric(a, b, a.len());
}

/// What is reported of a query and a vector, and what vectors rank by.
pub proof fn law_reported_values(q: Seq<real>, v: Seq<real>)
    ensures
        reported_value(ReportedMetric::SquaredEuclidean, true, q, v) == squared_distance(q, v),
        reported_value(ReportedMetric::SquaredEuclidean, false, q, v) == squared_distance(q, v) - dot(q, q),
        reported_value(ReportedMetric::DotProduct, true, q, v) == dot(q, v),
        reported_value(ReportedMetric::DotProduct, false, q, v) == dot(q, v),
        rank_value(ReportedMetric::SquaredEuclidean, q, v) == squared_distance(q, v),
        rank_value(ReportedMetric::DotProduct, q, v) == -dot(q, v),
{
}

/// What a centroid contributes, what a stored vector is corrected by, and how a vector
/// and what is stored for it are related.
pub proof fn law_stored_values(metric: ReportedMetric, q: Seq<real>, c: Seq<real>, v: Seq<real>)
    requires
        c.len() == v.len(),
    ensures
        contribution(ReportedMetric::SquaredEuclidean, true, q, c) == squared_distance(q, c),
        contribution(ReportedMetric::DotProduct, true, q, c) == dot(q, c),
        contribution(metric, false, q, c) == 0real,
        correction_value(c, v, false) == dot(v, v),
        correction_value(c, v, true) == dot(v, v) + 2real * dot(c, v),
        reduced(c, v, false) == v,
        restored(c, v, false) == v,
        reduced(c, v, true).len() == v.len(),
        restored(c, v, true).len() == v.len(),
        forall|j: int| 0 <= j < v.len() ==> #[trigger] reduced(c, v, true)[j] == v[j] - c[j],
        forall|j: int| 0 <= j < v.len() ==> #[trigger] restored(c, v, true)[j] == c[j] + v[j],
{
}

/// The nearest vectors under squared Euclidean distance: as many as there are up to `k`,
/// none twice, none farther than one behind it or one that is missing, each with its
/// distance, less `|q|^2` where no residuals are stored.
pub proof fn law_nearest_by_distance<T>(
    residual: bool,
    val: spec_fn(T) -> real,
    q: Seq<real>,
    points: Seq<Seq<real>>,
    k: nat,
    found: Seq<ScoredVector<T>>,
)
    requires
        are_nearest(ReportedMetric::SquaredEuclidean, residual, val, q, points, k, found),
    ensures
        found.len() <= k,
        found.len() <= points.len(),
        found.len() == k || found.len() == points.len(),
        forall|i: int| 0 <= i < found.len() ==> (#[trigger] found[i]).vector < points.len(),
        forall|i: int, j: int|
            0 <= i < j < found.len() ==> (#[trigger] found[i]).vector != (#[trigger] found[j]).vector,
        forall|i: int, j: int|
            0 <= i < j < found.len() ==> squared_distance(q, points[(#[trigger] found[i]).vector as int])
                <= squared_distance(q, points[(#[trigger] found[j]).vector as int]),
        forall|i: int|
            residual && 0 <= i < found.len() ==> val((#[trigger] found[i]).distance) == squared_distance(
                q,
                points[found[i].vector as int],
            ),
        forall|i: int|
            !residual && 0 <= i < found.len() ==> val((#[trigger] found[i]).distance) == squared_distance(
                q,
                points[found[i].vector as int],
            ) - dot(q, q),
        forall|v: int, i: int|
            0 <= v < points.len() && 0 <= i < found.len() && (forall|j: int|
                0 <= j < found.len() ==> (#[trigger] found[j]).vector != v) ==> squared_distance(
                q,
                points[(#[trigger] found[i]).vector as int],
            ) <= squared_distance(q, #[trigger] points[v]),
{
    assert forall|v: int, i: int|
        0 <= v < points.len() && 0 <= i < found.len() && (forall|j: int|
            0 <= j < found.len() ==> (#[trigger] found[j]).vector != v) implies squared_distance(
        q,
        points[(#[trigger] found[i]).vector as int],
    ) <= squared_distance(q, #[trigger] points[v]) by {
        assert(!crate::ivf_exact::is_found(found, v));
    }
}

/// The nearest vectors under dot product: as many as there are up to `k`, none twice,
/// none with a smaller product than one behind it or one that is missing, each with its
/// product.
pub proof fn law_nearest_by_product<T>(
    residual: bool,
    val: spec_fn(T) -> real,
    q: Seq<real>,
    points: Seq<Seq<real>>,
    k: nat,
    found: Seq<ScoredVector<T>>,
)
    requires
        are_nearest(ReportedMetric::DotProduct, residual, val, q, points, k, found),
    ensures
        found.len() <= k,
        found.len() <= points.len(),
        found.len() == k || found.len() == points.len(),
        forall|i: int| 0 <= i < found.len() ==> (#[trigger] found[i]).vector < points.len(),
        forall|i: int, j: int|
            0 <= i < j < found.len() ==> (#[trigger] found[i]).vector != (#[trigger] found[j]).vector,
        forall|i: int, j: int|
            0 <= i < j < found.len() ==> dot(q, points[(#[trigger] found[i]).vector as int]) >= dot(
                q,
                points[(#[trigger] found[j]).vector as int],
            ),
        forall|i: int|
            0 <= i < found.len() ==> val((#[trigger] found[i]).distance) == dot(
                q,
                points[found[i].vector as int],
            ),
        forall|v: int, i: int|
            0 <= v < points.len() && 0 <= i < found.len() && (forall|j: int|
                0 <= j < found.len() ==> (#[trigger] found[j]).vector != v) ==> dot(
                q,
                points[(#[trigger] found[i]).vector as int],
            ) >= dot(q, #[trigger] points[v]),
{
    assert forall|v: int, i: int|
        0 <= v < points.len() && 0 <= i < found.len() && (forall|j: int|
            0 <= j < found.len() ==> (#[trigger] found[j]).vector != v) implies dot(
        q,
        points[(#[trigger] found[i]).vector as int],
    ) >= dot(q, #[trigger] points[v]) by {
        assert(!crate::ivf_exact::is_found(found, v));
    }
}

} // verus!
