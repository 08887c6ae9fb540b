use half::f16;
use kannolo::arithmetic::Arithmetic;
use kannolo::dense::PlainDenseDataset;
use kannolo::ivf::{IVFSearchParams, ReportedMetric, IVF};
use kannolo::ivf_build::{
    assemble_ip, assemble_l2, centroid_search, correction_term, l2_correction, plain_dp_cluster,
    pq_dp_cluster, prepare_dense_ivf, prepare_from_training, prepare_ivf, reorder, run_kmeans,
    CentroidSearch, DenseBuildArtifacts, IVFBuildParams, KMeansBuilder, KMEANS_HNSW_THRESHOLD,
};
use kannolo::ranking::ScoredVector;

struct Ieee;

impl Arithmetic<f32> for Ieee {
    fn zero(&self) -> f32 {
        0.0
    }
    fn plus(&self, a: f32, b: f32) -> f32 {
        a + b
    }
    fn minus(&self, a: f32, b: f32) -> f32 {
        a - b
    }
    fn times(&self, a: f32, b: f32) -> f32 {
        a * b
    }
    fn twice(&self, a: f32) -> f32 {
        2.0 * a
    }
    fn bits(&self, a: f32) -> u32 {
        a.to_bits()
    }
}

type Flat = PlainDenseDataset<f32>;

fn l2(a: &[f32], b: &[f32]) -> f32 {
    a.iter().zip(b).map(|(x, y)| (x - y) * (x - y)).sum()
}

fn dot(a: &[f32], b: &[f32]) -> f32 {
    a.iter().zip(b).map(|(x, y)| x * y).sum()
}

fn nearest_row(rows: &Flat, v: &[f32]) -> (f32, usize) {
    let mut best = (f32::INFINITY, 0);
    for c in 0..rows.len() {
        let d = l2(rows.get(c), v);
        if d < best.0 {
            best = (d, c);
        }
    }
    best
}

fn assign(dataset: &Flat, centroids: &Flat, _search: CentroidSearch) -> Vec<(f32, usize)> {
    (0..dataset.len()).map(|i| nearest_row(centroids, dataset.get(i))).collect()
}

/// Lloyd's iterations from rows spread over the dataset.
fn train(kmeans: &KMeansBuilder, dataset: &Flat, k: usize, search: CentroidSearch) -> Flat {
    let dim = dataset.input_dim();
    let mut centroids = Vec::new();
    for c in 0..k {
        centroids.extend_from_slice(dataset.get(c * (dataset.len() - 1) / (k - 1).max(1)));
    }
    let mut centroids = Flat::from_raw(centroids, k, dim);
    for _ in 0..kmeans.n_iter {
        let assigned = assign(dataset, &centroids, search);
        let mut sums = vec![0.0; k * dim];
        let mut counts = vec![0usize; k];
        for (i, (_, c)) in assigned.iter().enumerate() {
            counts[*c] += 1;
            for j in 0..dim {
                sums[c * dim + j] += dataset.get(i)[j];
            }
        }
        for c in 0..k {
            for j in 0..dim {
                sums[c * dim + j] /= counts[c].max(1) as f32;
            }
        }
        centroids = Flat::from_raw(sums, k, dim);
    }
    centroids
}

fn points() -> Flat {
    let pts: [[f32; 2]; 6] = [
        [0.0, 0.0],
        [0.1, 0.1],
        [0.2, 0.0],
        [10.0, 10.0],
        [10.1, 9.9],
        [9.9, 10.2],
    ];
    Flat::from_raw(pts.concat(), 6, 2)
}

fn params(residual: bool) -> IVFBuildParams {
    IVFBuildParams {
        n_clusters: 2,
        kmeans_n_iter: 10,
        kmeans_n_redo: 1,
        kmeans_seed: Some(42),
        kmeans_spherical: false,
        residual,
    }
}

fn flat_search(metric: ReportedMetric, centroids: &Flat, query: &[f32], k: usize) -> Vec<ScoredVector<f32>> {
    let mut all: Vec<ScoredVector<f32>> = (0..centroids.len())
        .map(|c| ScoredVector {
            distance: match metric {
                ReportedMetric::SquaredEuclidean => l2(centroids.get(c), query),
                ReportedMetric::DotProduct => dot(centroids.get(c), query),
            },
            vector: c as u64,
        })
        .collect();
    all.sort_by(|a, b| match metric {
        ReportedMetric::SquaredEuclidean => a.distance.total_cmp(&b.distance),
        ReportedMetric::DotProduct => b.distance.total_cmp(&a.distance),
    });
    all.truncate(k);
    all
}

fn search(
    index: &IVF<Flat, Flat, f32>,
    metric: ReportedMetric,
    query: &[f32],
    k: usize,
    nprobe: usize,
) -> Vec<ScoredVector<f32>> {
    let sp = IVFSearchParams { nprobe, centroid_search_params: (), cluster_query_params: () };
    index.search(
        query,
        k,
        &sp,
        &Ieee,
        |centroids: &Flat, q: &[f32], n: usize, _: &()| flat_search(metric, centroids, q, n),
        |_: &Flat, q: &[f32], _: &()| q.to_vec(),
        |q: &Vec<f32>, d: &Flat, six: [usize; 6]| six.map(|p| dot(q, d.get(p))),
        |q: &Vec<f32>, d: &Flat, p: usize| dot(q, d.get(p)),
    )
}

fn build(metric: ReportedMetric, dataset: &Flat, p: &IVFBuildParams) -> IVF<Flat, Flat, f32> {
    IVF::build_index(
        metric,
        dataset,
        p,
        &Ieee,
        train,
        assign,
        |a: &DenseBuildArtifacts<f32>| plain_dp_cluster(a, &|v: f32| v),
        &|d: &Flat, pos: usize| d.get(pos).to_vec(),
        |centroids: Flat| centroids,
    )
}

#[test]
fn dot_product_combine_sums_centroid_and_raw() {
    let m = ReportedMetric::DotProduct;
    assert_eq!(m.combine(&Ieee, 0.0, 0.0, 3.0), 3.0);
    assert_eq!(m.combine(&Ieee, 2.0, 0.0, 3.0), 5.0);
    assert!(!m.uses_correction());
}

#[test]
fn squared_euclidean_combine_applies_correction_and_minus_two() {
    let m = ReportedMetric::SquaredEuclidean;
    assert_eq!(m.combine(&Ieee, 0.0, 10.0, 3.0), 4.0);
    assert_eq!(m.combine(&Ieee, 4.0, 10.0, 3.0), 8.0);
    assert!(m.uses_correction());
}

#[test]
fn ivf_is_a_vectorium_index() {
    let dataset = points();
    for residual in [false, true] {
        let index = build(ReportedMetric::SquaredEuclidean, &dataset, &params(residual));
        assert_eq!(index.n_elements(), 6);
        assert_eq!(index.dim(|d: &Flat| d.input_dim()), 2);
        assert_eq!(index.is_residual(), residual);
        let res = search(&index, ReportedMetric::SquaredEuclidean, &[10.05, 10.0], 1, 2);
        assert_eq!(res.len(), 1);
        assert_eq!(res[0].vector, 3, "residual={residual}");
    }
}

#[test]
fn ivf_index_covers_f16_and_dot_product() {
    let dataset = points();
    let idx: IVF<PlainDenseDataset<f16>, Flat, f32> = IVF::build_index(
        ReportedMetric::SquaredEuclidean,
        &dataset,
        &params(false),
        &Ieee,
        train,
        assign,
        |a: &DenseBuildArtifacts<f32>| plain_dp_cluster(a, &f16::from_f32),
        &|d: &PlainDenseDataset<f16>, pos: usize| d.get(pos).iter().map(|v| v.to_f32()).collect(),
        |centroids: Flat| centroids,
    );
    let sp = IVFSearchParams { nprobe: 2, centroid_search_params: (), cluster_query_params: () };
    let half_dot = |q: &[f32], row: &[f16]| -> f32 {
        q.iter().zip(row).map(|(a, b)| a * b.to_f32()).sum()
    };
    let query: &[f32] = &[10.05, 10.0];
    let res = idx.search(
        query,
        1,
        &sp,
        &Ieee,
        |c: &Flat, q: &[f32], n: usize, _: &()| flat_search(ReportedMetric::SquaredEuclidean, c, q, n),
        |_: &PlainDenseDataset<f16>, q: &[f32], _: &()| q.to_vec(),
        |q: &Vec<f32>, d: &PlainDenseDataset<f16>, six: [usize; 6]| six.map(|p| half_dot(q, d.get(p))),
        |q: &Vec<f32>, d: &PlainDenseDataset<f16>, p: usize| half_dot(q, d.get(p)),
    );
    assert_eq!(res[0].vector, 3);

    let idx = build(ReportedMetric::DotProduct, &dataset, &params(false));
    let res = search(&idx, ReportedMetric::DotProduct, &[10.05, 10.0], 1, 2);
    assert_eq!(res[0].vector, 5);
}

/// Points on a line, in three groups that interleave in the dataset.
fn line() -> Flat {
    let mut values = Vec::new();
    for i in 0..24 {
        values.push((i % 3) as f32 * 100.0 + i as f32);
    }
    Flat::from_raw(values, 24, 1)
}

#[test]
fn probing_all_clusters_is_exhaustive_for_both_storages() {
    let dataset = line();
    for residual in [false, true] {
        let p = IVFBuildParams { n_clusters: 3, ..params(residual) };
        let index = build(ReportedMetric::SquaredEuclidean, &dataset, &p);
        assert_eq!(index.n_clusters(), 3);
        let query = [104.0f32];
        let found = search(&index, ReportedMetric::SquaredEuclidean, &query, 24, 3);
        assert_eq!(found.len(), 24);
        let mut ids: Vec<u64> = found.iter().map(|s| s.vector).collect();
        let mut expected: Vec<u64> = (0..24).collect();
        expected.sort_by(|a, b| {
            l2(dataset.get(*a as usize), &query).total_cmp(&l2(dataset.get(*b as usize), &query))
        });
        for (a, b) in ids.iter().zip(&expected) {
            assert_eq!(
                l2(dataset.get(*a as usize), &query),
                l2(dataset.get(*b as usize), &query)
            );
        }
        ids.sort();
        assert_eq!(ids, (0..24).collect::<Vec<u64>>());
    }
}

#[test]
fn residuals_change_no_result() {
    let rows: [[f32; 2]; 14] = [
        [0.0, 0.0],
        [7.0, 1.0],
        [2.0, 5.0],
        [9.0, 9.0],
        [4.0, 4.0],
        [1.0, 8.0],
        [6.0, 2.0],
        [12.0, 3.0],
        [5.0, 10.0],
        [3.0, 3.0],
        [10.0, 6.0],
        [8.0, 13.0],
        [2.0, 1.0],
        [11.0, 12.0],
    ];
    let dataset = Flat::from_raw(rows.concat(), 14, 2);
    let query = [3.0f32, 2.0];
    let metric = ReportedMetric::SquaredEuclidean;
    let found = |residual: bool| -> (Vec<u64>, Vec<f32>) {
        let p = IVFBuildParams { kmeans_n_iter: 0, ..params(residual) };
        let found = search(&build(metric, &dataset, &p), metric, &query, 6, 2);
        (found.iter().map(|s| s.vector).collect(), found.iter().map(|s| s.distance).collect())
    };
    assert_eq!(found(true), (vec![9, 12, 4, 6, 2, 0], vec![1.0, 2.0, 5.0, 9.0, 10.0, 13.0]));
    assert_eq!(found(false), (vec![9, 12, 4, 6, 2, 0], vec![-12.0, -11.0, -8.0, -4.0, -3.0, 0.0]));
}

#[test]
fn residuals_change_no_result_under_trained_centroids() {
    let rows: [[f32; 2]; 8] = [
        [0.25, 0.5],
        [0.75, 0.5],
        [0.25, 1.5],
        [0.75, 1.0],
        [8.5, 8.25],
        [8.5, 9.25],
        [9.5, 8.5],
        [9.5, 8.75],
    ];
    let dataset = Flat::from_raw(rows.concat(), 8, 2);
    let query = [0.5f32, 1.25];
    let metric = ReportedMetric::SquaredEuclidean;
    let found = |residual: bool| -> Vec<(u64, f32)> {
        let index = build(metric, &dataset, &params(residual));
        search(&index, metric, &query, 4, 2).iter().map(|s| (s.vector, s.distance)).collect()
    };
    let p = params(true);
    let artifacts = prepare_ivf(&dataset, &p, &Ieee, train, assign);
    assert_eq!(artifacts.centroids.values(), &vec![0.5, 0.875, 9.0, 8.6875]);
    let expected: Vec<(u64, f32)> = {
        let mut all: Vec<(u64, f32)> = (0..8).map(|i| (i as u64, l2(dataset.get(i), &query))).collect();
        all.sort_by(|a, b| a.1.total_cmp(&b.1).then(a.0.cmp(&b.0)));
        all.truncate(4);
        all
    };
    assert_eq!(found(true), vec![(2, 0.125), (3, 0.125), (0, 0.625), (1, 0.625)]);
    assert_eq!(found(true), expected);
    let norm = dot(&query, &query);
    assert_eq!(found(false), expected.iter().map(|(i, d)| (*i, d - norm)).collect::<Vec<_>>());
}

#[test]
fn residuals_change_no_dot_product() {
    let dataset = line();
    let metric = ReportedMetric::DotProduct;
    for residual in [false, true] {
        let p = IVFBuildParams { kmeans_n_iter: 0, n_clusters: 3, ..params(residual) };
        let found = search(&build(metric, &dataset, &p), metric, &[2.0], 3, 3);
        let seen: Vec<(u64, f32)> = found.iter().map(|s| (s.vector, s.distance)).collect();
        assert_eq!(seen, vec![(23, 446.0), (20, 440.0), (17, 434.0)]);
    }
}

#[test]
fn fewer_probes_and_results_are_a_prefix_of_nothing_else() {
    let dataset = line();
    let p = IVFBuildParams { n_clusters: 3, ..params(false) };
    let index = build(ReportedMetric::SquaredEuclidean, &dataset, &p);
    let found = search(&index, ReportedMetric::SquaredEuclidean, &[100.0], 3, 1);
    let ids: Vec<u64> = found.iter().map(|s| s.vector).collect();
    assert_eq!(ids, vec![1, 4, 7]);
    let all = search(&index, ReportedMetric::SquaredEuclidean, &[100.0], 50, 1);
    assert_eq!(all.len(), 8);
}

#[test]
fn space_usage_counts_four_bytes_an_entry() {
    let index = build(ReportedMetric::SquaredEuclidean, &points(), &params(false));
    assert_eq!(index.space_usage_bytes(), (12, 24, 24));
    let index = build(ReportedMetric::DotProduct, &points(), &params(false));
    assert_eq!(index.space_usage_bytes(), (12, 24, 0));
}

#[test]
fn an_index_from_parts_labels_and_breaks_ties_by_position() {
    let dataset = Flat::from_raw(vec![1.0, 1.0, 2.0], 3, 1);
    let centroids = Flat::from_raw(vec![1.0], 1, 1);
    let index: IVF<Flat, Flat, f32> = IVF::from_parts(
        ReportedMetric::DotProduct,
        centroids,
        dataset,
        vec![0, 3],
        vec![30, 10, 20],
        None,
        false,
    );
    let found = search(&index, ReportedMetric::DotProduct, &[1.0], 3, 1);
    let ids: Vec<u64> = found.iter().map(|s| s.vector).collect();
    assert_eq!(ids, vec![20, 30, 10]);
    assert_eq!(found[0].distance, 2.0);
}

#[test]
fn rank_keys_follow_the_metric() {
    let (near, far) = (1.5f32.to_bits(), 7.0f32.to_bits());
    assert!(ReportedMetric::SquaredEuclidean.rank_key(near) < ReportedMetric::SquaredEuclidean.rank_key(far));
    assert!(ReportedMetric::DotProduct.rank_key(far) < ReportedMetric::DotProduct.rank_key(near));
}

#[test]
fn preparation_groups_vectors_and_subtracts_centroids() {
    let dataset = points();
    let artifacts = prepare_ivf(&dataset, &params(true), &Ieee, train, assign);
    assert_eq!(artifacts.cluster_offsets, vec![0, 3, 6]);
    assert_eq!(artifacts.external_ids, vec![0, 1, 2, 3, 4, 5]);
    assert_eq!(artifacts.reordered_dataset.len(), 6);
    let c = artifacts.centroids.get(1).to_vec();
    assert_eq!(artifacts.reordered_dataset.get(3), &[10.0 - c[0], 10.0 - c[1]]);
    let plain = prepare_ivf(&dataset, &params(false), &Ieee, train, assign);
    assert_eq!(plain.reordered_dataset.values(), dataset.values());
}

#[test]
fn centroids_are_trained_on_a_sample_without_replacement() {
    let values: Vec<f32> = (0..40).map(|i| i as f32).collect();
    let dataset = Flat::from_raw(values, 40, 1);
    let kmeans = params(false).kmeans();
    for (size, expected) in [(Some(7), 7), (Some(40), 40), (Some(90), 40), (None, 40)] {
        let artifacts = prepare_dense_ivf(
            &dataset,
            1,
            &kmeans,
            false,
            size,
            false,
            &Ieee,
            |_: &KMeansBuilder, sample: &Flat, _: usize, _: CentroidSearch| {
                let mut seen: Vec<u32> = sample.values().iter().map(|v| *v as u32).collect();
                seen.sort();
                seen.dedup();
                Flat::from_raw(vec![seen.len() as f32], 1, 1)
            },
            |d: &Flat, _: &Flat, _: CentroidSearch| vec![(0.0, 0); d.len()],
        );
        assert_eq!(artifacts.centroids.values(), &vec![expected as f32]);
        assert_eq!(artifacts.external_ids.len(), 40);
    }
}

#[test]
fn training_data_and_dataset_may_differ() {
    let sample = Flat::from_raw(vec![5.0], 1, 1);
    let dataset = Flat::from_raw(vec![1.0, 2.0], 2, 1);
    let artifacts = prepare_from_training(
        &dataset,
        &sample,
        1,
        &params(false).kmeans(),
        true,
        false,
        &Ieee,
        |_: &KMeansBuilder, t: &Flat, _: usize, _: CentroidSearch| Flat::from_raw(t.values().clone(), 1, 1),
        |d: &Flat, _: &Flat, _: CentroidSearch| vec![(0.0, 0); d.len()],
    );
    assert_eq!(artifacts.reordered_dataset.values(), &vec![-4.0, -3.0]);
}

#[test]
fn many_clusters_switch_to_a_graph_of_centroids() {
    assert_eq!(centroid_search(false), CentroidSearch::Flat);
    let graph = CentroidSearch::Hnsw { num_neighbors: 32, ef_construction: 200, ef_search: 16 };
    assert_eq!(centroid_search(true), graph);
    assert_eq!(KMEANS_HNSW_THRESHOLD, 32_768);
    let kmeans = params(false).kmeans();
    let told = run_kmeans(&kmeans, &points(), 3, true, |_: &KMeansBuilder, d: &Flat, k: usize, s| {
        assert_eq!(s, graph);
        Flat::from_raw(vec![k as f32, d.len() as f32], 1, 2)
    });
    assert_eq!(told.values(), &vec![3.0, 6.0]);
}

#[test]
fn corrections_are_square_norms_and_cross_terms() {
    assert_eq!(correction_term(&Ieee, &[1.0, 2.0], &[3.0, 4.0], false), 25.0);
    assert_eq!(correction_term(&Ieee, &[1.0, 2.0], &[3.0, 4.0], true), 47.0);
    assert_eq!(correction_term(&Ieee, &[], &[], true), 0.0);
    let cluster = Flat::from_raw(vec![1.0, 2.0, 3.0], 3, 1);
    let decode = |d: &Flat, pos: usize| d.get(pos).to_vec();
    let terms = l2_correction(&cluster, 3, 1, &[10.0, 20.0], &[0, 1, 3], true, &Ieee, &decode);
    assert_eq!(terms, vec![21.0, 84.0, 129.0]);
    let terms = l2_correction(&cluster, 3, 1, &[10.0], &[1, 2], false, &Ieee, &decode);
    assert_eq!(terms, vec![0.0, 4.0, 0.0]);
}

#[test]
fn artifacts_are_assembled_for_either_metric() {
    let artifacts = || prepare_ivf(&points(), &params(false), &Ieee, train, assign);
    let decode = |d: &Flat, pos: usize| d.get(pos).to_vec();
    let cluster = plain_dp_cluster(&artifacts(), &|v: f32| v);
    let index = assemble_l2(artifacts(), cluster, |c: Flat| c, false, &Ieee, &decode);
    assert_eq!(search(&index, ReportedMetric::SquaredEuclidean, &[0.2, 0.0], 1, 2)[0].vector, 2);
    let cluster = pq_dp_cluster(&artifacts(), |d: &Flat| Flat::from_raw(d.values().clone(), 6, 2));
    let index = assemble_ip(artifacts(), cluster, |c: Flat| c, false);
    assert_eq!(search(&index, ReportedMetric::DotProduct, &[1.0, 0.0], 1, 2)[0].vector, 4);
}

#[test]
fn reordering_follows_the_given_order() {
    let dataset = Flat::from_raw(vec![1.0, 2.0, 3.0, 4.0, 5.0, 6.0], 3, 2);
    let centroids = Flat::from_raw(vec![1.0, 1.0, 10.0, 10.0], 2, 2);
    let plain = reorder(&Ieee, &dataset, &centroids, &[1, 0, 1], &[1, 0, 2], false);
    assert_eq!(plain.values(), &vec![3.0, 4.0, 1.0, 2.0, 5.0, 6.0]);
    let rest = reorder(&Ieee, &dataset, &centroids, &[1, 0, 1], &[1, 0, 2], true);
    assert_eq!(rest.values(), &vec![2.0, 3.0, -9.0, -8.0, -5.0, -4.0]);
}
