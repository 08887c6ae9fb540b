//! Building an inverted vector file: clustering, grouping by cluster, encoding
//! and assembly.

use crate::arithmetic::Arithmetic;
use crate::dense::PlainDenseDataset;
use crate::grouping::{cluster_offsets, cluster_order};
use crate::ivf::{ReportedMetric, IVF};
use vstd::prelude::*;

verus! {

/// From this many clusters on, centroids are searched with an HNSW graph while
/// clustering; below it an exhaustive scan is fast enough.
pub const KMEANS_HNSW_THRESHOLD: usize = 32_768;

/// Parameters of the graph that searches centroids while clustering.
pub const KMEANS_HNSW_M: usize = 32;

pub const KMEANS_HNSW_EF_CONSTRUCTION: usize = 200;

pub const KMEANS_HNSW_EF_SEARCH: usize = 16;

/// How the nearest centroid of a vector is found while clustering.
#[derive(Clone, Copy, Debug, PartialEq, Eq, Structural)]
pub enum CentroidSearch {
    /// Compare with every centroid.
    Flat,
    /// Search a graph over the centroids.
    Hnsw { num_neighbors: usize, ef_construction: usize, ef_search: usize },
}

pub open spec fn centroid_search_for(use_hnsw: bool) -> CentroidSearch {
    if use_hnsw {
        CentroidSearch::Hnsw {
            num_neighbors: KMEANS_HNSW_M,
            ef_construction: KMEANS_HNSW_EF_CONSTRUCTION,
            ef_search: KMEANS_HNSW_EF_SEARCH,
        }
    } else {
        CentroidSearch::Flat
    }
}

/// How centroids are searched while clustering.
pub fn centroid_search(use_hnsw: bool) -> (search: CentroidSearch)
    ensures
        search == centroid_search_for(use_hnsw),
{
    if use_hnsw {
        CentroidSearch::Hnsw {
            num_neighbors: KMEANS_HNSW_M,
            ef_construction: KMEANS_HNSW_EF_CONSTRUCTION,
            ef_search: KMEANS_HNSW_EF_SEARCH,
        }
    } else {
        CentroidSearch::Flat
    }
}

/// Settings of a k-means run.
#[derive(Clone, Copy, Debug, PartialEq, Eq)]
pub struct KMeansBuilder {
    pub n_iter: usize,
    pub n_redo: usize,
    pub seed: Option<u64>,
    pub spherical: bool,
}

/// Build parameters of an inverted vector file.
#[derive(Clone, Copy, Debug)]
pub struct IVFBuildParams {
    pub n_clusters: usize,
    pub kmeans_n_iter: usize,
    pub kmeans_n_redo: usize,
    pub kmeans_seed: Option<u64>,
    pub kmeans_spherical: bool,
    /// Store residuals `v - c` rather than the vectors themselves.
    pub residual: bool,
}

/// What clustering produces, ready to be assembled into an index.
pub struct DenseBuildArtifacts<T> {
    /// The centroids.
    pub centroids: PlainDenseDataset<T>,
    /// The vectors in cluster order, or their residuals.
    pub reordered_dataset: PlainDenseDataset<T>,
    /// The start of each cluster, and the end of the last one.
    pub cluster_offsets: Vec<u32>,
    /// The identifier of the vector at each position.
    pub external_ids: Vec<u32>,
}

/// The cluster of each vector, out of assignments that also hold a distance.
pub open spec fn clusters_of<T>(assignments: Seq<(T, usize)>) -> Seq<usize> {
    assignments.map_values(|a: (T, usize)| a.1)
}

/// Whether `out` is what is stored for value `v` under centroid value `c`.
pub open spec fn stores<T, A: Arithmetic<T>>(ops: &A, residual: bool, v: T, c: T, out: T) -> bool {
    if residual {
        call_ensures(A::minus, (ops, v, c), out)
    } else {
        out == v
    }
}

/// Whether `reordered` holds the rows of `dataset` in the given order, each as
/// it is or less the centroid of its cluster.
pub open spec fn is_reordering<T, A: Arithmetic<T>>(
    ops: &A,
    reordered: PlainDenseDataset<T>,
    dataset: PlainDenseDataset<T>,
    centroids: PlainDenseDataset<T>,
    clusters: Seq<usize>,
    order: Seq<u32>,
    residual: bool,
) -> bool {
    &&& reordered.wf()
    &&& reordered.spec_len() == order.len()
    &&& reordered.spec_dim() == dataset.spec_dim()
    &&& forall|p: int, j: int|
        0 <= p < order.len() && 0 <= j < dataset.spec_dim() ==> stores(
            ops,
            residual,
            dataset.cell(order[p] as int, j),
            centroids.cell(clusters[order[p] as int] as int, j),
            #[trigger] reordered.cell(p, j),
        )
}

/// Whether `training` is what the centroids are trained on: the whole dataset,
/// or distinct rows of it where a sample smaller than the dataset was asked for.
pub open spec fn is_training_set<T>(
    training: PlainDenseDataset<T>,
    dataset: PlainDenseDataset<T>,
    sample_size: Option<usize>,
) -> bool {
    match sample_size {
        Some(size) => if size < dataset.spec_len() {
            exists|picked: Seq<usize>| #[trigger]
                is_sample(picked, dataset.spec_len(), size as nat) && training.is_selection(
                    dataset,
                    picked,
                ) && training.wf()
        } else {
            training == dataset
        },
        None => training == dataset,
    }
}

/// `size` distinct indices below `n`.
pub open spec fn is_sample(picked: Seq<usize>, n: nat, size: nat) -> bool {
    &&& picked.len() == size
    &&& picked.no_duplicates()
    &&& forall|i: int| 0 <= i < picked.len() ==> #[trigger] picked[i] < n
}

/// Draws `size` distinct indices below `n` at random.
///
/// Calls `rand::seq::index::sample` with a generator seeded by the operating
/// system. What it claims of the sample is its size, that its indices are
/// distinct and that each lies below `n`; which ones come is left to chance.
#[verifier::external_body]
fn sample_indices(n: usize, size: usize) -> (picked: Vec<usize>)
    requires
        size < n,
    ensures
        is_sample(picked@, n as nat, size as nat),
{
    let mut rng = <rand::rngs::StdRng as rand::SeedableRng>::from_entropy();
    rand::seq::index::sample(&mut rng, n, size).into_vec()
}

/// Trains centroids, with the centroid search that `use_hnsw` selects.
pub fn run_kmeans<T, F>(
    kmeans: &KMeansBuilder,
    dataset: &PlainDenseDataset<T>,
    n_clusters: usize,
    use_hnsw: bool,
    train: F,
) -> (centroids: PlainDenseDataset<T>) where
    F: FnOnce(&KMeansBuilder, &PlainDenseDataset<T>, usize, CentroidSearch) -> PlainDenseDataset<T>,

    requires
        call_requires(train, (kmeans, dataset, n_clusters, centroid_search_for(use_hnsw))),
    ensures
        call_ensures(train, (kmeans, dataset, n_clusters, centroid_search_for(use_hnsw)), centroids),
{
    train(kmeans, dataset, n_clusters, centroid_search(use_hnsw))
}

/// The rows of `dataset` in the given order, each less the centroid of its
/// cluster where residuals are asked for.
pub fn reorder<T: Copy, A: Arithmetic<T>>(
    ops: &A,
    dataset: &PlainDenseDataset<T>,
    centroids: &PlainDenseDataset<T>,
    clusters: &[usize],
    order: &[u32],
    residual: bool,
) -> (reordered: PlainDenseDataset<T>)
    requires
        dataset.wf(),
        order@.len() <= dataset.spec_len(),
        clusters@.len() == dataset.spec_len(),
        forall|p: int| 0 <= p < order@.len() ==> #[trigger] order@[p] < dataset.spec_len(),
        residual ==> centroids.wf() && centroids.spec_dim() == dataset.spec_dim(),
        residual ==> forall|i: int|
            0 <= i < clusters@.len() ==> #[trigger] clusters@[i] < centroids.spec_len(),
    ensures
        is_reordering(ops, reordered, *dataset, *centroids, clusters@, order@, residual),
{
    let dim: usize = dataset.input_dim();
    let mut values: Vec<T> = Vec::new();
    let mut p: usize = 0;
    while p < order.len()
        invariant
            dataset.wf(),
            dim == dataset.spec_dim(),
            p <= order@.len(),
            clusters@.len() == dataset.spec_len(),
            forall|q: int| 0 <= q < order@.len() ==> #[trigger] order@[q] < dataset.spec_len(),
            residual ==> centroids.wf() && centroids.spec_dim() == dataset.spec_dim(),
            residual ==> forall|i: int|
                0 <= i < clusters@.len() ==> #[trigger] clusters@[i] < centroids.spec_len(),
            values@.len() == p * dim,
            forall|q: int, m: int|
                0 <= q < p && 0 <= m < dim ==> stores(
                    ops,
                    residual,
                    dataset.cell(order@[q] as int, m),
                    centroids.cell(clusters@[order@[q] as int] as int, m),
                    #[trigger] values@[q * dim + m],
                ),
        decreases order.len() - p,
    {
        let orig: usize = order[p] as usize;
        assert(order@[p as int] < dataset.spec_len());
        let row = dataset.get(orig);
        let centroid: Option<&[T]> = if residual {
            Some(centroids.get(clusters[orig]))
        } else {
            None
        };
        let mut j: usize = 0;
        while j < dim
            invariant
                dataset.wf(),
                dim == dataset.spec_dim(),
                p < order@.len(),
                j <= dim,
                orig == order@[p as int],
                orig < dataset.spec_len(),
                row@ == dataset.row(orig as int),
                row@.len() == dim,
                residual ==> centroids.wf() && centroids.spec_dim() == dim,
                residual ==> clusters@[orig as int] < centroids.spec_len(),
                residual ==> centroid is Some && centroid->0@ == centroids.row(
                    clusters@[orig as int] as int,
                ) && centroid->0@.len() == dim,
                !residual ==> centroid is None,
                values@.len() == p * dim + j,
                forall|q: int, m: int|
                    (0 <= q < p && 0 <= m < dim) || (q == p && 0 <= m < j) ==> stores(
                        ops,
                        residual,
                        dataset.cell(order@[q] as int, m),
                        centroids.cell(clusters@[order@[q] as int] as int, m),
                        #[trigger] values@[q * dim + m],
                    ),
            decreases dim - j,
        {
            let out: T = match centroid {
                Some(c) => ops.minus(row[j], c[j]),
                None => row[j],
            };
            proof {
                crate::dense::lemma_cell(orig as int, j as int, dim as int, dataset.spec_len() as int);
                assert(row@[j as int] == dataset.cell(orig as int, j as int));
                if residual {
                    let c = clusters@[orig as int] as int;
                    crate::dense::lemma_cell(c, j as int, dim as int, centroids.spec_len() as int);
                    assert(centroid->0@[j as int] == centroids.cell(c, j as int));
                }
            }
            let ghost before = values@;
            values.push(out);
            proof {
                assert forall|q: int, m: int|
                    (0 <= q < p && 0 <= m < dim) || (q == p && 0 <= m < j + 1) implies stores(
                    ops,
                    residual,
                    dataset.cell(order@[q] as int, m),
                    centroids.cell(clusters@[order@[q] as int] as int, m),
                    #[trigger] values@[q * dim + m],
                ) by {
                    if q < p {
                        crate::dense::lemma_cell(q, m, dim as int, p as int);
                        assert(values@[q * dim + m] == before[q * dim + m]);
                    } else if m < j {
                        assert(0 <= q * dim) by (nonlinear_arith)
                            requires
                                0 <= q,
                                0 <= dim,
                        ;
                        assert(values@[q * dim + m] == before[q * dim + m]);
                    }
                }
            }
            j = j + 1;
        }
        proof {
            crate::dense::lemma_row(p as int, dim as int, order@.len() as int);
        }
        p = p + 1;
    }
    PlainDenseDataset::from_raw(values, order.len(), dim)
}

/// The cluster of each vector.
fn assigned_clusters<T>(assignments: &Vec<(T, usize)>) -> (clusters: Vec<usize>)
    ensures
        clusters@ == clusters_of(assignments@),
{
    let mut clusters: Vec<usize> = Vec::new();
    let mut i: usize = 0;
    while i < assignments.len()
        invariant
            i <= assignments@.len(),
            clusters@.len() == i,
            forall|k: int| 0 <= k < i ==> #[trigger] clusters@[k] == assignments@[k].1,
        decreases assignments.len() - i,
    {
        clusters.push(assignments[i].1);
        i = i + 1;
    }
    assert(clusters@ =~= clusters_of(assignments@));
    clusters
}

/// Whether `artifacts` come from training on `training` and assigning every
/// vector of `dataset`.
pub open spec fn prepared<T, A, F, G>(
    artifacts: DenseBuildArtifacts<T>,
    dataset: &PlainDenseDataset<T>,
    training: &PlainDenseDataset<T>,
    n_clusters: usize,
    kmeans: &KMeansBuilder,
    with_residuals: bool,
    search: CentroidSearch,
    ops: &A,
    train: F,
    assign: G,
) -> bool where
    A: Arithmetic<T>,
    F: FnOnce(&KMeansBuilder, &PlainDenseDataset<T>, usize, CentroidSearch) -> PlainDenseDataset<T>,
    G: FnOnce(&PlainDenseDataset<T>, &PlainDenseDataset<T>, CentroidSearch) -> Vec<(T, usize)>,
 {
    &&& call_ensures(train, (kmeans, training, n_clusters, search), artifacts.centroids)
    &&& exists|assignments: Vec<(T, usize)>|
        {
            &&& #[trigger] call_ensures(assign, (dataset, &artifacts.centroids, search), assignments)
            &&& grouped_by(artifacts, dataset, n_clusters, with_residuals, ops, clusters_of(assignments@))
        }
}

/// Whether `artifacts` hold `dataset` grouped by the given clusters.
pub open spec fn grouped_by<T, A: Arithmetic<T>>(
    artifacts: DenseBuildArtifacts<T>,
    dataset: &PlainDenseDataset<T>,
    n_clusters: usize,
    with_residuals: bool,
    ops: &A,
    clusters: Seq<usize>,
) -> bool {
    &&& clusters.len() == dataset.spec_len()
    &&& forall|i: int| 0 <= i < clusters.len() ==> #[trigger] clusters[i] < n_clusters
    &&& crate::grouping::are_cluster_offsets(
        clusters,
        n_clusters as nat,
        artifacts.cluster_offsets@,
    )
    &&& crate::grouping::is_cluster_order(clusters, artifacts.external_ids@)
    &&& is_reordering(
        ops,
        artifacts.reordered_dataset,
        *dataset,
        artifacts.centroids,
        clusters,
        artifacts.external_ids@,
        with_residuals,
    )
}

/// Whether clustering `dataset` after training on `training` can be carried out:
/// training accepts what it is given, every vector is assigned to one of the
/// `n_clusters` clusters, and centroids have the shape that residuals need.
pub open spec fn can_cluster<T, F, G>(
    dataset: &PlainDenseDataset<T>,
    training: &PlainDenseDataset<T>,
    n_clusters: usize,
    kmeans: &KMeansBuilder,
    with_residuals: bool,
    search: CentroidSearch,
    train: F,
    assign: G,
) -> bool where
    F: FnOnce(&KMeansBuilder, &PlainDenseDataset<T>, usize, CentroidSearch) -> PlainDenseDataset<T>,
    G: FnOnce(&PlainDenseDataset<T>, &PlainDenseDataset<T>, CentroidSearch) -> Vec<(T, usize)>,
 {
    &&& call_requires(train, (kmeans, training, n_clusters, search))
    &&& forall|centroids: PlainDenseDataset<T>| #[trigger]
        call_ensures(train, (kmeans, training, n_clusters, search), centroids) ==> {
            &&& call_requires(assign, (dataset, &centroids, search))
            &&& with_residuals ==> centroids.holds_clusters(n_clusters, dataset.spec_dim())
        }
    &&& forall|centroids: PlainDenseDataset<T>, assignments: Vec<(T, usize)>|
        call_ensures(train, (kmeans, training, n_clusters, search), centroids) && #[trigger] call_ensures(
            assign,
            (dataset, &centroids, search),
            assignments,
        ) ==> {
            &&& assignments@.len() == dataset.spec_len()
            &&& forall|i: int|
                0 <= i < assignments@.len() ==> (#[trigger] assignments@[i]).1 < n_clusters
        }
}

impl<T> PlainDenseDataset<T> {
    /// Whether `self` has a row of `dim` values for each of `n_clusters` clusters.
    pub open spec fn holds_clusters(self, n_clusters: usize, dim: nat) -> bool {
        &&& self.wf()
        &&& self.spec_dim() == dim
        &&& self.spec_len() >= n_clusters
    }
}

/// Trains centroids on `training`, assigns every vector of `dataset` to one of
/// them, and puts the vectors in cluster order.
pub fn prepare_from_training<T, A, F, G>(
    dataset: &PlainDenseDataset<T>,
    training: &PlainDenseDataset<T>,
    n_clusters: usize,
    kmeans: &KMeansBuilder,
    with_residuals: bool,
    kmeans_hnsw: bool,
    ops: &A,
    train: F,
    assign: G,
) -> (artifacts: DenseBuildArtifacts<T>) where
    T: Copy,
    A: Arithmetic<T>,
    F: FnOnce(&KMeansBuilder, &PlainDenseDataset<T>, usize, CentroidSearch) -> PlainDenseDataset<T>,
    G: FnOnce(&PlainDenseDataset<T>, &PlainDenseDataset<T>, CentroidSearch) -> Vec<(T, usize)>,

    requires
        dataset.wf(),
        dataset.spec_len() <= u32::MAX,
        n_clusters < usize::MAX,
        can_cluster(
            dataset,
            training,
            n_clusters,
            kmeans,
            with_residuals,
            centroid_search_for(kmeans_hnsw),
            train,
            assign,
        ),
    ensures
        prepared(
            artifacts,
            dataset,
            training,
            n_clusters,
            kmeans,
            with_residuals,
            centroid_search_for(kmeans_hnsw),
            ops,
            train,
            assign,
        ),
{
    let centroids = run_kmeans(kmeans, training, n_clusters, kmeans_hnsw, train);
    let assignments: Vec<(T, usize)> = assign(dataset, &centroids, centroid_search(kmeans_hnsw));
    let clusters: Vec<usize> = assigned_clusters(&assignments);
    assert forall|i: int| 0 <= i < clusters@.len() implies #[trigger] clusters@[i] < n_clusters by {
        assert(assignments@[i].1 < n_clusters);
    }
    let cluster_offsets: Vec<u32> = cluster_offsets(clusters.as_slice(), n_clusters);
    let external_ids: Vec<u32> = cluster_order(
        clusters.as_slice(),
        n_clusters,
        cluster_offsets.as_slice(),
    );
    let reordered_dataset = reorder(
        ops,
        dataset,
        &centroids,
        clusters.as_slice(),
        external_ids.as_slice(),
        with_residuals,
    );
    let artifacts = DenseBuildArtifacts {
        centroids,
        reordered_dataset,
        cluster_offsets,
        external_ids,
    };
    assert(grouped_by(
        artifacts,
        dataset,
        n_clusters,
        with_residuals,
        ops,
        clusters_of(assignments@),
    ));
    artifacts
}

/// Clusters `dataset` and puts its vectors in cluster order, or their residuals
/// where `with_residuals` is set.
///
/// Where `sample_size` is smaller than the dataset, centroids are trained on that
/// many vectors drawn without replacement; assignment always covers them all.
pub fn prepare_dense_ivf<T, A, F, G>(
    dataset: &PlainDenseDataset<T>,
    n_clusters: usize,
    kmeans: &KMeansBuilder,
    with_residuals: bool,
    sample_size: Option<usize>,
    kmeans_hnsw: bool,
    ops: &A,
    train: F,
    assign: G,
) -> (artifacts: DenseBuildArtifacts<T>) where
    T: Copy,
    A: Arithmetic<T>,
    F: FnOnce(&KMeansBuilder, &PlainDenseDataset<T>, usize, CentroidSearch) -> PlainDenseDataset<T>,
    G: FnOnce(&PlainDenseDataset<T>, &PlainDenseDataset<T>, CentroidSearch) -> Vec<(T, usize)>,

    requires
        dataset.wf(),
        dataset.spec_len() <= u32::MAX,
        n_clusters < usize::MAX,
        forall|training: PlainDenseDataset<T>|
            is_training_set(training, *dataset, sample_size) ==> #[trigger] can_cluster(
                dataset,
                &training,
                n_clusters,
                kmeans,
                with_residuals,
                centroid_search_for(kmeans_hnsw),
                train,
                assign,
            ),
    ensures
        exists|training: PlainDenseDataset<T>|
            is_training_set(training, *dataset, sample_size) && #[trigger] prepared(
                artifacts,
                dataset,
                &training,
                n_clusters,
                kmeans,
                with_residuals,
                centroid_search_for(kmeans_hnsw),
                ops,
                train,
                assign,
            ),
{
    let n: usize = dataset.len();
    match sample_size {
        Some(size) if size < n => {
            let picked: Vec<usize> = sample_indices(n, size);
            let training = dataset.select(picked.as_slice());
            assert(is_sample(picked@, dataset.spec_len(), size as nat));
            assert(is_training_set(training, *dataset, sample_size));
            prepare_from_training(
                dataset,
                &training,
                n_clusters,
                kmeans,
                with_residuals,
                kmeans_hnsw,
                ops,
                train,
                assign,
            )
        },
        _ => {
            assert(is_training_set(*dataset, *dataset, sample_size));
            prepare_from_training(
                dataset,
                dataset,
                n_clusters,
                kmeans,
                with_residuals,
                kmeans_hnsw,
                ops,
                train,
                assign,
            )
        },
    }
}

/// Clusters `input` as `p` says, on the whole dataset.
pub fn prepare_ivf<T, A, F, G>(
    input: &PlainDenseDataset<T>,
    p: &IVFBuildParams,
    ops: &A,
    train: F,
    assign: G,
) -> (artifacts: DenseBuildArtifacts<T>) where
    T: Copy,
    A: Arithmetic<T>,
    F: FnOnce(&KMeansBuilder, &PlainDenseDataset<T>, usize, CentroidSearch) -> PlainDenseDataset<T>,
    G: FnOnce(&PlainDenseDataset<T>, &PlainDenseDataset<T>, CentroidSearch) -> Vec<(T, usize)>,

    requires
        input.wf(),
        input.spec_len() <= u32::MAX,
        p.n_clusters < usize::MAX,
        can_cluster(
            input,
            input,
            p.n_clusters,
            &p.kmeans_spec(),
            p.residual,
            centroid_search_for(p.n_clusters >= KMEANS_HNSW_THRESHOLD),
            train,
            assign,
        ),
    ensures
        prepared(
            artifacts,
            input,
            input,
            p.n_clusters,
            &p.kmeans_spec(),
            p.residual,
            centroid_search_for(p.n_clusters >= KMEANS_HNSW_THRESHOLD),
            ops,
            train,
            assign,
        ),
{
    let kmeans = p.kmeans();
    prepare_dense_ivf(
        input,
        p.n_clusters,
        &kmeans,
        p.residual,
        None,
        p.n_clusters >= KMEANS_HNSW_THRESHOLD,
        ops,
        train,
        assign,
    )
}

impl IVFBuildParams {
    pub open spec fn kmeans_spec(self) -> KMeansBuilder {
        KMeansBuilder {
            n_iter: self.kmeans_n_iter,
            n_redo: self.kmeans_n_redo,
            seed: self.kmeans_seed,
            spherical: self.kmeans_spherical,
        }
    }

    /// The k-means settings among these parameters.
    pub fn kmeans(&self) -> (kmeans: KMeansBuilder)
        ensures
            kmeans == self.kmeans_spec(),
    {
        KMeansBuilder {
            n_iter: self.kmeans_n_iter,
            n_redo: self.kmeans_n_redo,
            seed: self.kmeans_seed,
            spherical: self.kmeans_spherical,
        }
    }
}

/// The vectors in cluster order with every value converted by `narrow`.
pub fn plain_dp_cluster<T: Copy, V, F: Fn(T) -> V>(
    artifacts: &DenseBuildArtifacts<T>,
    narrow: &F,
) -> (cluster: PlainDenseDataset<V>)
    requires
        artifacts.reordered_dataset.wf(),
        crate::dense::can_convert(*narrow, artifacts.reordered_dataset.spec_values()),
    ensures
        cluster.wf(),
        cluster.spec_len() == artifacts.reordered_dataset.spec_len(),
        cluster.spec_dim() == artifacts.reordered_dataset.spec_dim(),
        crate::dense::converts(
            *narrow,
            artifacts.reordered_dataset.spec_values(),
            cluster.spec_values(),
        ),
{
    artifacts.reordered_dataset.convert(narrow)
}

/// The vectors in cluster order, encoded by `convert`.
pub fn pq_dp_cluster<T, D, F: FnOnce(&PlainDenseDataset<T>) -> D>(
    artifacts: &DenseBuildArtifacts<T>,
    convert: F,
) -> (cluster: D)
    requires
        call_requires(convert, (&artifacts.reordered_dataset,)),
    ensures
        call_ensures(convert, (&artifacts.reordered_dataset,), cluster),
{
    convert(&artifacts.reordered_dataset)
}

/// Whether `out` is the part of a correction that stored value `w` under centroid
/// value `c` adds: `w * w`, and `2 * c * w` more where residuals are stored.
pub open spec fn correction_part<T, A: Arithmetic<T>>(
    ops: &A,
    c: T,
    w: T,
    residual: bool,
    out: T,
) -> bool {
    exists|square: T, cross: T| #[trigger]
        call_ensures(A::plus, (ops, square, cross), out) && call_ensures(A::times, (ops, w, w), square)
            && cross_part(ops, c, w, residual, cross)
}

pub open spec fn cross_part<T, A: Arithmetic<T>>(ops: &A, c: T, w: T, residual: bool, out: T) -> bool {
    if residual {
        exists|doubled: T| #[trigger]
            call_ensures(A::twice, (ops, c), doubled) && call_ensures(A::times, (ops, doubled, w), out)
    } else {
        call_ensures(A::zero, (ops,), out)
    }
}

/// Whether `out` is the correction of stored vector `w` under centroid `c`: the
/// sum of its parts, from 0 upward.
pub open spec fn corrects<T, A: Arithmetic<T>>(
    ops: &A,
    c: Seq<T>,
    w: Seq<T>,
    residual: bool,
    out: T,
) -> bool {
    let n = if c.len() < w.len() {
        c.len()
    } else {
        w.len()
    };
    exists|sums: Seq<T>|
        {
            &&& sums.len() == n + 1
            &&& call_ensures(A::zero, (ops,), sums[0])
            &&& forall|j: int|
                0 <= j < n ==> #[trigger] adds_part(ops, c[j], w[j], residual, sums[j], sums[j + 1])
            &&& out == #[trigger] sums.last()
        }
}

pub open spec fn adds_part<T, A: Arithmetic<T>>(
    ops: &A,
    c: T,
    w: T,
    residual: bool,
    sum: T,
    next: T,
) -> bool {
    exists|part: T| #[trigger]
        call_ensures(A::plus, (ops, sum, part), next) && correction_part(ops, c, w, residual, part)
}

/// The correction of stored vector `w` under centroid `c`.
pub fn correction_term<T: Copy, A: Arithmetic<T>>(ops: &A, c: &[T], w: &[T], residual: bool) -> (out: T)
    ensures
        corrects(ops, c@, w@, residual, out),
{
    let n: usize = if c.len() < w.len() {
        c.len()
    } else {
        w.len()
    };
    let mut sum: T = ops.zero();
    let ghost mut sums: Seq<T> = seq![sum];
    let mut j: usize = 0;
    while j < n
        invariant
            j <= n <= c@.len(),
            n <= w@.len(),
            sums.len() == j + 1,
            sums.last() == sum,
            call_ensures(A::zero, (ops,), sums[0]),
            forall|k: int|
                0 <= k < j ==> #[trigger] adds_part(ops, c@[k], w@[k], residual, sums[k], sums[k + 1]),
        decreases n - j,
    {
        let square: T = ops.times(w[j], w[j]);
        let cross: T = if residual {
            let doubled = ops.twice(c[j]);
            ops.times(doubled, w[j])
        } else {
            ops.zero()
        };
        let part: T = ops.plus(square, cross);
        assert(cross_part(ops, c@[j as int], w@[j as int], residual, cross));
        assert(correction_part(ops, c@[j as int], w@[j as int], residual, part));
        let next: T = ops.plus(sum, part);
        proof {
            let longer = sums.push(next);
            assert(adds_part(ops, c@[j as int], w@[j as int], residual, longer[j as int], longer[j + 1]));
            assert forall|k: int| 0 <= k < j + 1 implies #[trigger] adds_part(
                ops,
                c@[k],
                w@[k],
                residual,
                longer[k],
                longer[k + 1],
            ) by {
                if k < j {
                    assert(adds_part(ops, c@[k], w@[k], residual, sums[k], sums[k + 1]));
                }
            }
            sums = longer;
        }
        sum = next;
        j = j + 1;
    }
    assert(sums.last() == sum);
    sum
}

/// Whether `term` is the correction of the vector stored at `pos` of cluster `c`.
pub open spec fn is_correction_at<D, T, A, W>(
    ops: &A,
    cluster: &D,
    decode: W,
    centroids: Seq<T>,
    dim: nat,
    residual: bool,
    c: int,
    pos: int,
    term: T,
) -> bool where A: Arithmetic<T>, W: Fn(&D, usize) -> Vec<T> {
    exists|w: Vec<T>| #[trigger]
        call_ensures(decode, (cluster, pos as usize), w) && corrects(
            ops,
            centroids.subrange(c * dim, c * dim + dim),
            w@,
            residual,
            term,
        )
}

/// Whether `terms` holds `len` entries: the correction of every vector of every
/// cluster, and 0 at positions outside the clusters.
pub open spec fn are_corrections<D, T, A, W>(
    ops: &A,
    cluster: &D,
    decode: W,
    centroids: Seq<T>,
    dim: nat,
    offsets: Seq<u32>,
    residual: bool,
    len: nat,
    terms: Seq<T>,
) -> bool where A: Arithmetic<T>, W: Fn(&D, usize) -> Vec<T> {
    &&& terms.len() == len
    &&& forall|pos: int|
        (0 <= pos < offsets[0] || offsets.last() <= pos < len) ==> call_ensures(
            A::zero,
            (ops,),
            #[trigger] terms[pos],
        )
    &&& forall|c: int, pos: int|
        0 <= c < offsets.len() - 1 && offsets[c] <= pos < #[trigger] offsets[c + 1]
            ==> is_correction_at(ops, cluster, decode, centroids, dim, residual, c, pos, #[trigger] terms[pos])
}

/// The correction of each of the `len` stored vectors, from the vector as `decode`
/// rebuilds it from the cluster storage and from the centroid of its cluster.
pub fn l2_correction<D, T, A, W>(
    cluster: &D,
    len: usize,
    dim: usize,
    centroids: &[T],
    offsets: &[u32],
    residual: bool,
    ops: &A,
    decode: &W,
) -> (terms: Vec<T>) where T: Copy, A: Arithmetic<T>, W: Fn(&D, usize) -> Vec<T>
    requires
        offsets@.len() > 0,
        crate::ivf::ranges_up_to(offsets@, offsets@.last() as nat),
        offsets@.last() <= len,
        (offsets@.len() - 1) * dim <= centroids@.len(),
        forall|pos: usize|
            pos < offsets@.last() ==> #[trigger] call_requires(*decode, (cluster, pos)),
    ensures
        are_corrections(
            ops,
            cluster,
            *decode,
            centroids@,
            dim as nat,
            offsets@,
            residual,
            len as nat,
            terms@,
        ),
{
    let n_clusters: usize = offsets.len() - 1;
    let mut terms: Vec<T> = Vec::new();
    let first: usize = offsets[0] as usize;
    while terms.len() < first
        invariant
            terms@.len() <= first,
            forall|k: int| 0 <= k < terms@.len() ==> call_ensures(A::zero, (ops,), #[trigger] terms@[k]),
        decreases first - terms.len(),
    {
        terms.push(ops.zero());
    }
    let mut c: usize = 0;
    while c < n_clusters
        invariant
            c <= n_clusters,
            n_clusters == offsets@.len() - 1,
            first == offsets@[0],
            crate::ivf::ranges_up_to(offsets@, offsets@.last() as nat),
            n_clusters * dim <= centroids@.len(),
            forall|pos: usize|
                pos < offsets@.last() ==> #[trigger] call_requires(*decode, (cluster, pos)),
            terms@.len() == offsets@[c as int],
            forall|k: int| 0 <= k < first ==> call_ensures(A::zero, (ops,), #[trigger] terms@[k]),
            forall|d: int, pos: int|
                0 <= d < c && offsets@[d] <= pos < #[trigger] offsets@[d + 1] ==> is_correction_at(
                    ops,
                    cluster,
                    *decode,
                    centroids@,
                    dim as nat,
                    residual,
                    d,
                    pos,
                    #[trigger] terms@[pos],
                ),
        decreases n_clusters - c,
    {
        proof {
            crate::dense::lemma_row(c as int, dim as int, n_clusters as int);
            assert(centroids@.len() == centroids.len());
            assert(offsets@[c as int] <= offsets@[c + 1]);
        }
        let start: usize = c * dim;
        let centroid = vstd::slice::slice_subrange(centroids, start, start + dim);
        let end: usize = offsets[c + 1] as usize;
        while terms.len() < end
            invariant
                c < n_clusters,
                n_clusters == offsets@.len() - 1,
                end == offsets@[c + 1],
                first == offsets@[0],
                crate::ivf::ranges_up_to(offsets@, offsets@.last() as nat),
                centroid@ == centroids@.subrange(c * dim, c * dim + dim),
                forall|pos: usize|
                    pos < offsets@.last() ==> #[trigger] call_requires(*decode, (cluster, pos)),
                offsets@[c as int] <= terms@.len() <= end,
                forall|k: int| 0 <= k < first ==> call_ensures(A::zero, (ops,), #[trigger] terms@[k]),
                forall|d: int, pos: int|
                    0 <= d <= c && offsets@[d] <= pos < #[trigger] offsets@[d + 1] && pos < terms@.len()
                        ==> is_correction_at(
                        ops,
                        cluster,
                        *decode,
                        centroids@,
                        dim as nat,
                        residual,
                        d,
                        pos,
                        #[trigger] terms@[pos],
                    ),
            decreases end - terms.len(),
        {
            let pos: usize = terms.len();
            proof {
                assert(offsets@[0] <= offsets@[c as int]);
                assert(offsets@[c + 1] <= offsets@[offsets@.len() - 1]);
                assert(call_requires(*decode, (cluster, pos)));
            }
            let w: Vec<T> = decode(cluster, pos);
            let term: T = correction_term(ops, centroid, w.as_slice(), residual);
            let ghost before = terms@;
            terms.push(term);
            proof {
                assert forall|d: int, p: int|
                    0 <= d <= c && offsets@[d] <= p < #[trigger] offsets@[d + 1] && p < terms@.len()
                    implies is_correction_at(
                    ops,
                    cluster,
                    *decode,
                    centroids@,
                    dim as nat,
                    residual,
                    d,
                    p,
                    #[trigger] terms@[p],
                ) by {
                    if p < before.len() {
                        assert(terms@[p] == before[p]);
                    } else if d < c {
                        assert(offsets@[d + 1] <= offsets@[c as int]);
                    } else {
                        assert(call_ensures(*decode, (cluster, pos), w));
                    }
                }
            }
        }
        c = c + 1;
    }
    let ghost covered = terms@;
    while terms.len() < len
        invariant
            offsets@.last() <= terms@.len() <= len,
            covered.len() == offsets@.last(),
            forall|k: int| 0 <= k < covered.len() ==> #[trigger] terms@[k] == covered[k],
            forall|k: int|
                covered.len() <= k < terms@.len() ==> call_ensures(A::zero, (ops,), #[trigger] terms@[k]),
        decreases len - terms.len(),
    {
        terms.push(ops.zero());
    }
    proof {
        assert forall|d: int, pos: int|
            0 <= d < offsets@.len() - 1 && offsets@[d] <= pos < #[trigger] offsets@[d + 1]
            implies is_correction_at(
            ops,
            cluster,
            *decode,
            centroids@,
            dim as nat,
            residual,
            d,
            pos,
            #[trigger] terms@[pos],
        ) by {
            assert(offsets@[d + 1] <= offsets@[offsets@.len() - 1]);
            assert(terms@[pos] == covered[pos]);
        }
    }
    terms
}

impl<T> DenseBuildArtifacts<T> {
    /// Ranges that cover every position, and a centroid for each of them.
    pub open spec fn wf(self) -> bool {
        &&& crate::ivf::ranges_up_to(self.cluster_offsets@, self.external_ids@.len())
        &&& self.reordered_dataset.wf()
        &&& self.reordered_dataset.spec_len() == self.external_ids@.len()
    }
}

/// Whether `index` is put together from `artifacts` and the encoded `cluster`.
pub open spec fn assembled<D, CI, T, A, W, H>(
    index: IVF<D, CI, T>,
    metric: ReportedMetric,
    artifacts: DenseBuildArtifacts<T>,
    cluster: D,
    residual: bool,
    ops: &A,
    decode: W,
    centroid_index_builder: H,
) -> bool where
    A: Arithmetic<T>,
    W: Fn(&D, usize) -> Vec<T>,
    H: FnOnce(PlainDenseDataset<T>) -> CI,
 {
    &&& index.wf()
    &&& index.metric() == metric
    &&& call_ensures(centroid_index_builder, (artifacts.centroids,), index.centroids())
    &&& index.vectors() == cluster
    &&& index.offsets() == artifacts.cluster_offsets@
    &&& index.ids() == artifacts.external_ids@
    &&& index.residuals() == residual
    &&& metric.corrects() ==> index.corrections() is Some && are_corrections(
        ops,
        &cluster,
        decode,
        artifacts.centroids.spec_values(),
        artifacts.reordered_dataset.spec_dim(),
        artifacts.cluster_offsets@,
        residual,
        artifacts.external_ids@.len(),
        index.corrections()->0,
    )
    &&& !metric.corrects() ==> index.corrections() is None
}

/// An index that reports squared Euclidean distances, with a correction for each
/// stored vector.
pub fn assemble_l2<D, CI, T, A, W, H>(
    artifacts: DenseBuildArtifacts<T>,
    cluster: D,
    centroid_index_builder: H,
    residual: bool,
    ops: &A,
    decode: &W,
) -> (index: IVF<D, CI, T>) where
    T: Copy,
    A: Arithmetic<T>,
    W: Fn(&D, usize) -> Vec<T>,
    H: FnOnce(PlainDenseDataset<T>) -> CI,

    requires
        artifacts.wf(),
        artifacts.centroids.holds_clusters(
            (artifacts.cluster_offsets@.len() - 1) as usize,
            artifacts.reordered_dataset.spec_dim(),
        ),
        forall|pos: usize|
            pos < artifacts.external_ids@.len() ==> #[trigger] call_requires(*decode, (&cluster, pos)),
        call_requires(centroid_index_builder, (artifacts.centroids,)),
    ensures
        assembled(
            index,
            ReportedMetric::SquaredEuclidean,
            artifacts,
            cluster,
            residual,
            ops,
            *decode,
            centroid_index_builder,
        ),
{
    let dim: usize = artifacts.reordered_dataset.input_dim();
    proof {
        let n_clusters = artifacts.cluster_offsets.len() - 1;
        assert(n_clusters * dim <= artifacts.centroids.spec_len() * dim) by (nonlinear_arith)
            requires
                n_clusters <= artifacts.centroids.spec_len(),
        ;
    }
    let terms: Vec<T> = l2_correction(
        &cluster,
        artifacts.external_ids.len(),
        dim,
        artifacts.centroids.values().as_slice(),
        artifacts.cluster_offsets.as_slice(),
        residual,
        ops,
        decode,
    );
    let centroid_index: CI = centroid_index_builder(artifacts.centroids);
    IVF::from_parts(
        ReportedMetric::SquaredEuclidean,
        centroid_index,
        cluster,
        artifacts.cluster_offsets,
        artifacts.external_ids,
        Some(terms),
        residual,
    )
}

/// An index that reports dot products, without corrections.
pub fn assemble_ip<D, CI, T, H>(
    artifacts: DenseBuildArtifacts<T>,
    cluster: D,
    centroid_index_builder: H,
    residual: bool,
) -> (index: IVF<D, CI, T>) where H: FnOnce(PlainDenseDataset<T>) -> CI
    requires
        artifacts.wf(),
        call_requires(centroid_index_builder, (artifacts.centroids,)),
    ensures
        index.wf(),
        index.metric() == ReportedMetric::DotProduct,
        call_ensures(centroid_index_builder, (artifacts.centroids,), index.centroids()),
        index.vectors() == cluster,
        index.offsets() == artifacts.cluster_offsets@,
        index.ids() == artifacts.external_ids@,
        index.corrections() is None,
        index.residuals() == residual,
{
    let centroid_index: CI = centroid_index_builder(artifacts.centroids);
    IVF::from_parts(
        ReportedMetric::DotProduct,
        centroid_index,
        cluster,
        artifacts.cluster_offsets,
        artifacts.external_ids,
        None,
        residual,
    )
}

/// Artifacts grouped by cluster are well-formed.
pub proof fn law_grouped_artifacts_are_wf<T, A: Arithmetic<T>>(
    artifacts: DenseBuildArtifacts<T>,
    dataset: &PlainDenseDataset<T>,
    n_clusters: usize,
    with_residuals: bool,
    ops: &A,
    clusters: Seq<usize>,
)
    requires
        grouped_by(artifacts, dataset, n_clusters, with_residuals, ops, clusters),
    ensures
        artifacts.wf(),
        artifacts.cluster_offsets@.len() == n_clusters + 1,
        artifacts.external_ids@.len() == dataset.spec_len(),
        artifacts.reordered_dataset.spec_dim() == dataset.spec_dim(),
{
    crate::grouping::law_offsets_are_ranges(clusters, n_clusters as nat, artifacts.cluster_offsets@);
}

/// A built index holds every vector of the dataset exactly once: its identifiers are
/// the numbers below the size of the dataset, none of them twice, and its clusters
/// start at position 0.
pub proof fn law_built_index_is_complete<D, CI, T, A: Arithmetic<T>>(
    index: IVF<D, CI, T>,
    artifacts: DenseBuildArtifacts<T>,
    dataset: &PlainDenseDataset<T>,
    n_clusters: usize,
    with_residuals: bool,
    ops: &A,
    clusters: Seq<usize>,
)
    requires
        grouped_by(artifacts, dataset, n_clusters, with_residuals, ops, clusters),
        index.offsets() == artifacts.cluster_offsets@,
        index.ids() == artifacts.external_ids@,
    ensures
        index.offsets()[0] == 0,
        index.offsets().len() == n_clusters + 1,
        index.ids().len() == dataset.spec_len(),
        index.ids().no_duplicates(),
        forall|i: u32| i < dataset.spec_len() <==> #[trigger] index.ids().contains(i),
{
    crate::grouping::law_offsets_are_ranges(clusters, n_clusters as nat, artifacts.cluster_offsets@);
    crate::grouping::law_cluster_order_is_permutation(clusters, artifacts.external_ids@);
}

/// Whether an index can be assembled from `artifacts`: they can be encoded, the encoded
/// vectors decoded where the metric corrects for them, and the centroids indexed.
pub open spec fn can_assemble<D, CI, T, E, W, H>(
    metric: ReportedMetric,
    artifacts: DenseBuildArtifacts<T>,
    encode: E,
    decode: W,
    centroid_index_builder: H,
) -> bool where
    E: FnOnce(&DenseBuildArtifacts<T>) -> D,
    W: Fn(&D, usize) -> Vec<T>,
    H: FnOnce(PlainDenseDataset<T>) -> CI,
 {
    &&& call_requires(encode, (&artifacts,))
    &&& metric.corrects() ==> forall|cluster: D, pos: usize|
        call_ensures(encode, (&artifacts,), cluster) && pos < artifacts.external_ids@.len()
            ==> #[trigger] call_requires(decode, (&cluster, pos))
    &&& call_requires(centroid_index_builder, (artifacts.centroids,))
}

impl<D, CI, T: Copy> IVF<D, CI, T> {
    /// Builds an index in three steps: clusters the dataset, encodes the vectors of
    /// the clusters with `encode`, and assembles the index for the metric. `decode`
    /// rebuilds a stored vector, `centroid_index_builder` indexes the centroids.
    pub fn build_index<A, F, G, E, W, H>(
        metric: ReportedMetric,
        dataset: &PlainDenseDataset<T>,
        p: &IVFBuildParams,
        ops: &A,
        train: F,
        assign: G,
        encode: E,
        decode: &W,
        centroid_index_builder: H,
    ) -> (index: IVF<D, CI, T>) where
        A: Arithmetic<T>,
        F: FnOnce(&KMeansBuilder, &PlainDenseDataset<T>, usize, CentroidSearch) -> PlainDenseDataset<T>,
        G: FnOnce(&PlainDenseDataset<T>, &PlainDenseDataset<T>, CentroidSearch) -> Vec<(T, usize)>,
        E: FnOnce(&DenseBuildArtifacts<T>) -> D,
        W: Fn(&D, usize) -> Vec<T>,
        H: FnOnce(PlainDenseDataset<T>) -> CI,

        requires
            dataset.wf(),
            dataset.spec_len() <= u32::MAX,
            p.n_clusters < usize::MAX,
            can_cluster(
                dataset,
                dataset,
                p.n_clusters,
                &p.kmeans_spec(),
                p.residual || metric.corrects(),
                centroid_search_for(p.n_clusters >= KMEANS_HNSW_THRESHOLD),
                train,
                assign,
            ),
            forall|artifacts: DenseBuildArtifacts<T>|
                prepared(
                    artifacts,
                    dataset,
                    dataset,
                    p.n_clusters,
                    &p.kmeans_spec(),
                    p.residual,
                    centroid_search_for(p.n_clusters >= KMEANS_HNSW_THRESHOLD),
                    ops,
                    train,
                    assign,
                ) ==> #[trigger] can_assemble(metric, artifacts, encode, *decode, centroid_index_builder),
        ensures
            exists|artifacts: DenseBuildArtifacts<T>, cluster: D|
                {
                    &&& prepared(
                        artifacts,
                        dataset,
                        dataset,
                        p.n_clusters,
                        &p.kmeans_spec(),
                        p.residual,
                        centroid_search_for(p.n_clusters >= KMEANS_HNSW_THRESHOLD),
                        ops,
                        train,
                        assign,
                    )
                    &&& #[trigger] call_ensures(encode, (&artifacts,), cluster)
                    &&& assembled(
                        index,
                        metric,
                        artifacts,
                        cluster,
                        p.residual,
                        ops,
                        *decode,
                        centroid_index_builder,
                    )
                },
    {
        let artifacts = prepare_ivf(dataset, p, ops, train, assign);
        proof {
            let search = centroid_search_for(p.n_clusters >= KMEANS_HNSW_THRESHOLD);
            let assignments = choose|assignments: Vec<(T, usize)>|
                {
                    &&& #[trigger] call_ensures(assign, (dataset, &artifacts.centroids, search), assignments)
                    &&& grouped_by(
                        artifacts,
                        dataset,
                        p.n_clusters,
                        p.residual,
                        ops,
                        clusters_of(assignments@),
                    )
                };
            law_grouped_artifacts_are_wf(
                artifacts,
                dataset,
                p.n_clusters,
                p.residual,
                ops,
                clusters_of(assignments@),
            );
        }
        assert(can_assemble(metric, artifacts, encode, *decode, centroid_index_builder));
        let cluster: D = encode(&artifacts);
        assert(call_ensures(encode, (&artifacts,), cluster));
        match metric {
            ReportedMetric::SquaredEuclidean => assemble_l2(
                artifacts,
                cluster,
                centroid_index_builder,
                p.residual,
                ops,
                decode,
            ),
            ReportedMetric::DotProduct => assemble_ip(
                artifacts,
                cluster,
                centroid_index_builder,
                p.residual,
            ),
        }
    }
}

} // verus!
