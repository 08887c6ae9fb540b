//! What an inverted vector file is built from: settings, training vectors, clusters,
//! stored values and corrections.

use crate::arithmetic::Arithmetic;
use crate::dense::PlainDenseDataset;
use crate::grouping::{
    are_cluster_offsets, cluster_offsets, cluster_order, is_cluster_order, law_cluster_holds_its_members,
    law_cluster_order_is_permutation, law_cluster_order_is_stable, law_offsets_are_ranges,
};
use crate::ivf::{ReportedMetric, IVF};
use crate::ivf_build::{
    adds_part, assemble_ip, assemble_l2, centroid_search, centroid_search_for, clusters_of, correction_part,
    correction_term, corrects, cross_part, grouped_by, is_correction_at, is_reordering, is_sample,
    is_training_set, l2_correction, plain_dp_cluster, pq_dp_cluster, prepare_dense_ivf,
    prepare_from_training, prepare_ivf, prepared, reorder, run_kmeans, CentroidSearch, DenseBuildArtifacts,
    IVFBuildParams, KMeansBuilder,
};
use vstd::prelude::*;

verus! {

/// The settings of a k-means run are those among the build parameters, each as it is.
pub proof fn law_kmeans_settings(params: &IVFBuildParams, kmeans: KMeansBuilder)
    requires
        call_ensures(IVFBuildParams::kmeans, (params,), kmeans),
    ensures
        kmeans.n_iter == params.kmeans_n_iter,
        kmeans.n_redo == params.kmeans_n_redo,
        kmeans.seed == params.kmeans_seed,
        kmeans.spherical == params.kmeans_spherical,
{
}

/// Whether centroids are searched as asked: with a graph of 32 neighbours, built with an
/// effort of 200 and searched with one of 16, or one after the other.
pub open spec fn searches_as_asked(use_hnsw: bool, search: CentroidSearch) -> bool {
    &&& use_hnsw <==> search is Hnsw
    &&& search matches CentroidSearch::Hnsw { num_neighbors, ef_construction, ef_search } ==> num_neighbors
        == 32 && ef_construction == 200 && ef_search == 16
}

/// A graph is searched exactly where it is asked for.
pub proof fn law_centroid_search(use_hnsw: bool, search: CentroidSearch)
    requires
        call_ensures(centroid_search, (use_hnsw,), search),
    ensures
        use_hnsw <==> search is Hnsw,
        !use_hnsw <==> search is Flat,
        search matches CentroidSearch::Hnsw { num_neighbors, ef_construction, ef_search } ==> num_neighbors
            == 32 && ef_construction == 200 && ef_search == 16,
        searches_as_asked(use_hnsw, centroid_search_for(use_hnsw)),
{
}

/// Training gets the settings, the vectors, the number of clusters and the search that
/// was asked for.
pub proof fn law_kmeans_run<T, F>(
    kmeans: &KMeansBuilder,
    dataset: &PlainDenseDataset<T>,
    n_clusters: usize,
    use_hnsw: bool,
    train: F,
    centroids: PlainDenseDataset<T>,
) where F: FnOnce(&KMeansBuilder, &PlainDenseDataset<T>, usize, CentroidSearch) -> PlainDenseDataset<T>
    requires
        call_ensures(run_kmeans::<T, F>, (kmeans, dataset, n_clusters, use_hnsw, train), centroids),
    ensures
        exists|search: CentroidSearch|
            searches_as_asked(use_hnsw, search) && #[trigger] call_ensures(
                train,
                (kmeans, dataset, n_clusters, search),
                centroids,
            ),
{
    assert(searches_as_asked(use_hnsw, centroid_search_for(use_hnsw)));
}

/// Whether `offsets` and `ids` group `n` vectors by cluster: the offsets are ranges from 0
/// to `n`, the identifiers are the numbers below `n`, none of them twice, the range of a
/// cluster holds exactly its members, and members keep their order.
pub open spec fn groups(clusters: Seq<usize>, n_clusters: nat, offsets: Seq<u32>, ids: Seq<u32>) -> bool {
    &&& offsets.len() == n_clusters + 1
    &&& offsets[0] == 0
    &&& offsets[n_clusters as int] == clusters.len()
    &&& forall|c: int, d: int| 0 <= c <= d <= n_clusters ==> #[trigger] offsets[c] <= #[trigger] offsets[d]
    &&& ids.len() == clusters.len()
    &&& ids.no_duplicates()
    &&& forall|p: int| 0 <= p < ids.len() ==> #[trigger] ids[p] < clusters.len()
    &&& forall|i: u32| i < clusters.len() ==> #[trigger] ids.contains(i)
    &&& forall|c: int, p: int|
        0 <= c < n_clusters && 0 <= p < ids.len() ==> (offsets[c] <= p < #[trigger] offsets[c + 1]
            <==> clusters[#[trigger] ids[p] as int] == c)
    &&& forall|p: int, q: int|
        0 <= p < q < ids.len() && clusters[ids[p] as int] == clusters[ids[q] as int] ==> #[trigger] ids[p]
            < #[trigger] ids[q]
}

proof fn lemma_groups(clusters: Seq<usize>, n_clusters: nat, offsets: Seq<u32>, ids: Seq<u32>)
    requires
        forall|i: int| 0 <= i < clusters.len() ==> #[trigger] clusters[i] < n_clusters,
        are_cluster_offsets(clusters, n_clusters, offsets),
        is_cluster_order(clusters, ids),
    ensures
        groups(clusters, n_clusters, offsets, ids),
{
    law_offsets_are_ranges(clusters, n_clusters, offsets);
    law_cluster_order_is_permutation(clusters, ids);
    assert forall|p: int| 0 <= p < ids.len() implies #[trigger] ids[p] < clusters.len() by {
        assert(ids.contains(ids[p]));
    }
    assert forall|c: int, p: int| 0 <= c < n_clusters && 0 <= p < ids.len() implies (offsets[c] <= p
        < #[trigger] offsets[c + 1] <==> clusters[#[trigger] ids[p] as int] == c) by {
        law_cluster_holds_its_members(clusters, n_clusters, offsets, ids, c, p);
    }
    assert forall|p: int, q: int|
        0 <= p < q < ids.len() && clusters[ids[p] as int] == clusters[ids[q] as int] implies #[trigger] ids[p]
        < #[trigger] ids[q] by {
        law_cluster_order_is_stable(clusters, ids, p, q);
    }
}

/// Offsets and order group the vectors by cluster.
pub proof fn law_vectors_are_grouped(
    clusters: &[usize],
    n_clusters: usize,
    offsets: Vec<u32>,
    order: Vec<u32>,
    given: &[u32],
)
    requires
        forall|i: int| 0 <= i < clusters@.len() ==> #[trigger] clusters@[i] < n_clusters,
        call_ensures(cluster_offsets, (clusters, n_clusters), offsets),
        given@ == offsets@,
        call_ensures(cluster_order, (clusters, n_clusters, given), order),
    ensures
        groups(clusters@, n_clusters as nat, offsets@, order@),
{
    lemma_groups(clusters@, n_clusters as nat, offsets@, order@);
}

/// Whether `stored` holds, at each place `p`, vector `ids[p]`: value by value as it is, or
/// less the value of the centroid of its cluster.
pub open spec fn stores_in_order<T, A: Arithmetic<T>>(
    ops: &A,
    stored: PlainDenseDataset<T>,
    dataset: PlainDenseDataset<T>,
    centroids: PlainDenseDataset<T>,
    clusters: Seq<usize>,
    ids: Seq<u32>,
    residual: bool,
) -> bool {
    let dim = dataset.spec_dim();
    &&& stored.spec_len() == ids.len()
    &&& stored.spec_dim() == dim
    &&& stored.spec_values().len() == ids.len() * dim
    &&& forall|p: int, j: int|
        !residual && 0 <= p < ids.len() && 0 <= j < dim ==> #[trigger] stored.spec_values()[p * dim + j]
            == dataset.spec_values()[ids[p] as int * dim + j]
    &&& forall|p: int, j: int|
        residual && 0 <= p < ids.len() && 0 <= j < dim ==> call_ensures(
            A::minus,
            (
                ops,
                dataset.spec_values()[ids[p] as int * dim + j],
                centroids.spec_values()[clusters[ids[p] as int] as int * centroids.spec_dim() + j],
            ),
            #[trigger] stored.spec_values()[p * dim + j],
        )
}

proof fn lemma_stores_in_order<T, A: Arithmetic<T>>(
    ops: &A,
    stored: PlainDenseDataset<T>,
    dataset: PlainDenseDataset<T>,
    centroids: PlainDenseDataset<T>,
    clusters: Seq<usize>,
    ids: Seq<u32>,
    residual: bool,
)
    requires
        is_reordering(ops, stored, dataset, centroids, clusters, ids, residual),
    ensures
        stores_in_order(ops, stored, dataset, centroids, clusters, ids, residual),
{
    let dim = dataset.spec_dim();
    assert forall|p: int, j: int| !residual && 0 <= p < ids.len() && 0 <= j < dim implies
        #[trigger] stored.spec_values()[p * dim + j] == dataset.spec_values()[ids[p] as int * dim + j] by {
        assert(crate::ivf_build::stores(
            ops,
            residual,
            dataset.cell(ids[p] as int, j),
            centroids.cell(clusters[ids[p] as int] as int, j),
            stored.cell(p, j),
        ));
    }
    assert forall|p: int, j: int| residual && 0 <= p < ids.len() && 0 <= j < dim implies call_ensures(
        A::minus,
        (
            ops,
            dataset.spec_values()[ids[p] as int * dim + j],
            centroids.spec_values()[clusters[ids[p] as int] as int * centroids.spec_dim() + j],
        ),
        #[trigger] stored.spec_values()[p * dim + j],
    ) by {
        assert(crate::ivf_build::stores(
            ops,
            residual,
            dataset.cell(ids[p] as int, j),
            centroids.cell(clusters[ids[p] as int] as int, j),
            stored.cell(p, j),
        ));
    }
}

/// Vectors are put in the order asked for, each as it is or less its centroid.
pub proof fn law_vectors_are_reordered<T: Copy, A: Arithmetic<T>>(
    ops: &A,
    dataset: &PlainDenseDataset<T>,
    centroids: &PlainDenseDataset<T>,
    clusters: &[usize],
    order: &[u32],
    residual: bool,
    stored: PlainDenseDataset<T>,
)
    requires
        call_ensures(reorder::<T, A>, (ops, dataset, centroids, clusters, order, residual), stored),
    ensures
        stores_in_order(ops, stored, *dataset, *centroids, clusters@, order@, residual),
{
    lemma_stores_in_order(ops, stored, *dataset, *centroids, clusters@, order@, residual);
}

/// Whether `artifacts` come of training on `training` and of assigning every vector of
/// `dataset`: the cluster of each vector is the one it was assigned to.
pub open spec fn is_clustering<T, A, F, G>(
    artifacts: DenseBuildArtifacts<T>,
    dataset: &PlainDenseDataset<T>,
    training: &PlainDenseDataset<T>,
    n_clusters: usize,
    kmeans: &KMeansBuilder,
    residual: bool,
    use_hnsw: bool,
    ops: &A,
    train: F,
    assign: G,
) -> bool where
    A: Arithmetic<T>,
    F: FnOnce(&KMeansBuilder, &PlainDenseDataset<T>, usize, CentroidSearch) -> PlainDenseDataset<T>,
    G: FnOnce(&PlainDenseDataset<T>, &PlainDenseDataset<T>, CentroidSearch) -> Vec<(T, usize)>,
 {
    exists|search: CentroidSearch, assignments: Vec<(T, usize)>, clusters: Seq<usize>|
        {
            &&& #[trigger] searches_as_asked(use_hnsw, search)
            &&& call_ensures(train, (kmeans, training, n_clusters, search), artifacts.centroids)
            &&& #[trigger] call_ensures(assign, (dataset, &artifacts.centroids, search), assignments)
            &&& clusters.len() == assignments@.len()
            &&& clusters.len() == dataset.spec_len()
            &&& forall|i: int| 0 <= i < clusters.len() ==> #[trigger] clusters[i] == assignments@[i].1
            &&& #[trigger] groups(
                clusters,
                n_clusters as nat,
                artifacts.cluster_offsets@,
                artifacts.external_ids@,
            )
            &&& stores_in_order(
                ops,
                artifacts.reordered_dataset,
                *dataset,
                artifacts.centroids,
                clusters,
                artifacts.external_ids@,
                residual,
            )
        }
}

proof fn lemma_is_clustering<T, A, F, G>(
    artifacts: DenseBuildArtifacts<T>,
    dataset: &PlainDenseDataset<T>,
    training: &PlainDenseDataset<T>,
    n_clusters: usize,
    kmeans: &KMeansBuilder,
    residual: bool,
    use_hnsw: bool,
    ops: &A,
    train: F,
    assign: G,
) where
    A: Arithmetic<T>,
    F: FnOnce(&KMeansBuilder, &PlainDenseDataset<T>, usize, CentroidSearch) -> PlainDenseDataset<T>,
    G: FnOnce(&PlainDenseDataset<T>, &PlainDenseDataset<T>, CentroidSearch) -> Vec<(T, usize)>,

    requires
        prepared(
            artifacts,
            dataset,
            training,
            n_clusters,
            kmeans,
            residual,
            centroid_search_for(use_hnsw),
            ops,
            train,
            assign,
        ),
    ensures
        is_clustering(
            artifacts,
            dataset,
            training,
            n_clusters,
            kmeans,
            residual,
            use_hnsw,
            ops,
            train,
            assign,
        ),
{
    let search = centroid_search_for(use_hnsw);
    let assignments = choose|assignments: Vec<(T, usize)>|
        {
            &&& #[trigger] call_ensures(assign, (dataset, &artifacts.centroids, search), assignments)
            &&& grouped_by(artifacts, dataset, n_clusters, residual, ops, clusters_of(assignments@))
        };
    let clusters = clusters_of(assignments@);
    assert(searches_as_asked(use_hnsw, search));
    lemma_groups(clusters, n_clusters as nat, artifacts.cluster_offsets@, artifacts.external_ids@);
    lemma_stores_in_order(
        ops,
        artifacts.reordered_dataset,
        *dataset,
        artifacts.centroids,
        clusters,
        artifacts.external_ids@,
        residual,
    );
    assert(groups(clusters, n_clusters as nat, artifacts.cluster_offsets@, artifacts.external_ids@));
}

/// Clustering trains on the vectors it is given, assigns all vectors of the dataset, and
/// groups them by what they were assigned to.
pub proof fn law_clustering<T, A, F, G>(
    dataset: &PlainDenseDataset<T>,
    training: &PlainDenseDataset<T>,
    n_clusters: usize,
    kmeans: &KMeansBuilder,
    residual: bool,
    use_hnsw: bool,
    ops: &A,
    train: F,
    assign: G,
    artifacts: DenseBuildArtifacts<T>,
) where
    T: Copy,
    A: Arithmetic<T>,
    F: FnOnce(&KMeansBuilder, &PlainDenseDataset<T>, usize, CentroidSearch) -> PlainDenseDataset<T>,
    G: FnOnce(&PlainDenseDataset<T>, &PlainDenseDataset<T>, CentroidSearch) -> Vec<(T, usize)>,

    requires
        call_ensures(
            prepare_from_training::<T, A, F, G>,
            (dataset, training, n_clusters, kmeans, residual, use_hnsw, ops, train, assign),
            artifacts,
        ),
    ensures
        is_clustering(
            artifacts,
            dataset,
            training,
            n_clusters,
            kmeans,
            residual,
            use_hnsw,
            ops,
            train,
            assign,
        ),
{
    lemma_is_clustering(
        artifacts,
        dataset,
        training,
        n_clusters,
        kmeans,
        residual,
        use_hnsw,
        ops,
        train,
        assign,
    );
}

/// Whether `training` is the whole dataset, or, where fewer vectors were asked for, that
/// many vectors of it, none of them twice.
pub open spec fn is_trained_on<T>(
    training: PlainDenseDataset<T>,
    dataset: PlainDenseDataset<T>,
    sample_size: Option<usize>,
) -> bool {
    let n = dataset.spec_len();
    let dim = dataset.spec_dim();
    if sample_size is Some && sample_size->0 < n {
        exists|picked: Seq<usize>|
            {
                &&& picked.len() == sample_size->0
                &&& #[trigger] picked.no_duplicates()
                &&& forall|i: int| 0 <= i < picked.len() ==> #[trigger] picked[i] < n
                &&& training.spec_len() == picked.len()
                &&& training.spec_dim() == dim
                &&& training.spec_values().len() == picked.len() * dim
                &&& forall|i: int, j: int|
                    0 <= i < picked.len() && 0 <= j < dim ==> #[trigger] training.spec_values()[i * dim + j]
                        == dataset.spec_values()[picked[i] * dim + j]
            }
    } else {
        training == dataset
    }
}

proof fn lemma_is_trained_on<T>(
    training: PlainDenseDataset<T>,
    dataset: PlainDenseDataset<T>,
    sample_size: Option<usize>,
)
    requires
        is_training_set(training, dataset, sample_size),
    ensures
        is_trained_on(training, dataset, sample_size),
{
    if sample_size is Some && sample_size->0 < dataset.spec_len() {
        let size = sample_size->0;
        let dim = dataset.spec_dim();
        let picked = choose|picked: Seq<usize>| #[trigger]
            is_sample(picked, dataset.spec_len(), size as nat) && training.is_selection(dataset, picked)
                && training.wf();
        assert forall|i: int, j: int| 0 <= i < picked.len() && 0 <= j < dim implies
            #[trigger] training.spec_values()[i * dim + j] == dataset.spec_values()[picked[i] * dim + j] by {
            assert(training.cell(i, j) == dataset.cell(picked[i] as int, j));
        }
        assert(picked.no_duplicates());
    }
}

/// A sample is trained on where it is smaller than the dataset; all vectors are assigned
/// either way.
pub proof fn law_sampled_clustering<T, A, F, G>(
    dataset: &PlainDenseDataset<T>,
    n_clusters: usize,
    kmeans: &KMeansBuilder,
    residual: bool,
    sample_size: Option<usize>,
    use_hnsw: bool,
    ops: &A,
    train: F,
    assign: G,
    artifacts: DenseBuildArtifacts<T>,
) where
    T: Copy,
    A: Arithmetic<T>,
    F: FnOnce(&KMeansBuilder, &PlainDenseDataset<T>, usize, CentroidSearch) -> PlainDenseDataset<T>,
    G: FnOnce(&PlainDenseDataset<T>, &PlainDenseDataset<T>, CentroidSearch) -> Vec<(T, usize)>,

    requires
        call_ensures(
            prepare_dense_ivf::<T, A, F, G>,
            (dataset, n_clusters, kmeans, residual, sample_size, use_hnsw, ops, train, assign),
            artifacts,
        ),
    ensures
        exists|training: PlainDenseDataset<T>|
            is_trained_on(training, *dataset, sample_size) && #[trigger] is_clustering(
                artifacts,
                dataset,
                &training,
                n_clusters,
                kmeans,
                residual,
                use_hnsw,
                ops,
                train,
                assign,
            ),
{
    let training = choose|training: PlainDenseDataset<T>|
        is_training_set(training, *dataset, sample_size) && #[trigger] prepared(
            artifacts,
            dataset,
            &training,
            n_clusters,
            kmeans,
            residual,
            centroid_search_for(use_hnsw),
            ops,
            train,
            assign,
        );
    lemma_is_trained_on(training, *dataset, sample_size);
    lemma_is_clustering(
        artifacts,
        dataset,
        &training,
        n_clusters,
        kmeans,
        residual,
        use_hnsw,
        ops,
        train,
        assign,
    );
}

/// Whether k-means settings are those of the build parameters.
pub open spec fn settings_of(params: IVFBuildParams, kmeans: KMeansBuilder) -> bool {
    &&& kmeans.n_iter == params.kmeans_n_iter
    &&& kmeans.n_redo == params.kmeans_n_redo
    &&& kmeans.seed == params.kmeans_seed
    &&& kmeans.spherical == params.kmeans_spherical
}

/// Build parameters decide over clusters, settings and residuals; from 32768 clusters on
/// a graph is searched. All vectors are trained on.
pub proof fn law_clustering_by_parameters<T, A, F, G>(
    input: &PlainDenseDataset<T>,
    p: &IVFBuildParams,
    ops: &A,
    train: F,
    assign: G,
    use_hnsw: bool,
    artifacts: DenseBuildArtifacts<T>,
) where
    T: Copy,
    A: Arithmetic<T>,
    F: FnOnce(&KMeansBuilder, &PlainDenseDataset<T>, usize, CentroidSearch) -> PlainDenseDataset<T>,
    G: FnOnce(&PlainDenseDataset<T>, &PlainDenseDataset<T>, CentroidSearch) -> Vec<(T, usize)>,

    requires
        use_hnsw <==> p.n_clusters >= 32768,
        call_ensures(prepare_ivf::<T, A, F, G>, (input, p, ops, train, assign), artifacts),
    ensures
        exists|kmeans: KMeansBuilder|
            settings_of(*p, kmeans) && #[trigger] is_clustering(
                artifacts,
                input,
                input,
                p.n_clusters,
                &kmeans,
                p.residual,
                use_hnsw,
                ops,
                train,
                assign,
            ),
{
    lemma_is_clustering(
        artifacts,
        input,
        input,
        p.n_clusters,
        &p.kmeans_spec(),
        p.residual,
        use_hnsw,
        ops,
        train,
        assign,
    );
    assert(settings_of(*p, p.kmeans_spec()));
}

/// Plain clusters hold the reordered vectors, value by value narrowed; encoded ones are
/// encoded from the reordered vectors.
pub proof fn law_cluster_vectors<T: Copy, V, D, N: Fn(T) -> V, C: FnOnce(&PlainDenseDataset<T>) -> D>(
    artifacts: &DenseBuildArtifacts<T>,
    narrow: &N,
    plain: PlainDenseDataset<V>,
    convert: C,
    encoded: D,
)
    requires
        call_ensures(plain_dp_cluster::<T, V, N>, (artifacts, narrow), plain),
        call_ensures(pq_dp_cluster::<T, D, C>, (artifacts, convert), encoded),
    ensures
        plain.spec_len() == artifacts.reordered_dataset.spec_len(),
        plain.spec_dim() == artifacts.reordered_dataset.spec_dim(),
        plain.spec_values().len() == artifacts.reordered_dataset.spec_values().len(),
        forall|i: int|
            0 <= i < plain.spec_values().len() ==> call_ensures(
                *narrow,
                (artifacts.reordered_dataset.spec_values()[i],),
                #[trigger] plain.spec_values()[i],
            ),
        call_ensures(convert, (&artifacts.reordered_dataset,), encoded),
{
}

/// Whether `next` is `sum + (w * w + 2 * c * w)` where residuals are stored, and
/// `sum + (w * w + 0)` otherwise.
pub open spec fn adds_squares<T, A: Arithmetic<T>>(
    ops: &A,
    c: T,
    w: T,
    residual: bool,
    sum: T,
    next: T,
) -> bool {
    exists|square: T, cross: T, part: T|
        {
            &&& call_ensures(A::times, (ops, w, w), square)
            &&& !residual ==> call_ensures(A::zero, (ops,), cross)
            &&& residual ==> exists|doubled: T|
                {
                    &&& #[trigger] call_ensures(A::twice, (ops, c), doubled)
                    &&& call_ensures(A::times, (ops, doubled, w), cross)
                }
            &&& #[trigger] call_ensures(A::plus, (ops, square, cross), part)
            &&& #[trigger] call_ensures(A::plus, (ops, sum, part), next)
        }
}

/// Whether `out` sums up the correction of stored vector `w` under centroid `c`, from 0
/// and coordinate by coordinate.
pub open spec fn sums_up<T, A: Arithmetic<T>>(ops: &A, c: Seq<T>, w: Seq<T>, residual: bool, out: T) -> bool {
    exists|sums: Seq<T>|
        {
            &&& sums.len() >= 1
            &&& sums.len() <= c.len() + 1
            &&& sums.len() <= w.len() + 1
            &&& sums.len() == c.len() + 1 || sums.len() == w.len() + 1
            &&& call_ensures(A::zero, (ops,), sums[0])
            &&& forall|j: int|
                0 <= j < sums.len() - 1 ==> #[trigger] adds_squares(
                    ops,
                    c[j],
                    w[j],
                    residual,
                    sums[j],
                    sums[j + 1],
                )
            &&& out == #[trigger] sums.last()
        }
}

proof fn lemma_sums_up<T, A: Arithmetic<T>>(ops: &A, c: Seq<T>, w: Seq<T>, residual: bool, out: T)
    requires
        corrects(ops, c, w, residual, out),
    ensures
        sums_up(ops, c, w, residual, out),
{
    let n = if c.len() < w.len() {
        c.len()
    } else {
        w.len()
    };
    let sums = choose|sums: Seq<T>|
        {
            &&& sums.len() == n + 1
            &&& call_ensures(A::zero, (ops,), sums[0])
            &&& forall|j: int|
                0 <= j < n ==> #[trigger] adds_part(ops, c[j], w[j], residual, sums[j], sums[j + 1])
            &&& out == #[trigger] sums.last()
        };
    assert forall|j: int| 0 <= j < sums.len() - 1 implies #[trigger] adds_squares(
        ops,
        c[j],
        w[j],
        residual,
        sums[j],
        sums[j + 1],
    ) by {
        assert(adds_part(ops, c[j], w[j], residual, sums[j], sums[j + 1]));
        let part = choose|part: T| #[trigger]
            call_ensures(A::plus, (ops, sums[j], part), sums[j + 1]) && correction_part(
                ops,
                c[j],
                w[j],
                residual,
                part,
            );
        let (square, cross) = choose|square: T, cross: T| #[trigger]
            call_ensures(A::plus, (ops, square, cross), part) && call_ensures(
                A::times,
                (ops, w[j], w[j]),
                square,
            ) && cross_part(ops, c[j], w[j], residual, cross);
        assert(call_ensures(A::plus, (ops, square, cross), part));
    }
}

/// A correction sums up the squares of the stored values, and twice their products with
/// the centroid's where residuals are stored.
pub proof fn law_correction_sums_up<T: Copy, A: Arithmetic<T>>(
    ops: &A,
    c: &[T],
    w: &[T],
    residual: bool,
    out: T,
)
    requires
        call_ensures(correction_term::<T, A>, (ops, c, w, residual), out),
    ensures
        sums_up(ops, c@, w@, residual, out),
{
    lemma_sums_up(ops, c@, w@, residual, out);
}

/// Whether `term` is the correction of what `decode` gives for `pos`, under the centroid
/// whose values are those from `first` on.
pub open spec fn is_term<D, T, A, W>(
    ops: &A,
    cluster: &D,
    decode: W,
    centroids: Seq<T>,
    first: int,
    dim: int,
    residual: bool,
    pos: int,
    term: T,
) -> bool where A: Arithmetic<T>, W: Fn(&D, usize) -> Vec<T> {
    exists|c: Seq<T>, w: Vec<T>|
        {
            &&& c.len() == dim
            &&& forall|j: int| 0 <= j < dim ==> #[trigger] c[j] == centroids[first + j]
            &&& #[trigger] call_ensures(decode, (cluster, pos as usize), w)
            &&& #[trigger] sums_up(ops, c, w@, residual, term)
        }
}

/// Whether there is one term for each position: the correction of its vector under the
/// centroid of the cluster that it belongs to, 0 outside all clusters.
pub open spec fn are_terms<D, T, A, W>(
    ops: &A,
    cluster: &D,
    decode: W,
    centroids: Seq<T>,
    dim: int,
    offsets: Seq<u32>,
    residual: bool,
    terms: Seq<T>,
) -> bool where A: Arithmetic<T>, W: Fn(&D, usize) -> Vec<T> {
    &&& forall|pos: int|
        0 <= pos < terms.len() && (pos < offsets[0] || pos >= offsets[offsets.len() - 1]) ==> call_ensures(
            A::zero,
            (ops,),
            #[trigger] terms[pos],
        )
    &&& forall|c: int, pos: int|
        0 <= c < offsets.len() - 1 && offsets[c] <= pos < #[trigger] offsets[c + 1] ==> is_term(
            ops,
            cluster,
            decode,
            centroids,
            c * dim,
            dim,
            residual,
            pos,
            #[trigger] terms[pos],
        )
}

proof fn lemma_are_terms<D, T, A, W>(
    ops: &A,
    cluster: &D,
    decode: W,
    centroids: Seq<T>,
    dim: nat,
    offsets: Seq<u32>,
    residual: bool,
    len: nat,
    terms: Seq<T>,
) where A: Arithmetic<T>, W: Fn(&D, usize) -> Vec<T>
    requires
        offsets.len() > 0,
        (offsets.len() - 1) * dim <= centroids.len(),
        crate::ivf_build::are_corrections(
            ops,
            cluster,
            decode,
            centroids,
            dim,
            offsets,
            residual,
            len,
            terms,
        ),
    ensures
        terms.len() == len,
        are_terms(ops, cluster, decode, centroids, dim as int, offsets, residual, terms),
{
    assert forall|c: int, pos: int|
        0 <= c < offsets.len() - 1 && offsets[c] <= pos < #[trigger] offsets[c + 1] implies is_term(
        ops,
        cluster,
        decode,
        centroids,
        c * dim,
        dim as int,
        residual,
        pos,
        #[trigger] terms[pos],
    ) by {
        assert(is_correction_at(ops, cluster, decode, centroids, dim, residual, c, pos, terms[pos]));
        let part = centroids.subrange(c * dim, c * dim + dim);
        let w = choose|w: Vec<T>| #[trigger]
            call_ensures(decode, (cluster, pos as usize), w) && corrects(ops, part, w@, residual, terms[pos]);
        crate::dense::lemma_row(c, dim as int, offsets.len() - 1);
        assert forall|j: int| 0 <= j < dim implies #[trigger] part[j] == centroids[c * dim + j] by {}
        lemma_sums_up(ops, part, w@, residual, terms[pos]);
    }
}

/// There is one correction for each stored vector, under the centroid of its cluster.
pub proof fn law_corrections<D, T, A, W>(
    cluster: &D,
    len: usize,
    dim: usize,
    centroids: &[T],
    offsets: &[u32],
    residual: bool,
    ops: &A,
    decode: &W,
    terms: Vec<T>,
) where T: Copy, A: Arithmetic<T>, W: Fn(&D, usize) -> Vec<T>
    requires
        offsets@.len() > 0,
        (offsets@.len() - 1) * dim <= centroids@.len(),
        call_ensures(
            l2_correction::<D, T, A, W>,
            (cluster, len, dim, centroids, offsets, residual, ops, decode),
            terms,
        ),
    ensures
        terms@.len() == len,
        are_terms(ops, cluster, *decode, centroids@, dim as int, offsets@, residual, terms@),
{
    lemma_are_terms(
        ops,
        cluster,
        *decode,
        centroids@,
        dim as nat,
        offsets@,
        residual,
        len as nat,
        terms@,
    );
}

/// Whether an index is put together from artifacts and encoded vectors, with a correction
/// for each vector exactly where the metric is squared Euclidean.
pub open spec fn is_put_together<D, CI, T, A, W, H>(
    index: IVF<D, CI, T>,
    metric: ReportedMetric,
    artifacts: DenseBuildArtifacts<T>,
    cluster: D,
    residual: bool,
    ops: &A,
    decode: W,
    centroid_index_builder: H,
) -> bool where
    A: Arithmetic<T>,
    W: Fn(&D, usize) -> Vec<T>,
    H: FnOnce(PlainDenseDataset<T>) -> CI,
 {
    &&& index.metric() == metric
    &&& call_ensures(centroid_index_builder, (artifacts.centroids,), index.centroids())
    &&& index.vectors() == cluster
    &&& index.offsets() == artifacts.cluster_offsets@
    &&& index.ids() == artifacts.external_ids@
    &&& index.residuals() == residual
    &&& index.corrections() is Some <==> metric is SquaredEuclidean
    &&& index.corrections() matches Some(terms) ==> {
        &&& terms.len() == artifacts.external_ids@.len()
        &&& are_terms(
            ops,
            &cluster,
            decode,
            artifacts.centroids.spec_values(),
            artifacts.reordered_dataset.spec_dim() as int,
            artifacts.cluster_offsets@,
            residual,
            terms,
        )
    }
}

/// An index is assembled from the parts it is given; corrections go with squared
/// Euclidean distances alone.
pub proof fn law_assembled_indexes<D, CI, T, A, W, H>(
    artifacts: DenseBuildArtifacts<T>,
    cluster: D,
    centroid_index_builder: H,
    residual: bool,
    ops: &A,
    decode: &W,
    euclidean: IVF<D, CI, T>,
    product: IVF<D, CI, T>,
) where
    T: Copy,
    A: Arithmetic<T>,
    W: Fn(&D, usize) -> Vec<T>,
    H: FnOnce(PlainDenseDataset<T>) -> CI,

    requires
        artifacts.cluster_offsets@.len() > 0,
        (artifacts.cluster_offsets@.len() - 1) * artifacts.reordered_dataset.spec_dim()
            <= artifacts.centroids.spec_values().len(),
        call_ensures(
            assemble_l2::<D, CI, T, A, W, H>,
            (artifacts, cluster, centroid_index_builder, residual, ops, decode),
            euclidean,
        ),
        call_ensures(
            assemble_ip::<D, CI, T, H>,
            (artifacts, cluster, centroid_index_builder, residual),
            product,
        ),
    ensures
        is_put_together(
            euclidean,
            ReportedMetric::SquaredEuclidean,
            artifacts,
            cluster,
            residual,
            ops,
            *decode,
            centroid_index_builder,
        ),
        is_put_together(
            product,
            ReportedMetric::DotProduct,
            artifacts,
            cluster,
            residual,
            ops,
            *decode,
            centroid_index_builder,
        ),
{
    lemma_are_terms(
        ops,
        &cluster,
        *decode,
        artifacts.centroids.spec_values(),
        artifacts.reordered_dataset.spec_dim(),
        artifacts.cluster_offsets@,
        residual,
        artifacts.external_ids@.len(),
        euclidean.corrections()->0,
    );
}

/// A built index clusters the dataset by its parameters, and holds the encoded vectors of
/// the clusters, under the metric and with the residuals asked for.
pub proof fn law_built_index<D, CI, T, A, F, G, E, W, H>(
    metric: ReportedMetric,
    dataset: &PlainDenseDataset<T>,
    p: &IVFBuildParams,
    ops: &A,
    train: F,
    assign: G,
    encode: E,
    decode: &W,
    centroid_index_builder: H,
    use_hnsw: bool,
    index: IVF<D, CI, T>,
) where
    T: Copy,
    A: Arithmetic<T>,
    F: FnOnce(&KMeansBuilder, &PlainDenseDataset<T>, usize, CentroidSearch) -> PlainDenseDataset<T>,
    G: FnOnce(&PlainDenseDataset<T>, &PlainDenseDataset<T>, CentroidSearch) -> Vec<(T, usize)>,
    E: FnOnce(&DenseBuildArtifacts<T>) -> D,
    W: Fn(&D, usize) -> Vec<T>,
    H: FnOnce(PlainDenseDataset<T>) -> CI,

    requires
        use_hnsw <==> p.n_clusters >= 32768,
        call_ensures(
            IVF::<D, CI, T>::build_index::<A, F, G, E, W, H>,
            (metric, dataset, p, ops, train, assign, encode, decode, centroid_index_builder),
            index,
        ),
    ensures
        exists|kmeans: KMeansBuilder, artifacts: DenseBuildArtifacts<T>, cluster: D|
            {
                &&& settings_of(*p, kmeans)
                &&& #[trigger] is_clustering(
                    artifacts,
                    dataset,
                    dataset,
                    p.n_clusters,
                    &kmeans,
                    p.residual,
                    use_hnsw,
                    ops,
                    train,
                    assign,
                )
                &&& #[trigger] call_ensures(encode, (&artifacts,), cluster)
                &&& (metric is DotProduct || p.n_clusters * dataset.spec_dim() <= artifacts.centroids.spec_values().len()
                    ==> is_put_together(
                    index,
                    metric,
                    artifacts,
                    cluster,
                    p.residual,
                    ops,
                    *decode,
                    centroid_index_builder,
                ))
            },
{
    let kmeans = p.kmeans_spec();
    let search = centroid_search_for(p.n_clusters >= crate::ivf_build::KMEANS_HNSW_THRESHOLD);
    let (artifacts, cluster) = choose|artifacts: DenseBuildArtifacts<T>, cluster: D|
        {
            &&& prepared(
                artifacts,
                dataset,
                dataset,
                p.n_clusters,
                &kmeans,
                p.residual,
                search,
                ops,
                train,
                assign,
            )
            &&& #[trigger] call_ensures(encode, (&artifacts,), cluster)
            &&& crate::ivf_build::assembled(
                index,
                metric,
                artifacts,
                cluster,
                p.residual,
                ops,
                *decode,
                centroid_index_builder,
            )
        };
    lemma_is_clustering(
        artifacts,
        dataset,
        dataset,
        p.n_clusters,
        &kmeans,
        p.residual,
        use_hnsw,
        ops,
        train,
        assign,
    );
    assert(settings_of(*p, kmeans));
    let assignments = choose|assignments: Vec<(T, usize)>|
        {
            &&& #[trigger] call_ensures(assign, (dataset, &artifacts.centroids, search), assignments)
            &&& grouped_by(artifacts, dataset, p.n_clusters, p.residual, ops, clusters_of(assignments@))
        };
    if p.n_clusters * dataset.spec_dim() <= artifacts.centroids.spec_values().len() && metric.corrects() {
        lemma_are_terms(
            ops,
            &cluster,
            *decode,
            artifacts.centroids.spec_values(),
            artifacts.reordered_dataset.spec_dim(),
            artifacts.cluster_offsets@,
            p.residual,
            artifacts.external_ids@.len(),
            index.corrections()->0,
        );
    }
}

} // verus!
