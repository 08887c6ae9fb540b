//! Grouping of vectors by the cluster each was assigned to.

use vstd::prelude::*;

verus! {

/// How many of the first `upto` vectors are assigned to `c`.
pub open spec fn members(clusters: Seq<usize>, c: int, upto: nat) -> nat
    decreases upto,
{
    if upto == 0 {
        0
    } else {
        members(clusters, c, (upto - 1) as nat) + if clusters[upto - 1] == c {
            1nat
        } else {
            0nat
        }
    }
}

/// How many of the first `upto` vectors are assigned to a cluster below `c`.
pub open spec fn members_below(clusters: Seq<usize>, c: int, upto: nat) -> nat
    decreases upto,
{
    if upto == 0 {
        0
    } else {
        members_below(clusters, c, (upto - 1) as nat) + if clusters[upto - 1] < c {
            1nat
        } else {
            0nat
        }
    }
}

/// Where vector `i` goes: behind every vector of a lower cluster and behind the
/// earlier vectors of its own.
pub open spec fn slot(clusters: Seq<usize>, i: int) -> int {
    let c = clusters[i] as int;
    members_below(clusters, c, clusters.len()) as int + members(clusters, c, i as nat)
}

/// The start of each cluster, and the end of the last one.
pub open spec fn are_cluster_offsets(clusters: Seq<usize>, n_clusters: nat, offsets: Seq<u32>) -> bool {
    &&& offsets.len() == n_clusters + 1
    &&& forall|c: int|
        0 <= c <= n_clusters ==> #[trigger] offsets[c] == members_below(clusters, c, clusters.len())
}

/// `order` lists every vector once, in the place that [`slot`] gives it.
pub open spec fn is_cluster_order(clusters: Seq<usize>, order: Seq<u32>) -> bool {
    &&& order.len() == clusters.len()
    &&& forall|i: int|
        0 <= i < clusters.len() ==> 0 <= #[trigger] slot(clusters, i) < order.len() && order[slot(
            clusters,
            i,
        )] == i
    &&& forall|p: int|
        0 <= p < order.len() ==> (#[trigger] order[p]) < clusters.len() && slot(clusters, order[p] as int)
            == p
}

proof fn lemma_members_monotone(clusters: Seq<usize>, c: int, a: nat, b: nat)
    requires
        a <= b <= clusters.len(),
    ensures
        members(clusters, c, a) <= members(clusters, c, b),
        a < b && clusters[a as int] == c ==> members(clusters, c, a) < members(clusters, c, b),
    decreases b,
{
    if a < b {
        lemma_members_monotone(clusters, c, a, (b - 1) as nat);
    }
}

proof fn lemma_members_below_step(clusters: Seq<usize>, c: int, upto: nat)
    requires
        upto <= clusters.len(),
    ensures
        members_below(clusters, c + 1, upto) == members_below(clusters, c, upto) + members(
            clusters,
            c,
            upto,
        ),
    decreases upto,
{
    if upto > 0 {
        lemma_members_below_step(clusters, c, (upto - 1) as nat);
    }
}

proof fn lemma_members_below_ends(clusters: Seq<usize>, n_clusters: nat, upto: nat)
    requires
        upto <= clusters.len(),
        forall|i: int| 0 <= i < clusters.len() ==> #[trigger] clusters[i] < n_clusters,
    ensures
        members_below(clusters, 0, upto) == 0,
        members_below(clusters, n_clusters as int, upto) == upto,
    decreases upto,
{
    if upto > 0 {
        lemma_members_below_ends(clusters, n_clusters, (upto - 1) as nat);
    }
}

proof fn lemma_members_below_monotone(clusters: Seq<usize>, c: int, d: int, upto: nat)
    requires
        c <= d,
        upto <= clusters.len(),
    ensures
        members_below(clusters, c, upto) <= members_below(clusters, d, upto) <= upto,
    decreases upto,
{
    if upto > 0 {
        lemma_members_below_monotone(clusters, c, d, (upto - 1) as nat);
    }
}

/// Vector `i` is placed inside the range of its cluster.
pub proof fn law_slot_in_cluster(clusters: Seq<usize>, i: int)
    requires
        0 <= i < clusters.len(),
    ensures
        members_below(clusters, clusters[i] as int, clusters.len()) <= slot(clusters, i)
            < members_below(clusters, clusters[i] + 1, clusters.len()) <= clusters.len(),
{
    let c = clusters[i] as int;
    lemma_members_monotone(clusters, c, i as nat, clusters.len());
    lemma_members_below_step(clusters, c, clusters.len());
    lemma_members_below_monotone(clusters, c + 1, c + 1, clusters.len());
}

/// Cluster offsets start at 0, never decrease, and end at the number of vectors.
pub proof fn law_offsets_are_ranges(clusters: Seq<usize>, n_clusters: nat, offsets: Seq<u32>)
    requires
        are_cluster_offsets(clusters, n_clusters, offsets),
        forall|i: int| 0 <= i < clusters.len() ==> #[trigger] clusters[i] < n_clusters,
    ensures
        offsets[0] == 0,
        crate::ivf::ranges_up_to(offsets, clusters.len()),
{
    lemma_members_below_ends(clusters, n_clusters, clusters.len());
    assert forall|i: int, j: int| 0 <= i <= j < offsets.len() implies #[trigger] offsets[i]
        <= #[trigger] offsets[j] by {
        lemma_members_below_monotone(clusters, i, j, clusters.len());
    }
}

/// The positions from `offsets[c]` up to `offsets[c + 1]` hold exactly the
/// vectors assigned to `c`.
pub proof fn law_cluster_holds_its_members(
    clusters: Seq<usize>,
    n_clusters: nat,
    offsets: Seq<u32>,
    order: Seq<u32>,
    c: int,
    p: int,
)
    requires
        are_cluster_offsets(clusters, n_clusters, offsets),
        is_cluster_order(clusters, order),
        0 <= c < n_clusters,
        0 <= p < order.len(),
    ensures
        offsets[c] <= p < offsets[c + 1] <==> clusters[order[p] as int] == c,
{
    let i = order[p] as int;
    let own = clusters[i] as int;
    law_slot_in_cluster(clusters, i);
    if own < c {
        lemma_members_below_monotone(clusters, own + 1, c, clusters.len());
    }
    if c < own {
        lemma_members_below_monotone(clusters, c + 1, own, clusters.len());
    }
}

/// Within a cluster the vectors keep their order.
pub proof fn law_cluster_order_is_stable(clusters: Seq<usize>, order: Seq<u32>, p: int, q: int)
    requires
        is_cluster_order(clusters, order),
        0 <= p < q < order.len(),
        clusters[order[p] as int] == clusters[order[q] as int],
    ensures
        order[p] < order[q],
{
    let i = order[p] as int;
    let j = order[q] as int;
    if i >= j {
        lemma_members_monotone(clusters, clusters[i] as int, j as nat, i as nat);
    }
}

/// A cluster order is a permutation: no vector occurs twice, none is missing.
pub proof fn law_cluster_order_is_permutation(clusters: Seq<usize>, order: Seq<u32>)
    requires
        is_cluster_order(clusters, order),
    ensures
        order.no_duplicates(),
        forall|i: u32| i < clusters.len() <==> #[trigger] order.contains(i),
{
    assert forall|p: int, q: int| 0 <= p < q < order.len() implies order[p] != order[q] by {
        assert(slot(clusters, order[p] as int) == p);
        assert(slot(clusters, order[q] as int) == q);
    }
    assert forall|i: u32| i < clusters.len() <==> #[trigger] order.contains(i) by {
        if i < clusters.len() {
            assert(order[slot(clusters, i as int)] == i);
        }
        if order.contains(i) {
            let p = choose|p: int| 0 <= p < order.len() && order[p] == i;
            assert(order[p] < clusters.len());
        }
    }
}

/// The start of each cluster from the number of its members.
pub fn cluster_offsets(clusters: &[usize], n_clusters: usize) -> (offsets: Vec<u32>)
    requires
        clusters@.len() <= u32::MAX,
        n_clusters < usize::MAX,
        forall|i: int| 0 <= i < clusters@.len() ==> #[trigger] clusters@[i] < n_clusters,
    ensures
        are_cluster_offsets(clusters@, n_clusters as nat, offsets@),
{
    let mut sizes: Vec<u32> = Vec::new();
    sizes.resize(n_clusters, 0u32);
    let n: usize = clusters.len();
    let mut i: usize = 0;
    while i < n
        invariant
            i <= n == clusters@.len() <= u32::MAX,
            sizes@.len() == n_clusters,
            forall|j: int| 0 <= j < clusters@.len() ==> #[trigger] clusters@[j] < n_clusters,
            forall|c: int| 0 <= c < n_clusters ==> #[trigger] sizes@[c] == members(clusters@, c, i as nat),
            forall|c: int| 0 <= c < n_clusters ==> #[trigger] sizes@[c] <= i,
        decreases n - i,
    {
        let c: usize = clusters[i];
        let grown: u32 = sizes[c] + 1;
        sizes.set(c, grown);
        i = i + 1;
    }
    let mut offsets: Vec<u32> = Vec::new();
    offsets.push(0);
    proof {
        lemma_members_below_ends(clusters@, n_clusters as nat, n as nat);
    }
    let mut c: usize = 0;
    while c < n_clusters
        invariant
            c <= n_clusters,
            n == clusters@.len() <= u32::MAX,
            sizes@.len() == n_clusters,
            offsets@.len() == c + 1,
            forall|d: int| 0 <= d < n_clusters ==> #[trigger] sizes@[d] == members(clusters@, d, n as nat),
            forall|d: int|
                0 <= d <= c ==> #[trigger] offsets@[d] == members_below(clusters@, d, n as nat),
        decreases n_clusters - c,
    {
        proof {
            lemma_members_below_step(clusters@, c as int, n as nat);
            lemma_members_below_monotone(clusters@, c as int, c + 1, n as nat);
        }
        let next: u32 = offsets[c] + sizes[c];
        offsets.push(next);
        c = c + 1;
    }
    offsets
}

/// The vectors in cluster order.
pub fn cluster_order(clusters: &[usize], n_clusters: usize, offsets: &[u32]) -> (order: Vec<u32>)
    requires
        clusters@.len() <= u32::MAX,
        forall|i: int| 0 <= i < clusters@.len() ==> #[trigger] clusters@[i] < n_clusters,
        are_cluster_offsets(clusters@, n_clusters as nat, offsets@),
    ensures
        is_cluster_order(clusters@, order@),
{
    let n: usize = clusters.len();
    let mut cursor: Vec<u32> = Vec::new();
    let mut c: usize = 0;
    while c < n_clusters
        invariant
            c <= n_clusters,
            offsets@.len() == n_clusters + 1,
            cursor@.len() == c,
            forall|d: int| 0 <= d < c ==> #[trigger] cursor@[d] == offsets@[d],
        decreases n_clusters - c,
    {
        cursor.push(offsets[c]);
        c = c + 1;
    }
    let mut order: Vec<u32> = Vec::new();
    order.resize(n, 0u32);
    let mut i: usize = 0;
    while i < n
        invariant
            i <= n == clusters@.len() <= u32::MAX,
            forall|j: int| 0 <= j < clusters@.len() ==> #[trigger] clusters@[j] < n_clusters,
            are_cluster_offsets(clusters@, n_clusters as nat, offsets@),
            cursor@.len() == n_clusters,
            order@.len() == n,
            forall|d: int|
                0 <= d < n_clusters ==> #[trigger] cursor@[d] == members_below(clusters@, d, n as nat)
                    + members(clusters@, d, i as nat),
            forall|j: int|
                0 <= j < i ==> 0 <= #[trigger] slot(clusters@, j) < n && order@[slot(clusters@, j)] == j,
            forall|d: int, p: int|
                0 <= d < n_clusters && members_below(clusters@, d, n as nat) <= p < cursor@[d] && 0 <= p < n
                    ==> #[trigger] holds_slot(clusters@, order@, d, p, i as int),
        decreases n - i,
    {
        let c: usize = clusters[i];
        let at: u32 = cursor[c];
        proof {
            law_slot_in_cluster(clusters@, i as int);
            assert(at == slot(clusters@, i as int));
        }
        let ghost before = order@;
        let ghost before_cursor = cursor@;
        order.set(at as usize, i as u32);
        cursor.set(c, at + 1);
        proof {
            assert forall|j: int| 0 <= j < i + 1 implies 0 <= #[trigger] slot(clusters@, j) < n
                && order@[slot(clusters@, j)] == j by {
                if j < i {
                    law_slot_in_cluster(clusters@, j);
                    if clusters@[j] == clusters@[i as int] {
                        lemma_members_monotone(clusters@, c as int, j as nat, i as nat);
                    } else if clusters@[j] < clusters@[i as int] {
                        lemma_members_below_monotone(
                            clusters@,
                            clusters@[j] + 1,
                            c as int,
                            n as nat,
                        );
                    } else {
                        lemma_members_below_monotone(
                            clusters@,
                            c + 1,
                            clusters@[j] as int,
                            n as nat,
                        );
                    }
                    assert(slot(clusters@, j) != at);
                }
            }
            assert forall|d: int, p: int|
                0 <= d < n_clusters && members_below(clusters@, d, n as nat) <= p < cursor@[d] && 0 <= p
                    < n implies #[trigger] holds_slot(clusters@, order@, d, p, i + 1) by {
                if p != at {
                    assert(p < before_cursor[d]);
                    assert(holds_slot(clusters@, before, d, p, i as int));
                } else if d != c {
                    assert(holds_slot(clusters@, before, d, p, i as int));
                    let j = before[p] as int;
                    assert(slot(clusters@, j) == p);
                    assert(order@[slot(clusters@, j)] == j);
                }
            }
        }
        i = i + 1;
    }
    proof {
        assert forall|p: int| 0 <= p < order@.len() implies (#[trigger] order@[p]) < clusters@.len()
            && slot(clusters@, order@[p] as int) == p by {
            lemma_members_below_ends(clusters@, n_clusters as nat, n as nat);
            let d = lemma_position_in_cluster(clusters@, n_clusters as nat, p);
            lemma_members_below_step(clusters@, d, n as nat);
            assert(holds_slot(clusters@, order@, d, p, n as int));
        }
    }
    order
}

/// Position `p` holds a vector of cluster `d` below `upto`, in its slot.
spec fn holds_slot(clusters: Seq<usize>, order: Seq<u32>, d: int, p: int, upto: int) -> bool {
    &&& order[p] < upto
    &&& clusters[order[p] as int] == d
    &&& slot(clusters, order[p] as int) == p
}

proof fn lemma_position_in_cluster(clusters: Seq<usize>, n_clusters: nat, p: int) -> (d: int)
    requires
        0 <= p < members_below(clusters, n_clusters as int, clusters.len()),
        members_below(clusters, 0, clusters.len()) == 0,
    ensures
        0 <= d < n_clusters,
        members_below(clusters, d, clusters.len()) <= p < members_below(
            clusters,
            d + 1,
            clusters.len(),
        ),
    decreases n_clusters,
{
    if n_clusters == 0 {
        0
    } else if members_below(clusters, n_clusters - 1, clusters.len()) <= p {
        n_clusters - 1
    } else {
        lemma_position_in_cluster(clusters, (n_clusters - 1) as nat, p)
    }
}

} // verus!
