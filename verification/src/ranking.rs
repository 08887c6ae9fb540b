//! Ranking of scored candidates: an order on scores, and a bounded collection
//! that keeps the best `k` of everything it was offered.

use vstd::multiset::Multiset;
use vstd::prelude::*;

verus! {

/// A vector identifier with the distance at which it was found.
#[derive(Debug)]
pub struct ScoredVector<T> {
    pub distance: T,
    pub vector: u64,
}

/// A candidate during a scan: the stored position, the reported distance, and
/// the integer by which the distance is ordered (smaller is better).
#[derive(Debug)]
pub struct Ranked<T> {
    pub key: i64,
    pub position: u32,
    pub distance: T,
}

/// `a` ranks no later than `b`: by key, and by position where the keys agree.
pub open spec fn rank_le<T>(a: Ranked<T>, b: Ranked<T>) -> bool {
    a.key < b.key || (a.key == b.key && a.position <= b.position)
}

/// Best first.
pub open spec fn in_rank_order<T>(items: Seq<Ranked<T>>) -> bool {
    forall|i: int, j: int| 0 <= i <= j < items.len() ==> rank_le(#[trigger] items[i], #[trigger] items[j])
}

/// `kept` holds the best `k` items of `offered`, best first; all of them where
/// there are no more than `k`.
pub open spec fn is_best<T>(kept: Seq<Ranked<T>>, offered: Seq<Ranked<T>>, k: nat) -> bool {
    &&& in_rank_order(kept)
    &&& kept.len() == if offered.len() < k { offered.len() } else { k }
    &&& kept.to_multiset().subset_of(offered.to_multiset())
    &&& forall|i: int, r: Ranked<T>|
        0 <= i < kept.len() && left_out(kept, offered).contains(r) ==> #[trigger] rank_le(
            kept[i],
            r,
        )
}

/// The items of `offered` that are not in `kept`, with multiplicity.
pub open spec fn left_out<T>(kept: Seq<Ranked<T>>, offered: Seq<Ranked<T>>) -> Multiset<Ranked<T>> {
    offered.to_multiset().sub(kept.to_multiset())
}

/// The signed integer that orders single-precision values given by their bits:
/// the magnitude, negated where the sign bit is set. Both zeros map to zero.
pub open spec fn signed_magnitude(bits: u32) -> int {
    if bits < 0x8000_0000 {
        bits as int
    } else {
        0x8000_0000 - bits
    }
}

/// The integer that orders single-precision values given by their bits.
pub fn value_key(bits: u32) -> (key: i64)
    ensures
        key == signed_magnitude(bits),
        -0x8000_0000 < key < 0x8000_0000,
{
    if bits < 0x8000_0000 {
        bits as i64
    } else {
        0x8000_0000i64 - bits as i64
    }
}

impl<T> Ranked<T> {
    /// Whether `self` ranks strictly before `other`.
    pub fn before(&self, other: &Ranked<T>) -> (b: bool)
        ensures
            b == !rank_le(*other, *self),
    {
        self.key < other.key || (self.key == other.key && self.position < other.position)
    }
}

proof fn lemma_insert_to_multiset<A>(s: Seq<A>, i: int, v: A)
    requires
        0 <= i <= s.len(),
    ensures
        s.insert(i, v).to_multiset() == s.to_multiset().insert(v),
{
    let grown = s.insert(i, v);
    assert(grown.remove(i) =~= s);
    grown.to_multiset_ensures();
    assert(grown[i] == v);
    assert(grown.contains(v));
    assert(s.to_multiset().insert(v) =~= grown.to_multiset());
}

/// The best `k` items of everything offered so far.
pub struct TopK<T> {
    k: usize,
    items: Vec<Ranked<T>>,
    offered: Ghost<Seq<Ranked<T>>>,
}

impl<T> TopK<T> {
    /// How many items are kept at most.
    pub closed spec fn limit(self) -> nat {
        self.k as nat
    }

    /// Everything offered so far, in the order of the offers.
    pub closed spec fn offered(self) -> Seq<Ranked<T>> {
        self.offered@
    }

    /// The items kept, best first.
    pub closed spec fn kept(self) -> Seq<Ranked<T>> {
        self.items@
    }

    pub open spec fn wf(self) -> bool {
        is_best(self.kept(), self.offered(), self.limit())
    }

    pub fn new(k: usize) -> (top: TopK<T>)
        ensures
            top.wf(),
            top.limit() == k,
            top.offered() == Seq::<Ranked<T>>::empty(),
    {
        let top = TopK { k, items: Vec::new(), offered: Ghost(Seq::empty()) };
        proof {
            broadcast use vstd::multiset::group_multiset_axioms;
            let none = Seq::<Ranked<T>>::empty();
            none.to_multiset_ensures();
            assert(left_out(none, none) =~= Multiset::empty());
        }
        top
    }

    /// The first index whose item ranks after `item`.
    fn slot(&self, item: &Ranked<T>) -> (at: usize)
        requires
            in_rank_order(self.items@),
        ensures
            at <= self.items@.len(),
            forall|i: int| 0 <= i < at ==> rank_le(#[trigger] self.items@[i], *item),
            forall|i: int| at <= i < self.items@.len() ==> rank_le(*item, #[trigger] self.items@[i]),
    {
        let mut at: usize = self.items.len();
        while at > 0 && item.before(&self.items[at - 1])
            invariant
                at <= self.items@.len(),
                in_rank_order(self.items@),
                forall|i: int|
                    at <= i < self.items@.len() ==> rank_le(*item, #[trigger] self.items@[i]),
            decreases at,
        {
            at = at - 1;
        }
        at
    }

    /// Offers `item`; it is kept where it ranks among the best `k`.
    pub fn offer(&mut self, item: Ranked<T>)
        requires
            old(self).wf(),
            old(self).limit() > 0,
        ensures
            final(self).wf(),
            final(self).limit() == old(self).limit(),
            final(self).offered() == old(self).offered().push(item),
    {
        let ghost before = self.items@;
        let ghost seen = self.offered@;
        let ghost more = seen.push(item);
        proof {
            broadcast use vstd::multiset::group_multiset_axioms;
            seen.to_multiset_ensures();
            before.to_multiset_ensures();
            assert(more.to_multiset() =~= seen.to_multiset().insert(item));
        }
        if self.items.len() < self.k {
            let at: usize = self.slot(&item);
            self.items.insert(at, item);
            proof {
                broadcast use vstd::multiset::group_multiset_axioms;
                lemma_insert_to_multiset(before, at as int, item);
                assert(before.to_multiset().len() == seen.to_multiset().len());
                assert(left_out(before, seen).len() == 0);
                assert(left_out(self.items@, more) =~= left_out(before, seen));
                assert(left_out(before, seen) =~= Multiset::empty());
            }
        } else if item.before(&self.items[self.k - 1]) {
            let ghost worst = before.last();
            let ghost rest = before.drop_last();
            let _ = self.items.pop();
            proof {
                assert(self.items@ =~= rest);
                assert(before.remove(before.len() - 1) =~= rest);
                assert(before.contains(worst));
                assert(rest.to_multiset() =~= before.to_multiset().remove(worst));
            }
            let at: usize = self.slot(&item);
            self.items.insert(at, item);
            proof {
                broadcast use vstd::multiset::group_multiset_axioms;
                lemma_insert_to_multiset(rest, at as int, item);
                let now = self.items@;
                assert(before.to_multiset().count(worst) > 0);
                assert(left_out(now, more) =~= left_out(before, seen).insert(worst));
                assert forall|i: int, r: Ranked<T>|
                    0 <= i < now.len() && left_out(now, more).contains(r) implies #[trigger] rank_le(
                    now[i],
                    r,
                ) by {
                    assert(rank_le(now[i], worst)) by {
                        if i < at {
                            assert(now[i] == rest[i]);
                            assert(rank_le(before[i], before[before.len() - 1]));
                        } else if i > at {
                            assert(now[i] == rest[i - 1]);
                            assert(rank_le(before[i - 1], before[before.len() - 1]));
                        }
                    }
                    if r != worst {
                        assert(left_out(before, seen).contains(r));
                        assert(rank_le(before[before.len() - 1], r));
                    }
                }
            }
        } else {
            proof {
                broadcast use vstd::multiset::group_multiset_axioms;
                assert(left_out(before, more) =~= left_out(before, seen).insert(item));
                let last = before.len() - 1;
                assert(rank_le(before[last], item));
                assert forall|i: int, r: Ranked<T>|
                    0 <= i < before.len() && left_out(before, more).contains(r) implies #[trigger] rank_le(
                    before[i],
                    r,
                ) by {
                    assert(rank_le(before[i], before[last]));
                    if r != item {
                        assert(left_out(before, seen).contains(r));
                    }
                }
            }
        }
        self.offered = Ghost(more);
    }

    /// The kept items, best first.
    pub fn into_sorted_vec(self) -> (items: Vec<Ranked<T>>)
        requires
            self.wf(),
        ensures
            items@ == self.kept(),
            is_best(items@, self.offered(), self.limit()),
    {
        self.items
    }
}

proof fn lemma_take_to_multiset<A>(s: Seq<A>, n: int)
    requires
        0 <= n <= s.len(),
    ensures
        s.to_multiset() == s.take(n).to_multiset().add(s.skip(n).to_multiset()),
        s.take(n).to_multiset().len() == n,
{
    assert(s =~= s.take(n) + s.skip(n));
    vstd::seq_lib::lemma_multiset_commutative(s.take(n), s.skip(n));
    s.take(n).to_multiset_ensures();
}

proof fn lemma_not_before<T>(
    a: Seq<Ranked<T>>,
    b: Seq<Ranked<T>>,
    s: Seq<Ranked<T>>,
    t: Seq<Ranked<T>>,
    k: nat,
    i: int,
)
    requires
        is_best(a, s, k),
        is_best(b, t, k),
        s.to_multiset().subset_of(t.to_multiset()),
        0 <= i < a.len(),
        0 <= i < b.len(),
    ensures
        rank_le(b[i], a[i]),
{
    if !rank_le(b[i], a[i]) {
        broadcast use vstd::multiset::group_multiset_axioms;
        let all = t.to_multiset();
        let low = all.filter(|r: Ranked<T>| rank_le(r, a[i]));
        lemma_take_to_multiset(a, i + 1);
        lemma_take_to_multiset(b, i);
        a.take(i + 1).to_multiset_ensures();
        b.skip(i).to_multiset_ensures();
        let taken = a.take(i + 1);
        let dropped = b.skip(i);
        let head = taken.to_multiset();
        let lead = b.take(i).to_multiset();
        assert forall|r: Ranked<T>| #[trigger] head.count(r) <= low.count(r) by {
            if head.count(r) > 0 {
                assert(taken.contains(r));
                let j = choose|j: int| 0 <= j < taken.len() && taken[j] == r;
                assert(a[j] == r);
                assert(rank_le(a[j], a[i]));
                assert(a.to_multiset().count(r) <= s.to_multiset().count(r) <= all.count(r));
            }
        }
        assert forall|r: Ranked<T>| #[trigger] low.count(r) <= lead.count(r) by {
            if low.count(r) > 0 {
                assert(rank_le(r, a[i]));
                if left_out(b, t).contains(r) {
                    assert(rank_le(b[i], r));
                }
                if dropped.to_multiset().count(r) > 0 {
                    assert(dropped.contains(r));
                    let j = choose|j: int| 0 <= j < dropped.len() && dropped[j] == r;
                    assert(b[i + j] == r);
                    assert(rank_le(b[i], b[i + j]));
                }
                assert(all.count(r) == b.to_multiset().count(r) + left_out(b, t).count(r));
            }
        }
        assert(head.subset_of(low));
        assert(low.subset_of(lead));
        assert(low.sub(head).len() == low.len() - head.len());
        assert(lead.sub(low).len() == lead.len() - low.len());
    }
}

/// Offering more never worsens the selection: the best `k` of more items rank, place
/// by place, no later than the best `k` of fewer.
pub proof fn law_more_candidates_never_hurt<T>(
    a: Seq<Ranked<T>>,
    b: Seq<Ranked<T>>,
    s: Seq<Ranked<T>>,
    t: Seq<Ranked<T>>,
    k: nat,
)
    requires
        is_best(a, s, k),
        is_best(b, t, k),
        s.to_multiset().subset_of(t.to_multiset()),
    ensures
        a.len() <= b.len(),
        forall|i: int| 0 <= i < a.len() ==> rank_le(#[trigger] b[i], a[i]),
{
    broadcast use vstd::multiset::group_multiset_axioms;
    s.to_multiset_ensures();
    t.to_multiset_ensures();
    assert(t.to_multiset().sub(s.to_multiset()).len() == t.len() - s.len());
    assert forall|i: int| 0 <= i < a.len() implies rank_le(#[trigger] b[i], a[i]) by {
        lemma_not_before(a, b, s, t, k, i);
    }
}

/// The best `k` do not depend on the order in which items were offered: two
/// selections from the same items agree, place by place, on key and position.
pub proof fn law_best_is_unique<T>(
    a: Seq<Ranked<T>>,
    b: Seq<Ranked<T>>,
    s: Seq<Ranked<T>>,
    t: Seq<Ranked<T>>,
    k: nat,
)
    requires
        is_best(a, s, k),
        is_best(b, t, k),
        s.to_multiset() == t.to_multiset(),
    ensures
        a.len() == b.len(),
        forall|i: int|
            0 <= i < a.len() ==> (#[trigger] a[i]).key == b[i].key && a[i].position == b[i].position,
{
    s.to_multiset_ensures();
    t.to_multiset_ensures();
    assert forall|i: int| 0 <= i < a.len() implies (#[trigger] a[i]).key == b[i].key && a[i].position
        == b[i].position by {
        lemma_not_before(a, b, s, t, k, i);
        lemma_not_before(b, a, t, s, k, i);
    }
}

/// Everything that is kept was offered.
pub proof fn law_kept_were_offered<T>(kept: Seq<Ranked<T>>, offered: Seq<Ranked<T>>, k: nat, i: int)
    requires
        is_best(kept, offered, k),
        0 <= i < kept.len(),
    ensures
        offered.contains(kept[i]),
{
    kept.to_multiset_ensures();
    offered.to_multiset_ensures();
    assert(kept.contains(kept[i]));
    assert(kept.to_multiset().count(kept[i]) > 0);
    assert(offered.to_multiset().count(kept[i]) > 0);
}

/// Nothing that was left out ranks strictly before anything that was kept.
pub proof fn law_kept_dominate<T>(kept: Seq<Ranked<T>>, offered: Seq<Ranked<T>>, k: nat, i: int, j: int)
    requires
        is_best(kept, offered, k),
        0 <= i < kept.len(),
        0 <= j < offered.len(),
        !kept.contains(offered[j]),
    ensures
        rank_le(kept[i], offered[j]),
{
    broadcast use vstd::multiset::group_multiset_axioms;
    kept.to_multiset_ensures();
    offered.to_multiset_ensures();
    assert(offered.contains(offered[j]));
    assert(left_out(kept, offered).contains(offered[j]));
}

/// Where there is room for everything that was offered, everything is kept.
pub proof fn law_all_are_kept<T>(kept: Seq<Ranked<T>>, offered: Seq<Ranked<T>>, k: nat, j: int)
    requires
        is_best(kept, offered, k),
        offered.len() <= k,
        0 <= j < offered.len(),
    ensures
        kept.contains(offered[j]),
{
    broadcast use vstd::multiset::group_multiset_axioms;
    kept.to_multiset_ensures();
    offered.to_multiset_ensures();
    assert(offered.contains(offered[j]));
    let rest = left_out(kept, offered);
    assert(rest.len() == offered.len() - kept.len());
    assert(rest.count(offered[j]) == 0);
    assert(kept.to_multiset().count(offered[j]) > 0);
}

} // verus!
