//! Sequences of parts, put in a row.

use vstd::prelude::*;

verus! {

/// Every entry of a part is an entry of the parts in a row.
pub proof fn lemma_in_flatten<A>(parts: Seq<Seq<A>>, i: int, j: int)
    requires
        0 <= i < parts.len(),
        0 <= j < parts[i].len(),
    ensures
        parts.flatten().contains(parts[i][j]),
    decreases parts.len(),
{
    let head = parts.drop_last();
    head.lemma_flatten_push(parts.last());
    assert(head.push(parts.last()) =~= parts);
    let all = parts.flatten();
    if i < head.len() {
        lemma_in_flatten(head, i, j);
        let p = choose|p: int| 0 <= p < head.flatten().len() && #[trigger] head.flatten()[p] == parts[i][j];
        assert(all[p] == parts[i][j]);
    } else {
        assert(all[head.flatten().len() + j] == parts[i][j]);
    }
}

/// Every entry of the parts in a row is an entry of one of them, found behind all the
/// entries of the parts before it.
pub proof fn lemma_from_flatten<A>(parts: Seq<Seq<A>>, p: int) -> (place: (int, int))
    requires
        0 <= p < parts.flatten().len(),
    ensures
        0 <= place.0 < parts.len(),
        0 <= place.1 < parts[place.0].len(),
        parts[place.0][place.1] == parts.flatten()[p],
        parts.take(place.0).flatten().len() + place.1 == p,
    decreases parts.len(),
{
    if parts.len() == 0 {
        assert(parts.flatten() =~= Seq::empty());
        (0, 0)
    } else {
        let head = parts.drop_last();
        head.lemma_flatten_push(parts.last());
        assert(head.push(parts.last()) =~= parts);
        if p < head.flatten().len() {
            let place = lemma_from_flatten(head, p);
            assert(parts.take(place.0) =~= head.take(place.0));
            place
        } else {
            let last = head.len() as int;
            assert(parts.take(last) =~= head);
            (last, p - head.flatten().len())
        }
    }
}

/// Entry `j` of part `i` stands behind all the entries of the parts before it.
pub proof fn lemma_place_in_flatten<A>(parts: Seq<Seq<A>>, i: int, j: int)
    requires
        0 <= i < parts.len(),
        0 <= j < parts[i].len(),
    ensures
        parts.take(i).flatten().len() + j < parts.flatten().len(),
        parts.flatten()[parts.take(i).flatten().len() + j] == parts[i][j],
    decreases parts.len(),
{
    let head = parts.drop_last();
    head.lemma_flatten_push(parts.last());
    assert(head.push(parts.last()) =~= parts);
    if i < head.len() {
        lemma_place_in_flatten(head, i, j);
        assert(parts.take(i) =~= head.take(i));
    } else {
        assert(parts.take(i) =~= head);
    }
}

} // verus!
