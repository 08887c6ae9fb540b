//! Sparse datasets: rows of component and value pairs, delimited by offsets.

use crate::error::IndexError;
use vstd::prelude::*;

verus! {

/// Offsets that start at 0, never decrease, and end at `len`.
pub open spec fn are_offsets(offsets: Seq<usize>, len: nat) -> bool {
    &&& offsets.len() > 0
    &&& offsets[0] == 0
    &&& offsets.last() == len
    &&& non_decreasing(offsets)
}

pub open spec fn non_decreasing(offsets: Seq<usize>) -> bool {
    forall|i: int, j: int| 0 <= i <= j < offsets.len() ==> #[trigger] offsets[i] <= #[trigger] offsets[j]
}

/// The first of the conditions on offsets that does not hold.
pub open spec fn offsets_error(offsets: Seq<usize>, len: nat) -> Option<IndexError> {
    if offsets.len() == 0 {
        Some(IndexError::OffsetsEmpty)
    } else if offsets[0] != 0 {
        Some(IndexError::OffsetsStart)
    } else if offsets.last() != len {
        Some(IndexError::OffsetsEnd)
    } else if !non_decreasing(offsets) {
        Some(IndexError::OffsetsOrder)
    } else {
        None
    }
}

/// Checks that `offsets` delimit rows of `values_len` values.
pub fn validate_offsets(offsets: &[usize], values_len: usize) -> (checked: Result<(), IndexError>)
    ensures
        checked == (match offsets_error(offsets@, values_len as nat) {
            Some(error) => Err::<(), IndexError>(error),
            None => Ok(()),
        }),
        checked is Ok <==> are_offsets(offsets@, values_len as nat),
{
    if offsets.len() == 0 {
        return Err(IndexError::OffsetsEmpty);
    }
    if offsets[0] != 0 {
        return Err(IndexError::OffsetsStart);
    }
    if offsets[offsets.len() - 1] != values_len {
        return Err(IndexError::OffsetsEnd);
    }
    let mut i: usize = 1;
    while i < offsets.len()
        invariant
            1 <= i <= offsets@.len(),
            offsets@[0] == 0,
            offsets@.last() == values_len,
            forall|a: int, b: int| 0 <= a <= b < i ==> #[trigger] offsets@[a] <= #[trigger] offsets@[b],
        decreases offsets.len() - i,
    {
        if offsets[i - 1] > offsets[i] {
            return Err(IndexError::OffsetsOrder);
        }
        assert forall|a: int, b: int| 0 <= a <= b < i + 1 implies #[trigger] offsets@[a]
            <= #[trigger] offsets@[b] by {
            if a < i && b == i {
                assert(offsets@[a] <= offsets@[i - 1]);
            }
        }
        i = i + 1;
    }
    Ok(())
}

/// The position that a given offset names; one that no position can have becomes
/// the largest position there is.
pub open spec fn position_of(offset: i64) -> usize {
    if 0 <= offset <= usize::MAX {
        offset as usize
    } else {
        usize::MAX
    }
}

/// The positions that the given offsets name.
pub fn offsets_to_positions(offsets: &[i64]) -> (positions: Vec<usize>)
    ensures
        positions@ == offsets@.map_values(|o: i64| position_of(o)),
{
    let mut positions: Vec<usize> = Vec::new();
    let mut i: usize = 0;
    while i < offsets.len()
        invariant
            i <= offsets@.len(),
            positions@.len() == i,
            forall|j: int| 0 <= j < i ==> #[trigger] positions@[j] == position_of(offsets@[j]),
        decreases offsets.len() - i,
    {
        let offset: i64 = offsets[i];
        let position: usize = if offset >= 0 && offset as u64 <= usize::MAX as u64 {
            offset as usize
        } else {
            usize::MAX
        };
        positions.push(position);
        i = i + 1;
    }
    assert(positions@ =~= offsets@.map_values(|o: i64| position_of(o)));
    positions
}

/// Whether a component fits 16 bits.
pub open spec fn fits_u16(component: i32) -> bool {
    0 <= component <= u16::MAX
}

/// The components as 16-bit numbers, where all of them fit.
pub fn convert_components_to_u16(components: &[i32]) -> (converted: Result<Vec<u16>, IndexError>)
    ensures
        match converted {
            Ok(out) => {
                &&& forall|i: int| 0 <= i < components@.len() ==> fits_u16(#[trigger] components@[i])
                &&& out@ == components@.map_values(|c: i32| c as u16)
            },
            Err(error) => {
                &&& error == IndexError::ComponentOutOfRange
                &&& exists|i: int| 0 <= i < components@.len() && !fits_u16(#[trigger] components@[i])
            },
        },
{
    let mut out: Vec<u16> = Vec::new();
    let mut i: usize = 0;
    while i < components.len()
        invariant
            i <= components@.len(),
            out@.len() == i,
            forall|j: int| 0 <= j < i ==> fits_u16(#[trigger] components@[j]),
            forall|j: int| 0 <= j < i ==> #[trigger] out@[j] == components@[j] as u16,
        decreases components.len() - i,
    {
        let c: i32 = components[i];
        if c < 0 || c > 65535 {
            assert(!fits_u16(components@[i as int]));
            return Err(IndexError::ComponentOutOfRange);
        }
        out.push(c as u16);
        i = i + 1;
    }
    assert(out@ =~= components@.map_values(|c: i32| c as u16));
    Ok(out)
}

/// The smallest dimension that has all of the components: one more than the
/// largest of them, 0 where there are none.
pub open spec fn is_dimension_of(components: Seq<u16>, dim: int) -> bool {
    &&& forall|i: int| 0 <= i < components.len() ==> #[trigger] components[i] < dim
    &&& components.len() == 0 ==> dim == 0
    &&& components.len() > 0 ==> exists|i: int|
        0 <= i < components.len() && #[trigger] components[i] + 1 == dim
}

/// The smallest dimension that has all of the components.
pub fn dimension_of(components: &[u16]) -> (dim: usize)
    ensures
        is_dimension_of(components@, dim as int),
{
    let mut dim: usize = 0;
    let mut i: usize = 0;
    while i < components.len()
        invariant
            i <= components@.len(),
            dim <= 65536,
            is_dimension_of(components@.take(i as int), dim as int),
        decreases components.len() - i,
    {
        let c: u16 = components[i];
        let ghost before = components@.take(i as int);
        let ghost now = components@.take(i + 1);
        let ghost old_dim = dim;
        if c as usize + 1 > dim {
            dim = c as usize + 1;
        }
        proof {
            assert(now =~= before.push(c));
            assert(now[i as int] == c);
            assert forall|j: int| 0 <= j < now.len() implies #[trigger] now[j] < dim by {
                if j < i {
                    assert(before[j] < old_dim);
                }
            }
            if dim == old_dim && i > 0 {
                let j = choose|j: int| 0 <= j < before.len() && #[trigger] before[j] + 1 == old_dim;
                assert(now[j] + 1 == dim);
            } else if i == 0 {
                assert(now[0] + 1 == dim);
            } else {
                assert(now[i as int] + 1 == dim);
            }
        }
        i = i + 1;
    }
    assert(components@.take(components@.len() as int) =~= components@);
    dim
}

/// Rows of component and value pairs.
pub struct PlainSparseDataset<V> {
    components: Vec<u16>,
    values: Vec<V>,
    /// Row `i` holds the pairs from `offsets[i]` up to `offsets[i + 1]`.
    offsets: Vec<usize>,
    dim: usize,
}

impl<V> PlainSparseDataset<V> {
    /// All components, row after row.
    pub closed spec fn spec_components(self) -> Seq<u16> {
        self.components@
    }

    /// All values, row after row.
    pub closed spec fn spec_values(self) -> Seq<V> {
        self.values@
    }

    /// The offsets of the rows.
    pub closed spec fn spec_offsets(self) -> Seq<usize> {
        self.offsets@
    }

    /// The dimension of the rows.
    pub closed spec fn spec_dim(self) -> nat {
        self.dim as nat
    }

    /// The number of rows.
    pub open spec fn spec_len(self) -> int {
        self.spec_offsets().len() - 1
    }

    /// The components of row `i`.
    pub open spec fn row_components(self, i: int) -> Seq<u16> {
        self.spec_components().subrange(
            self.spec_offsets()[i] as int,
            self.spec_offsets()[i + 1] as int,
        )
    }

    /// The values of row `i`.
    pub open spec fn row_values(self, i: int) -> Seq<V> {
        self.spec_values().subrange(
            self.spec_offsets()[i] as int,
            self.spec_offsets()[i + 1] as int,
        )
    }

    pub open spec fn wf(self) -> bool {
        &&& are_offsets(self.spec_offsets(), self.spec_values().len())
        &&& self.spec_components().len() == self.spec_values().len()
    }

    /// A dataset without rows.
    pub fn new(dim: usize) -> (dataset: PlainSparseDataset<V>)
        ensures
            dataset.wf(),
            dataset.spec_len() == 0,
            dataset.spec_dim() == dim,
    {
        let mut offsets: Vec<usize> = Vec::new();
        offsets.push(0);
        PlainSparseDataset { components: Vec::new(), values: Vec::new(), offsets, dim }
    }

    pub fn len(&self) -> (n: usize)
        requires
            self.wf(),
        ensures
            n == self.spec_len(),
    {
        self.offsets.len() - 1
    }

    pub fn input_dim(&self) -> (dim: usize)
        ensures
            dim == self.spec_dim(),
    {
        self.dim
    }

    /// Row `i`.
    pub fn get(&self, i: usize) -> (row: (&[u16], &[V]))
        requires
            self.wf(),
            i < self.spec_len(),
        ensures
            row.0@ == self.row_components(i as int),
            row.1@ == self.row_values(i as int),
    {
        assert(i + 1 < self.offsets.len());
        let start: usize = self.offsets[i];
        let end: usize = self.offsets[i + 1];
        assert(self.spec_offsets()[i + 1] <= self.spec_offsets()[self.spec_offsets().len() - 1]);
        (
            vstd::slice::slice_subrange(self.components.as_slice(), start, end),
            vstd::slice::slice_subrange(self.values.as_slice(), start, end),
        )
    }
}

impl<V: Copy> PlainSparseDataset<V> {
    /// Appends a row.
    pub fn push(&mut self, components: &[u16], values: &[V])
        requires
            old(self).wf(),
            components@.len() == values@.len(),
            old(self).spec_values().len() + values@.len() <= usize::MAX,
        ensures
            final(self).wf(),
            final(self).spec_dim() == old(self).spec_dim(),
            final(self).spec_len() == old(self).spec_len() + 1,
            final(self).spec_components() == old(self).spec_components() + components@,
            final(self).spec_values() == old(self).spec_values() + values@,
            final(self).spec_offsets() == old(self).spec_offsets().push(
                (old(self).spec_values().len() + values@.len()) as usize,
            ),
    {
        let mut c: Vec<u16> = crate::dense::copy_values(components);
        let mut v: Vec<V> = crate::dense::copy_values(values);
        self.components.append(&mut c);
        self.values.append(&mut v);
        let end: usize = self.values.len();
        let ghost before = self.offsets@;
        self.offsets.push(end);
        proof {
            assert(before.last() <= end);
            assert forall|i: int, j: int| 0 <= i <= j < self.offsets@.len() implies
                #[trigger] self.offsets@[i] <= #[trigger] self.offsets@[j] by {
                if j == before.len() && i < before.len() {
                    assert(before[i] <= before[before.len() - 1]);
                }
            }
        }
    }
}

/// A dataset from its components and values, with one row between each two
/// consecutive offsets.
pub fn build_sparse_dataset_from_parts<V: Copy>(
    components: &[u16],
    values: &[V],
    offsets: &[usize],
    dim: usize,
) -> (built: Result<PlainSparseDataset<V>, IndexError>)
    requires
        are_offsets(offsets@, values@.len()) ==> values@.len() <= components@.len(),
    ensures
        match built {
            Ok(dataset) => {
                &&& are_offsets(offsets@, values@.len())
                &&& dataset.wf()
                &&& dataset.spec_dim() == dim
                &&& dataset.spec_offsets() == offsets@
                &&& dataset.spec_values() == values@
                &&& dataset.spec_components() == components@.take(values@.len() as int)
            },
            Err(error) => offsets_error(offsets@, values@.len()) == Some(error),
        },
        built is Ok <==> are_offsets(offsets@, values@.len()),
{
    match validate_offsets(offsets, values.len()) {
        Ok(()) => {},
        Err(error) => {
            return Err(error);
        },
    }
    let mut dataset: PlainSparseDataset<V> = PlainSparseDataset::new(dim);
    let mut i: usize = 0;
    assert(dataset.spec_values() =~= values@.take(0));
    assert(dataset.spec_components() =~= components@.take(0));
    assert(dataset.spec_offsets() =~= offsets@.take(1));
    while i < offsets.len() - 1
        invariant
            i <= offsets@.len() - 1,
            are_offsets(offsets@, values@.len()),
            values@.len() <= components@.len(),
            dataset.wf(),
            dataset.spec_dim() == dim,
            dataset.spec_values() == values@.take(offsets@[i as int] as int),
            dataset.spec_components() == components@.take(offsets@[i as int] as int),
            dataset.spec_offsets() == offsets@.take(i + 1),
        decreases offsets.len() - i,
    {
        let start: usize = offsets[i];
        let end: usize = offsets[i + 1];
        assert(start <= end);
        assert(offsets@[i + 1] <= offsets@[offsets@.len() - 1]);
        assert(values@.len() == values.len());
        let row_components = vstd::slice::slice_subrange(components, start, end);
        let row_values = vstd::slice::slice_subrange(values, start, end);
        dataset.push(row_components, row_values);
        proof {
            assert(values@.take(end as int) =~= values@.take(start as int) + row_values@);
            assert(components@.take(end as int) =~= components@.take(start as int) + row_components@);
            assert(offsets@.take(i + 2) =~= offsets@.take(i + 1).push(end));
        }
        i = i + 1;
    }
    proof {
        assert(values@.take(values@.len() as int) =~= values@);
        assert(offsets@.take(offsets@.len() as int) =~= offsets@);
    }
    Ok(dataset)
}

/// The rows of a dataset, one after the other, are all of its pairs.
pub proof fn law_rows_make_up_dataset<V>(dataset: PlainSparseDataset<V>, rows: Seq<Seq<V>>)
    requires
        dataset.wf(),
        rows.len() == dataset.spec_len(),
        forall|i: int| 0 <= i < rows.len() ==> #[trigger] rows[i] == dataset.row_values(i),
    ensures
        rows.flatten() == dataset.spec_values(),
{
    lemma_rows_prefix(dataset, rows, rows.len());
    assert(rows.take(rows.len() as int) =~= rows);
    let offsets = dataset.spec_offsets();
    assert(dataset.spec_values().take(offsets.last() as int) =~= dataset.spec_values());
}

proof fn lemma_rows_prefix<V>(dataset: PlainSparseDataset<V>, rows: Seq<Seq<V>>, n: nat)
    requires
        dataset.wf(),
        rows.len() == dataset.spec_len(),
        forall|i: int| 0 <= i < rows.len() ==> #[trigger] rows[i] == dataset.row_values(i),
        n <= rows.len(),
    ensures
        rows.take(n as int).flatten() == dataset.spec_values().take(
            dataset.spec_offsets()[n as int] as int,
        ),
    decreases n,
{
    let offsets = dataset.spec_offsets();
    let values = dataset.spec_values();
    if n == 0 {
        assert(rows.take(0) =~= Seq::empty());
        assert(rows.take(0).flatten() =~= values.take(0));
    } else {
        lemma_rows_prefix(dataset, rows, (n - 1) as nat);
        assert(rows.take(n as int) =~= rows.take(n - 1).push(rows[n - 1]));
        rows.take(n - 1).lemma_flatten_push(rows[n - 1]);
        assert(offsets[n - 1] <= offsets[n as int]);
        assert(offsets[n as int] <= offsets[offsets.len() - 1]);
        assert(values.take(offsets[n as int] as int) =~= values.take(offsets[n - 1] as int) + rows[n
            - 1]);
    }
}

/// No negative offset is accepted.
pub proof fn law_negative_offsets_are_rejected(offsets: Seq<i64>, len: nat, i: int)
    requires
        0 <= i < offsets.len(),
        offsets[i] < 0,
        len < usize::MAX,
    ensures
        !are_offsets(offsets.map_values(|o: i64| position_of(o)), len),
{
    let positions = offsets.map_values(|o: i64| position_of(o));
    assert(positions[i] == usize::MAX);
    if are_offsets(positions, len) {
        assert(positions[i] <= positions[positions.len() - 1]);
    }
}

} // verus!
