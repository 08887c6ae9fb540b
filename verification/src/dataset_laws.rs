//! Datasets value by value: what rows hold, what is rejected, and what loading rebuilds.

use crate::arithmetic::Arithmetic;
use crate::dense::{convert_values, copy_values, PlainDenseDataset};
use crate::error::{BuildError, IndexError};
use crate::multivec::{
    all_assigned, decode_dataset, decodes, delimit_documents, document_offsets, first_unassigned,
    load_multivec_dataset_plain, load_multivec_dataset_pq_generic, plain_dataset, rebuild_tokens, rebuilds,
    supports_two_level, tokens_before, MultiVectorDataset,
};
use crate::sparse::{
    build_sparse_dataset_from_parts, convert_components_to_u16, dimension_of, offsets_to_positions,
    validate_offsets, PlainSparseDataset,
};
use vstd::prelude::*;

verus! {

/// A dense dataset has the values, the rows and the dimension it is made of.
pub proof fn law_dense_datasets<T>(
    values: Vec<T>,
    len: usize,
    dim: usize,
    dataset: PlainDenseDataset<T>,
    n: usize,
    d: usize,
    held: &Vec<T>,
)
    requires
        call_ensures(PlainDenseDataset::<T>::from_raw, (values, len, dim), dataset),
        call_ensures(PlainDenseDataset::<T>::len, (&dataset,), n),
        call_ensures(PlainDenseDataset::<T>::input_dim, (&dataset,), d),
        call_ensures(PlainDenseDataset::<T>::values, (&dataset,), held),
    ensures
        n == len,
        d == dim,
        held@ == values@,
        dataset.spec_values() == values@,
        dataset.spec_len() == len,
        dataset.spec_dim() == dim,
{
}

/// Row `i` holds the values from `i * dim` on.
pub proof fn law_dense_rows<T>(dataset: &PlainDenseDataset<T>, i: usize, row: &[T])
    requires
        dataset.wf(),
        i < dataset.spec_len(),
        call_ensures(PlainDenseDataset::<T>::get, (dataset, i), row),
    ensures
        row@.len() == dataset.spec_dim(),
        forall|j: int|
            0 <= j < dataset.spec_dim() ==> #[trigger] row@[j] == dataset.spec_values()[i * dataset.spec_dim()
                + j],
        forall|j: int| 0 <= j < dataset.spec_dim() ==> #[trigger] row@[j] == dataset.cell(i as int, j),
{
    crate::dense::lemma_row(i as int, dataset.spec_dim() as int, dataset.spec_len() as int);
}

/// Values are copied as they are, and converted one by one.
pub proof fn law_values_are_converted<T: Copy, V, F: Fn(T) -> V>(
    values: &[T],
    copied: Vec<T>,
    f: &F,
    out: Vec<V>,
    dataset: &PlainDenseDataset<T>,
    converted: PlainDenseDataset<V>,
)
    requires
        call_ensures(copy_values::<T>, (values,), copied),
        call_ensures(convert_values::<T, V, F>, (values, f), out),
        call_ensures(PlainDenseDataset::<T>::convert::<V, F>, (dataset, f), converted),
    ensures
        copied@.len() == values@.len(),
        forall|i: int| 0 <= i < values@.len() ==> #[trigger] copied@[i] == values@[i],
        out@.len() == values@.len(),
        forall|i: int| 0 <= i < values@.len() ==> call_ensures(*f, (values@[i],), #[trigger] out@[i]),
        converted.spec_len() == dataset.spec_len(),
        converted.spec_dim() == dataset.spec_dim(),
        converted.spec_values().len() == dataset.spec_values().len(),
        forall|i: int|
            0 <= i < converted.spec_values().len() ==> call_ensures(
                *f,
                (dataset.spec_values()[i],),
                #[trigger] converted.spec_values()[i],
            ),
{
}

/// A selection holds the rows asked for, in their order.
pub proof fn law_rows_are_selected<T: Copy>(
    dataset: &PlainDenseDataset<T>,
    indices: &[usize],
    picked: PlainDenseDataset<T>,
)
    requires
        call_ensures(PlainDenseDataset::<T>::select, (dataset, indices), picked),
    ensures
        picked.spec_len() == indices@.len(),
        picked.spec_dim() == dataset.spec_dim(),
        picked.spec_values().len() == indices@.len() * dataset.spec_dim(),
        forall|k: int, j: int|
            0 <= k < indices@.len() && 0 <= j < dataset.spec_dim() ==> #[trigger] picked.spec_values()[k
                * dataset.spec_dim() + j] == dataset.spec_values()[indices@[k] * dataset.spec_dim() + j],
{
    let dim = dataset.spec_dim();
    assert forall|k: int, j: int| 0 <= k < indices@.len() && 0 <= j < dim implies #[trigger] picked.spec_values()[k
        * dim + j] == dataset.spec_values()[indices@[k] * dim + j] by {
        assert(picked.cell(k, j) == dataset.cell(indices@[k] as int, j));
    }
}

/// Whether offsets never go down from one to the next.
pub open spec fn never_fall(offsets: Seq<usize>) -> bool {
    forall|i: int, j: int|
        0 <= i < j < offsets.len() && j == i + 1 ==> #[trigger] offsets[i] <= #[trigger] offsets[j]
}

proof fn lemma_never_fall(offsets: Seq<usize>, i: int, j: int)
    requires
        never_fall(offsets),
        0 <= i <= j < offsets.len(),
    ensures
        offsets[i] <= offsets[j],
    decreases j - i,
{
    if i < j {
        lemma_never_fall(offsets, i, j - 1);
        assert(offsets[j - 1] <= offsets[j]);
    }
}

proof fn lemma_order_of_offsets(offsets: Seq<usize>)
    ensures
        crate::sparse::non_decreasing(offsets) <==> never_fall(offsets),
{
    if never_fall(offsets) {
        assert forall|i: int, j: int| 0 <= i <= j < offsets.len() implies #[trigger] offsets[i]
            <= #[trigger] offsets[j] by {
            lemma_never_fall(offsets, i, j);
        }
    }
}

/// Offsets are accepted where they start at 0, end at the number of values and never
/// fall; each error names the first of these that does not hold.
pub proof fn law_offsets_are_checked(offsets: &[usize], len: usize, checked: Result<(), IndexError>)
    requires
        call_ensures(validate_offsets, (offsets, len), checked),
    ensures
        checked is Ok <==> offsets@.len() > 0 && offsets@[0] == 0 && offsets@[offsets@.len() - 1] == len
            && never_fall(offsets@),
        checked matches Err(error) ==> {
            &&& error == IndexError::OffsetsEmpty <==> offsets@.len() == 0
            &&& error == IndexError::OffsetsStart <==> offsets@.len() > 0 && offsets@[0] != 0
            &&& error == IndexError::OffsetsEnd <==> offsets@.len() > 0 && offsets@[0] == 0
                && offsets@[offsets@.len() - 1] != len
            &&& error == IndexError::OffsetsOrder <==> offsets@.len() > 0 && offsets@[0] == 0
                && offsets@[offsets@.len() - 1] == len && !never_fall(offsets@)
        },
{
    lemma_order_of_offsets(offsets@);
}

/// Offsets name the positions they are equal to; negative ones name the last position
/// that there could be.
pub proof fn law_offsets_name_positions(offsets: &[i64], positions: Vec<usize>)
    requires
        call_ensures(offsets_to_positions, (offsets,), positions),
    ensures
        positions@.len() == offsets@.len(),
        forall|i: int|
            0 <= i < offsets@.len() && 0 <= offsets@[i] <= usize::MAX ==> #[trigger] positions@[i]
                == offsets@[i],
        forall|i: int|
            0 <= i < offsets@.len() && (offsets@[i] < 0 || offsets@[i] > usize::MAX)
                ==> #[trigger] positions@[i] == usize::MAX,
{
}

/// Components are converted where all lie in 0 to 65535, each to the same number.
pub proof fn law_components_are_converted(components: &[i32], converted: Result<Vec<u16>, IndexError>)
    requires
        call_ensures(convert_components_to_u16, (components,), converted),
    ensures
        converted is Ok <==> forall|i: int|
            0 <= i < components@.len() ==> 0 <= #[trigger] components@[i] <= 65535,
        converted matches Ok(out) ==> {
            &&& out@.len() == components@.len()
            &&& forall|i: int| 0 <= i < components@.len() ==> #[trigger] out@[i] == components@[i]
        },
        converted matches Err(error) ==> error == IndexError::ComponentOutOfRange,
{
    if converted is Ok {
        assert forall|i: int| 0 <= i < components@.len() implies 0 <= #[trigger] components@[i] <= 65535 by {
            assert(crate::sparse::fits_u16(components@[i]));
        }
    }
}

/// The dimension is one more than the greatest component, 0 where there is none.
pub proof fn law_dimension_of_components(components: &[u16], dim: usize)
    requires
        call_ensures(dimension_of, (components,), dim),
    ensures
        components@.len() == 0 <==> dim == 0,
        forall|i: int| 0 <= i < components@.len() ==> #[trigger] components@[i] <= dim - 1,
        dim > 0 ==> exists|i: int| 0 <= i < components@.len() && #[trigger] components@[i] == dim - 1,
{
    if components@.len() > 0 {
        let i = choose|i: int| 0 <= i < components@.len() && #[trigger] components@[i] + 1 == dim;
        assert(components@[i] == dim - 1);
    }
}

/// A new sparse dataset has no rows; a row holds the pairs between its two offsets.
pub proof fn law_sparse_rows<V>(
    dim: usize,
    fresh: PlainSparseDataset<V>,
    dataset: &PlainSparseDataset<V>,
    n: usize,
    d: usize,
    i: usize,
    row: (&[u16], &[V]),
)
    requires
        dataset.wf(),
        i + 1 < dataset.spec_offsets().len(),
        call_ensures(PlainSparseDataset::<V>::new, (dim,), fresh),
        call_ensures(PlainSparseDataset::<V>::len, (dataset,), n),
        call_ensures(PlainSparseDataset::<V>::input_dim, (dataset,), d),
        call_ensures(PlainSparseDataset::<V>::get, (dataset, i), row),
    ensures
        fresh.spec_offsets() == seq![0usize],
        fresh.spec_values().len() == 0,
        fresh.spec_components().len() == 0,
        fresh.spec_dim() == dim,
        n + 1 == dataset.spec_offsets().len(),
        d == dataset.spec_dim(),
        row.0@.len() == dataset.spec_offsets()[i + 1] - dataset.spec_offsets()[i as int],
        row.1@.len() == dataset.spec_offsets()[i + 1] - dataset.spec_offsets()[i as int],
        forall|j: int|
            0 <= j < row.0@.len() ==> #[trigger] row.0@[j]
                == dataset.spec_components()[dataset.spec_offsets()[i as int] + j],
        forall|j: int|
            0 <= j < row.1@.len() ==> #[trigger] row.1@[j]
                == dataset.spec_values()[dataset.spec_offsets()[i as int] + j],
{
    assert(fresh.spec_offsets() =~= seq![0usize]);
    let offsets = dataset.spec_offsets();
    assert(offsets[i as int] <= offsets[i + 1]);
    assert(offsets[i + 1] <= offsets[offsets.len() - 1]);
}

/// A sparse dataset is built where its offsets are accepted, from all of its values and
/// as many components.
pub proof fn law_sparse_datasets<V: Copy>(
    components: &[u16],
    values: &[V],
    offsets: &[usize],
    dim: usize,
    built: Result<PlainSparseDataset<V>, IndexError>,
)
    requires
        values@.len() <= components@.len(),
        call_ensures(build_sparse_dataset_from_parts::<V>, (components, values, offsets, dim), built),
    ensures
        built is Ok <==> offsets@.len() > 0 && offsets@[0] == 0 && offsets@[offsets@.len() - 1]
            == values@.len() && never_fall(offsets@),
        built matches Ok(dataset) ==> {
            &&& dataset.spec_dim() == dim
            &&& dataset.spec_offsets() == offsets@
            &&& dataset.spec_values() == values@
            &&& dataset.spec_components().len() == values@.len()
            &&& forall|i: int|
                0 <= i < values@.len() ==> #[trigger] dataset.spec_components()[i] == components@[i]
        },
        built matches Err(error) ==> {
            &&& error == IndexError::OffsetsEmpty <==> offsets@.len() == 0
            &&& error == IndexError::OffsetsStart <==> offsets@.len() > 0 && offsets@[0] != 0
            &&& error == IndexError::OffsetsEnd <==> offsets@.len() > 0 && offsets@[0] == 0
                && offsets@[offsets@.len() - 1] != values@.len()
            &&& error == IndexError::OffsetsOrder <==> offsets@.len() > 0 && offsets@[0] == 0
                && offsets@[offsets@.len() - 1] == values@.len() && !never_fall(offsets@)
        },
{
    lemma_order_of_offsets(offsets@);
}

/// Whether offsets delimit documents: from 0 on, each as many values as its tokens have.
pub open spec fn are_documents(offsets: Seq<usize>, doclens: Seq<i32>, token_dim: int) -> bool {
    &&& offsets.len() == doclens.len() + 1
    &&& offsets[0] == 0
    &&& forall|i: int|
        0 <= i < doclens.len() ==> offsets[i + 1] - offsets[i] == #[trigger] doclens[i] * token_dim
}

proof fn lemma_are_documents(offsets: Seq<usize>, doclens: Seq<i32>, token_dim: nat)
    requires
        delimit_documents(offsets, doclens, token_dim),
    ensures
        are_documents(offsets, doclens, token_dim as int),
{
    assert(tokens_before(doclens, 0) * token_dim == 0) by (nonlinear_arith)
        requires
            tokens_before(doclens, 0) == 0,
    ;
    assert forall|i: int| 0 <= i < doclens.len() implies offsets[i + 1] - offsets[i] == #[trigger] doclens[i]
        * (token_dim as int) by {
        let before = tokens_before(doclens, i as nat);
        let after = tokens_before(doclens, (i + 1) as nat);
        assert(offsets[i + 1] == after * token_dim);
        assert(offsets[i] == before * token_dim);
        assert(after * token_dim == before * token_dim + doclens[i] * token_dim) by (nonlinear_arith)
            requires
                after == before + doclens[i],
        ;
    }
}

/// Document offsets add up the lengths of the documents.
pub proof fn law_document_offsets(doclens: &[i32], token_dim: usize, offsets: Vec<usize>)
    requires
        call_ensures(document_offsets, (doclens, token_dim), offsets),
    ensures
        are_documents(offsets@, doclens@, token_dim as int),
{
    lemma_are_documents(offsets@, doclens@, token_dim as nat);
}

/// Plain documents hold their values, each widened.
pub proof fn law_plain_documents<T, W: Fn(u16) -> T>(
    documents: &[u16],
    token_dim: usize,
    doclens: &[i32],
    widen: &W,
    dataset: MultiVectorDataset<T>,
)
    requires
        call_ensures(plain_dataset::<T, W>, (documents, token_dim, doclens, widen), dataset),
    ensures
        dataset.values@.len() == documents@.len(),
        forall|i: int|
            0 <= i < documents@.len() ==> call_ensures(
                *widen,
                (documents@[i],),
                #[trigger] dataset.values@[i],
            ),
        dataset.token_dim == token_dim,
        are_documents(dataset.offsets@, doclens@, token_dim as int),
{
    lemma_are_documents(dataset.offsets@, doclens@, token_dim as nat);
}

/// Whether value `d` of subspace `s` of every token `t` is the sum of a value of its
/// coarse centroid and a value of the codebook entry, out of 256, that its code names.
pub open spec fn are_rebuilt<T, A: Arithmetic<T>>(
    ops: &A,
    values: Seq<T>,
    coarse: PlainDenseDataset<T>,
    codebooks: Seq<T>,
    codes: PlainDenseDataset<u8>,
    assignments: Seq<u64>,
    m: int,
    dsub: int,
) -> bool {
    &&& values.len() == codes.spec_len() * m * dsub
    &&& forall|t: int, s: int, d: int|
        0 <= t < codes.spec_len() && 0 <= s < m && 0 <= d < dsub ==> call_ensures(
            A::plus,
            (
                ops,
                coarse.spec_values()[assignments[t] * coarse.spec_dim() + s * dsub + d],
                codebooks[s * 256 * dsub + codes.spec_values()[t * codes.spec_dim() + s] * dsub + d],
            ),
            #[trigger] values[(t * m + s) * dsub + d],
        )
}

proof fn lemma_are_rebuilt<T, A: Arithmetic<T>>(
    ops: &A,
    values: Seq<T>,
    coarse: PlainDenseDataset<T>,
    codebooks: Seq<T>,
    codes: PlainDenseDataset<u8>,
    assignments: Seq<u64>,
    m: nat,
    dsub: nat,
)
    requires
        rebuilds(ops, values, coarse, codebooks, codes, assignments, m, dsub),
    ensures
        are_rebuilt(ops, values, coarse, codebooks, codes, assignments, m as int, dsub as int),
{
}

/// Whether `t` is the first token without one of the `n_coarse` centroids.
pub open spec fn is_first_stray(assignments: Seq<u64>, n_coarse: int, t: int) -> bool {
    &&& 0 <= t < assignments.len()
    &&& assignments[t] >= n_coarse
    &&& forall|u: int| 0 <= u < t ==> #[trigger] assignments[u] < n_coarse
}

/// Tokens are rebuilt where each has a coarse centroid; the error names the first that
/// has none.
pub proof fn law_tokens_are_rebuilt<T: Copy, A: Arithmetic<T>>(
    ops: &A,
    coarse: &PlainDenseDataset<T>,
    codebooks: &[T],
    codes: &PlainDenseDataset<u8>,
    assignments: &[u64],
    m: usize,
    dsub: usize,
    rebuilt: Result<Vec<T>, IndexError>,
)
    requires
        call_ensures(
            rebuild_tokens::<T, A>,
            (ops, coarse, codebooks, codes, assignments, m, dsub),
            rebuilt,
        ),
    ensures
        rebuilt is Ok <==> forall|t: int|
            0 <= t < assignments@.len() ==> #[trigger] assignments@[t] < coarse.spec_len(),
        rebuilt matches Ok(values) ==> are_rebuilt(
            ops,
            values@,
            *coarse,
            codebooks@,
            *codes,
            assignments@,
            m as int,
            dsub as int,
        ),
        rebuilt matches Err(error) ==> exists|t: int| #[trigger]
            is_first_stray(assignments@, coarse.spec_len() as int, t) && error == (
            IndexError::CoarseOutOfRange {
                index: assignments@[t],
                n_coarse: coarse.spec_len() as usize,
            }),
{
    match rebuilt {
        Ok(values) => {
            lemma_are_rebuilt(
                ops,
                values@,
                *coarse,
                codebooks@,
                *codes,
                assignments@,
                m as nat,
                dsub as nat,
            );
        },
        Err(_) => {
            let t = choose|t: int| #[trigger]
                first_unassigned(assignments@, coarse.spec_len(), t) && rebuilt->Err_0 == (
                IndexError::CoarseOutOfRange {
                    index: assignments@[t],
                    n_coarse: coarse.spec_len() as usize,
                });
            assert(is_first_stray(assignments@, coarse.spec_len() as int, t));
        },
    }
}

/// Two-level codes have 8, 16, 32 or 64 subspaces.
pub proof fn law_two_level_subspaces(m: usize, supported: bool)
    requires
        call_ensures(supports_two_level, (m,), supported),
    ensures
        supported <==> m == 8 || m == 16 || m == 32 || m == 64,
{
}

/// Whether `loaded` is decided by what was read: the number of assignments is held
/// against the tokens first, the assignments against the centroids next, and what is
/// left is rebuilt.
pub open spec fn is_decoded<T, E, A: Arithmetic<T>>(
    loaded: Result<MultiVectorDataset<T>, BuildError<E>>,
    ops: &A,
    m: usize,
    coarse: PlainDenseDataset<T>,
    codebooks: Seq<T>,
    doclens: Seq<i32>,
    codes: PlainDenseDataset<u8>,
    assignments: Seq<u64>,
) -> bool {
    let counted = assignments.len() == codes.spec_len();
    let assigned = forall|t: int|
        0 <= t < assignments.len() ==> #[trigger] assignments[t] < coarse.spec_len();
    &&& loaded is Ok <==> counted && assigned
    &&& !counted ==> loaded == Err::<MultiVectorDataset<T>, BuildError<E>>(
        BuildError::Invalid(
            IndexError::AssignmentLength {
                got: assignments.len() as usize,
                n_tokens: codes.spec_len() as usize,
            },
        ),
    )
    &&& counted && !assigned ==> exists|t: int| #[trigger]
        is_first_stray(assignments, coarse.spec_len() as int, t) && loaded == Err::<
            MultiVectorDataset<T>,
            BuildError<E>,
        >(
            BuildError::Invalid(
                IndexError::CoarseOutOfRange {
                    index: assignments[t],
                    n_coarse: coarse.spec_len() as usize,
                },
            ),
        )
    &&& loaded matches Ok(dataset) ==> {
        &&& dataset.token_dim == coarse.spec_dim()
        &&& are_rebuilt(
            ops,
            dataset.values@,
            coarse,
            codebooks,
            codes,
            assignments,
            m as int,
            coarse.spec_dim() as int / m as int,
        )
        &&& are_documents(dataset.offsets@, doclens, coarse.spec_dim() as int)
    }
}

proof fn lemma_is_decoded<T, E, A: Arithmetic<T>>(
    loaded: Result<MultiVectorDataset<T>, BuildError<E>>,
    ops: &A,
    m: usize,
    coarse: PlainDenseDataset<T>,
    codebooks: Seq<T>,
    doclens: Seq<i32>,
    codes: PlainDenseDataset<u8>,
    assignments: Seq<u64>,
)
    requires
        m > 0,
        decodes(loaded, ops, m, coarse, codebooks, doclens, codes, assignments),
    ensures
        is_decoded(loaded, ops, m, coarse, codebooks, doclens, codes, assignments),
{
    let assigned = forall|t: int|
        0 <= t < assignments.len() ==> #[trigger] assignments[t] < coarse.spec_len();
    assert(all_assigned(assignments, coarse.spec_len()) <==> assigned);
    if assignments.len() == codes.spec_len() && !assigned {
        let t = choose|t: int| #[trigger]
            first_unassigned(assignments, coarse.spec_len(), t) && loaded == Err::<
                MultiVectorDataset<T>,
                BuildError<E>,
            >(
                BuildError::Invalid(
                    IndexError::CoarseOutOfRange {
                        index: assignments[t],
                        n_coarse: coarse.spec_len() as usize,
                    },
                ),
            );
        assert(is_first_stray(assignments, coarse.spec_len() as int, t));
    }
    if loaded is Ok {
        let dataset = loaded->Ok_0;
        lemma_are_rebuilt(
            ops,
            dataset.values@,
            coarse,
            codebooks,
            codes,
            assignments,
            m as nat,
            coarse.spec_dim() / (m as nat),
        );
        lemma_are_documents(dataset.offsets@, doclens, coarse.spec_dim());
    }
}

/// Decoding is decided by what was read.
pub proof fn law_tokens_are_decoded<T: Copy, E, A: Arithmetic<T>>(
    ops: &A,
    m: usize,
    coarse: &PlainDenseDataset<T>,
    codebooks: &[T],
    doclens: &[i32],
    codes: &PlainDenseDataset<u8>,
    assignments: &[u64],
    loaded: Result<MultiVectorDataset<T>, BuildError<E>>,
)
    requires
        m > 0,
        call_ensures(
            decode_dataset::<T, E, A>,
            (ops, m, coarse, codebooks, doclens, codes, assignments),
            loaded,
        ),
    ensures
        is_decoded(loaded, ops, m, *coarse, codebooks@, doclens@, *codes, assignments@),
{
    lemma_is_decoded(loaded, ops, m, *coarse, codebooks@, doclens@, *codes, assignments@);
}

/// Two-level documents are loaded from what is read of centroids, codebooks, lengths,
/// codes and assignments: a failed read fails the loading, and success means that all
/// were read and decoded.
pub proof fn law_two_level_documents<T, E, A, RC, RB, RD, RR, RA>(
    m: usize,
    ops: &A,
    read_centroids: RC,
    read_codebooks: RB,
    read_doclens: RD,
    read_codes: RR,
    read_assignments: RA,
    loaded: Result<MultiVectorDataset<T>, BuildError<E>>,
) where
    T: Copy,
    A: Arithmetic<T>,
    RC: FnOnce() -> Result<PlainDenseDataset<T>, E>,
    RB: FnOnce() -> Result<Vec<T>, E>,
    RD: FnOnce() -> Result<Vec<i32>, E>,
    RR: FnOnce() -> Result<PlainDenseDataset<u8>, E>,
    RA: FnOnce() -> Result<Vec<u64>, E>,

    requires
        m > 0,
        call_ensures(
            load_multivec_dataset_pq_generic::<T, E, A, RC, RB, RD, RR, RA>,
            (m, ops, read_centroids, read_codebooks, read_doclens, read_codes, read_assignments),
            loaded,
        ),
    ensures
        loaded matches Err(BuildError::Io(error)) ==> {
            ||| call_ensures(read_centroids, (), Err(error))
            ||| call_ensures(read_codebooks, (), Err(error))
            ||| call_ensures(read_doclens, (), Err(error))
            ||| call_ensures(read_codes, (), Err(error))
            ||| call_ensures(read_assignments, (), Err(error))
        },
        loaded matches Err(BuildError::Invalid(IndexError::SubspaceMismatch { got, expected })) ==> {
            &&& expected == m
            &&& exists|codes: PlainDenseDataset<u8>| #[trigger]
                call_ensures(read_codes, (), Ok(codes)) && codes.spec_dim() as usize == got && codes.spec_dim()
                    != m
        },
        !(loaded matches Err(BuildError::Io(_))) && !(loaded matches Err(
            BuildError::Invalid(IndexError::SubspaceMismatch { .. }),
        )) ==> exists|
            coarse: PlainDenseDataset<T>,
            codebooks: Vec<T>,
            doclens: Vec<i32>,
            codes: PlainDenseDataset<u8>,
            assignments: Vec<u64>,
        |
            {
                &&& #[trigger] call_ensures(read_centroids, (), Ok(coarse))
                &&& #[trigger] call_ensures(read_codebooks, (), Ok(codebooks))
                &&& #[trigger] call_ensures(read_doclens, (), Ok(doclens))
                &&& #[trigger] call_ensures(read_codes, (), Ok(codes))
                &&& #[trigger] call_ensures(read_assignments, (), Ok(assignments))
                &&& codes.spec_dim() == m
                &&& is_decoded(loaded, ops, m, coarse, codebooks@, doclens@, codes, assignments@)
            },
{
    let c = choose|c: Result<PlainDenseDataset<T>, E>|
        {
            &&& #[trigger] call_ensures(read_centroids, (), c)
            &&& match c {
                Err(error) => loaded == Err::<MultiVectorDataset<T>, BuildError<E>>(BuildError::Io(error)),
                Ok(coarse) => crate::multivec::after_centroids(
                    loaded,
                    m,
                    ops,
                    coarse,
                    read_codebooks,
                    read_doclens,
                    read_codes,
                    read_assignments,
                ),
            }
        };
    if c is Ok {
        let coarse = c->Ok_0;
        lemma_after_centroids(
            loaded,
            m,
            ops,
            coarse,
            read_codebooks,
            read_doclens,
            read_codes,
            read_assignments,
        );
    }
}

proof fn lemma_after_centroids<T, E, A, RB, RD, RR, RA>(
    loaded: Result<MultiVectorDataset<T>, BuildError<E>>,
    m: usize,
    ops: &A,
    coarse: PlainDenseDataset<T>,
    read_codebooks: RB,
    read_doclens: RD,
    read_codes: RR,
    read_assignments: RA,
) where
    A: Arithmetic<T>,
    RB: FnOnce() -> Result<Vec<T>, E>,
    RD: FnOnce() -> Result<Vec<i32>, E>,
    RR: FnOnce() -> Result<PlainDenseDataset<u8>, E>,
    RA: FnOnce() -> Result<Vec<u64>, E>,

    requires
        m > 0,
        crate::multivec::after_centroids(
            loaded,
            m,
            ops,
            coarse,
            read_codebooks,
            read_doclens,
            read_codes,
            read_assignments,
        ),
    ensures
        loaded matches Err(BuildError::Io(error)) ==> {
            ||| call_ensures(read_codebooks, (), Err(error))
            ||| call_ensures(read_doclens, (), Err(error))
            ||| call_ensures(read_codes, (), Err(error))
            ||| call_ensures(read_assignments, (), Err(error))
        },
        loaded matches Err(BuildError::Invalid(IndexError::SubspaceMismatch { got, expected })) ==> {
            &&& expected == m
            &&& exists|codes: PlainDenseDataset<u8>| #[trigger]
                call_ensures(read_codes, (), Ok(codes)) && codes.spec_dim() as usize == got && codes.spec_dim()
                    != m
        },
        !(loaded matches Err(BuildError::Io(_))) && !(loaded matches Err(
            BuildError::Invalid(IndexError::SubspaceMismatch { .. }),
        )) ==> exists|codebooks: Vec<T>, doclens: Vec<i32>, codes: PlainDenseDataset<u8>, assignments: Vec<u64>|
            {
                &&& #[trigger] call_ensures(read_codebooks, (), Ok(codebooks))
                &&& #[trigger] call_ensures(read_doclens, (), Ok(doclens))
                &&& #[trigger] call_ensures(read_codes, (), Ok(codes))
                &&& #[trigger] call_ensures(read_assignments, (), Ok(assignments))
                &&& codes.spec_dim() == m
                &&& is_decoded(loaded, ops, m, coarse, codebooks@, doclens@, codes, assignments@)
            },
{
    let b = choose|b: Result<Vec<T>, E>|
        {
            &&& #[trigger] call_ensures(read_codebooks, (), b)
            &&& match b {
                Err(error) => loaded == Err::<MultiVectorDataset<T>, BuildError<E>>(BuildError::Io(error)),
                Ok(codebooks) => exists|l: Result<Vec<i32>, E>|
                    {
                        &&& #[trigger] call_ensures(read_doclens, (), l)
                        &&& match l {
                            Err(error) => loaded == Err::<MultiVectorDataset<T>, BuildError<E>>(
                                BuildError::Io(error),
                            ),
                            Ok(doclens) => crate::multivec::after_doclens(
                                loaded,
                                m,
                                ops,
                                coarse,
                                codebooks@,
                                doclens@,
                                read_codes,
                                read_assignments,
                            ),
                        }
                    },
            }
        };
    if b is Ok {
        let codebooks = b->Ok_0;
        let l = choose|l: Result<Vec<i32>, E>|
            {
                &&& #[trigger] call_ensures(read_doclens, (), l)
                &&& match l {
                    Err(error) => loaded == Err::<MultiVectorDataset<T>, BuildError<E>>(
                        BuildError::Io(error),
                    ),
                    Ok(doclens) => crate::multivec::after_doclens(
                        loaded,
                        m,
                        ops,
                        coarse,
                        codebooks@,
                        doclens@,
                        read_codes,
                        read_assignments,
                    ),
                }
            };
        if l is Ok {
            lemma_after_doclens(
                loaded,
                m,
                ops,
                coarse,
                codebooks@,
                l->Ok_0@,
                read_codes,
                read_assignments,
            );
        }
    }
}

proof fn lemma_after_doclens<T, E, A, RR, RA>(
    loaded: Result<MultiVectorDataset<T>, BuildError<E>>,
    m: usize,
    ops: &A,
    coarse: PlainDenseDataset<T>,
    codebooks: Seq<T>,
    doclens: Seq<i32>,
    read_codes: RR,
    read_assignments: RA,
) where
    A: Arithmetic<T>,
    RR: FnOnce() -> Result<PlainDenseDataset<u8>, E>,
    RA: FnOnce() -> Result<Vec<u64>, E>,

    requires
        m > 0,
        crate::multivec::after_doclens(
            loaded,
            m,
            ops,
            coarse,
            codebooks,
            doclens,
            read_codes,
            read_assignments,
        ),
    ensures
        loaded matches Err(BuildError::Io(error)) ==> {
            ||| call_ensures(read_codes, (), Err(error))
            ||| call_ensures(read_assignments, (), Err(error))
        },
        loaded matches Err(BuildError::Invalid(IndexError::SubspaceMismatch { got, expected })) ==> {
            &&& expected == m
            &&& exists|codes: PlainDenseDataset<u8>| #[trigger]
                call_ensures(read_codes, (), Ok(codes)) && codes.spec_dim() as usize == got && codes.spec_dim()
                    != m
        },
        !(loaded matches Err(BuildError::Io(_))) && !(loaded matches Err(
            BuildError::Invalid(IndexError::SubspaceMismatch { .. }),
        )) ==> exists|codes: PlainDenseDataset<u8>, assignments: Vec<u64>|
            {
                &&& #[trigger] call_ensures(read_codes, (), Ok(codes))
                &&& #[trigger] call_ensures(read_assignments, (), Ok(assignments))
                &&& codes.spec_dim() == m
                &&& is_decoded(loaded, ops, m, coarse, codebooks, doclens, codes, assignments@)
            },
{
    let r = choose|r: Result<PlainDenseDataset<u8>, E>|
        {
            &&& #[trigger] call_ensures(read_codes, (), r)
            &&& match r {
                Err(error) => loaded == Err::<MultiVectorDataset<T>, BuildError<E>>(BuildError::Io(error)),
                Ok(codes) => if codes.spec_dim() != m {
                    loaded == Err::<MultiVectorDataset<T>, BuildError<E>>(
                        BuildError::Invalid(
                            IndexError::SubspaceMismatch { got: codes.spec_dim() as usize, expected: m },
                        ),
                    )
                } else {
                    exists|a: Result<Vec<u64>, E>|
                        {
                            &&& #[trigger] call_ensures(read_assignments, (), a)
                            &&& match a {
                                Err(error) => loaded == Err::<MultiVectorDataset<T>, BuildError<E>>(
                                    BuildError::Io(error),
                                ),
                                Ok(assignments) => decodes(
                                    loaded,
                                    ops,
                                    m,
                                    coarse,
                                    codebooks,
                                    doclens,
                                    codes,
                                    assignments@,
                                ),
                            }
                        }
                },
            }
        };
    if r is Ok && r->Ok_0.spec_dim() == m {
        let codes = r->Ok_0;
        let a = choose|a: Result<Vec<u64>, E>|
            {
                &&& #[trigger] call_ensures(read_assignments, (), a)
                &&& match a {
                    Err(error) => loaded == Err::<MultiVectorDataset<T>, BuildError<E>>(
                        BuildError::Io(error),
                    ),
                    Ok(assignments) => decodes(
                        loaded,
                        ops,
                        m,
                        coarse,
                        codebooks,
                        doclens,
                        codes,
                        assignments@,
                    ),
                }
            };
        if a is Ok {
            let assignments = a->Ok_0;
            lemma_is_decoded(loaded, ops, m, coarse, codebooks, doclens, codes, assignments@);
        }
    }
}

/// Plain documents are loaded where both their values and their lengths can be read.
pub proof fn law_loaded_plain_documents<T, E, W, RT, RD>(
    widen: &W,
    read_documents: RT,
    read_doclens: RD,
    loaded: Result<MultiVectorDataset<T>, E>,
) where
    W: Fn(u16) -> T,
    RT: FnOnce() -> Result<PlainDenseDataset<u16>, E>,
    RD: FnOnce() -> Result<Vec<i32>, E>,

    requires
        call_ensures(
            load_multivec_dataset_plain::<T, E, W, RT, RD>,
            (widen, read_documents, read_doclens),
            loaded,
        ),
    ensures
        match loaded {
            Err(error) => call_ensures(read_documents, (), Err(error)) || call_ensures(
                read_doclens,
                (),
                Err(error),
            ),
            Ok(dataset) => exists|documents: PlainDenseDataset<u16>, doclens: Vec<i32>|
                {
                    &&& #[trigger] call_ensures(read_documents, (), Ok(documents))
                    &&& #[trigger] call_ensures(read_doclens, (), Ok(doclens))
                    &&& dataset.token_dim == documents.spec_dim()
                    &&& dataset.values@.len() == documents.spec_values().len()
                    &&& forall|i: int|
                        0 <= i < dataset.values@.len() ==> call_ensures(
                            *widen,
                            (documents.spec_values()[i],),
                            #[trigger] dataset.values@[i],
                        )
                    &&& are_documents(dataset.offsets@, doclens@, documents.spec_dim() as int)
                },
        },
{
    let d = choose|d: Result<PlainDenseDataset<u16>, E>|
        {
            &&& #[trigger] call_ensures(read_documents, (), d)
            &&& match d {
                Err(error) => loaded == Err::<MultiVectorDataset<T>, E>(error),
                Ok(documents) => exists|l: Result<Vec<i32>, E>|
                    {
                        &&& #[trigger] call_ensures(read_doclens, (), l)
                        &&& match l {
                            Err(error) => loaded == Err::<MultiVectorDataset<T>, E>(error),
                            Ok(doclens) => {
                                &&& loaded matches Ok(dataset)
                                &&& crate::dense::converts(
                                    *widen,
                                    documents.spec_values(),
                                    dataset.values@,
                                )
                                &&& dataset.token_dim == documents.spec_dim()
                                &&& delimit_documents(dataset.offsets@, doclens@, documents.spec_dim())
                            },
                        }
                    },
            }
        };
    if d is Ok {
        let documents = d->Ok_0;
        let l = choose|l: Result<Vec<i32>, E>|
            {
                &&& #[trigger] call_ensures(read_doclens, (), l)
                &&& match l {
                    Err(error) => loaded == Err::<MultiVectorDataset<T>, E>(error),
                    Ok(doclens) => {
                        &&& loaded matches Ok(dataset)
                        &&& crate::dense::converts(*widen, documents.spec_values(), dataset.values@)
                        &&& dataset.token_dim == documents.spec_dim()
                        &&& delimit_documents(dataset.offsets@, doclens@, documents.spec_dim())
                    },
                }
            };
        if l is Ok {
            lemma_are_documents(loaded->Ok_0.offsets@, l->Ok_0@, documents.spec_dim());
        }
    }
}

/// A row is appended as it is, behind all others.
pub proof fn law_rows_are_appended<V: Copy>(
    dataset: &mut PlainSparseDataset<V>,
    components: &[u16],
    values: &[V],
)
    requires
        old(dataset).spec_values().len() + values@.len() <= usize::MAX,
        call_ensures(PlainSparseDataset::<V>::push, (dataset, components, values), ()),
    ensures
        final(dataset).spec_dim() == old(dataset).spec_dim(),
        final(dataset).spec_components() == old(dataset).spec_components() + components@,
        final(dataset).spec_values() == old(dataset).spec_values() + values@,
        final(dataset).spec_offsets().len() == old(dataset).spec_offsets().len() + 1,
        forall|i: int|
            0 <= i < old(dataset).spec_offsets().len() ==> #[trigger] final(dataset).spec_offsets()[i]
                == old(dataset).spec_offsets()[i],
        final(dataset).spec_offsets()[old(dataset).spec_offsets().len() as int]
            == old(dataset).spec_values().len() + values@.len(),
{
}

} // verus!
