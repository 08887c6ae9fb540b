//! Multivector datasets: documents of several token vectors each.

use crate::arithmetic::Arithmetic;
use crate::dense::{convert_values, PlainDenseDataset};
use crate::error::{BuildError, IndexError};
use vstd::prelude::*;

verus! {

/// The entries of a subspace's codebook.
pub const KSUB: usize = 256;

/// Documents of token vectors, document after document.
pub struct MultiVectorDataset<T> {
    pub values: Vec<T>,
    /// Document `i` holds the values from `offsets[i]` up to `offsets[i + 1]`.
    pub offsets: Vec<usize>,
    pub token_dim: usize,
}

/// How many tokens the first `n` documents have.
pub open spec fn tokens_before(doclens: Seq<i32>, n: nat) -> int
    decreases n,
{
    if n == 0 {
        0
    } else {
        tokens_before(doclens, (n - 1) as nat) + doclens[n - 1]
    }
}

/// Document lengths that count tokens, with all values in reach of an offset.
pub open spec fn are_doclens(doclens: Seq<i32>, token_dim: nat) -> bool {
    &&& forall|i: int| 0 <= i < doclens.len() ==> #[trigger] doclens[i] >= 0
    &&& tokens_before(doclens, doclens.len()) * token_dim <= usize::MAX
}

/// Whether `offsets` delimit documents of the given lengths.
pub open spec fn delimit_documents(offsets: Seq<usize>, doclens: Seq<i32>, token_dim: nat) -> bool {
    &&& offsets.len() == doclens.len() + 1
    &&& forall|i: int|
        0 <= i < offsets.len() ==> #[trigger] offsets[i] == tokens_before(doclens, i as nat) * token_dim
}

proof fn lemma_tokens_monotone(doclens: Seq<i32>, a: nat, b: nat)
    requires
        a <= b <= doclens.len(),
        forall|i: int| 0 <= i < doclens.len() ==> #[trigger] doclens[i] >= 0,
    ensures
        0 <= tokens_before(doclens, a) <= tokens_before(doclens, b),
    decreases b,
{
    if b > 0 {
        if a < b {
            lemma_tokens_monotone(doclens, a, (b - 1) as nat);
        } else {
            lemma_tokens_monotone(doclens, (a - 1) as nat, (b - 1) as nat);
        }
        assert(doclens[b - 1] >= 0);
    }
}

/// The offsets of documents with the given lengths.
pub fn document_offsets(doclens: &[i32], token_dim: usize) -> (offsets: Vec<usize>)
    requires
        are_doclens(doclens@, token_dim as nat),
    ensures
        delimit_documents(offsets@, doclens@, token_dim as nat),
{
    let mut offsets: Vec<usize> = Vec::new();
    offsets.push(0);
    assert(tokens_before(doclens@, 0) * token_dim == 0) by (nonlinear_arith)
        requires
            tokens_before(doclens@, 0) == 0,
    ;
    let mut i: usize = 0;
    while i < doclens.len()
        invariant
            i <= doclens@.len(),
            are_doclens(doclens@, token_dim as nat),
            offsets@.len() == i + 1,
            forall|j: int|
                0 <= j <= i ==> #[trigger] offsets@[j] == tokens_before(doclens@, j as nat) * token_dim,
        decreases doclens.len() - i,
    {
        let doclen: usize = doclens[i] as usize;
        proof {
            let before = tokens_before(doclens@, i as nat);
            let after = tokens_before(doclens@, (i + 1) as nat);
            let all = tokens_before(doclens@, doclens@.len());
            lemma_tokens_monotone(doclens@, i as nat, doclens@.len());
            lemma_tokens_monotone(doclens@, (i + 1) as nat, doclens@.len());
            assert(after == before + doclen);
            assert(after * token_dim == before * token_dim + doclen * token_dim) by (nonlinear_arith)
                requires
                    after == before + doclen,
            ;
            assert(after * token_dim <= all * token_dim) by (nonlinear_arith)
                requires
                    after <= all,
                    0 <= token_dim,
            ;
            assert(0 <= before * token_dim) by (nonlinear_arith)
                requires
                    0 <= before,
                    0 <= token_dim,
            ;
        }
        let next: usize = offsets[i] + doclen * token_dim;
        offsets.push(next);
        i = i + 1;
    }
    offsets
}

/// A dataset of documents whose token values are given as bits, each widened by
/// `widen`.
pub fn plain_dataset<T, W: Fn(u16) -> T>(
    documents: &[u16],
    token_dim: usize,
    doclens: &[i32],
    widen: &W,
) -> (dataset: MultiVectorDataset<T>)
    requires
        are_doclens(doclens@, token_dim as nat),
        crate::dense::can_convert(*widen, documents@),
    ensures
        crate::dense::converts(*widen, documents@, dataset.values@),
        delimit_documents(dataset.offsets@, doclens@, token_dim as nat),
        dataset.token_dim == token_dim,
{
    let values: Vec<T> = convert_values(documents, widen);
    let offsets: Vec<usize> = document_offsets(doclens, token_dim);
    MultiVectorDataset { values, offsets, token_dim }
}

/// Value `d` of subspace `s` of a token that belongs to coarse centroid `c` and has
/// the given code there: a value of the centroid and one of the codebook.
pub open spec fn parts_of<T>(
    coarse: PlainDenseDataset<T>,
    codebooks: Seq<T>,
    dsub: nat,
    c: int,
    s: int,
    code: int,
    d: int,
) -> (T, T) {
    (
        coarse.spec_values()[c * coarse.spec_dim() + s * dsub + d],
        codebooks[s * KSUB * dsub + code * dsub + d],
    )
}

/// Whether `values` are the tokens rebuilt from their coarse centroids and codes: for
/// each token, each of `m` subspaces and each of its `dsub` values in turn, the sum of
/// the value of the centroid and the value of the codebook.
pub open spec fn rebuilds<T, A: Arithmetic<T>>(
    ops: &A,
    values: Seq<T>,
    coarse: PlainDenseDataset<T>,
    codebooks: Seq<T>,
    codes: PlainDenseDataset<u8>,
    assignments: Seq<u64>,
    m: nat,
    dsub: nat,
) -> bool {
    &&& values.len() == codes.spec_len() * m * dsub
    &&& forall|t: int, s: int, d: int|
        0 <= t < codes.spec_len() && 0 <= s < m && 0 <= d < dsub ==> {
            let (a, b) = parts_of(
                coarse,
                codebooks,
                dsub,
                assignments[t] as int,
                s,
                codes.cell(t, s) as int,
                d,
            );
            call_ensures(A::plus, (ops, a, b), #[trigger] values[(t * m + s) * dsub + d])
        }
}

/// Whether every token is assigned to one of the coarse centroids.
pub open spec fn all_assigned(assignments: Seq<u64>, n_coarse: nat) -> bool {
    forall|t: int| 0 <= t < assignments.len() ==> #[trigger] assignments[t] < n_coarse
}

/// Whether token `t` is the first that is assigned to no coarse centroid.
pub open spec fn first_unassigned(assignments: Seq<u64>, n_coarse: nat, t: int) -> bool {
    &&& 0 <= t < assignments.len()
    &&& assignments[t] >= n_coarse
    &&& forall|u: int| 0 <= u < t ==> #[trigger] assignments[u] < n_coarse
}

/// The tokens rebuilt from their coarse centroids and codes.
pub fn rebuild_tokens<T: Copy, A: Arithmetic<T>>(
    ops: &A,
    coarse: &PlainDenseDataset<T>,
    codebooks: &[T],
    codes: &PlainDenseDataset<u8>,
    assignments: &[u64],
    m: usize,
    dsub: usize,
) -> (rebuilt: Result<Vec<T>, IndexError>)
    requires
        coarse.wf(),
        codes.wf(),
        codes.spec_dim() == m,
        assignments@.len() == codes.spec_len(),
        m * dsub <= coarse.spec_dim(),
        m * KSUB * dsub <= codebooks@.len(),
    ensures
        match rebuilt {
            Ok(values) => all_assigned(assignments@, coarse.spec_len()) && rebuilds(
                ops,
                values@,
                *coarse,
                codebooks@,
                *codes,
                assignments@,
                m as nat,
                dsub as nat,
            ),
            Err(error) => exists|t: int| #[trigger]
                first_unassigned(assignments@, coarse.spec_len(), t) && error == (
                IndexError::CoarseOutOfRange {
                    index: assignments@[t],
                    n_coarse: coarse.spec_len() as usize,
                }),
        },
{
    let n_coarse: usize = coarse.len();
    let n_tokens: usize = codes.len();
    let mut values: Vec<T> = Vec::new();
    let mut t: usize = 0;
    assert(0 * m * dsub == 0) by (nonlinear_arith);
    while t < n_tokens
        invariant
            t <= n_tokens,
            coarse.wf(),
            codes.wf(),
            n_coarse == coarse.spec_len(),
            n_tokens == codes.spec_len(),
            codes.spec_dim() == m,
            assignments@.len() == n_tokens,
            m * dsub <= coarse.spec_dim(),
            m * KSUB * dsub <= codebooks@.len(),
            forall|u: int| 0 <= u < t ==> #[trigger] assignments@[u] < n_coarse,
            values@.len() == t * m * dsub,
            forall|u: int, s: int, d: int|
                0 <= u < t && 0 <= s < m && 0 <= d < dsub ==> {
                    let (a, b) = parts_of(
                        *coarse,
                        codebooks@,
                        dsub as nat,
                        assignments@[u] as int,
                        s,
                        codes.cell(u, s) as int,
                        d,
                    );
                    call_ensures(A::plus, (ops, a, b), #[trigger] values@[(u * m + s) * dsub + d])
                },
        decreases n_tokens - t,
    {
        if assignments[t] >= n_coarse as u64 {
            assert(first_unassigned(assignments@, coarse.spec_len(), t as int));
            return Err(IndexError::CoarseOutOfRange { index: assignments[t], n_coarse });
        }
        let c: usize = assignments[t] as usize;
        let centroid = coarse.get(c);
        let code_row = codes.get(t);
        let mut s: usize = 0;
        assert((t * m + 0) * dsub == t * m * dsub);
        while s < m
            invariant
                t < n_tokens,
                s <= m,
                coarse.wf(),
                codes.wf(),
                n_coarse == coarse.spec_len(),
                n_tokens == codes.spec_len(),
                codes.spec_dim() == m,
                assignments@.len() == n_tokens,
                m * dsub <= coarse.spec_dim(),
                m * KSUB * dsub <= codebooks@.len(),
                c == assignments@[t as int],
                c < n_coarse,
                centroid@ == coarse.row(c as int),
                centroid@.len() == coarse.spec_dim(),
                code_row@ == codes.row(t as int),
                code_row@.len() == m,
                values@.len() == (t * m + s) * dsub,
                forall|u: int, r: int, d: int|
                    ((0 <= u < t && 0 <= r < m) || (u == t && 0 <= r < s)) && 0 <= d < dsub ==> {
                        let (a, b) = parts_of(
                            *coarse,
                            codebooks@,
                            dsub as nat,
                            assignments@[u] as int,
                            r,
                            codes.cell(u, r) as int,
                            d,
                        );
                        call_ensures(A::plus, (ops, a, b), #[trigger] values@[(u * m + r) * dsub + d])
                    },
            decreases m - s,
        {
            let code: usize = code_row[s] as usize;
            proof {
                assert(codes.cell(t as int, s as int) == code) by {
                    crate::dense::lemma_cell(t as int, s as int, m as int, n_tokens as int);
                }
                crate::dense::lemma_row(s as int, dsub as int, m as int);
                crate::dense::lemma_row(c as int, coarse.spec_dim() as int, n_coarse as int);
                assert(centroid@.len() == centroid.len());
                assert(codebooks@.len() == codebooks.len());
                assert(s * KSUB * dsub + code * dsub + dsub <= m * KSUB * dsub) by (nonlinear_arith)
                    requires
                        0 <= s < m,
                        0 <= code < KSUB,
                        0 <= dsub,
                        KSUB == 256,
                ;
                assert(0 <= s * KSUB) by (nonlinear_arith)
                    requires
                        0 <= s,
                        KSUB == 256,
                ;
                assert(s * KSUB <= s * KSUB * dsub || dsub == 0) by (nonlinear_arith)
                    requires
                        0 <= s,
                        0 <= dsub,
                        KSUB == 256,
                ;
                assert(0 <= s * KSUB * dsub) by (nonlinear_arith)
                    requires
                        0 <= s,
                        0 <= dsub,
                        KSUB == 256,
                ;
                assert(0 <= code * dsub) by (nonlinear_arith)
                    requires
                        0 <= code,
                        0 <= dsub,
                ;
            }
            let mut d: usize = 0;
            if dsub > 0 {
                let in_centroid: usize = s * dsub;
                let in_codebooks: usize = s * KSUB * dsub + code * dsub;
                while d < dsub
                    invariant
                        t < n_tokens,
                        s < m,
                        d <= dsub,
                        coarse.wf(),
                        n_coarse == coarse.spec_len(),
                        c == assignments@[t as int],
                        c < n_coarse,
                        centroid@ == coarse.row(c as int),
                        centroid@.len() == coarse.spec_dim(),
                        code == codes.cell(t as int, s as int),
                        in_centroid == s * dsub,
                        in_centroid + dsub <= centroid@.len(),
                        in_codebooks == s * KSUB * dsub + code * dsub,
                        in_codebooks + dsub <= codebooks@.len(),
                        values@.len() == (t * m + s) * dsub + d,
                        forall|u: int, r: int, e: int|
                            ((0 <= u < t && 0 <= r < m && 0 <= e < dsub) || (u == t && 0 <= r < s && 0
                                <= e < dsub) || (u == t && r == s && 0 <= e < d)) ==> {
                                let (a, b) = parts_of(
                                    *coarse,
                                    codebooks@,
                                    dsub as nat,
                                    assignments@[u] as int,
                                    r,
                                    codes.cell(u, r) as int,
                                    e,
                                );
                                call_ensures(
                                    A::plus,
                                    (ops, a, b),
                                    #[trigger] values@[(u * m + r) * dsub + e],
                                )
                            },
                    decreases dsub - d,
                {
                    proof {
                        assert(centroid@.len() == centroid.len());
                        assert(codebooks@.len() == codebooks.len());
                        crate::dense::lemma_row(c as int, coarse.spec_dim() as int, n_coarse as int);
                        assert(centroid@[in_centroid + d] == coarse.spec_values()[c
                            * coarse.spec_dim() + s * dsub + d]);
                    }
                    let sum: T = ops.plus(centroid[in_centroid + d], codebooks[in_codebooks + d]);
                    let ghost before = values@;
                    values.push(sum);
                    proof {
                        assert forall|u: int, r: int, e: int|
                            ((0 <= u < t && 0 <= r < m && 0 <= e < dsub) || (u == t && 0 <= r < s && 0
                                <= e < dsub) || (u == t && r == s && 0 <= e < d + 1)) implies {
                            let (a, b) = parts_of(
                                *coarse,
                                codebooks@,
                                dsub as nat,
                                assignments@[u] as int,
                                r,
                                codes.cell(u, r) as int,
                                e,
                            );
                            call_ensures(A::plus, (ops, a, b), #[trigger] values@[(u * m + r) * dsub + e])
                        } by {
                            lemma_order(u, r, e, t as int, s as int, d as int, m as int, dsub as int);
                            if !(u == t && r == s && e == d) {
                                assert(values@[(u * m + r) * dsub + e] == before[(u * m + r) * dsub + e]);
                            }
                        }
                    }
                    d = d + 1;
                }
            }
            proof {
                assert((t * m + s + 1) * dsub == (t * m + s) * dsub + dsub) by (nonlinear_arith);
            }
            s = s + 1;
        }
        proof {
            assert((t + 1) * m == t * m + m) by (nonlinear_arith);
        }
        t = t + 1;
    }
    Ok(values)
}

/// The place of an earlier value lies below that of the next one.
proof fn lemma_order(u: int, r: int, e: int, t: int, s: int, d: int, m: int, dsub: int)
    requires
        0 <= t,
        0 <= s < m,
        0 <= d < dsub,
        ((0 <= u < t && 0 <= r < m && 0 <= e < dsub) || (u == t && 0 <= r < s && 0 <= e < dsub) || (u == t
            && r == s && 0 <= e <= d)),
    ensures
        0 <= (u * m + r) * dsub + e <= (t * m + s) * dsub + d,
        !(u == t && r == s && e == d) ==> (u * m + r) * dsub + e < (t * m + s) * dsub + d,
{
    if u < t {
        crate::dense::lemma_cell(u, r, m, t);
        crate::dense::lemma_cell(u * m + r, e, dsub, t * m);
        assert(t * m * dsub <= (t * m + s) * dsub) by (nonlinear_arith)
            requires
                0 <= s,
                0 < dsub,
        ;
    } else if r < s {
        assert(0 <= t * m) by (nonlinear_arith)
            requires
                0 <= t,
                0 < m,
        ;
        crate::dense::lemma_cell(t * m + r, e, dsub, t * m + s);
    } else {
        assert(0 <= (t * m + s) * dsub) by (nonlinear_arith)
            requires
                0 <= t,
                0 <= s,
                0 < m,
                0 < dsub,
        ;
    }
}

/// Whether the values of a subspace fit the coarse centroids and the codebooks.
pub open spec fn codebooks_cover<T>(coarse: PlainDenseDataset<T>, codebooks: Seq<T>, m: usize) -> bool {
    m * KSUB * (coarse.spec_dim() / (m as nat)) <= codebooks.len()
}

/// Whether `loaded` is what comes of centroids, codebooks, document lengths, codes
/// and assignments that were all read: the first error among them, or the dataset of
/// the rebuilt tokens.
pub open spec fn decodes<T, E, A: Arithmetic<T>>(
    loaded: Result<MultiVectorDataset<T>, BuildError<E>>,
    ops: &A,
    m: usize,
    coarse: PlainDenseDataset<T>,
    codebooks: Seq<T>,
    doclens: Seq<i32>,
    codes: PlainDenseDataset<u8>,
    assignments: Seq<u64>,
) -> bool {
    if assignments.len() != codes.spec_len() {
        loaded == Err::<MultiVectorDataset<T>, BuildError<E>>(
            BuildError::Invalid(
                IndexError::AssignmentLength {
                    got: assignments.len() as usize,
                    n_tokens: codes.spec_len() as usize,
                },
            ),
        )
    } else if !all_assigned(assignments, coarse.spec_len()) {
        exists|t: int| #[trigger]
            first_unassigned(assignments, coarse.spec_len(), t) && loaded == Err::<
                MultiVectorDataset<T>,
                BuildError<E>,
            >(
                BuildError::Invalid(
                    IndexError::CoarseOutOfRange {
                        index: assignments[t],
                        n_coarse: coarse.spec_len() as usize,
                    },
                ),
            )
    } else {
        &&& loaded matches Ok(dataset)
        &&& dataset.token_dim == coarse.spec_dim()
        &&& rebuilds(
            ops,
            dataset.values@,
            coarse,
            codebooks,
            codes,
            assignments,
            m as nat,
            coarse.spec_dim() / (m as nat),
        )
        &&& delimit_documents(dataset.offsets@, doclens, coarse.spec_dim())
    }
}

/// The subspaces of two-level codes.
pub open spec fn supported_two_level(m: usize) -> bool {
    m == 8 || m == 16 || m == 32 || m == 64
}

/// Whether two-level codes have this many subspaces.
pub fn supports_two_level(m: usize) -> (supported: bool)
    ensures
        supported == supported_two_level(m),
{
    m == 8 || m == 16 || m == 32 || m == 64
}

/// Rebuilds tokens from everything that describes them.
pub fn decode_dataset<T: Copy, E, A: Arithmetic<T>>(
    ops: &A,
    m: usize,
    coarse: &PlainDenseDataset<T>,
    codebooks: &[T],
    doclens: &[i32],
    codes: &PlainDenseDataset<u8>,
    assignments: &[u64],
) -> (loaded: Result<MultiVectorDataset<T>, BuildError<E>>)
    requires
        m > 0,
        coarse.wf(),
        codes.wf(),
        codes.spec_dim() == m,
        codebooks_cover(*coarse, codebooks@, m),
        assignments@.len() == codes.spec_len() && all_assigned(assignments@, coarse.spec_len())
            ==> are_doclens(doclens@, coarse.spec_dim()),
    ensures
        decodes(
            loaded,
            ops,
            m,
            *coarse,
            codebooks@,
            doclens@,
            *codes,
            assignments@,
        ),
{
    if assignments.len() != codes.len() {
        return Err(
            BuildError::Invalid(
                IndexError::AssignmentLength { got: assignments.len(), n_tokens: codes.len() },
            ),
        );
    }
    let token_dim: usize = coarse.input_dim();
    let dsub: usize = token_dim / m;
    proof {
        vstd::arithmetic::div_mod::lemma_fundamental_div_mod(token_dim as int, m as int);
    }
    match rebuild_tokens(ops, coarse, codebooks, codes, assignments, m, dsub) {
        Err(error) => Err(BuildError::Invalid(error)),
        Ok(values) => {
            let offsets: Vec<usize> = document_offsets(doclens, token_dim);
            Ok(MultiVectorDataset { values, offsets, token_dim })
        },
    }
}

/// Reads and rebuilds a multivector dataset of two-level codes with `m` subspaces: a
/// coarse centroid for each token and a code for what is left of it in each subspace.
pub fn load_multivec_dataset_pq_generic<T, E, A, RC, RB, RD, RR, RA>(
    m: usize,
    ops: &A,
    read_centroids: RC,
    read_codebooks: RB,
    read_doclens: RD,
    read_codes: RR,
    read_assignments: RA,
) -> (loaded: Result<MultiVectorDataset<T>, BuildError<E>>) where
    T: Copy,
    A: Arithmetic<T>,
    RC: FnOnce() -> Result<PlainDenseDataset<T>, E>,
    RB: FnOnce() -> Result<Vec<T>, E>,
    RD: FnOnce() -> Result<Vec<i32>, E>,
    RR: FnOnce() -> Result<PlainDenseDataset<u8>, E>,
    RA: FnOnce() -> Result<Vec<u64>, E>,

    requires
        m > 0,
        call_requires(read_centroids, ()),
        call_requires(read_codebooks, ()),
        call_requires(read_doclens, ()),
        call_requires(read_codes, ()),
        call_requires(read_assignments, ()),
        forall|coarse: PlainDenseDataset<T>| #[trigger]
            call_ensures(read_centroids, (), Ok(coarse)) ==> coarse.wf(),
        forall|coarse: PlainDenseDataset<T>, codebooks: Vec<T>| #[trigger]
            call_ensures(read_centroids, (), Ok(coarse)) && #[trigger] call_ensures(
                read_codebooks,
                (),
                Ok(codebooks),
            ) ==> codebooks_cover(coarse, codebooks@, m),
        forall|codes: PlainDenseDataset<u8>| #[trigger]
            call_ensures(read_codes, (), Ok(codes)) ==> codes.wf(),
        forall|
            coarse: PlainDenseDataset<T>,
            doclens: Vec<i32>,
            codes: PlainDenseDataset<u8>,
            assignments: Vec<u64>,
        |
            {
                &&& #[trigger] call_ensures(read_centroids, (), Ok(coarse))
                &&& #[trigger] call_ensures(read_doclens, (), Ok(doclens))
                &&& #[trigger] call_ensures(read_codes, (), Ok(codes))
                &&& #[trigger] call_ensures(read_assignments, (), Ok(assignments))
                &&& codes.spec_dim() == m
                &&& assignments@.len() == codes.spec_len()
                &&& all_assigned(assignments@, coarse.spec_len())
            } ==> are_doclens(doclens@, coarse.spec_dim()),
    ensures
        exists|c: Result<PlainDenseDataset<T>, E>|
            {
                &&& #[trigger] call_ensures(read_centroids, (), c)
                &&& match c {
                    Err(error) => loaded == Err::<MultiVectorDataset<T>, BuildError<E>>(
                        BuildError::Io(error),
                    ),
                    Ok(coarse) => after_centroids(
                        loaded,
                        m,
                        ops,
                        coarse,
                        read_codebooks,
                        read_doclens,
                        read_codes,
                        read_assignments,
                    ),
                }
            },
{
    let coarse = match read_centroids() {
        Ok(coarse) => coarse,
        Err(error) => {
            assert(call_ensures(read_centroids, (), Err(error)));
            return Err(BuildError::Io(error));
        },
    };
    assert(call_ensures(read_centroids, (), Ok(coarse)));
    let codebooks: Vec<T> = match read_codebooks() {
        Ok(codebooks) => codebooks,
        Err(error) => {
            assert(call_ensures(read_codebooks, (), Err(error)));
            return Err(BuildError::Io(error));
        },
    };
    assert(call_ensures(read_codebooks, (), Ok(codebooks)));
    let doclens: Vec<i32> = match read_doclens() {
        Ok(doclens) => doclens,
        Err(error) => {
            assert(call_ensures(read_doclens, (), Err(error)));
            return Err(BuildError::Io(error));
        },
    };
    assert(call_ensures(read_doclens, (), Ok(doclens)));
    let codes = match read_codes() {
        Ok(codes) => codes,
        Err(error) => {
            assert(call_ensures(read_codes, (), Err(error)));
            return Err(BuildError::Io(error));
        },
    };
    assert(call_ensures(read_codes, (), Ok(codes)));
    if codes.input_dim() != m {
        return Err(
            BuildError::Invalid(
                IndexError::SubspaceMismatch { got: codes.input_dim(), expected: m },
            ),
        );
    }
    let assignments: Vec<u64> = match read_assignments() {
        Ok(assignments) => assignments,
        Err(error) => {
            assert(call_ensures(read_assignments, (), Err(error)));
            return Err(BuildError::Io(error));
        },
    };
    assert(call_ensures(read_assignments, (), Ok(assignments)));
    decode_dataset(
        ops,
        m,
        &coarse,
        codebooks.as_slice(),
        doclens.as_slice(),
        &codes,
        assignments.as_slice(),
    )
}

/// What is loaded once the centroids were read: codebooks, document lengths, codes
/// and assignments are read in turn, and the first that fails, or that does not match
/// what was read before, ends it.
pub open spec fn after_centroids<T, E, A, RB, RD, RR, RA>(
    loaded: Result<MultiVectorDataset<T>, BuildError<E>>,
    m: usize,
    ops: &A,
    coarse: PlainDenseDataset<T>,
    read_codebooks: RB,
    read_doclens: RD,
    read_codes: RR,
    read_assignments: RA,
) -> bool where
    A: Arithmetic<T>,
    RB: FnOnce() -> Result<Vec<T>, E>,
    RD: FnOnce() -> Result<Vec<i32>, E>,
    RR: FnOnce() -> Result<PlainDenseDataset<u8>, E>,
    RA: FnOnce() -> Result<Vec<u64>, E>,
 {
    exists|b: Result<Vec<T>, E>|
        {
            &&& #[trigger] call_ensures(read_codebooks, (), b)
            &&& match b {
                Err(error) => loaded == Err::<MultiVectorDataset<T>, BuildError<E>>(
                    BuildError::Io(error),
                ),
                Ok(codebooks) => exists|l: Result<Vec<i32>, E>|
                    {
                        &&& #[trigger] call_ensures(read_doclens, (), l)
                        &&& match l {
                            Err(error) => loaded == Err::<MultiVectorDataset<T>, BuildError<E>>(
                                BuildError::Io(error),
                            ),
                            Ok(doclens) => after_doclens(
                                loaded,
                                m,
                                ops,
                                coarse,
                                codebooks@,
                                doclens@,
                                read_codes,
                                read_assignments,
                            ),
                        }
                    },
            }
        }
}

/// What is loaded once the document lengths were read.
pub open spec fn after_doclens<T, E, A, RR, RA>(
    loaded: Result<MultiVectorDataset<T>, BuildError<E>>,
    m: usize,
    ops: &A,
    coarse: PlainDenseDataset<T>,
    codebooks: Seq<T>,
    doclens: Seq<i32>,
    read_codes: RR,
    read_assignments: RA,
) -> bool where
    A: Arithmetic<T>,
    RR: FnOnce() -> Result<PlainDenseDataset<u8>, E>,
    RA: FnOnce() -> Result<Vec<u64>, E>,
 {
    exists|r: Result<PlainDenseDataset<u8>, E>|
        {
            &&& #[trigger] call_ensures(read_codes, (), r)
            &&& match r {
                Err(error) => loaded == Err::<MultiVectorDataset<T>, BuildError<E>>(
                    BuildError::Io(error),
                ),
                Ok(codes) => if codes.spec_dim() != m {
                    loaded == Err::<MultiVectorDataset<T>, BuildError<E>>(
                        BuildError::Invalid(
                            IndexError::SubspaceMismatch {
                                got: codes.spec_dim() as usize,
                                expected: m,
                            },
                        ),
                    )
                } else {
                    exists|a: Result<Vec<u64>, E>|
                        {
                            &&& #[trigger] call_ensures(read_assignments, (), a)
                            &&& match a {
                                Err(error) => loaded == Err::<
                                    MultiVectorDataset<T>,
                                    BuildError<E>,
                                >(BuildError::Io(error)),
                                Ok(assignments) => decodes(
                                    loaded,
                                    ops,
                                    m,
                                    coarse,
                                    codebooks,
                                    doclens,
                                    codes,
                                    assignments@,
                                ),
                            }
                        }
                },
            }
        }
}

/// Reads a multivector dataset of plain tokens: their values as bits, and the lengths
/// of the documents.
pub fn load_multivec_dataset_plain<T, E, W, RT, RD>(
    widen: &W,
    read_documents: RT,
    read_doclens: RD,
) -> (loaded: Result<MultiVectorDataset<T>, E>) where
    W: Fn(u16) -> T,
    RT: FnOnce() -> Result<PlainDenseDataset<u16>, E>,
    RD: FnOnce() -> Result<Vec<i32>, E>,

    requires
        call_requires(read_documents, ()),
        call_requires(read_doclens, ()),
        forall|documents: PlainDenseDataset<u16>, doclens: Vec<i32>| #[trigger]
            call_ensures(read_documents, (), Ok(documents)) && #[trigger] call_ensures(
                read_doclens,
                (),
                Ok(doclens),
            ) ==> are_doclens(doclens@, documents.spec_dim()) && crate::dense::can_convert(
                *widen,
                documents.spec_values(),
            ),
    ensures
        exists|d: Result<PlainDenseDataset<u16>, E>|
            {
                &&& #[trigger] call_ensures(read_documents, (), d)
                &&& match d {
                    Err(error) => loaded == Err::<MultiVectorDataset<T>, E>(error),
                    Ok(documents) => exists|l: Result<Vec<i32>, E>|
                        {
                            &&& #[trigger] call_ensures(read_doclens, (), l)
                            &&& match l {
                                Err(error) => loaded == Err::<MultiVectorDataset<T>, E>(error),
                                Ok(doclens) => {
                                    &&& loaded matches Ok(dataset)
                                    &&& crate::dense::converts(
                                        *widen,
                                        documents.spec_values(),
                                        dataset.values@,
                                    )
                                    &&& dataset.token_dim == documents.spec_dim()
                                    &&& delimit_documents(
                                        dataset.offsets@,
                                        doclens@,
                                        documents.spec_dim(),
                                    )
                                },
                            }
                        },
                }
            },
{
    let documents = match read_documents() {
        Ok(documents) => documents,
        Err(error) => {
            return Err(error);
        },
    };
    assert(call_ensures(read_documents, (), Ok(documents)));
    let doclens: Vec<i32> = match read_doclens() {
        Ok(doclens) => doclens,
        Err(error) => {
            return Err(error);
        },
    };
    assert(call_ensures(read_doclens, (), Ok(doclens)));
    Ok(
        plain_dataset(
            documents.values().as_slice(),
            documents.input_dim(),
            doclens.as_slice(),
            widen,
        ),
    )
}

/// Document offsets start at 0 and never decrease, and each document holds as many
/// values as it has tokens.
pub proof fn law_documents_are_ranges(offsets: Seq<usize>, doclens: Seq<i32>, token_dim: nat, i: int)
    requires
        are_doclens(doclens, token_dim),
        delimit_documents(offsets, doclens, token_dim),
        0 <= i < doclens.len(),
    ensures
        offsets[0] == 0,
        offsets[i + 1] - offsets[i] == doclens[i] * token_dim,
        offsets[i] <= offsets[i + 1],
{
    let before = tokens_before(doclens, i as nat);
    let after = tokens_before(doclens, (i + 1) as nat);
    assert(after == before + doclens[i]);
    assert(offsets[i + 1] == after * token_dim);
    assert(after * token_dim == before * token_dim + doclens[i] * token_dim) by (nonlinear_arith)
        requires
            after == before + doclens[i],
    ;
    assert(0 <= doclens[i] * token_dim) by (nonlinear_arith)
        requires
            0 <= doclens[i],
    ;
    assert(tokens_before(doclens, 0) * token_dim == 0) by (nonlinear_arith)
        requires
            tokens_before(doclens, 0) == 0,
    ;
}

} // verus!
