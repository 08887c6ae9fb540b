//! Dense datasets: rows of a common length in one run of values.

use vstd::prelude::*;

verus! {

/// `len` rows of `dim` values each, row after row.
pub struct PlainDenseDataset<T> {
    values: Vec<T>,
    len: usize,
    dim: usize,
}

/// Cell `j` of row `i` lies inside a run of `n` rows.
pub proof fn lemma_cell(i: int, j: int, dim: int, n: int)
    requires
        0 <= i < n,
        0 <= j < dim,
    ensures
        0 <= i * dim <= i * dim + j < i * dim + dim <= n * dim,
        (i + 1) * dim == i * dim + dim,
{
    assert((i + 1) * dim == i * dim + dim) by (nonlinear_arith);
    assert((i + 1) * dim <= n * dim) by (nonlinear_arith)
        requires
            i + 1 <= n,
            0 <= dim,
    ;
    assert(0 <= i * dim) by (nonlinear_arith)
        requires
            0 <= i,
            0 <= dim,
    ;
}

/// Row `i` of a run of `n` rows ends inside it.
pub proof fn lemma_row(i: int, dim: int, n: int)
    requires
        0 <= i < n,
        0 <= dim,
    ensures
        0 <= i * dim <= i * dim + dim <= n * dim,
        (i + 1) * dim == i * dim + dim,
{
    assert((i + 1) * dim == i * dim + dim) by (nonlinear_arith);
    assert((i + 1) * dim <= n * dim) by (nonlinear_arith)
        requires
            i + 1 <= n,
            0 <= dim,
    ;
    assert(0 <= i * dim) by (nonlinear_arith)
        requires
            0 <= i,
            0 <= dim,
    ;
}

impl<T> PlainDenseDataset<T> {
    /// All values, row after row.
    pub closed spec fn spec_values(self) -> Seq<T> {
        self.values@
    }

    /// The number of rows.
    pub closed spec fn spec_len(self) -> nat {
        self.len as nat
    }

    /// The number of values in a row.
    pub closed spec fn spec_dim(self) -> nat {
        self.dim as nat
    }

    pub open spec fn wf(self) -> bool {
        self.spec_values().len() == self.spec_len() * self.spec_dim()
    }

    /// Value `j` of row `i`.
    pub open spec fn cell(self, i: int, j: int) -> T {
        self.spec_values()[i * self.spec_dim() + j]
    }

    /// Row `i`.
    pub open spec fn row(self, i: int) -> Seq<T> {
        self.spec_values().subrange(i * self.spec_dim(), i * self.spec_dim() + self.spec_dim())
    }

    /// A dataset of `len` rows of `dim` values.
    pub fn from_raw(values: Vec<T>, len: usize, dim: usize) -> (dataset: PlainDenseDataset<T>)
        requires
            values@.len() == len * dim,
        ensures
            dataset.wf(),
            dataset.spec_values() == values@,
            dataset.spec_len() == len,
            dataset.spec_dim() == dim,
    {
        PlainDenseDataset { values, len, dim }
    }

    pub fn len(&self) -> (n: usize)
        ensures
            n == self.spec_len(),
    {
        self.len
    }

    pub fn input_dim(&self) -> (dim: usize)
        ensures
            dim == self.spec_dim(),
    {
        self.dim
    }

    pub fn values(&self) -> (values: &Vec<T>)
        ensures
            values@ == self.spec_values(),
    {
        &self.values
    }

    /// Row `i`.
    pub fn get(&self, i: usize) -> (row: &[T])
        requires
            self.wf(),
            i < self.spec_len(),
        ensures
            row@ == self.row(i as int),
            row@.len() == self.spec_dim(),
    {
        proof {
            lemma_row(i as int, self.dim as int, self.len as int);
            assert(self.values.len() == self.len * self.dim);
        }
        let start: usize = i * self.dim;
        vstd::slice::slice_subrange(self.values.as_slice(), start, start + self.dim)
    }
}

/// A copy of `values`.
pub fn copy_values<T: Copy>(values: &[T]) -> (copied: Vec<T>)
    ensures
        copied@ == values@,
{
    let mut copied: Vec<T> = Vec::new();
    let mut i: usize = 0;
    while i < values.len()
        invariant
            i <= values@.len(),
            copied@ == values@.take(i as int),
        decreases values.len() - i,
    {
        copied.push(values[i]);
        i = i + 1;
        assert(values@.take(i as int) =~= values@.take(i - 1).push(values@[i - 1]));
    }
    assert(values@.take(values@.len() as int) =~= values@);
    copied
}

/// Whether `to` holds every value of `from`, converted by `f`.
pub open spec fn converts<T, V, F: Fn(T) -> V>(f: F, from: Seq<T>, to: Seq<V>) -> bool {
    &&& to.len() == from.len()
    &&& forall|i: int| 0 <= i < to.len() ==> call_ensures(f, (from[i],), #[trigger] to[i])
}

/// Whether `f` accepts every one of the values.
pub open spec fn can_convert<T, V, F: Fn(T) -> V>(f: F, values: Seq<T>) -> bool {
    forall|i: int| 0 <= i < values.len() ==> call_requires(f, (#[trigger] values[i],))
}

/// The values, each converted by `f`.
pub fn convert_values<T: Copy, V, F: Fn(T) -> V>(values: &[T], f: &F) -> (out: Vec<V>)
    requires
        can_convert(*f, values@),
    ensures
        converts(*f, values@, out@),
{
    let mut out: Vec<V> = Vec::new();
    let mut i: usize = 0;
    while i < values.len()
        invariant
            i <= values@.len(),
            out@.len() == i,
            can_convert(*f, values@),
            forall|k: int| 0 <= k < i ==> call_ensures(*f, (values@[k],), #[trigger] out@[k]),
        decreases values.len() - i,
    {
        out.push(f(values[i]));
        i = i + 1;
    }
    out
}

impl<T: Copy> PlainDenseDataset<T> {
    /// The dataset with every value converted by `f`.
    pub fn convert<V, F: Fn(T) -> V>(&self, f: &F) -> (converted: PlainDenseDataset<V>)
        requires
            self.wf(),
            can_convert(*f, self.spec_values()),
        ensures
            converted.wf(),
            converted.spec_len() == self.spec_len(),
            converted.spec_dim() == self.spec_dim(),
            converts(*f, self.spec_values(), converted.spec_values()),
    {
        PlainDenseDataset {
            values: convert_values(self.values.as_slice(), f),
            len: self.len,
            dim: self.dim,
        }
    }

    /// The rows at `indices`, in their order.
    pub fn select(&self, indices: &[usize]) -> (picked: PlainDenseDataset<T>)
        requires
            self.wf(),
            forall|i: int| 0 <= i < indices@.len() ==> #[trigger] indices@[i] < self.spec_len(),
        ensures
            picked.wf(),
            picked.is_selection(*self, indices@),
    {
        let dim: usize = self.dim;
        let mut values: Vec<T> = Vec::new();
        let mut i: usize = 0;
        while i < indices.len()
            invariant
                self.wf(),
                i <= indices@.len(),
                dim == self.spec_dim(),
                forall|k: int| 0 <= k < indices@.len() ==> #[trigger] indices@[k] < self.spec_len(),
                values@.len() == i * dim,
                forall|k: int, j: int|
                    0 <= k < i && 0 <= j < dim ==> #[trigger] values@[k * dim + j] == self.cell(
                        indices@[k] as int,
                        j,
                    ),
            decreases indices.len() - i,
        {
            let row = self.get(indices[i]);
            let mut j: usize = 0;
            while j < dim
                invariant
                    self.wf(),
                    i < indices@.len(),
                    j <= dim,
                    dim == self.spec_dim(),
                    forall|k: int| 0 <= k < indices@.len() ==> #[trigger] indices@[k] < self.spec_len(),
                    row@ == self.row(indices@[i as int] as int),
                    row@.len() == dim,
                    values@.len() == i * dim + j,
                    forall|k: int, m: int|
                        (0 <= k < i && 0 <= m < dim) || (k == i && 0 <= m < j)
                            ==> #[trigger] values@[k * dim + m] == self.cell(indices@[k] as int, m),
                decreases dim - j,
            {
                let ghost before = values@;
                values.push(row[j]);
                proof {
                    lemma_row(indices@[i as int] as int, dim as int, self.spec_len() as int);
                    assert(row@[j as int] == self.cell(indices@[i as int] as int, j as int));
                    assert forall|k: int, m: int|
                        (0 <= k < i && 0 <= m < dim) || (k == i && 0 <= m < j + 1) implies
                        #[trigger] values@[k * dim + m] == self.cell(indices@[k] as int, m) by {
                        if k < i {
                            lemma_cell(k, m, dim as int, i as int);
                        } else if m < j {
                            assert(0 <= k * dim) by (nonlinear_arith)
                                requires
                                    0 <= k,
                                    0 <= dim,
                            ;
                        }
                        if k < i || m < j {
                            assert(values@[k * dim + m] == before[k * dim + m]);
                        }
                    }
                }
                j = j + 1;
            }
            proof {
                lemma_row(i as int, dim as int, indices@.len() as int);
            }
            i = i + 1;
        }
        PlainDenseDataset { values, len: indices.len(), dim }
    }
}

impl<T> PlainDenseDataset<T> {
    /// Whether `self` holds the rows of `source` at `indices`, in their order.
    pub open spec fn is_selection(self, source: PlainDenseDataset<T>, indices: Seq<usize>) -> bool {
        &&& self.spec_len() == indices.len()
        &&& self.spec_dim() == source.spec_dim()
        &&& forall|k: int, j: int|
            0 <= k < indices.len() && 0 <= j < source.spec_dim() ==> #[trigger] self.cell(k, j)
                == source.cell(indices[k] as int, j)
    }
}

} // verus!
