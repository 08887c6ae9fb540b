//! Errors of the index operations.

use vstd::prelude::*;

verus! {

/// What is wrong with the arguments of an index operation.
#[derive(Debug)]
pub enum IndexError {
    /// The metric is neither Euclidean nor dot product.
    InvalidMetric,
    /// No graph type has this name.
    UnknownGraphType(String),
    /// Compressed storage does not hold this many neighbors per node.
    TooManyNeighbors { m: usize },
    /// A component does not fit 16 bits.
    ComponentOutOfRange,
    /// There are no offsets.
    OffsetsEmpty,
    /// The first offset is not 0.
    OffsetsStart,
    /// The last offset is not the number of values.
    OffsetsEnd,
    /// An offset is smaller than the one before it.
    OffsetsOrder,
    /// A query has another dimension than the index.
    QueryDimension { got: usize, dim: usize },
    /// The values of a batch of queries do not make up whole queries.
    QueriesLength { len: usize, dim: usize },
    /// Expanded neighbor lists were asked for before they were built.
    GammaNotBuilt,
    /// Vectors without values.
    DimensionZero,
    /// The values do not make up whole vectors.
    DataLength { len: usize, dim: usize },
    /// A query width outside 1 to 8 bits.
    QueryBits { bits: u32 },
    /// A code width other than 2, 4 or 8 bits.
    TotalBits { bits: u32 },
    /// No encoder has this name.
    UnknownEncoder(String),
    /// The encoder has no code with this many subspaces.
    UnsupportedSubspaces { m: usize },
    /// The encoder does not quantize queries, so they have no width.
    QueriesNotQuantized,
    /// Codes with another number of subspaces than expected.
    SubspaceMismatch { got: usize, expected: usize },
    /// There is not one assignment for each token.
    AssignmentLength { got: usize, n_tokens: usize },
    /// A token is assigned to a centroid that there is not.
    CoarseOutOfRange { index: u64, n_coarse: usize },
}

/// Why an index could not be built or loaded.
#[derive(Debug)]
pub enum BuildError<E> {
    /// The arguments are not valid.
    Invalid(IndexError),
    /// Reading failed.
    Io(E),
}

/// What is wrong with the options of a command.
#[derive(Clone, Copy, Debug, PartialEq, Eq, Structural)]
pub enum ArgError {
    /// Product quantization encodes dense vectors only.
    PqIsDenseOnly,
    /// RaBitQ encodes dense vectors only.
    RabitqIsDenseOnly,
    /// DotVByte encodes sparse vectors only.
    DotvbyteIsSparseOnly,
    /// Fixed-point values are stored for sparse vectors only.
    FixedPointIsSparseOnly,
    /// Dense vectors have no components to choose a type for.
    ComponentTypeIsSparseOnly,
    /// DotVByte encodes 16-bit components only.
    DotvbyteNeedsU16,
    /// DotVByte computes dot products only.
    DotvbyteNeedsDotProduct,
    /// Compressed storage does not hold this many neighbors per node.
    TooManyNeighbors { m: usize },
    /// The distance is neither Euclidean nor dot product.
    InvalidDistance,
    /// RaBitQ packs codes into 64-bit words; this dimension leaves a rest.
    RabitqDimension { dim: usize },
    /// A code width other than 2, 4 or 8 bits.
    TotalBits { bits: u32 },
    /// A query width outside 1 to 8 bits.
    QueryBits { bits: u32 },
    /// No supported number of subspaces divides this dimension.
    NoSubspacesFor { dim: usize },
    /// The encoder has no code with this many subspaces.
    UnsupportedSubspaces { m: usize },
    /// The number of subspaces does not divide the dimension.
    SubspacesDoNotDivide { m: usize, dim: usize },
    /// The number of subspaces has to be given.
    SubspacesMissing,
    /// Adaptive early termination needs its parameter.
    LambdaMissing,
    /// The two stages hold different collections.
    CollectionMismatch { first_stage: usize, rerank: usize },
}

} // verus!
