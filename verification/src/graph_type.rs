//! How the graph of an index is ordered and stored.

use crate::error::IndexError;
use crate::text::{same_text, to_lower};
use vstd::prelude::*;

verus! {

/// The neighbors that compressed storage holds for one node at most.
pub const MAX_NEIGHBORS_PER_NODE: usize = 256;

/// How the graph of an index is ordered and stored.
#[derive(Clone, Copy, Debug, PartialEq, Eq, Structural)]
pub enum GraphTypeKind {
    /// Original node order, plain neighbor lists.
    Standard,
    /// Reordered nodes, plain neighbor lists.
    Permuted,
    /// Reordered nodes, compressed neighbor lists.
    Compressed,
}

/// How neighbor lists are stored. `Standard` and `Permuted` graphs share one
/// representation.
#[derive(Clone, Copy, Debug, PartialEq, Eq, Structural)]
pub enum NeighborStorage {
    Plain,
    StreamVByte,
}

/// The graph type with the given name.
pub open spec fn graph_type_named_spec(name: Seq<char>) -> Option<GraphTypeKind> {
    if name == "standard"@ {
        Some(GraphTypeKind::Standard)
    } else if name == "permuted"@ {
        Some(GraphTypeKind::Permuted)
    } else if name == "compressed"@ {
        Some(GraphTypeKind::Compressed)
    } else {
        None
    }
}

/// Whether `parsed` is the graph type with the given name, or an error that holds
/// a name that no graph type has.
pub open spec fn parses_graph_type(
    name: Seq<char>,
    parsed: Result<GraphTypeKind, IndexError>,
) -> bool {
    match graph_type_named_spec(name) {
        Some(kind) => parsed == Ok::<GraphTypeKind, IndexError>(kind),
        None => parsed matches Err(IndexError::UnknownGraphType(other)) && other@ == name,
    }
}

/// Twice as many neighbors are kept on the ground level as on the others, so this
/// is what fits compressed storage.
pub open spec fn fits_storage(kind: GraphTypeKind, m: usize) -> bool {
    kind is Compressed ==> 2 * m <= MAX_NEIGHBORS_PER_NODE
}

/// Whether `parsed` is the graph type with the given name where `m` neighbors fit
/// its storage, and the error of the check that fails first otherwise.
pub open spec fn parses_build_graph_type(
    name: Seq<char>,
    m: usize,
    parsed: Result<GraphTypeKind, IndexError>,
) -> bool {
    match graph_type_named_spec(name) {
        Some(kind) => if fits_storage(kind, m) {
            parsed == Ok::<GraphTypeKind, IndexError>(kind)
        } else {
            parsed == Err::<GraphTypeKind, IndexError>(IndexError::TooManyNeighbors { m })
        },
        None => parsed matches Err(IndexError::UnknownGraphType(other)) && other@ == name,
    }
}

/// The graph type with the given name, in lower case.
pub fn graph_type_named(name: &str) -> (kind: Option<GraphTypeKind>)
    ensures
        kind == graph_type_named_spec(name@),
{
    if same_text(name, "standard") {
        Some(GraphTypeKind::Standard)
    } else if same_text(name, "permuted") {
        Some(GraphTypeKind::Permuted)
    } else if same_text(name, "compressed") {
        Some(GraphTypeKind::Compressed)
    } else {
        None
    }
}

/// The graph type with the given name, in any case.
pub fn parse_graph_type(graph_type: &str) -> (parsed: Result<GraphTypeKind, IndexError>)
    ensures
        parses_graph_type(crate::text::in_lower_case(graph_type@), parsed),
{
    let lower: String = to_lower(graph_type);
    match graph_type_named(lower.as_str()) {
        Some(kind) => Ok(kind),
        None => Err(IndexError::UnknownGraphType(lower)),
    }
}

impl GraphTypeKind {
    /// Whether `m` neighbors per node fit the storage of this graph type.
    pub fn holds(self, m: usize) -> (fits: bool)
        ensures
            fits == fits_storage(self, m),
    {
        match self {
            GraphTypeKind::Compressed => m <= MAX_NEIGHBORS_PER_NODE / 2,
            _ => true,
        }
    }

    pub open spec fn storage_spec(self) -> NeighborStorage {
        if self is Compressed {
            NeighborStorage::StreamVByte
        } else {
            NeighborStorage::Plain
        }
    }

    /// How a graph of this type is stored.
    pub fn storage(self) -> (storage: NeighborStorage)
        ensures
            storage == self.storage_spec(),
    {
        match self {
            GraphTypeKind::Compressed => NeighborStorage::StreamVByte,
            _ => NeighborStorage::Plain,
        }
    }
}

/// The graph type with the given name, for an index with `m` neighbors per node.
pub fn parse_build_graph_type(graph_type: &str, m: usize) -> (parsed: Result<GraphTypeKind, IndexError>)
    ensures
        parses_build_graph_type(crate::text::in_lower_case(graph_type@), m, parsed),
{
    match parse_graph_type(graph_type) {
        Ok(kind) => if kind.holds(m) {
            Ok(kind)
        } else {
            Err(IndexError::TooManyNeighbors { m })
        },
        Err(error) => Err(error),
    }
}

/// Two graph types load alike exactly where both are compressed or neither is.
pub proof fn law_types_that_load_alike(a: GraphTypeKind, b: GraphTypeKind)
    ensures
        a.storage_spec() == b.storage_spec() <==> (a is Compressed <==> b is Compressed),
{
}

/// A compressed graph is limited to 128 neighbors per node; other graphs are not.
pub proof fn law_compressed_limits_neighbors(kind: GraphTypeKind, m: usize)
    ensures
        fits_storage(kind, m) <==> (kind is Compressed ==> m <= 128),
{
}

} // verus!
