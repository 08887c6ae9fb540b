//! What names stand for: metrics, graph types and encoders, and the errors that unknown
//! ones give.

use crate::error::{ArgError, IndexError};
use crate::graph_type::{
    graph_type_named, parse_build_graph_type, parse_graph_type, GraphTypeKind, NeighborStorage,
};
use crate::hnsw::{check_build_arguments, check_load_arguments, Reordering};
use crate::metric::{metric_named, parse_metric, MetricKind};
use crate::rerank_dense::{parse_encoder, supports_subspaces, validate_encoder_widths, FirstStageEncoder};
use crate::text::{in_lower_case, same_text};
use vstd::prelude::*;

verus! {

/// Whether two ASCII texts differ in the case of their letters at most.
pub open spec fn same_but_case(a: Seq<char>, b: Seq<char>) -> bool {
    &&& a.len() == b.len()
    &&& forall|i: int|
        0 <= i < a.len() ==> {
            let x = #[trigger] a[i] as int;
            let y = b[i] as int;
            &&& x < 128
            &&& y < 128
            &&& x == y || (65 <= x <= 90 && y == x + 32) || (65 <= y <= 90 && x == y + 32)
        }
}

/// Whether an ASCII text has no capital letter.
pub open spec fn is_small(text: Seq<char>) -> bool {
    forall|i: int|
        0 <= i < text.len() ==> (#[trigger] text[i] as int) < 128 && !(65 <= text[i] as int <= 90)
}

/// Lower case turns `A` to `Z` of an ASCII text into `a` to `z` and keeps every other
/// character; nothing is added or taken away.
pub proof fn law_lower_case_of_ascii(text: Seq<char>, i: int)
    requires
        forall|j: int| 0 <= j < text.len() ==> (#[trigger] text[j] as int) < 128,
        0 <= i < text.len(),
    ensures
        in_lower_case(text).len() == text.len(),
        65 <= text[i] as int <= 90 ==> in_lower_case(text)[i] as int == text[i] as int + 32,
        !(65 <= text[i] as int <= 90) ==> in_lower_case(text)[i] == text[i],
{
}

/// Texts that differ in case only have one lower case, and a text without capitals is
/// its own.
pub proof fn law_lower_case_forgets_case(a: Seq<char>, b: Seq<char>)
    ensures
        same_but_case(a, b) ==> in_lower_case(a) == in_lower_case(b),
        is_small(a) ==> in_lower_case(a) == a,
        !crate::text::all_ascii(a) <==> exists|i: int| 0 <= i < a.len() && (#[trigger] a[i] as int) >= 128,
{
    if same_but_case(a, b) {
        assert forall|i: int| 0 <= i < b.len() implies (#[trigger] b[i] as int) < 128 by {
            assert((a[i] as int) < 128);
        }
        assert(in_lower_case(a) =~= in_lower_case(b));
    }
    if is_small(a) {
        assert(in_lower_case(a) =~= a);
    }
}

/// Texts are the same where their characters are.
pub proof fn law_same_text(a: &str, b: &str, same: bool)
    requires
        call_ensures(same_text, (a, b), same),
    ensures
        same <==> a@.len() == b@.len() && forall|i: int| 0 <= i < a@.len() ==> #[trigger] a@[i] == b@[i],
{
    if a@.len() == b@.len() && forall|i: int| 0 <= i < a@.len() ==> #[trigger] a@[i] == b@[i] {
        assert(a@ =~= b@);
    }
}

/// Two names stand for each metric, and no other name stands for one.
pub proof fn law_metric_names(name: &str, metric: Option<MetricKind>)
    requires
        call_ensures(metric_named, (name,), metric),
    ensures
        metric == Some(MetricKind::Euclidean) <==> name@ == "euclidean"@ || name@ == "l2"@,
        metric == Some(MetricKind::DotProduct) <==> name@ == "dotproduct"@ || name@ == "ip"@,
{
    reveal_strlit("euclidean");
    reveal_strlit("l2");
    reveal_strlit("dotproduct");
    reveal_strlit("ip");
    assert("euclidean"@.len() == 9 && "l2"@.len() == 2 && "dotproduct"@.len() == 10 && "ip"@.len() == 2);
    assert("l2"@[0] != "ip"@[0]);
}

/// On the command line a metric is named as it is written; anything else is an invalid
/// distance.
pub proof fn law_written_metric(
    name: &str,
    metric: Option<MetricKind>,
    parsed: Result<MetricKind, ArgError>,
)
    requires
        call_ensures(metric_named, (name,), metric),
        call_ensures(crate::cli::parse_metric, (name,), parsed),
    ensures
        match metric {
            Some(kind) => parsed == Ok::<MetricKind, ArgError>(kind),
            None => parsed == Err::<MetricKind, ArgError>(ArgError::InvalidDistance),
        },
{
}

/// A metric is named in any case: texts that differ in case parse alike, and a text
/// without capitals parses as the name it is.
pub proof fn law_metric_in_any_case(
    a: &str,
    b: &str,
    parsed_a: Result<MetricKind, IndexError>,
    parsed_b: Result<MetricKind, IndexError>,
    named: Option<MetricKind>,
)
    requires
        call_ensures(parse_metric, (a,), parsed_a),
        call_ensures(parse_metric, (b,), parsed_b),
        call_ensures(metric_named, (a,), named),
    ensures
        same_but_case(a@, b@) ==> parsed_a == parsed_b,
        is_small(a@) ==> match named {
            Some(kind) => parsed_a == Ok::<MetricKind, IndexError>(kind),
            None => parsed_a == Err::<MetricKind, IndexError>(IndexError::InvalidMetric),
        },
        parsed_a is Err ==> parsed_a == Err::<MetricKind, IndexError>(IndexError::InvalidMetric),
{
    law_lower_case_forgets_case(a@, b@);
}

/// One name stands for each graph type, and no other name stands for one.
pub proof fn law_graph_type_names(name: &str, kind: Option<GraphTypeKind>)
    requires
        call_ensures(graph_type_named, (name,), kind),
    ensures
        kind == Some(GraphTypeKind::Standard) <==> name@ == "standard"@,
        kind == Some(GraphTypeKind::Permuted) <==> name@ == "permuted"@,
        kind == Some(GraphTypeKind::Compressed) <==> name@ == "compressed"@,
{
    reveal_strlit("standard");
    reveal_strlit("permuted");
    reveal_strlit("compressed");
    assert("standard"@.len() == 8 && "permuted"@.len() == 8 && "compressed"@.len() == 10);
    assert("standard"@[0] != "permuted"@[0]);
}

/// A graph type is named in any case; an unknown name comes back in the error, in lower
/// case.
pub proof fn law_graph_type_in_any_case(
    a: &str,
    b: &str,
    parsed_a: Result<GraphTypeKind, IndexError>,
    parsed_b: Result<GraphTypeKind, IndexError>,
    named: Option<GraphTypeKind>,
)
    requires
        call_ensures(parse_graph_type, (a,), parsed_a),
        call_ensures(parse_graph_type, (b,), parsed_b),
        call_ensures(graph_type_named, (a,), named),
    ensures
        same_but_case(a@, b@) ==> match (parsed_a, parsed_b) {
            (Ok(x), Ok(y)) => x == y,
            (Err(x), Err(y)) => x->UnknownGraphType_0@ == y->UnknownGraphType_0@,
            _ => false,
        },
        is_small(a@) ==> match named {
            Some(kind) => parsed_a == Ok::<GraphTypeKind, IndexError>(kind),
            None => parsed_a matches Err(IndexError::UnknownGraphType(other)) && other@ == a@,
        },
        parsed_a matches Err(error) ==> error is UnknownGraphType,
{
    law_lower_case_forgets_case(a@, b@);
}

/// A build accepts a graph type where it is named and, if compressed, has at most 128
/// neighbors per node.
pub proof fn law_graph_type_of_a_build(
    name: &str,
    m: usize,
    parsed: Result<GraphTypeKind, IndexError>,
    built: Result<GraphTypeKind, IndexError>,
)
    requires
        call_ensures(parse_graph_type, (name,), parsed),
        call_ensures(parse_build_graph_type, (name, m), built),
    ensures
        match parsed {
            Err(error) => built matches Err(e) && e is UnknownGraphType && e->UnknownGraphType_0@
                == error->UnknownGraphType_0@,
            Ok(kind) => if kind is Compressed && m > 128 {
                built == Err::<GraphTypeKind, IndexError>(IndexError::TooManyNeighbors { m })
            } else {
                built == Ok::<GraphTypeKind, IndexError>(kind)
            },
        },
{
}

/// Only compressed graphs limit neighbors and store them compressed, and only standard
/// graphs keep the order of their nodes.
pub proof fn law_graph_types_are_told_apart(
    kind: GraphTypeKind,
    m: usize,
    holds: bool,
    storage: NeighborStorage,
    reordering: Reordering,
)
    requires
        call_ensures(GraphTypeKind::holds, (kind, m), holds),
        call_ensures(GraphTypeKind::storage, (kind,), storage),
        call_ensures(GraphTypeKind::reordering, (kind,), reordering),
    ensures
        !holds <==> kind is Compressed && m > 128,
        storage is StreamVByte <==> kind is Compressed,
        reordering is Keep <==> kind is Standard,
        reordering matches Reordering::Permute(stored) ==> stored == storage,
{
}

/// A build looks at the graph type first and at the metric then; a load does the same
/// without looking at neighbors.
pub proof fn law_arguments_are_checked_in_turn(
    metric: &str,
    graph_type: &str,
    m: usize,
    parsed_metric: Result<MetricKind, IndexError>,
    parsed_type: Result<GraphTypeKind, IndexError>,
    parsed_build: Result<GraphTypeKind, IndexError>,
    build: Result<(MetricKind, GraphTypeKind), IndexError>,
    load: Result<(MetricKind, GraphTypeKind), IndexError>,
)
    requires
        call_ensures(parse_metric, (metric,), parsed_metric),
        call_ensures(parse_graph_type, (graph_type,), parsed_type),
        call_ensures(parse_build_graph_type, (graph_type, m), parsed_build),
        call_ensures(check_build_arguments, (metric, graph_type, m), build),
        call_ensures(check_load_arguments, (metric, graph_type), load),
    ensures
        match (parsed_build, parsed_metric) {
            (Ok(graph), Ok(kind)) => build == Ok::<(MetricKind, GraphTypeKind), IndexError>((kind, graph)),
            (Ok(_), Err(error)) => build == Err::<(MetricKind, GraphTypeKind), IndexError>(
                IndexError::InvalidMetric,
            ),
            (Err(IndexError::UnknownGraphType(name)), _) => build matches Err(e) && e is UnknownGraphType
                && e->UnknownGraphType_0@ == name@,
            (Err(error), _) => build == Err::<(MetricKind, GraphTypeKind), IndexError>(error),
        },
        match (parsed_type, parsed_metric) {
            (Ok(graph), Ok(kind)) => load == Ok::<(MetricKind, GraphTypeKind), IndexError>((kind, graph)),
            (Ok(_), Err(error)) => load == Err::<(MetricKind, GraphTypeKind), IndexError>(
                IndexError::InvalidMetric,
            ),
            (Err(error), _) => load matches Err(e) && e is UnknownGraphType && e->UnknownGraphType_0@
                == error->UnknownGraphType_0@,
        },
{
}

/// The same about a pair of predicates: what a build or a load of an index names is the
/// metric and the graph type under these names, or the first error.
pub proof fn law_build_arguments(
    metric: Seq<char>,
    graph_type: Seq<char>,
    m: usize,
    outcome: Result<(MetricKind, GraphTypeKind), IndexError>,
)
    requires
        crate::hnsw::build_arguments(metric, graph_type, m, outcome),
    ensures
        outcome matches Ok((kind, graph)) ==> {
            &&& kind is Euclidean <==> metric == "euclidean"@ || metric == "l2"@
            &&& kind is DotProduct <==> metric == "dotproduct"@ || metric == "ip"@
            &&& graph is Standard <==> graph_type == "standard"@
            &&& graph is Permuted <==> graph_type == "permuted"@
            &&& graph is Compressed <==> graph_type == "compressed"@
            &&& graph is Compressed ==> m <= 128
        },
        outcome matches Err(error) ==> {
            let known = graph_type == "standard"@ || graph_type == "permuted"@ || graph_type == "compressed"@;
            let named = metric == "euclidean"@ || metric == "l2"@ || metric == "dotproduct"@ || metric == "ip"@;
            &&& !known <==> error is UnknownGraphType
            &&& error is UnknownGraphType ==> error->UnknownGraphType_0@ == graph_type
            &&& known && graph_type == "compressed"@ && m > 128 <==> error == (IndexError::TooManyNeighbors {
                m,
            })
            &&& known && !(graph_type == "compressed"@ && m > 128) ==> !named && error
                == IndexError::InvalidMetric
        },
{
    reveal_strlit("euclidean");
    reveal_strlit("l2");
    reveal_strlit("dotproduct");
    reveal_strlit("ip");
    assert("euclidean"@.len() == 9 && "l2"@.len() == 2 && "dotproduct"@.len() == 10 && "ip"@.len() == 2);
    assert("l2"@[0] != "ip"@[0]);
    reveal_strlit("standard");
    reveal_strlit("permuted");
    reveal_strlit("compressed");
    assert("standard"@.len() == 8 && "permuted"@.len() == 8 && "compressed"@.len() == 10);
    assert("standard"@[0] != "permuted"@[0]);
}

/// Product quantization supports eleven numbers of subspaces: 4, the multiples of 8 up
/// to 32, those of 16 up to 64, of 32 up to 128, and of 64 up to 256.
pub proof fn law_supported_subspaces(m: usize, supported: bool)
    requires
        call_ensures(supports_subspaces, (m,), supported),
    ensures
        supported <==> m == 4 || (0 < m <= 32 && m % 8 == 0) || (32 < m <= 64 && m % 16 == 0) || (64 < m <= 128
            && m % 32 == 0) || (128 < m <= 256 && m % 64 == 0),
        supported == crate::rerank_dense::supported_subspaces(m),
{
}

/// Three names stand for an encoder of the first stage; product quantization needs a
/// supported number of subspaces, and carries it.
pub proof fn law_encoder_names(
    name: &str,
    pq_subspaces: usize,
    supported: bool,
    parsed: Result<FirstStageEncoder, IndexError>,
)
    requires
        call_ensures(supports_subspaces, (pq_subspaces,), supported),
        call_ensures(parse_encoder, (name, pq_subspaces), parsed),
    ensures
        match parsed {
            Ok(FirstStageEncoder::Pq { subspaces }) => name@ == "pq"@ && supported && subspaces == pq_subspaces,
            Ok(FirstStageEncoder::Rabitq) => name@ == "rabitq"@,
            Ok(FirstStageEncoder::RabitqExt) => name@ == "rabitq-ext"@,
            Err(IndexError::UnsupportedSubspaces { m }) => name@ == "pq"@ && !supported && m == pq_subspaces,
            Err(IndexError::UnknownEncoder(other)) => other@ == name@ && name@ != "pq"@ && name@ != "rabitq"@
                && name@ != "rabitq-ext"@,
            Err(_) => false,
        },
        crate::rerank_dense::names_encoder(name@, pq_subspaces, parsed),
{
    reveal_strlit("pq");
    reveal_strlit("rabitq");
    reveal_strlit("rabitq-ext");
    assert("pq"@.len() == 2 && "rabitq"@.len() == 6 && "rabitq-ext"@.len() == 10);
}

/// What is said to name an encoder names it alone.
pub proof fn law_named_encoder(name: Seq<char>, pq_subspaces: usize, parsed: Result<
    FirstStageEncoder,
    IndexError,
>)
    requires
        crate::rerank_dense::names_encoder(name, pq_subspaces, parsed),
    ensures
        match parsed {
            Ok(FirstStageEncoder::Pq { subspaces }) => name == "pq"@ && subspaces == pq_subspaces && (
            pq_subspaces == 4 || pq_subspaces % 8 == 0) && 0 < pq_subspaces <= 256,
            Ok(FirstStageEncoder::Rabitq) => name == "rabitq"@,
            Ok(FirstStageEncoder::RabitqExt) => name == "rabitq-ext"@,
            Err(IndexError::UnsupportedSubspaces { m }) => name == "pq"@ && m == pq_subspaces,
            Err(IndexError::UnknownEncoder(other)) => other@ == name && name != "pq"@ && name != "rabitq"@
                && name != "rabitq-ext"@,
            Err(_) => false,
        },
{
    reveal_strlit("pq");
    reveal_strlit("rabitq");
    reveal_strlit("rabitq-ext");
    assert("pq"@.len() == 2 && "rabitq"@.len() == 6 && "rabitq-ext"@.len() == 10);
}

/// Each RaBitQ encoder has a width of its own that is checked: queries from 1 to 8 bits
/// for one, codes of 2, 4 or 8 bits for the other, where a code width is given. No other
/// width is looked at.
pub proof fn law_widths_are_checked(
    encoder: &str,
    total_bits: Option<u32>,
    query_bits: u32,
    checked: Result<(), IndexError>,
)
    requires
        call_ensures(validate_encoder_widths, (encoder, total_bits, query_bits), checked),
    ensures
        match checked {
            Ok(()) => {
                &&& encoder@ == "rabitq"@ ==> query_bits >= 1 && query_bits <= 8
                &&& encoder@ == "rabitq-ext"@ && total_bits is Some ==> total_bits->0 == 2 || total_bits->0 == 4
                    || total_bits->0 == 8
            },
            Err(IndexError::QueryBits { bits }) => encoder@ == "rabitq"@ && bits == query_bits && (bits == 0
                || bits > 8),
            Err(IndexError::TotalBits { bits }) => encoder@ == "rabitq-ext"@ && total_bits == Some(bits) && bits
                != 2 && bits != 4 && bits != 8,
            Err(_) => false,
        },
{
    reveal_strlit("rabitq");
    reveal_strlit("rabitq-ext");
    assert("rabitq"@.len() == 6 && "rabitq-ext"@.len() == 10);
}

} // verus!
