//! Distance metrics and their names.

use crate::error::IndexError;
use crate::text::{same_text, to_lower};
use vstd::prelude::*;

verus! {

/// A distance metric.
#[derive(Clone, Copy, Debug, PartialEq, Eq, Structural)]
pub enum MetricKind {
    Euclidean,
    DotProduct,
}

/// The metric with the given name.
pub open spec fn metric_named_spec(name: Seq<char>) -> Option<MetricKind> {
    if name == "euclidean"@ || name == "l2"@ {
        Some(MetricKind::Euclidean)
    } else if name == "dotproduct"@ || name == "ip"@ {
        Some(MetricKind::DotProduct)
    } else {
        None
    }
}

/// The metric with the given name, in lower case.
pub fn metric_named(name: &str) -> (metric: Option<MetricKind>)
    ensures
        metric == metric_named_spec(name@),
{
    if same_text(name, "euclidean") || same_text(name, "l2") {
        Some(MetricKind::Euclidean)
    } else if same_text(name, "dotproduct") || same_text(name, "ip") {
        Some(MetricKind::DotProduct)
    } else {
        None
    }
}

/// The metric with the given name, in any case.
pub fn parse_metric(metric: &str) -> (parsed: Result<MetricKind, IndexError>)
    ensures
        parsed == (match metric_named_spec(crate::text::in_lower_case(metric@)) {
            Some(kind) => Ok::<MetricKind, IndexError>(kind),
            None => Err(IndexError::InvalidMetric),
        }),
{
    let lower: String = to_lower(metric);
    match metric_named(lower.as_str()) {
        Some(kind) => Ok(kind),
        None => Err(IndexError::InvalidMetric),
    }
}

} // verus!
