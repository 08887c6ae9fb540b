//! Approximate nearest neighbor search: inverted files, flat, graph and two-stage indexes, and
//! the rules of the programs around them.
//!
//! Values are generic and come with their operations ([`arithmetic::Arithmetic`]); storage,
//! distances and graphs belong to a vector engine and come in as closures.

use vstd::prelude::*;

pub mod arithmetic;
pub mod build_plan;
pub mod cli;
pub mod dataset_laws;
pub mod dense;
pub mod error;
pub mod exact;
pub mod exact_laws;
pub mod flat;
pub mod flatten;
pub mod graph_type;
pub mod grouping;
pub mod hnsw;
pub mod index_laws;
pub mod ivf;
pub mod ivf_build;
pub mod ivf_build_laws;
pub mod ivf_exact;
pub mod ivf_laws;
pub mod metric;
pub mod multivec;
pub mod name_laws;
pub mod plan_laws;
pub mod query;
pub mod query_laws;
pub mod ranking;
pub mod ranking_laws;
pub mod rerank_dense;
pub mod rerank_multivec;
pub mod results;
pub mod search_plan;
pub mod sparse;
pub mod sparse_query;
pub mod text;
pub mod timing;
pub mod timing_laws;

verus! {

} // verus!
