//! Ingestion of textual job documents: schema-validation outcome, strict
//! structural decoding, `${name}` placeholder substitution, per-task
//! exit-code policy resolution, and incremental construction of the output
//! task graph, with every failure collapsed at the public boundary into one
//! message naming the originating document.

pub mod assemble;
pub mod decode;
pub mod encode;
pub mod graph;
pub mod laws;
pub mod model;
pub mod pipeline;
pub mod policy;
pub mod template;

pub use pipeline::parse;

use vstd::prelude::*;

verus! {

/// Exit-code lists for one task: which codes let the job continue with the
/// task's dependents, and which end the whole job successfully at once.
#[derive(Debug)]
pub struct TaskReturnCodeMapping {
    pub continue_job: Vec<i32>,
    pub terminate_early: Vec<i32>,
}

/// Caller-supplied policy override: either replace every task's declared
/// exit-code policy with one uniform mapping, or leave each task's own
/// declared policy in force.
pub enum OverrideResultMappings {
    All(TaskReturnCodeMapping),
    NoOverride,
}

} // verus!
