//! The parts of a workflow. A workflow looks at a task's `id` and at an
//! edge's `source`; all else in them is carried as the JSON it came as.

use crate::memory::types::ID;
use serde_json::Value;
use vstd::prelude::*;

verus! {

/// How a workflow is to be run.
#[derive(Debug, Clone, PartialEq)]
pub struct Config {
    pub detail: Value,
}

/// One unit of work, known by its `id`.
#[derive(Debug, Clone, PartialEq)]
pub struct Task {
    pub id: ID,
    pub detail: Value,
}

/// A connection that leaves the task whose id is `source`.
#[derive(Debug, Clone, PartialEq)]
pub struct Edge {
    pub source: ID,
    pub detail: Value,
}

/// What a workflow hands back when it has run.
#[derive(Debug, Clone, PartialEq)]
pub struct TaskOutput {
    pub detail: Value,
}

} // verus!
