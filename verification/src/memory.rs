//! The memory that a workflow is seeded with.

pub mod normalize;
pub mod store;
pub mod types;
