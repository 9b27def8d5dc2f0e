//! The workflow and the parts it is made of.

pub mod atomics;
pub mod workflow;
