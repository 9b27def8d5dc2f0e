//! A declarative workflow description: tasks, the edges between them, an
//! execution configuration, an optional seeded memory and a return value.

pub mod json;
pub mod memory;
pub mod program;
pub mod text;
