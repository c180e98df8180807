//! Finds the declared dependencies of a manifest that a project does not need,
//! by removing them one at a time and asking a validity oracle after each removal.

pub mod command;
pub mod model;
pub mod tree;
pub mod document;
pub mod engine;
