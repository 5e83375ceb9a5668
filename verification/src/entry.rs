//! Leaf-entry structures and the record extraction pipeline.

pub mod constants;
pub mod parser;
