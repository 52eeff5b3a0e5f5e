//! Schema-driven generation of the three parallel representations of a SQL
//! parse tree (owned union, borrowing view, exclusive accessor), together
//! with the recursion analysis that decides which payloads are stored behind
//! a heap indirection.

pub mod error;
pub mod graph;
pub mod names;
pub mod schema;
pub mod analyzer;
pub mod laws;
pub mod tree;
pub mod text;
pub mod parse;
pub mod emit;
pub mod node_ref;
pub mod node_mut;
pub mod node_structs;
