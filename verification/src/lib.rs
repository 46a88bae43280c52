//! Conversion between the flat OBO document syntax (frames of typed clauses)
//! and the OBO graph model (nodes, edges and axiom collections).
//!
//! The library owns both object models: [`ast`] holds the frame/clause
//! document, [`model`] holds the graph. The translation itself lives in
//! [`into_graph`] (document to graph) and [`from_graph`] (graph to document),
//! with identifier expansion and compaction in [`context`].
//!
//! Reading and writing JSON or YAML serializations of the graph model, and
//! parsing or printing the flat syntax, are left to callers; the library
//! works on already-built values.

pub mod strutil;
pub mod ident;
pub mod error;
pub mod utils;
pub mod model;
pub mod ast;
pub mod parse;
pub mod context;
pub mod constants;
pub mod into_graph;
pub mod from_graph;
pub mod laws;
