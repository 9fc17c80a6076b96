//! Parser and diagnostic engine for a small interface-definition language:
//! namespaces, imports, enums, classes and service interfaces, with precise,
//! serializable syntax diagnostics.
//!
//! All positions in this crate count characters of the input, starting at 0.

pub mod tree;
pub mod grammar;
pub mod parser;
pub mod text;
pub mod diag;
pub mod project;
pub mod error;
pub mod restful;
pub mod laws;

