//! Extraction of highlight assertions written as arrow comments in source
//! files, over a syntax tree produced by tree-sitter.

pub mod types;
pub mod scan;
pub mod correct;
pub mod order;
pub mod extract;
pub mod syntax;
pub mod laws;
