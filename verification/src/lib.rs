//! Analysis of single functions in parsed Move modules: canonical type and
//! signature rendering, source extraction and call-graph edges.

pub mod text;
pub mod types;
pub mod ast;
pub mod records;
pub mod type_resolver;
pub mod signature;
pub mod index;
pub mod source;
pub mod resolve;
pub mod calls;
pub mod analyzer;
pub mod loader;
pub mod balance;
pub mod edge_laws;
