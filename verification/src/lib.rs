//! A verified core of the Angular template pipeline: the output expression model, the
//! intermediate representation of operations, and the conversion, ingestion, transformation
//! and emission steps that compile host bindings.

pub mod text;
pub mod parse_util;
pub mod output;
pub mod equivalence;
pub mod expression_ast;
pub mod ir;
pub mod compilation;
pub mod component;
pub mod conversion;
pub mod schema;
pub mod i18n;
pub mod ingest;
pub mod phases;
pub mod emit;
pub mod view_query;
pub mod instruction;
pub mod pipeline;
