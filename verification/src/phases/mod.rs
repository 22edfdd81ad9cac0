//! The transformation phases of the pipeline.

pub mod host_style_property_parsing;
pub mod binding_specialization;
pub mod attribute_extraction;
pub mod const_collection;
pub mod component_consts;
pub mod chaining;
pub mod any_cast;
pub mod i18n_const_collection;
pub mod namespace;
pub mod empty_elements;
pub mod collapse_singleton_interpolations;
pub mod deduplicate_text_bindings;
pub mod generate_advance;
pub mod extract_i18n_messages;
pub mod local_refs;
pub mod naming;

pub use crate::pipeline::run_host;
