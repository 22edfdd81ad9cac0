//! The i18n metadata that template nodes may carry.

use vstd::prelude::*;

verus! {

/// A node of an i18n message.
#[allow(inconsistent_fields)]
#[derive(Debug)]
pub enum I18nNode {
    Text { value: String },
    Container { children: Vec<I18nNode> },
    Icu { expression: String, type_: String },
    TagPlaceholder { tag: String, start_name: String, close_name: String, children: Vec<I18nNode> },
    Placeholder { value: String, name: String },
    IcuPlaceholder { name: String },
    BlockPlaceholder { name: String, start_name: String, close_name: String, children: Vec<I18nNode> },
}

/// An i18n message: its nodes and its identifying metadata.
#[derive(Debug)]
pub struct I18nMessage {
    pub nodes: Vec<I18nNode>,
    pub meaning: String,
    pub description: String,
    pub custom_id: String,
    pub id: String,
}

/// The i18n metadata of a template node: a whole message, or a node within one.
#[derive(Debug)]
pub enum I18nMeta {
    Message(I18nMessage),
    Node(I18nNode),
}

} // verus!
