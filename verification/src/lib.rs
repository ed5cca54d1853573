//! An in-memory tabular record store for membership cards, with filtered
//! search, inline-edit reconciliation, dirty tracking, and a delimited-text
//! persistence format.

pub mod codec;
pub mod column;
pub mod document;
pub mod record;
pub mod search;
pub mod store;
pub mod text;
pub mod view;
