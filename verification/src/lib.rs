//! An interactive editor core for hierarchical structured documents
//! (mapping/sequence/scalar trees): the document tree model with its
//! path-addressed mutation operations, the visibility engine that flattens
//! the tree into addressable rows under expand-state and search, the
//! selection and viewport controller, the modal input state machine, and a
//! line-based fallback for documents that fail to parse.
pub mod clipboard;
pub mod doc;
pub mod editline;
pub mod input;
pub mod laws;
pub mod errors;
pub mod path;
pub mod scalar;
pub mod search;
pub mod session;
pub mod strset;
pub mod strutil;
pub mod tree;
pub mod visible;
