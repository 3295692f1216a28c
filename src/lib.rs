//! Error values of a lazily evaluated, contract-checked configuration language, and their
//! rendering into source-anchored diagnostics.
//!
//! The diagnostic engine anchors every annotation in a [`registry::SourceRegistry`]. A value
//! produced by evaluation has no place in the user's source: for such a value a synthetic entry
//! holding its short rendering is registered on demand, and the annotation points into it.

pub mod registry;
pub mod term;
pub mod label;
pub mod diagnostic;
pub mod anchor;
pub mod error;
