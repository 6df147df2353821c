//! A rule-based style checker for Rust source text.
//!
//! An outside parser supplies a concrete syntax tree; the tree is mirrored
//! into the arena model of [`tree`], the rule engine of [`rules`] drives every
//! registered check over it, and the diagnostics land in the emitter of
//! [`error`].  [`visit`] offers rules a structured recursive descent over
//! semantic categories, and [`pretty`] prints a bare token stream readably.

pub mod error;
pub mod laws;
pub mod parse;
pub mod pretty;
pub mod rules;
pub mod strutil;
pub mod tree;
pub mod visit;
