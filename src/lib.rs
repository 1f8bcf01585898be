//! Derives equality and ordering for a structure from an ordered list of key
//! expressions written as `|binding| key, key, ...`.
//!
//! `order` is a model of the lexicographic, short-circuiting semantics that
//! the generated comparison code is written to have, over integer keys;
//! `syntax` parses the annotation; `synth` writes the key functions and the
//! four comparison operations.

mod outside;
pub mod order;
pub mod syntax;
pub mod synth;

pub use synth::ord_eq_by_key_selector;
