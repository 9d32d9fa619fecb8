//! Expression-driven parametric curve evaluator.
//!
//! A textual expression over the parameter `t` (complex arithmetic with a
//! fixed registry of named functions) is tokenized, parsed into a syntax
//! tree, compiled into a flat instruction plan, and sampled over a numeric
//! range into a packed coordinate buffer.
//!
//! Floating-point arithmetic itself cannot be verified here, so every number
//! travels through the library as the bit pattern of an IEEE-754 value
//! (`u64` for doubles, `u32` for the packed singles). The handful of raw
//! arithmetic operations is delegated to a [`eval::NumKernel`] implementation
//! supplied by the embedder; everything the library decides about those bits
//! (structure, errors, layout) is verified.

pub mod token;
pub mod lex;
pub mod ast;
pub mod parse;
pub mod plan;
pub mod eval;
pub mod sample;
pub mod api;
pub mod laws;
