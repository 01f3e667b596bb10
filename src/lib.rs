//! Core of an interpreter for a content-addressed functional language: a decoder for
//! its binary term format, a pattern matcher and an evaluator.
pub mod types;
pub mod codec;
pub mod decode;
pub mod value;
pub mod pattern;
pub mod builtins;
pub mod eval;
pub mod names;
pub mod pack;
