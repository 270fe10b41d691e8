//! A verified core for a small line-oriented scripting language.
//!
//! A script is a sequence of lines; each line is either a built-in verb
//! (print, prompt, file read/write, shell command, case change, terminate)
//! or a variable assignment. This crate holds the decision logic: the
//! tokenizer, the variable store, the expression evaluator, and the line
//! dispatcher. All text is handled as bytes; the surrounding program owns
//! every side effect and performs the action that each dispatched line
//! requests.

pub mod action;
pub mod arith;
pub mod bytes;
pub mod files;
pub mod interp;
pub mod laws;
pub mod math;
pub mod numbers;
pub mod store;
pub mod strings;
pub mod tokens;
pub mod value;
pub mod words;
