//! A scan-program execution engine: an evaluator for a small declarative
//! scripting language that drives a two-axis positioning instrument.
//!
//! A parsed program (an AST of statements over numeric and string values) is
//! executed to produce an ordered stream of device commands: moves, waits,
//! measurement-window brackets, markers and triggers.  Coordinates and all
//! script numbers are fixed-point values with a scale of one million, so the
//! whole expansion is deterministic and exactly specified.

pub mod ast;
pub mod command;
pub mod engine;
pub mod env;
pub mod eval;
pub mod fixed;
pub mod laws;
pub mod semantics;
pub mod samples;
pub mod value;
