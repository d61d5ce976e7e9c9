//! A verified propositional-logic engine: a single-pass, precedence-aware
//! expression-tree builder, a recursive evaluator, a variable collector, and
//! a truth-table generator, together with a textual renderer that lays the
//! finished tree out as a flowchart diagram.

pub mod ast;
pub mod collect;
pub mod errors;
pub mod eval;
pub mod laws;
pub mod parser;
pub mod render;
pub mod table;
pub mod token;
