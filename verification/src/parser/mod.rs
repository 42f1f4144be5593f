//! Recursive-descent parsing of SystemVerilog statements from tokens.

pub mod token;
pub mod ast;
pub mod cursor;
pub mod expr;
pub mod statements;
pub mod model;
pub mod grammar;
pub mod statement_grammar;
pub mod progress;
pub mod statement_progress;
pub mod laws;
