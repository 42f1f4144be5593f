//! A SystemVerilog front end: the preprocessor (macros, conditional
//! compilation, `include) and statement parsing.

pub mod text;
pub mod macros;
pub mod expand;
pub mod preprocessor;
pub mod inclusion;
pub mod properties;
pub mod line_numbers;
pub mod directive_laws;
pub mod parser;

pub use macros::MacroDef;
pub use preprocessor::Preprocessor;
pub use inclusion::{FileRun, IncludeSession, PreprocessStep, MAX_INCLUDE_DEPTH};
pub use parser::cursor::Parser;
