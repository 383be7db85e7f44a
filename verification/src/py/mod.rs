//! Python: placeholder scanning, stand-ins, variable types and bindings.

pub mod lexer;
pub mod input;
pub mod context;
pub mod preprocess;
pub mod format_template;
pub mod parse;
