//! TypeScript: placeholder scanning, stand-ins, variable types, comments.

pub mod lexer;
pub mod input;
pub mod lexed;
pub mod context;
pub mod preprocess;
pub mod comments;
pub mod doc_template;
pub mod parse;
pub mod syntax;
