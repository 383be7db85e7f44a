//! Placeholder scanning, stand-in segmentation, variable types and
//! comment bookkeeping for quasi-quoting TypeScript and Python source.

pub mod text;
pub mod segments;
pub mod type_syntax;
pub mod var_name;
pub mod bindings;
pub mod py;
pub mod ts;
