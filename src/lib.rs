//! Typing middle-end of a PEG parser generator, with the parse-state values
//! that generated parsers carry at run time.
pub mod parse_error;
pub mod parse_success;
pub mod ty;
pub mod ast;
pub mod typing;
pub mod annotate;
pub mod normalize;
pub mod diagnostics;
pub mod resolve;
pub mod pipeline;
pub mod undeclared;
pub mod visitor;
