//! Layout engine of a JavaScript/TypeScript tool chain: the document model
//! that describes how code may be laid out, and the printer that resolves a
//! document into text under a maximum line width. Beside it stand the rules
//! and helpers of the linter and the parser that work on plain values.

pub mod formatter;
pub mod linter;
pub mod parser;
pub mod source_text;
pub mod transformer;
pub mod type_checker;
