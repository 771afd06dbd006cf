//! The type checker, as far as it decides on plain values.

pub mod ast;
pub mod checker;
