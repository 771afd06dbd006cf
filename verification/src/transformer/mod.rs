//! Transforms of syntax that newer versions of the language brought.

pub mod es2019;
