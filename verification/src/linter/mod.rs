//! Lint rules, as far as they decide on plain values.

pub mod config;
pub mod diagnostic;
pub mod rules;
pub mod utils;
