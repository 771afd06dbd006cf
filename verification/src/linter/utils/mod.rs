//! Helpers that several rules share.

pub mod jest;
