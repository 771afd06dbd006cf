//! The rules, by the plugin they belong to.

pub mod eslint;
pub mod unicorn;
