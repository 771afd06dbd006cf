pub mod func_names;
pub mod no_fallthrough;
pub mod no_useless_escape;
