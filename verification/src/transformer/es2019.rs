//! ES2019: optional catch binding.

use vstd::prelude::*;

verus! {

#[derive(Debug, Default, Clone, Copy, PartialEq, Eq)]
pub struct ES2019Options {
    /// Whether a `catch` without a binding is given one.
    pub optional_catch_binding: bool,
}

pub struct ES2019 {
    pub options: ES2019Options,
}

impl ES2019 {
    pub fn new(options: ES2019Options) -> (transform: Self)
        ensures
            transform.options == options,
    {
        ES2019 { options }
    }

    /// Hands `clause` to `optional_catch_binding`, the transform that gives a
    /// `catch` a binding, if the options ask for it; else the clause stays as it is.
    pub fn transform_catch_clause<C, F: FnOnce(C) -> C>(&self, clause: C, optional_catch_binding: F) -> (transformed:
        C)
        requires
            self.options.optional_catch_binding ==> optional_catch_binding.requires((clause,)),
        ensures
            self.options.optional_catch_binding ==> optional_catch_binding.ensures(
                (clause,),
                transformed,
            ),
            !self.options.optional_catch_binding ==> transformed == clause,
    {
        if self.options.optional_catch_binding {
            optional_catch_binding(clause)
        } else {
            clause
        }
    }
}

} // verus!
