//! The formatting document model and its printer.

pub mod format_element;
pub mod printer;
pub mod text;

use vstd::prelude::*;

verus! {

/// An offset into the source text, in bytes.
pub type TextSize = u32;

/// The text of a token, taken as it stands in the source.
#[derive(Debug, PartialEq, Eq)]
pub struct TokenText {
    pub text: String,
}

impl TokenText {
    pub fn new(text: String) -> (token: Self)
        ensures
            token.text == text,
    {
        TokenText { text }
    }

    pub fn as_str(&self) -> (text: &str)
        ensures
            text@ == self.text@,
    {
        self.text.as_str()
    }
}

} // verus!
