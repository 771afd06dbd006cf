//! What the lexer hands to the trivia builder.

pub mod trivia_builder;

use vstd::prelude::*;

verus! {

/// The kind of a token, as far as the trivia builder tells kinds apart.
#[derive(Debug, Clone, Copy, PartialEq, Eq, Structural)]
pub enum Kind {
    Undetermined,
    /// `=`
    Eq,
    /// `(`
    LParen,
    /// Any other token.
    Other,
}

/// A token: its kind and where it starts.
#[derive(Debug, Clone, Copy, PartialEq, Eq)]
pub struct Token {
    pub kind: Kind,
    pub start: u32,
}

impl Token {
    pub fn new(kind: Kind, start: u32) -> (token: Self)
        ensures
            token.kind == kind,
            token.start == start,
    {
        Token { kind, start }
    }

    pub fn kind(&self) -> (kind: Kind)
        ensures
            kind == self.kind,
    {
        self.kind
    }

    pub fn start(&self) -> (start: u32)
        ensures
            start == self.start,
    {
        self.start
    }
}

} // verus!
