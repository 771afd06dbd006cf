//! Comments and what is known about them.

use crate::linter::diagnostic::Span;
use vstd::prelude::*;

verus! {

#[derive(Debug, Clone, Copy, PartialEq, Eq, Structural)]
pub enum CommentKind {
    /// `// ...`
    Line,
    /// `/* ... */`
    Block,
}

/// Whether a comment belongs to the token after it or to the token before it.
#[derive(Debug, Clone, Copy, PartialEq, Eq, Structural)]
pub enum CommentPosition {
    Leading,
    Trailing,
}

/// What a comment announces.
#[derive(Debug, Clone, Copy, PartialEq, Eq, Structural)]
pub enum CommentContent {
    /// Nothing in particular.
    Plain,
    /// `/*! ... */`, `@license`, `@preserve`
    Legal,
    /// `/** ... */`
    Jsdoc,
    /// `/** ... @license ... */`
    JsdocLegal,
    /// `@__PURE__`
    Pure,
    /// `@__NO_SIDE_EFFECTS__`
    NoSideEffects,
    /// `webpackChunkName: ...`
    Webpack,
    /// `@vite-ignore`
    Vite,
    /// `v8 ignore`, `c8 ignore`, `node:coverage`, `istanbul ignore`
    CoverageIgnore,
}

/// Whether a line break stands before and after a comment.
#[derive(Debug, Clone, Copy, PartialEq, Eq)]
pub struct CommentNewlines {
    pub leading: bool,
    pub trailing: bool,
}

#[derive(Debug, Clone, Copy, PartialEq, Eq)]
pub struct Comment {
    /// The range of the comment, delimiters included.
    pub span: Span,
    /// Where the token starts that the comment leads to, or 0.
    pub attached_to: u32,
    pub kind: CommentKind,
    pub position: CommentPosition,
    pub newlines: CommentNewlines,
    pub content: CommentContent,
}

impl Comment {
    pub open spec fn spec_new(start: u32, end: u32, kind: CommentKind) -> Comment {
        Comment {
            span: Span { start, end },
            attached_to: 0,
            kind,
            position: CommentPosition::Trailing,
            newlines: CommentNewlines { leading: false, trailing: false },
            content: CommentContent::Plain,
        }
    }

    /// A comment of which nothing but its range and kind is known yet.
    #[verifier::when_used_as_spec(spec_new)]
    pub fn new(start: u32, end: u32, kind: CommentKind) -> (comment: Self)
        ensures
            comment == Comment::spec_new(start, end, kind),
    {
        Comment {
            span: Span::new(start, end),
            attached_to: 0,
            kind,
            position: CommentPosition::Trailing,
            newlines: CommentNewlines { leading: false, trailing: false },
            content: CommentContent::Plain,
        }
    }

    /// Whether the delimiters of the comment fit into its range.
    pub open spec fn wf(&self) -> bool {
        match self.kind {
            CommentKind::Line => self.span.start + 2 <= self.span.end,
            CommentKind::Block => self.span.start + 4 <= self.span.end,
        }
    }

    pub open spec fn spec_content_span(&self) -> Span {
        match self.kind {
            CommentKind::Line => Span {
                start: (self.span.start + 2) as u32,
                end: self.span.end,
            },
            CommentKind::Block => Span {
                start: (self.span.start + 2) as u32,
                end: (self.span.end - 2) as u32,
            },
        }
    }

    /// The range of the comment without its delimiters.
    #[verifier::when_used_as_spec(spec_content_span)]
    pub fn content_span(&self) -> (span: Span)
        requires
            self.wf(),
        ensures
            span == self.spec_content_span(),
            span.start <= span.end,
    {
        match self.kind {
            CommentKind::Line => Span::new(self.span.start + 2, self.span.end),
            CommentKind::Block => Span::new(self.span.start + 2, self.span.end - 2),
        }
    }

    pub fn is_line(&self) -> (r: bool)
        ensures
            r == (self.kind is Line),
    {
        matches!(self.kind, CommentKind::Line)
    }

    pub fn is_block(&self) -> (r: bool)
        ensures
            r == (self.kind is Block),
    {
        matches!(self.kind, CommentKind::Block)
    }

    pub fn set_preceded_by_newline(&mut self, preceded_by_newline: bool)
        ensures
            *final(self) == (Comment {
                newlines: CommentNewlines {
                    leading: preceded_by_newline,
                    trailing: old(self).newlines.trailing,
                },
                ..*old(self)
            }),
    {
        self.newlines.leading = preceded_by_newline;
    }

    pub fn set_followed_by_newline(&mut self, followed_by_newline: bool)
        ensures
            *final(self) == (Comment {
                newlines: CommentNewlines {
                    leading: old(self).newlines.leading,
                    trailing: followed_by_newline,
                },
                ..*old(self)
            }),
    {
        self.newlines.trailing = followed_by_newline;
    }
}

} // verus!
