//! The reasons for which a document is not printed.

use crate::formatter::format_element::tag::TagKind;
use crate::formatter::format_element::MalformedBestFittingError;
use vstd::prelude::*;

verus! {

/// The tags of a document do not nest.
#[derive(Clone, Copy, Debug, PartialEq, Eq)]
pub enum StructuralIntegrityError {
    /// An end tag stands where no region is open.
    StartTagMissing { kind: TagKind },
    /// An end tag closes a region of another kind than the innermost open one.
    StartEndTagMismatch { start_kind: TagKind, end_kind: TagKind },
    /// The content ends while a region is open; `kind` is that of the innermost.
    UnclosedRegion { kind: TagKind },
}

/// Why a document could not be printed.
#[derive(Clone, Copy, Debug, PartialEq, Eq)]
pub enum PrintError {
    /// The maximum line width is zero.
    Configuration,
    /// The tags of the document, of interned content or of a variant of a
    /// best fitting element do not nest.
    StructuralIntegrity(StructuralIntegrityError),
    /// A best fitting element has fewer than two variants.
    MalformedBestFitting(MalformedBestFittingError),
}

impl StructuralIntegrityError {
    /// What went wrong, in words.
    pub fn message(&self) -> (text: &'static str)
        ensures
            text == (match *self {
                StructuralIntegrityError::StartTagMissing { .. } => {
                    "end tag without a matching start tag"
                },
                StructuralIntegrityError::StartEndTagMismatch { .. } => {
                    "end tag of another kind than the start tag it closes"
                },
                StructuralIntegrityError::UnclosedRegion { .. } => "start tag without an end tag",
            }),
    {
        match self {
            StructuralIntegrityError::StartTagMissing { .. } => {
                "end tag without a matching start tag"
            },
            StructuralIntegrityError::StartEndTagMismatch { .. } => {
                "end tag of another kind than the start tag it closes"
            },
            StructuralIntegrityError::UnclosedRegion { .. } => "start tag without an end tag",
        }
    }
}

impl PrintError {
    /// What went wrong, in words.
    pub fn message(&self) -> (text: &'static str)
        ensures
            text == (match *self {
                PrintError::Configuration => "the maximum line width must be positive",
                PrintError::StructuralIntegrity(error) => match error {
                    StructuralIntegrityError::StartTagMissing { .. } => {
                        "end tag without a matching start tag"
                    },
                    StructuralIntegrityError::StartEndTagMismatch { .. } => {
                        "end tag of another kind than the start tag it closes"
                    },
                    StructuralIntegrityError::UnclosedRegion { .. } => {
                        "start tag without an end tag"
                    },
                },
                PrintError::MalformedBestFitting(_) => {
                    "a best fitting element needs at least two variants"
                },
            }),
    {
        match self {
            PrintError::Configuration => "the maximum line width must be positive",
            PrintError::StructuralIntegrity(error) => error.message(),
            PrintError::MalformedBestFitting(_) => {
                "a best fitting element needs at least two variants"
            },
        }
    }
}

} // verus!
