//! The printer: resolves a document into text that honours a maximum line
//! width.

pub mod error;
pub mod laws;
pub mod layout;
pub mod measure;
pub mod options;
pub mod render;
pub mod state;
pub mod structure;
pub mod structure_laws;

use self::error::PrintError;
use self::options::PrinterOptions;
use self::render::{print_nodes, printed_text};
use self::state::{PrintArgs, PrinterState};
use self::structure::{build_nodes, layout_of};
use crate::formatter::format_element::document::Document;
use crate::formatter::format_element::FormatElement;
use crate::formatter::text::string_from_chars;
use vstd::prelude::*;

verus! {

/// What printing `elements` with `options` gives: the text, or the reason
/// for which there is none. The options are looked at first, then the
/// nesting of the tags.
pub open spec fn printed(elements: Seq<FormatElement>, options: PrinterOptions) -> Result<
    Seq<char>,
    PrintError,
> {
    if !options.valid() {
        Err(PrintError::Configuration)
    } else {
        match layout_of(elements) {
            Ok(layouts) => Ok(printed_text(layouts, options)),
            Err(error) => Err(error),
        }
    }
}

/// The text that a document was printed as.
#[derive(Debug, PartialEq, Eq)]
pub struct Printed {
    pub code: String,
}

impl View for Printed {
    type V = Seq<char>;

    open spec fn view(&self) -> Seq<char> {
        self.code@
    }
}

impl Printed {
    /// The printed text.
    pub fn as_code(&self) -> (code: &str)
        ensures
            code@ == self@,
    {
        self.code.as_str()
    }

    /// The printed text, taken out.
    pub fn into_code(self) -> (code: String)
        ensures
            code@ == self@,
    {
        self.code
    }
}

/// Prints `elements` with `options`. The same elements and options always
/// give the same text.
pub fn print_elements<'a>(elements: &[FormatElement<'a>], options: &PrinterOptions) -> (r: Result<
    Printed,
    PrintError,
>)
    ensures
        match r {
            Ok(text) => printed(elements@, *options) == Ok::<_, PrintError>(text@),
            Err(error) => printed(elements@, *options) == Err::<Seq<char>, _>(error),
        },
{
    if !options.is_valid() {
        return Err(PrintError::Configuration);
    }
    match build_nodes(elements) {
        Ok(nodes) => {
            let mut state = PrinterState::new();
            print_nodes(nodes.as_slice(), PrintArgs::root(), &mut state, options);
            state.flush();
            Ok(Printed { code: string_from_chars(state.out.as_slice()) })
        },
        Err(error) => Err(error),
    }
}

/// A printer: the options to print documents with.
#[derive(Clone, Copy, Debug, PartialEq, Eq)]
pub struct Printer {
    pub options: PrinterOptions,
}

impl Printer {
    /// A printer for `options`, unless their line width is zero.
    pub fn new(options: PrinterOptions) -> (r: Result<Printer, PrintError>)
        ensures
            match r {
                Ok(printer) => options.valid() && printer.options == options,
                Err(error) => !options.valid() && error == PrintError::Configuration,
            },
    {
        if options.is_valid() {
            Ok(Printer { options })
        } else {
            Err(PrintError::Configuration)
        }
    }

    /// Prints `document`.
    pub fn print<'a>(&self, document: &Document<'a>) -> (r: Result<Printed, PrintError>)
        ensures
            match r {
                Ok(text) => printed(document@, self.options) == Ok::<_, PrintError>(text@),
                Err(error) => printed(document@, self.options) == Err::<Seq<char>, _>(error),
            },
    {
        print_elements(document.elements(), &self.options)
    }
}

} // verus!
