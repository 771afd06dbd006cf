//! What a caller tells the printer about the text it wants.

use vstd::prelude::*;

verus! {

/// What one level of indentation is printed as.
#[derive(Clone, Copy, Debug, PartialEq, Eq, Structural)]
pub enum IndentStyle {
    /// One tab per level.
    Tab,
    /// As many spaces per level as the indent is wide.
    Space,
}

/// The character sequence that ends a line.
#[derive(Clone, Copy, Debug, PartialEq, Eq, Structural)]
pub enum LineEnding {
    /// Line feed only.
    Lf,
    /// Carriage return and line feed.
    Crlf,
    /// Carriage return only.
    Cr,
}

impl LineEnding {
    /// The characters that end a line.
    pub open spec fn chars(self) -> Seq<char> {
        match self {
            LineEnding::Lf => seq!['\n'],
            LineEnding::Crlf => seq!['\r', '\n'],
            LineEnding::Cr => seq!['\r'],
        }
    }
}

/// The configuration of a printer.
#[derive(Clone, Copy, Debug, PartialEq, Eq)]
pub struct PrinterOptions {
    /// The column that a line should not extend past.
    pub max_line_width: u16,
    /// The number of columns that one level of indentation takes.
    pub indent_width: u8,
    /// Whether to indent with tabs or with spaces.
    pub indent_style: IndentStyle,
    /// The line ending to print.
    pub line_ending: LineEnding,
}

impl PrinterOptions {
    /// A configuration is valid if its line width is positive.
    pub open spec fn valid(&self) -> bool {
        self.max_line_width > 0
    }

    /// Whether the configuration is one that the printer accepts.
    #[verifier::when_used_as_spec(valid)]
    pub fn is_valid(&self) -> (r: bool)
        ensures
            r == self.valid(),
    {
        self.max_line_width > 0
    }

    /// The characters that indent a line by `level` levels.
    pub open spec fn indentation(&self, level: nat) -> Seq<char> {
        match self.indent_style {
            IndentStyle::Tab => Seq::new(level, |i: int| '\t'),
            IndentStyle::Space => Seq::new(level * self.indent_width as nat, |i: int| ' '),
        }
    }

    /// The column at which a line that is indented by `level` levels starts.
    pub open spec fn indentation_width(&self, level: nat) -> int {
        level * self.indent_width as int
    }

    pub fn with_max_line_width(self, max_line_width: u16) -> (options: Self)
        ensures
            options == (PrinterOptions { max_line_width, ..self }),
    {
        PrinterOptions { max_line_width, ..self }
    }

    pub fn with_indent_width(self, indent_width: u8) -> (options: Self)
        ensures
            options == (PrinterOptions { indent_width, ..self }),
    {
        PrinterOptions { indent_width, ..self }
    }

    pub fn with_indent_style(self, indent_style: IndentStyle) -> (options: Self)
        ensures
            options == (PrinterOptions { indent_style, ..self }),
    {
        PrinterOptions { indent_style, ..self }
    }

    pub fn with_line_ending(self, line_ending: LineEnding) -> (options: Self)
        ensures
            options == (PrinterOptions { line_ending, ..self }),
    {
        PrinterOptions { line_ending, ..self }
    }
}

impl Default for PrinterOptions {
    /// Lines of 80 columns, indented by two spaces per level, ended by a line feed.
    fn default() -> (options: Self)
        ensures
            options == (PrinterOptions {
                max_line_width: 80,
                indent_width: 2,
                indent_style: IndentStyle::Space,
                line_ending: LineEnding::Lf,
            }),
    {
        PrinterOptions {
            max_line_width: 80,
            indent_width: 2,
            indent_style: IndentStyle::Space,
            line_ending: LineEnding::Lf,
        }
    }
}

} // verus!
