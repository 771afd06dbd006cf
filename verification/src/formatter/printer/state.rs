//! What the printer has written so far, and where on the line it stands.

use super::options::{IndentStyle, LineEnding, PrinterOptions};
use crate::formatter::format_element::tag::DedentMode;
use crate::formatter::format_element::PrintMode;
use crate::formatter::text::clamp_add;
use vstd::prelude::*;

verus! {

/// The context in which an element is printed.
#[derive(Clone, Copy, Debug, PartialEq, Eq)]
pub struct PrintArgs {
    /// The number of levels by which new lines are indented.
    pub indent: u16,
    /// Whether soft line breaks are omitted or printed.
    pub mode: PrintMode,
}

impl PrintArgs {
    pub open spec fn spec_with_mode(self, mode: PrintMode) -> PrintArgs {
        PrintArgs { indent: self.indent, mode }
    }

    pub open spec fn spec_indented(self) -> PrintArgs {
        PrintArgs {
            indent: if self.indent < u16::MAX {
                (self.indent + 1) as u16
            } else {
                self.indent
            },
            mode: self.mode,
        }
    }

    pub open spec fn spec_dedented(self, dedent: DedentMode) -> PrintArgs {
        PrintArgs {
            indent: match dedent {
                DedentMode::Level => if self.indent > 0 {
                    (self.indent - 1) as u16
                } else {
                    0
                },
                DedentMode::Root => 0,
            },
            mode: self.mode,
        }
    }

    /// The context of the document's outermost elements.
    pub fn root() -> (args: Self)
        ensures
            args == (PrintArgs { indent: 0, mode: PrintMode::Expanded }),
    {
        PrintArgs { indent: 0, mode: PrintMode::Expanded }
    }

    /// The same indentation, in another mode.
    #[verifier::when_used_as_spec(spec_with_mode)]
    pub fn with_mode(self, mode: PrintMode) -> (args: Self)
        ensures
            args == self.spec_with_mode(mode),
    {
        PrintArgs { indent: self.indent, mode }
    }

    /// One level deeper, as far as levels are counted.
    #[verifier::when_used_as_spec(spec_indented)]
    pub fn indented(self) -> (args: Self)
        ensures
            args == self.spec_indented(),
    {
        PrintArgs { indent: self.indent.saturating_add(1), mode: self.mode }
    }

    /// One level less deep, or not indented at all.
    #[verifier::when_used_as_spec(spec_dedented)]
    pub fn dedented(self, dedent: DedentMode) -> (args: Self)
        ensures
            args == self.spec_dedented(dedent),
    {
        let indent: u16 = match dedent {
            DedentMode::Level => self.indent.saturating_sub(1),
            DedentMode::Root => 0,
        };
        PrintArgs { indent, mode: self.mode }
    }
}

/// The state of a printer, as contracts see it.
pub struct PrintState {
    /// The text printed so far.
    pub out: Seq<char>,
    /// The column after the last printed character, held at the column limit.
    pub column: int,
    /// Whether the current line holds nothing but its indentation.
    pub line_start: bool,
    /// The line suffixes that wait for the next line break, in the order in
    /// which they were queued.
    pub pending: Seq<char>,
}

impl PrintState {
    /// The state before anything is printed.
    pub open spec fn initial() -> PrintState {
        PrintState { out: Seq::empty(), column: 0, line_start: true, pending: Seq::empty() }
    }

    /// The state after one more character, which is not a line feed.
    pub open spec fn put_char(self, c: char) -> PrintState {
        PrintState {
            out: self.out.push(c),
            column: clamp_add(self.column, 1),
            line_start: false,
            pending: self.pending,
        }
    }

    /// The state after a line ending that is part of a text: the next line
    /// starts in the first column, without indentation.
    pub open spec fn put_newline(self, options: PrinterOptions) -> PrintState {
        PrintState {
            out: self.out + options.line_ending.chars(),
            column: 0,
            line_start: true,
            pending: self.pending,
        }
    }

    /// The state after the first `n` characters of `text`.
    pub open spec fn put_text(self, text: Seq<char>, n: int, options: PrinterOptions) -> PrintState
        decreases n,
    {
        if n <= 0 {
            self
        } else {
            let before = self.put_text(text, n - 1, options);
            if text[n - 1] == '\n' {
                before.put_newline(options)
            } else {
                before.put_char(text[n - 1])
            }
        }
    }

    /// The state after the waiting line suffixes are printed, in their order.
    pub open spec fn flush(self) -> PrintState {
        PrintState {
            out: self.out + self.pending,
            column: clamp_add(self.column, self.pending.len() as int),
            line_start: self.line_start && self.pending.len() == 0,
            pending: Seq::empty(),
        }
    }

    /// The state after a line break: the waiting line suffixes, then the line
    /// ending (twice for an empty line), then the indentation of the new line.
    pub open spec fn break_line(self, empty: bool, indent: u16, options: PrinterOptions) -> PrintState {
        let ending = options.line_ending.chars();
        PrintState {
            out: self.out + self.pending + ending + (if empty {
                ending
            } else {
                Seq::empty()
            }) + options.indentation(indent as nat),
            column: options.indentation_width(indent as nat),
            line_start: true,
            pending: Seq::empty(),
        }
    }

    /// The state in which the content of a line suffix is laid out, apart
    /// from the text printed so far.
    pub open spec fn suffix_start(self) -> PrintState {
        PrintState { out: Seq::empty(), column: self.column, line_start: false, pending: Seq::empty() }
    }

    /// The state after the content of a line suffix, laid out as `suffix`,
    /// is queued behind the line suffixes that wait already.
    pub open spec fn defer(self, suffix: PrintState) -> PrintState {
        PrintState {
            out: self.out,
            column: self.column,
            line_start: self.line_start,
            pending: self.pending + suffix.out + suffix.pending,
        }
    }

    /// The text of the document once the end is reached: the line suffixes
    /// that still wait are printed last.
    pub open spec fn finish(self) -> Seq<char> {
        self.out + self.pending
    }
}

/// The state of a printer.
pub struct PrinterState {
    pub out: Vec<char>,
    pub column: u32,
    pub line_start: bool,
    pub pending: Vec<char>,
}

impl View for PrinterState {
    type V = PrintState;

    open spec fn view(&self) -> PrintState {
        PrintState {
            out: self.out@,
            column: self.column as int,
            line_start: self.line_start,
            pending: self.pending@,
        }
    }
}

fn append_chars(to: &mut Vec<char>, from: &Vec<char>)
    ensures
        final(to)@ == old(to)@ + from@,
{
    let mut i: usize = 0;
    while i < from.len()
        invariant
            i <= from.len(),
            to@ == old(to)@ + from@.take(i as int),
        decreases from.len() - i,
    {
        to.push(from[i]);
        proof {
            assert(from@.take(i + 1) =~= from@.take(i as int).push(from@[i as int]));
            assert(to@ =~= old(to)@ + from@.take(i + 1));
        }
        i += 1;
    }
    proof {
        assert(from@.take(from@.len() as int) =~= from@);
    }
}

fn append_repeated(to: &mut Vec<char>, c: char, count: u32)
    ensures
        final(to)@ == old(to)@ + Seq::new(count as nat, |i: int| c),
{
    let mut i: u32 = 0;
    while i < count
        invariant
            i <= count,
            to@ == old(to)@ + Seq::new(i as nat, |j: int| c),
        decreases count - i,
    {
        to.push(c);
        proof {
            assert(to@ =~= old(to)@ + Seq::new((i + 1) as nat, |j: int| c));
        }
        i += 1;
    }
}

fn append_line_ending(to: &mut Vec<char>, line_ending: LineEnding)
    ensures
        final(to)@ == old(to)@ + line_ending.chars(),
{
    match line_ending {
        LineEnding::Lf => {
            to.push('\n');
        },
        LineEnding::Crlf => {
            to.push('\r');
            to.push('\n');
        },
        LineEnding::Cr => {
            to.push('\r');
        },
    }
    proof {
        assert(to@ =~= old(to)@ + line_ending.chars());
    }
}

fn saturating_len(chars: &Vec<char>) -> (len: u32)
    ensures
        len as int == clamp_add(0, chars@.len() as int),
{
    if chars.len() > 0xffff_ffff {
        0xffff_ffff
    } else {
        chars.len() as u32
    }
}

impl PrinterState {
    /// The state before anything is printed.
    pub fn new() -> (state: Self)
        ensures
            state@ == PrintState::initial(),
    {
        PrinterState { out: Vec::new(), column: 0, line_start: true, pending: Vec::new() }
    }

    /// The state in which the content of a line suffix is laid out.
    pub fn for_suffix(&self) -> (state: Self)
        ensures
            state@ == self@.suffix_start(),
    {
        PrinterState { out: Vec::new(), column: self.column, line_start: false, pending: Vec::new() }
    }

    /// Prints one character, which is not a line feed.
    pub fn put_char(&mut self, c: char)
        ensures
            final(self)@ == old(self)@.put_char(c),
    {
        self.out.push(c);
        self.column = self.column.saturating_add(1);
        self.line_start = false;
    }

    /// Prints a text; a line feed in it ends the line without indenting the next.
    pub fn put_text(&mut self, text: &str, options: &PrinterOptions)
        ensures
            final(self)@ == old(self)@.put_text(text@, text@.len() as int, *options),
    {
        for c in it: text.chars()
            invariant
                it.seq() == text@,
                self@ == old(self)@.put_text(text@, it.index() as int, *options),
        {
            if c == '\n' {
                append_line_ending(&mut self.out, options.line_ending);
                self.column = 0;
                self.line_start = true;
            } else {
                self.put_char(c);
            }
        }
    }

    /// Prints the line suffixes that wait.
    pub fn flush(&mut self)
        ensures
            final(self)@ == old(self)@.flush(),
    {
        let width = saturating_len(&self.pending);
        append_chars(&mut self.out, &self.pending);
        self.column = self.column.saturating_add(width);
        self.line_start = self.line_start && self.pending.len() == 0;
        self.pending = Vec::new();
    }

    /// Ends the line: prints the line suffixes that wait, the line ending
    /// (twice for an empty line), and the indentation of the new line.
    pub fn break_line(&mut self, empty: bool, indent: u16, options: &PrinterOptions)
        ensures
            final(self)@ == old(self)@.break_line(empty, indent, *options),
    {
        append_chars(&mut self.out, &self.pending);
        self.pending = Vec::new();
        append_line_ending(&mut self.out, options.line_ending);
        if empty {
            append_line_ending(&mut self.out, options.line_ending);
        }
        proof {
            assert(self.out@ =~= old(self)@.out + old(self)@.pending + options.line_ending.chars()
                + (if empty {
                options.line_ending.chars()
            } else {
                Seq::empty()
            }));
            assert(indent as nat * options.indent_width as nat <= 0xffff * 0xff) by (nonlinear_arith)
                requires
                    indent <= 0xffff,
                    options.indent_width <= 0xff,
            ;
        }
        let width: u32 = indent as u32 * options.indent_width as u32;
        match options.indent_style {
            IndentStyle::Tab => append_repeated(&mut self.out, '\t', indent as u32),
            IndentStyle::Space => append_repeated(&mut self.out, ' ', width),
        }
        self.column = width;
        self.line_start = true;
    }

    /// Queues the content of a line suffix, laid out as `suffix`.
    pub fn defer(&mut self, suffix: PrinterState)
        ensures
            final(self)@ == old(self)@.defer(suffix@),
    {
        append_chars(&mut self.pending, &suffix.out);
        append_chars(&mut self.pending, &suffix.pending);
    }
}

} // verus!
