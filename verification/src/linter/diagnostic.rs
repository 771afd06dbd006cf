//! What a rule reports.

use vstd::prelude::*;

verus! {

/// A range of the source text, in bytes.
#[derive(Clone, Copy, Debug, PartialEq, Eq, Structural)]
pub struct Span {
    pub start: u32,
    pub end: u32,
}

impl Span {
    pub fn new(start: u32, end: u32) -> (span: Self)
        ensures
            span.start == start,
            span.end == end,
    {
        Span { start, end }
    }
}

/// A warning, with the range of the source text that it is about.
#[derive(Debug, PartialEq, Eq)]
pub struct Diagnostic {
    pub message: String,
    pub help: Option<&'static str>,
    pub label: Option<Span>,
}

impl Diagnostic {
    /// A warning that says `message`.
    pub fn warn(message: String) -> (diagnostic: Self)
        ensures
            diagnostic.message@ == message@,
            diagnostic.help is None,
            diagnostic.label is None,
    {
        Diagnostic { message, help: None, label: None }
    }

    /// The same warning, about `label`.
    pub fn with_label(self, label: Span) -> (diagnostic: Self)
        ensures
            diagnostic.message@ == self.message@,
            diagnostic.help == self.help,
            diagnostic.label == Some(label),
    {
        Diagnostic { message: self.message, help: self.help, label: Some(label) }
    }

    /// The same warning, with a hint at what to do about it.
    pub fn with_help(self, help: &'static str) -> (diagnostic: Self)
        ensures
            diagnostic.message@ == self.message@,
            diagnostic.help == Some(help),
            diagnostic.label == self.label,
    {
        Diagnostic { message: self.message, help: Some(help), label: self.label }
    }
}

/// A warning as contracts see it.
pub struct DiagnosticView {
    pub message: Seq<char>,
    pub help: Option<&'static str>,
    pub label: Option<Span>,
}

impl View for Diagnostic {
    type V = DiagnosticView;

    open spec fn view(&self) -> DiagnosticView {
        DiagnosticView { message: self.message@, help: self.help, label: self.label }
    }
}

/// A change of the source text that mends what a rule reports: the text
/// at `span` is replaced by `text`.
#[derive(Debug, PartialEq, Eq)]
pub struct Fix {
    pub span: Span,
    pub text: String,
}

/// A warning together with the change that mends it.
#[derive(Debug, PartialEq, Eq)]
pub struct Report {
    pub diagnostic: Diagnostic,
    pub fix: Fix,
}

/// A report as contracts see it.
pub struct ReportView {
    pub message: Seq<char>,
    pub help: Option<&'static str>,
    pub label: Option<Span>,
    pub fix_span: Span,
    pub fix_text: Seq<char>,
}

impl View for Report {
    type V = ReportView;

    open spec fn view(&self) -> ReportView {
        ReportView {
            message: self.diagnostic.message@,
            help: self.diagnostic.help,
            label: self.diagnostic.label,
            fix_span: self.fix.span,
            fix_text: self.fix.text@,
        }
    }
}

/// The reports as contracts see them.
pub open spec fn report_views(reports: Seq<Report>) -> Seq<ReportView> {
    Seq::new(reports.len(), |i: int| reports[i]@)
}

} // verus!
