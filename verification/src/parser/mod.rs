//! The parser, as far as it decides on plain values.

pub mod comment;
pub mod lexer;

use self::lexer::{Kind, Token};
use crate::linter::diagnostic::{Diagnostic, DiagnosticView, Span};
use crate::source_text::str_chars;
use vstd::prelude::*;
use vstd::string::StringExecFns;

verus! {

#[derive(Debug, Clone, Copy, PartialEq, Eq, Structural)]
pub enum Language {
    JavaScript,
    TypeScript,
    /// A TypeScript definition file.
    TypeScriptDefinition,
}

#[derive(Debug, Clone, Copy, PartialEq, Eq, Structural)]
pub enum ModuleKind {
    Script,
    Module,
}

/// SourceType: JavaScript or TypeScript, Script or Module, jsx support?
#[derive(Debug, Clone, Copy, PartialEq, Eq)]
pub struct SourceType {
    pub language: Language,
    pub module_kind: ModuleKind,
    pub jsx: bool,
}

impl SourceType {
    pub open spec fn spec_is_javascript(&self) -> bool {
        self.language is JavaScript
    }

    #[verifier::when_used_as_spec(spec_is_javascript)]
    pub fn is_javascript(&self) -> (r: bool)
        ensures
            r == self.spec_is_javascript(),
    {
        matches!(self.language, Language::JavaScript)
    }

    pub open spec fn spec_is_typescript(&self) -> bool {
        !(self.language is JavaScript)
    }

    #[verifier::when_used_as_spec(spec_is_typescript)]
    pub fn is_typescript(&self) -> (r: bool)
        ensures
            r == self.spec_is_typescript(),
    {
        !matches!(self.language, Language::JavaScript)
    }

    pub open spec fn spec_is_typescript_definition(&self) -> bool {
        self.language is TypeScriptDefinition
    }

    #[verifier::when_used_as_spec(spec_is_typescript_definition)]
    pub fn is_typescript_definition(&self) -> (r: bool)
        ensures
            r == self.spec_is_typescript_definition(),
    {
        matches!(self.language, Language::TypeScriptDefinition)
    }

    pub fn module_kind(&self) -> (kind: ModuleKind)
        ensures
            kind == self.module_kind,
    {
        self.module_kind
    }
}

impl Default for SourceType {
    /// JavaScript, as a script, without JSX.
    fn default() -> (source_type: Self)
        ensures
            source_type == (SourceType {
                language: Language::JavaScript,
                module_kind: ModuleKind::Script,
                jsx: false,
            }),
    {
        SourceType { language: Language::JavaScript, module_kind: ModuleKind::Script, jsx: false }
    }
}

/// What the grammar allows where the parser stands.
#[derive(Debug, Clone, Copy, PartialEq, Eq)]
pub struct Context {
    /// Whether declarations are ambient.
    pub ambient: bool,
    /// Whether `await` is an operator.
    pub has_await: bool,
    /// Whether `return` is allowed.
    pub has_return: bool,
}

impl Context {
    pub open spec fn spec_and_ambient(self, set: bool) -> Context {
        Context { ambient: set, ..self }
    }

    #[verifier::when_used_as_spec(spec_and_ambient)]
    pub fn and_ambient(self, set: bool) -> (context: Self)
        ensures
            context == self.spec_and_ambient(set),
    {
        Context { ambient: set, ..self }
    }

    pub open spec fn spec_and_await(self, set: bool) -> Context {
        Context { has_await: set, ..self }
    }

    #[verifier::when_used_as_spec(spec_and_await)]
    pub fn and_await(self, set: bool) -> (context: Self)
        ensures
            context == self.spec_and_await(set),
    {
        Context { has_await: set, ..self }
    }

    pub open spec fn spec_and_return(self, set: bool) -> Context {
        Context { has_return: set, ..self }
    }

    #[verifier::when_used_as_spec(spec_and_return)]
    pub fn and_return(self, set: bool) -> (context: Self)
        ensures
            context == self.spec_and_return(set),
    {
        Context { has_return: set, ..self }
    }
}

impl Default for Context {
    fn default() -> (context: Self)
        ensures
            context == (Context { ambient: false, has_await: false, has_return: false }),
    {
        Context { ambient: false, has_await: false, has_return: false }
    }
}

/// A program, as far as the parser's last step reads it.
#[derive(Debug, Clone, Copy, PartialEq, Eq)]
pub struct Program {
    pub span: Span,
    pub source_type: SourceType,
    /// The number of directives and statements.
    pub len: usize,
}

impl Program {
    pub fn is_empty(&self) -> (r: bool)
        ensures
            r == (self.len == 0),
    {
        self.len == 0
    }
}

/// Return value of parser consisting of AST, errors and comments
///
/// The parser always return a valid AST.
/// When `panicked = true`, then program will always be empty.
/// When `errors.len() > 0`, then program may or may not be empty due to error recovery.
#[derive(Debug)]
pub struct ParserReturn {
    pub program: Program,
    pub errors: Vec<Diagnostic>,
    pub panicked: bool,
}

/// Recursive Descent Parser for ECMAScript and TypeScript
///
/// See [`Parser::parse`] for entry function.
#[derive(Debug)]
pub struct Parser<'a> {
    /// All syntax errors from the lexer
    pub lexer_errors: Vec<Diagnostic>,
    /// SourceType: JavaScript or TypeScript, Script or Module, jsx support?
    pub source_type: SourceType,
    /// Source Code
    pub source_text: &'a str,
    /// All syntax errors from parser and lexer
    /// Note: favor adding to `Diagnostics` instead of raising Err
    pub errors: Vec<Diagnostic>,
    /// The current parsing token
    pub token: Token,
    /// The range of the current token
    pub token_span: Span,
    /// The end range of the previous token
    pub prev_token_end: u32,
    /// Parsing context
    pub ctx: Context,
}

/// The warnings as contracts see them.
pub open spec fn diagnostic_views(diagnostics: Seq<Diagnostic>) -> Seq<DiagnosticView> {
    Seq::new(diagnostics.len(), |i: int| diagnostics[i]@)
}

/// The context in which a source of the type `source_type` is parsed.
pub open spec fn default_context_of(source_type: SourceType) -> Context {
    let ctx = Context {
        ambient: source_type.is_typescript_definition(),
        has_await: false,
        has_return: false,
    };
    match source_type.module_kind {
        ModuleKind::Script => ctx,
        ModuleKind::Module => ctx.and_await(true),
    }
}

/// Whether `text` starts with `prefix`.
pub open spec fn text_starts_with(text: Seq<char>, prefix: Seq<char>) -> bool {
    prefix.len() <= text.len() && text.subrange(0, prefix.len() as int) == prefix
}

/// Whether a source declares on its first line that it is written for Flow.
pub open spec fn declares_flow(source_type: SourceType, source_text: Seq<char>) -> bool {
    source_type.is_javascript() && (text_starts_with(source_text, "// @flow"@) || text_starts_with(
        source_text,
        "/* @flow */"@,
    ))
}

/// The error that says that Flow is not supported.
pub open spec fn flow_diagnostic() -> DiagnosticView {
    DiagnosticView {
        message: "Flow is not supported"@,
        help: None,
        label: Some(Span { start: 0, end: 8 }),
    }
}

/// The error that says that the token at `span` is unexpected.
pub open spec fn unexpected_token(span: Span) -> DiagnosticView {
    DiagnosticView { message: "Unexpected token"@, help: None, label: Some(span) }
}

fn starts_with(text: &Vec<char>, prefix: &str) -> (r: bool)
    ensures
        r == text_starts_with(text@, prefix@),
{
    let head = str_chars(prefix);
    if head.len() > text.len() {
        return false;
    }
    let mut i: usize = 0;
    while i < head.len()
        invariant
            i <= head.len() <= text.len(),
            head@ == prefix@,
            forall|k: int| 0 <= k < i ==> text@[k] == head@[k],
        decreases head.len() - i,
    {
        if text[i] != head[i] {
            proof {
                assert(text@.subrange(0, head@.len() as int)[i as int] == text@[i as int]);
            }
            return false;
        }
        i += 1;
    }
    proof {
        assert(text@.subrange(0, head@.len() as int) =~= head@);
    }
    true
}

impl<'a> Parser<'a> {
    /// Create a new parser
    pub fn new(source_text: &'a str, source_type: SourceType) -> (parser: Self)
        ensures
            parser.source_text == source_text,
            parser.source_type == source_type,
            parser.errors@.len() == 0,
            parser.lexer_errors@.len() == 0,
            parser.prev_token_end == 0,
            parser.token == (Token { kind: Kind::Undetermined, start: 0 }),
            parser.token_span == (Span { start: 0, end: 0 }),
            parser.ctx == default_context_of(source_type),
    {
        Parser {
            lexer_errors: Vec::new(),
            source_type,
            source_text,
            errors: Vec::new(),
            token: Token::new(Kind::Undetermined, 0),
            token_span: Span::new(0, 0),
            prev_token_end: 0,
            ctx: Self::default_context(source_type),
        }
    }

    /// Allow return outside of function
    ///
    /// By default, a return statement at the top level raises an error.
    /// Set this to true to accept such code.
    #[must_use]
    pub fn allow_return_outside_function(self, allow: bool) -> (parser: Self)
        ensures
            parser.ctx == self.ctx.and_return(allow),
            parser.source_text == self.source_text,
            parser.source_type == self.source_type,
            parser.errors == self.errors,
            parser.lexer_errors == self.lexer_errors,
            parser.token == self.token,
            parser.token_span == self.token_span,
            parser.prev_token_end == self.prev_token_end,
    {
        let mut parser = self;
        parser.ctx = parser.ctx.and_return(allow);
        parser
    }

    /// The last step of parsing: `parsed` is the program that was read, or
    /// the error that stopped the reading.
    ///
    /// Returns an empty `Program` on unrecoverable error,
    /// Recoverable errors are stored inside `errors`. The errors of the
    /// lexer come first, then those of the parser; the error that stopped
    /// the reading comes last, unless the source is written for Flow, in
    /// which case that is said in its place.
    pub fn parse(self, parsed: Result<Program, Diagnostic>) -> (ret: ParserReturn)
        ensures
            match parsed {
                Ok(program) => {
                    &&& ret.program == program
                    &&& !ret.panicked
                    &&& diagnostic_views(ret.errors@) == diagnostic_views(self.lexer_errors@)
                        + diagnostic_views(self.errors@)
                },
                Err(error) => {
                    &&& ret.program == (Program {
                        span: Span { start: 0, end: 0 },
                        source_type: self.source_type,
                        len: 0,
                    })
                    &&& ret.panicked
                    &&& diagnostic_views(ret.errors@) == diagnostic_views(self.lexer_errors@)
                        + diagnostic_views(self.errors@) + seq![
                        if declares_flow(self.source_type, self.source_text@) {
                            flow_diagnostic()
                        } else {
                            error@
                        },
                    ]
                },
            },
    {
        let mut parser = self;
        let (program, panicked) = match parsed {
            Ok(program) => {
                proof {
                    assert(diagnostic_views(parser.errors@) =~= diagnostic_views(self.errors@));
                }
                (program, false)
            },
            Err(error) => {
                let error = match parser.flow_error() {
                    Some(flow) => flow,
                    None => error,
                };
                let ghost reported = error@;
                parser.error(error);
                proof {
                    assert(diagnostic_views(parser.errors@) =~= diagnostic_views(self.errors@)
                        + seq![reported]);
                }
                let program = Program {
                    span: Span::new(0, 0),
                    source_type: parser.source_type,
                    len: 0,
                };
                (program, true)
            },
        };
        let mut errors = parser.lexer_errors;
        let mut rest = parser.errors;
        proof {
            assert(diagnostic_views(errors@ + rest@) =~= diagnostic_views(errors@)
                + diagnostic_views(rest@));
            assert((diagnostic_views(self.lexer_errors@) + diagnostic_views(self.errors@))
                + diagnostic_views(Seq::<Diagnostic>::empty()) =~= diagnostic_views(
                self.lexer_errors@,
            ) + diagnostic_views(self.errors@));
        }
        errors.append(&mut rest);
        ParserReturn { program, errors, panicked }
    }

    pub fn default_context(source_type: SourceType) -> (ctx: Context)
        ensures
            ctx == default_context_of(source_type),
    {
        let ctx = Context::default().and_ambient(source_type.is_typescript_definition());
        match source_type.module_kind() {
            ModuleKind::Script => ctx,
            // for [top-level-await](https://tc39.es/proposal-top-level-await/)
            ModuleKind::Module => ctx.and_await(true),
        }
    }

    /// Check for Flow declaration if the file cannot be parsed.
    /// The declaration must be [on the first line before any code](https://flow.org/en/docs/usage/#toc-prepare-your-code-for-flow)
    pub fn flow_error(&self) -> (error: Option<Diagnostic>)
        ensures
            match error {
                Some(error) => declares_flow(self.source_type, self.source_text@) && error@
                    == flow_diagnostic(),
                None => !declares_flow(self.source_type, self.source_text@),
            },
    {
        if self.source_type.is_javascript() {
            let text = str_chars(self.source_text);
            if starts_with(&text, "// @flow") || starts_with(&text, "/* @flow */") {
                return Some(
                    Diagnostic::warn(String::from_str("Flow is not supported")).with_label(
                        Span::new(0, 8),
                    ),
                );
            }
        }
        None
    }

    /// Return error info at current token: the last error of the lexer if
    /// the kind of the token is undetermined and the lexer has reported
    /// one, which is taken from the lexer's errors; else an error that says
    /// that the token is unexpected.
    pub fn unexpected(&mut self) -> (error: Diagnostic)
        ensures
            final(self).errors == old(self).errors,
            final(self).source_type == old(self).source_type,
            final(self).source_text == old(self).source_text,
            final(self).token == old(self).token,
            final(self).token_span == old(self).token_span,
            final(self).prev_token_end == old(self).prev_token_end,
            final(self).ctx == old(self).ctx,
            if old(self).token.kind is Undetermined && old(self).lexer_errors@.len() > 0 {
                &&& error == old(self).lexer_errors@.last()
                &&& final(self).lexer_errors@ == old(self).lexer_errors@.drop_last()
            } else {
                &&& error@ == unexpected_token(old(self).token_span)
                &&& final(self).lexer_errors@ == old(self).lexer_errors@
            },
    {
        // The lexer should have reported a more meaningful diagnostic
        // when it is a undetermined kind.
        if matches!(self.token.kind(), Kind::Undetermined) {
            if let Some(error) = self.lexer_errors.pop() {
                return error;
            }
        }
        Diagnostic::warn(String::from_str("Unexpected token")).with_label(self.token_span)
    }

    /// Push a Syntax Error
    pub fn error(&mut self, error: Diagnostic)
        ensures
            final(self).errors@ == old(self).errors@.push(error),
            final(self).lexer_errors == old(self).lexer_errors,
            final(self).source_type == old(self).source_type,
            final(self).source_text == old(self).source_text,
            final(self).token == old(self).token,
            final(self).token_span == old(self).token_span,
            final(self).prev_token_end == old(self).prev_token_end,
            final(self).ctx == old(self).ctx,
    {
        self.errors.push(error);
    }

    pub fn ts_enabled(&self) -> (r: bool)
        ensures
            r == self.source_type.is_typescript(),
    {
        self.source_type.is_typescript()
    }
}

} // verus!
