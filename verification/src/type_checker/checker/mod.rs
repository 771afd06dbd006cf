//! The checker and what it asks of type nodes.

pub mod check;
pub mod get_type;

use crate::linter::diagnostic::Diagnostic;
use crate::type_checker::ast::TypeId;
use vstd::prelude::*;

verus! {

/// The types that are built into the language.
#[derive(Debug, Clone, Copy, PartialEq, Eq)]
pub struct Intrinsics {
    pub any: TypeId,
    pub unknown: TypeId,
    pub string: TypeId,
    pub number: TypeId,
    pub bigint: TypeId,
    pub boolean: TypeId,
    pub es_symbol: TypeId,
    pub void: TypeId,
    pub undefined: TypeId,
    pub null: TypeId,
    pub never: TypeId,
    pub non_primitive: TypeId,
    pub intrinsic_marker: TypeId,
}

/// `compilerOptions` in `tsconfig.json`
#[derive(Debug, Clone, Copy, PartialEq, Eq)]
pub struct CheckerSettings {
    pub no_implicit_any: bool,
}

/// What the checker knows of the program beyond its syntax.
#[derive(Debug, Clone, Copy, PartialEq, Eq)]
pub struct SemanticFacts {
    /// Whether the source is JavaScript.
    pub is_javascript: bool,
    /// Whether a control flow graph was built.
    pub has_cfg: bool,
}

pub struct Checker {
    /// `compilerOptions` in `tsconfig.json`
    pub settings: CheckerSettings,
    /// built-in intrinsic type (any, boolean, number, etc).
    pub intrinsics: Intrinsics,
    /// Semantic analysis results
    pub semantic: SemanticFacts,
    /// Errors discovered while checking
    pub diagnostics: Vec<Diagnostic>,
}

impl Checker {
    /// A checker for a program of which `semantic` is known. Type checking
    /// requires a control flow graph.
    pub fn new(settings: CheckerSettings, intrinsics: Intrinsics, semantic: SemanticFacts) -> (checker:
        Self)
        requires
            semantic.has_cfg,
        ensures
            checker.settings == settings,
            checker.intrinsics == intrinsics,
            checker.semantic == semantic,
            checker.diagnostics@.len() == 0,
    {
        Checker { settings, intrinsics, semantic, diagnostics: Vec::new() }
    }

    /// Report a check error.
    pub fn error(&mut self, diagnostic: Diagnostic)
        ensures
            final(self).diagnostics@ == old(self).diagnostics@.push(diagnostic),
            final(self).settings == old(self).settings,
            final(self).intrinsics == old(self).intrinsics,
            final(self).semantic == old(self).semantic,
    {
        self.diagnostics.push(diagnostic);
    }
}

} // verus!
