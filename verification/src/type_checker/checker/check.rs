//! The modes in which an expression is checked.

use super::Checker;
use crate::type_checker::ast::TypeId;
use vstd::prelude::*;

verus! {

// Public Checker API
impl Checker {
    /// Checks an expression in the default context; `check` is the check
    /// of the expression.
    #[inline]
    pub fn check_expression<F: FnOnce(&CheckContext) -> TypeId>(&mut self, check: F) -> (type_id:
        TypeId)
        requires
            check.requires((&CheckContext::spec_default(),)),
        ensures
            check.ensures((&CheckContext::spec_default(),), type_id),
            *final(self) == *old(self),
    {
        let ctx = CheckContext::default();
        check(&ctx)
    }

    /// Checks an expression in the given mode; `check` is the check of the
    /// expression.
    #[inline]
    pub fn check_expression_with_options<F: FnOnce(&CheckContext) -> TypeId>(
        &mut self,
        check: F,
        check_mode: CheckMode,
        force_tuple: bool,
    ) -> (type_id: TypeId)
        requires
            check.requires(
                (&(CheckContext { mode: check_mode, force_tuple, ..CheckContext::spec_default() }),),
            ),
        ensures
            check.ensures(
                (&(CheckContext { mode: check_mode, force_tuple, ..CheckContext::spec_default() }),),
                type_id,
            ),
            *final(self) == *old(self),
    {
        let ctx = CheckContext { mode: check_mode, force_tuple, ..CheckContext::default() };
        check(&ctx)
    }

    /// Checks an expression whose type may be kept; `check` is the check of
    /// the expression. Nothing is kept yet.
    pub fn check_expression_cached<F: FnOnce(&CheckContext) -> TypeId>(
        &mut self,
        check: F,
        ctx: &CheckContext,
    ) -> (type_id: TypeId)
        requires
            check.requires((ctx,)),
        ensures
            check.ensures((ctx,), type_id),
            *final(self) == *old(self),
    {
        if !ctx.mode.is_normal() {
            return check(ctx);
        }
        check(ctx)
    }
}

// src/compiler/checker.ts, line 1323
/// The mode of a check, one bit per trait of it.
#[derive(Debug, Clone, Copy, PartialEq, Eq, Hash)]
pub struct CheckMode {
    pub bits: u8,
}

/// Normal type checking
pub const NORMAL: u8 = 0;

/// Explicitly assigned contextual type, therefore not cacheable
pub const CONTEXTUAL: u8 = 1;

/// Inferential typing
pub const INFERENTIAL: u8 = 2;

/// Skip context-sensitive function expressions
pub const SKIP_CONTEXT_SENSITIVE: u8 = 4;

/// Skip single signature generic functions
pub const SKIP_GENERIC_FUNCTIONS: u8 = 8;

/// Call resolution for purposes of signature help
pub const IS_FOR_SIGNATURE_HELP: u8 = 16;

/// Checking a type that is going to be used to determine the type of a rest binding element
pub const REST_BINDING_ELEMENT: u8 = 32;

/// Called from getTypeOfExpression, diagnostics may be omitted
pub const TYPE_ONLY: u8 = 64;

impl CheckMode {
    /// The mode with the bits `bits`.
    pub fn from_bits(bits: u8) -> (mode: Self)
        ensures
            mode.bits == bits,
    {
        CheckMode { bits }
    }

    pub open spec fn spec_contains(self, other: CheckMode) -> bool {
        self.bits & other.bits == other.bits
    }

    /// Whether each bit of `other` is set in the mode.
    #[verifier::when_used_as_spec(spec_contains)]
    pub fn contains(self, other: CheckMode) -> (r: bool)
        ensures
            r == self.spec_contains(other),
    {
        self.bits & other.bits == other.bits
    }

    /// Whether the mode holds all of normal checking; normal checking has
    /// no bit of its own, so every mode does.
    #[inline]
    pub fn is_normal(self) -> (r: bool)
        ensures
            r,
            r == self.contains(CheckMode { bits: NORMAL }),
    {
        let bits = self.bits;
        assert(bits & 0 == 0) by (bit_vector);
        self.contains(CheckMode { bits: NORMAL })
    }
}

impl Default for CheckMode {
    #[inline]
    fn default() -> (mode: Self)
        ensures
            mode.bits == NORMAL,
    {
        CheckMode { bits: NORMAL }
    }
}

/// The context of a check.
#[derive(Debug, Clone, Copy, PartialEq, Eq)]
pub struct CheckContext {
    /// Type checking mode.
    pub mode: CheckMode,
    /// Force tuple types. Used when checking array expressions.
    pub force_tuple: bool,
    pub instantiation_count: usize,
    pub instantiation_depth: usize,
}

impl CheckContext {
    /// The context of a check in normal mode.
    pub open spec fn spec_default() -> CheckContext {
        CheckContext {
            mode: CheckMode { bits: NORMAL },
            force_tuple: false,
            instantiation_count: 0,
            instantiation_depth: 0,
        }
    }
}

impl Default for CheckContext {
    fn default() -> (context: Self)
        ensures
            context == CheckContext::spec_default(),
    {
        CheckContext {
            mode: CheckMode { bits: NORMAL },
            force_tuple: false,
            instantiation_count: 0,
            instantiation_depth: 0,
        }
    }
}

} // verus!
