//! Disallow the use of an object literal as a default value for a parameter.

use crate::linter::diagnostic::{Diagnostic, Span};
use vstd::prelude::*;
use vstd::string::StringExecFns;

verus! {

/// The default value of an assignment pattern, as far as the rule reads it.
#[derive(Debug, PartialEq, Eq)]
pub enum DefaultValue {
    /// An object literal with its range and the number of its properties.
    Object { span: Span, properties: usize },
    /// An expression in parentheses.
    Parenthesized(Box<DefaultValue>),
    /// Any other expression.
    Other,
}

/// What is bound by an assignment pattern.
#[derive(Debug, PartialEq, Eq)]
pub enum BindingKind {
    /// A single name.
    Identifier { name: String },
    /// An object or array pattern.
    Pattern,
}

/// A binding with a default value: `left = right`.
#[derive(Debug, PartialEq, Eq)]
pub struct AssignmentPattern {
    pub left: BindingKind,
    pub right: DefaultValue,
}

/// A node of the syntax tree, as far as the rule reads it.
#[derive(Debug, PartialEq, Eq)]
pub enum AstKind {
    AssignmentPattern(AssignmentPattern),
    FormalParameter,
    Other,
}

/// `value` without the parentheses around it.
pub open spec fn without_parentheses_spec(value: DefaultValue) -> DefaultValue
    decreases value,
{
    match value {
        DefaultValue::Parenthesized(inner) => without_parentheses_spec(*inner),
        _ => value,
    }
}

impl DefaultValue {
    /// The expression without the parentheses around it.
    pub fn without_parentheses(&self) -> (inner: &DefaultValue)
        ensures
            *inner == without_parentheses_spec(*self),
            !(inner is Parenthesized),
        decreases self,
    {
        match self {
            DefaultValue::Parenthesized(inner) => inner.without_parentheses(),
            _ => self,
        }
    }
}

/// The range of the object literal that the rule reports for `node` under
/// `parent`: the default value of a formal parameter, if it is an object
/// literal with at least one property.
pub open spec fn reported_object(node: AstKind, parent: AstKind) -> Option<Span> {
    match node {
        AstKind::AssignmentPattern(pattern) => match without_parentheses_spec(pattern.right) {
            DefaultValue::Object { span, properties } => if properties > 0
                && parent is FormalParameter {
                Some(span)
            } else {
                None
            },
            _ => None,
        },
        _ => None,
    }
}

/// The message for a parameter that is a single name.
pub open spec fn identifier_message(param: Seq<char>) -> Seq<char> {
    "Do not use an object literal as default for parameter `"@ + param + "`."@
}

/// The message for a parameter that is a pattern.
pub open spec fn non_identifier_message() -> Seq<char> {
    "Do not use an object literal as default"@
}

fn identifier(span: Span, param: &str) -> (diagnostic: Diagnostic)
    ensures
        diagnostic.message@ == identifier_message(param@),
        diagnostic.help is None,
        diagnostic.label == Some(span),
{
    let mut message = String::from_str("Do not use an object literal as default for parameter `");
    message.append(param);
    message.append("`.");
    Diagnostic::warn(message).with_label(span)
}

fn non_identifier(span: Span) -> (diagnostic: Diagnostic)
    ensures
        diagnostic.message@ == non_identifier_message(),
        diagnostic.help is None,
        diagnostic.label == Some(span),
{
    Diagnostic::warn(String::from_str("Do not use an object literal as default")).with_label(span)
}

#[derive(Debug, Default, Clone)]
pub struct NoObjectAsDefaultParameter;

impl NoObjectAsDefaultParameter {
    /// Checks `node`, whose parent is `parent`: reports the object literal
    /// that a formal parameter has as its default value, unless the literal
    /// is empty.
    pub fn run(&self, node: &AstKind, parent: &AstKind) -> (r: Option<Diagnostic>)
        ensures
            match r {
                Some(diagnostic) => {
                    &&& reported_object(*node, *parent) == diagnostic.label
                    &&& diagnostic.label is Some
                    &&& diagnostic.help is None
                    &&& diagnostic.message@ == match node->AssignmentPattern_0.left {
                        BindingKind::Identifier { name } => identifier_message(name@),
                        BindingKind::Pattern => non_identifier_message(),
                    }
                },
                None => reported_object(*node, *parent) is None,
            },
    {
        let AstKind::AssignmentPattern(assignment_pat) = node else {
            return None;
        };
        let DefaultValue::Object { span, properties } = assignment_pat.right.without_parentheses()
        else {
            return None;
        };
        if *properties == 0 {
            return None;
        }
        if !matches!(parent, AstKind::FormalParameter) {
            return None;
        }
        if let BindingKind::Identifier { name } = &assignment_pat.left {
            return Some(identifier(*span, name.as_str()));
        }
        Some(non_identifier(*span))
    }
}

} // verus!
