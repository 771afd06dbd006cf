//! Disallow fallthrough of `case` statements.

use crate::linter::config::{as_bool, as_str, get_field, get_index, json_bool, json_field, json_index, json_str};
use crate::linter::diagnostic::Diagnostic;
use regex::Regex;
use serde_json::Value;
use vstd::prelude::*;

verus! {

#[verifier::external_type_specification]
#[verifier::external_body]
pub struct ExRegex(regex::Regex);

#[verifier::external_type_specification]
#[verifier::external_body]
pub struct ExRegexError(regex::Error);

/// The text that `regex` was compiled from.
pub uninterp spec fn regex_text(regex: Regex) -> Seq<char>;

/// The text that `regex` was compiled from.
///
/// Trusted: `regex::Regex::as_str`, which returns the original string of
/// the regex.
#[verifier::external_body]
fn pattern_text(regex: &Regex) -> (text: &str)
    ensures
        text@ == regex_text(*regex),
{
    regex.as_str()
}

/// Compiles `pattern`.
///
/// Trusted: `regex::Regex::new`. Whether a pattern compiles depends on its
/// syntax and on a size limit that is measured on the machine, so nothing
/// is claimed of that. A regex that comes out keeps the pattern as its
/// original string.
#[verifier::external_body]
fn compile(pattern: &str) -> (compiled: Result<Regex, regex::Error>)
    ensures
        match compiled {
            Ok(regex) => regex_text(regex) == pattern@,
            Err(_) => true,
        },
{
    Regex::new(pattern)
}

#[derive(Debug, Default, Clone)]
pub struct NoFallthrough {
    /// Set the `commentPattern` option to a regular expression string to change
    /// the test for intentional fallthrough comment. If the fallthrough comment
    /// matches a directive, that takes precedence over commentPattern.
    pub comment_pattern: Option<Regex>,
    /// Set the `allowEmptyCase` option to `true` to allow empty cases regardless of
    /// the layout. By default, this rule does not require a fallthrough comment
    /// after an empty case only if the empty case and the next case are on the
    /// same line or on consecutive lines.
    pub allow_empty_case: bool,
}

/// The comment pattern that the configuration `value` sets, as text: the
/// string under `commentPattern` in the first element.
pub open spec fn configured_pattern(value: Value) -> Option<Seq<char>> {
    match json_index(value, 0) {
        Some(config) => match json_field(config, "commentPattern"@) {
            Some(pattern) => json_str(pattern),
            None => None,
        },
        None => None,
    }
}

/// Whether the configuration `value` allows empty cases: the boolean under
/// `allowEmptyCase` in the first element, or else `false`.
pub open spec fn configured_allow_empty_case(value: Value) -> bool {
    match json_index(value, 0) {
        Some(config) => match json_field(config, "allowEmptyCase"@) {
            Some(allow) => match json_bool(allow) {
                Some(allow) => allow,
                None => false,
            },
            None => false,
        },
        None => false,
    }
}

/// A case of a `switch` statement, as far as the rule reads it.
#[derive(Debug, Clone, Copy, PartialEq, Eq)]
pub enum AstKind {
    /// A case, with the number of statements that follow its test.
    SwitchCase { consequent: usize },
    Other,
}

impl NoFallthrough {
    /// The rule with the comment pattern as it was compiled, if one was
    /// set: without a pattern if none was set, and no rule if the pattern
    /// that was set did not compile.
    pub fn with_compiled(compiled: Option<Result<Regex, regex::Error>>, allow_empty_case: bool) -> (r:
        Result<Self, regex::Error>)
        ensures
            match r {
                Ok(rule) => {
                    &&& rule.allow_empty_case == allow_empty_case
                    &&& match compiled {
                        Some(Ok(regex)) => rule.comment_pattern == Some(regex),
                        Some(Err(_)) => false,
                        None => rule.comment_pattern is None,
                    }
                },
                Err(error) => compiled == Some(Err::<Regex, _>(error)),
            },
    {
        match compiled {
            Some(Ok(regex)) => Ok(NoFallthrough { comment_pattern: Some(regex), allow_empty_case }),
            Some(Err(error)) => Err(error),
            None => Ok(NoFallthrough { comment_pattern: None, allow_empty_case }),
        }
    }

    /// The text of the comment pattern that the configuration sets.
    pub fn configured_comment_pattern<'v>(value: &'v Value) -> (pattern: Option<&'v str>)
        ensures
            match pattern {
                Some(pattern) => configured_pattern(*value) == Some(pattern@),
                None => configured_pattern(*value) is None,
            },
    {
        match get_index(value, 0) {
            Some(config) => match get_field(config, "commentPattern") {
                Some(pattern) => as_str(pattern),
                None => None,
            },
            None => None,
        }
    }

    /// Whether the configuration allows empty cases.
    pub fn configured_allow_empty_case(value: &Value) -> (allow: bool)
        ensures
            allow == configured_allow_empty_case(*value),
    {
        match get_index(value, 0) {
            Some(config) => match get_field(config, "allowEmptyCase") {
                Some(allow) => match as_bool(allow) {
                    Some(allow) => allow,
                    None => false,
                },
                None => false,
            },
            None => false,
        }
    }

    /// Reads the configuration of the rule: the comment pattern that it
    /// sets is compiled. There is no rule if that pattern does not compile.
    pub fn from_configuration(value: Value) -> (r: Result<Self, regex::Error>)
        ensures
            match r {
                Ok(rule) => {
                    &&& rule.allow_empty_case == configured_allow_empty_case(value)
                    &&& match configured_pattern(value) {
                        Some(pattern) => rule.comment_pattern is Some && regex_text(
                            rule.comment_pattern->0,
                        ) == pattern,
                        None => rule.comment_pattern is None,
                    }
                },
                Err(_) => configured_pattern(value) is Some,
            },
    {
        let compiled = match NoFallthrough::configured_comment_pattern(&value) {
            Some(pattern) => Some(compile(pattern)),
            None => None,
        };
        let allow_empty_case = NoFallthrough::configured_allow_empty_case(&value);
        NoFallthrough::with_compiled(compiled, allow_empty_case)
    }

    /// The text that the comment pattern was compiled from, if there is a pattern.
    pub fn comment_pattern_text(&self) -> (text: Option<&str>)
        ensures
            match text {
                Some(text) => self.comment_pattern is Some && text@ == regex_text(
                    self.comment_pattern->0,
                ),
                None => self.comment_pattern is None,
            },
    {
        match &self.comment_pattern {
            Some(regex) => Some(pattern_text(regex)),
            None => None,
        }
    }

    /// Whether a comment says that the fallthrough is meant. No comment does yet.
    pub fn comment_matches(&self) -> (r: bool)
        ensures
            !r,
    {
        false
    }

    /// Checks `node`. Nothing is reported yet, whatever the case holds.
    pub fn run(&self, node: &AstKind) -> (reports: Vec<Diagnostic>)
        ensures
            reports@.len() == 0,
    {
        Vec::new()
    }
}

} // verus!
