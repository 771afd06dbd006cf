//! Require or disallow named function expressions.

use crate::linter::config::{as_str, get_field, get_index, json_field, json_index, json_str};
use crate::linter::diagnostic::{Diagnostic, DiagnosticView, Span};
use crate::source_text::str_eq;
use serde_json::Value;
use vstd::pervasive::unreached;
use vstd::prelude::*;
use vstd::string::StringExecFns;

verus! {

/// When a function expression must or must not have a name.
#[derive(Debug, Default, Clone, Copy, PartialEq, Eq, Structural)]
pub enum FuncNamesConfig {
    /// A function expression must have a name.
    #[default]
    Always,
    /// A function expression must have a name unless one is inferred for it.
    AsNeeded,
    /// A function expression must not have a name.
    Never,
}

#[derive(Debug, Default, Clone)]
pub struct FuncNames {
    pub default_config: FuncNamesConfig,
    pub generators_config: FuncNamesConfig,
}

/// How a function is declared.
#[derive(Debug, Clone, Copy, PartialEq, Eq, Structural)]
pub enum FunctionType {
    FunctionDeclaration,
    FunctionExpression,
    TSDeclareFunction,
    TSEmptyBodyFunctionExpression,
}

/// The name of a function, with its range.
#[derive(Debug, PartialEq, Eq)]
pub struct Identifier {
    pub name: String,
    pub span: Span,
}

/// A name that is bound where a function stands, with the ranges of the
/// nodes that refer to it.
#[derive(Debug, PartialEq, Eq)]
pub struct Binding {
    pub name: String,
    pub references: Vec<Span>,
}

/// A function, as far as the rule reads it.
#[derive(Debug, PartialEq, Eq)]
pub struct Function {
    pub id: Option<Identifier>,
    pub function_type: FunctionType,
    pub generator: bool,
    pub span: Span,
    /// Where the parameters start.
    pub params_start: u32,
    /// Where the type parameters start, if there are any.
    pub type_parameters_start: Option<u32>,
    /// The function with its kind, as a message names it.
    pub name_with_kind: String,
    /// The names that are bound in the scope of the function.
    pub bindings: Vec<Binding>,
}

/// An expression, as far as the rule reads it.
#[derive(Debug, Clone, Copy, PartialEq, Eq)]
pub enum Expression {
    /// A function expression, with the range of its name if it has one.
    FunctionExpression { id: Option<Span> },
    Other,
}

#[derive(Debug, Clone, Copy, PartialEq, Eq, Structural)]
pub enum PropertyKind {
    Init,
    Getter,
    Setter,
}

/// A property of an object that is assigned to.
#[derive(Debug, Clone, Copy, PartialEq, Eq)]
pub enum AssignmentTargetProperty {
    AssignmentTargetPropertyIdentifier { init: Option<Expression> },
    AssignmentTargetPropertyProperty,
}

/// The name of a property that is known without running the program, and
/// whether it can be written as an identifier.
#[derive(Debug, PartialEq, Eq)]
pub struct StaticName {
    pub name: String,
    pub is_identifier_name: bool,
}

/// A node of the syntax tree, as far as the rule reads it.
#[derive(Debug, PartialEq, Eq)]
#[allow(inconsistent_fields)]
pub enum AstKind {
    Function(Function),
    /// A call, with the name of what is called if that is an identifier.
    CallExpression { callee: Option<String> },
    MethodDefinition,
    ObjectProperty {
        method: bool,
        kind: PropertyKind,
        value: Expression,
        key: Option<StaticName>,
    },
    VariableDeclarator {
        /// Whether a single name is declared.
        id_is_identifier: bool,
        /// The name that is declared, if it is a single name.
        id_name: Option<String>,
        init: Option<Expression>,
    },
    PropertyDefinition { value: Option<Expression>, key: Option<StaticName> },
    AssignmentExpression {
        /// Whether a single name is assigned to.
        left_is_identifier: bool,
        /// The name that is assigned to, if there is one.
        left_name: Option<String>,
        right: Expression,
    },
    AssignmentTargetWithDefault { binding_is_identifier: bool, init: Expression },
    AssignmentPattern { left_is_identifier: bool, right: Expression },
    AssignmentTargetPropertyIdentifier { init: Option<Expression> },
    ObjectAssignmentTarget { properties: Vec<AssignmentTargetProperty> },
    ParenthesizedExpression,
    TSAsExpression,
    TSNonNullExpression,
    TSSatisfiesExpression,
    Other,
}

/// The range of the name of a function.
pub open spec fn function_identifier(func: Function) -> Option<Span> {
    match func.id {
        Some(id) => Some(id.span),
        None => None,
    }
}

/// The name of a function.
pub open spec fn function_name(func: Function) -> Option<Seq<char>> {
    match func.id {
        Some(id) => Some(id.name@),
        None => None,
    }
}

/// Whether a function expression under `parent` is a get, set, or
/// shorthand method in an object literal or a class.
pub open spec fn object_or_class_method(parent: AstKind) -> bool {
    match parent {
        AstKind::MethodDefinition => true,
        AstKind::ObjectProperty { method, kind, .. } => method || kind is Getter || kind is Setter,
        _ => false,
    }
}

/// Whether `expression` is a function expression with the name, or the lack
/// of a name, of `func`.
pub open spec fn same_function(expression: Expression, func: Function) -> bool {
    match expression {
        Expression::FunctionExpression { id } => id == function_identifier(func),
        Expression::Other => false,
    }
}

/// Whether there is an expression, and it is a function expression with
/// the name, or the lack of a name, of `func`.
pub open spec fn same_optional(expression: Option<Expression>, func: Function) -> bool {
    match expression {
        Some(expression) => same_function(expression, func),
        None => false,
    }
}

/// Whether `property` assigns a function expression with the name, or the
/// lack of a name, of `func` as its default.
pub open spec fn property_names(property: AssignmentTargetProperty, func: Function) -> bool {
    match property {
        AssignmentTargetProperty::AssignmentTargetPropertyIdentifier { init } => same_optional(
            init,
            func,
        ),
        AssignmentTargetProperty::AssignmentTargetPropertyProperty => false,
    }
}

/// Whether `property`, if it is a single name, has a default.
pub open spec fn property_wf(property: AssignmentTargetProperty) -> bool {
    match property {
        AssignmentTargetProperty::AssignmentTargetPropertyIdentifier { init } => init is Some,
        AssignmentTargetProperty::AssignmentTargetPropertyProperty => true,
    }
}

/// Whether each property of an object that is assigned to, if it is a
/// single name, has a default: the rule cannot read another such object.
pub open spec fn parent_wf(parent: AstKind) -> bool {
    match parent {
        AstKind::ObjectAssignmentTarget { properties } => forall|i: int|
            0 <= i < properties@.len() ==> property_wf(#[trigger] properties@[i]),
        _ => true,
    }
}

/// Whether the function expression `func` under `parent` has a name that is
/// inferred from where it stands.
pub open spec fn inferred_name(func: Function, parent: AstKind) -> bool {
    object_or_class_method(parent) || match parent {
        AstKind::VariableDeclarator { id_is_identifier, init, .. } => id_is_identifier
            && same_optional(init, func),
        AstKind::ObjectProperty { value, .. } => same_function(value, func),
        AstKind::PropertyDefinition { value, .. } => same_optional(value, func),
        AstKind::AssignmentExpression { left_is_identifier, right, .. } => left_is_identifier
            && same_function(right, func),
        AstKind::AssignmentTargetWithDefault { binding_is_identifier, init } => {
            binding_is_identifier && same_function(init, func)
        },
        AstKind::AssignmentPattern { left_is_identifier, right } => left_is_identifier
            && same_function(right, func),
        AstKind::AssignmentTargetPropertyIdentifier { init } => same_optional(init, func),
        AstKind::ObjectAssignmentTarget { properties } => exists|i: int|
            0 <= i < properties@.len() && property_names(#[trigger] properties@[i], func),
        _ => false,
    }
}

/// Whether `func` under `parent` breaks the rule as `config` sets it.
pub open spec fn invalid_function(config: FuncNamesConfig, func: Function, parent: AstKind) -> bool {
    match config {
        FuncNamesConfig::Never => func.id is Some && !(func.function_type
            is FunctionDeclaration),
        FuncNamesConfig::AsNeeded => func.id is None && !inferred_name(func, parent),
        FuncNamesConfig::Always => func.id is None && !object_or_class_method(parent),
    }
}

/// Determines whether the current FunctionExpression node is a get, set, or
/// shorthand method in an object literal or a class.
pub fn is_object_or_class_method(parent_node: &AstKind) -> (r: bool)
    ensures
        r == object_or_class_method(*parent_node),
{
    match parent_node {
        AstKind::MethodDefinition => true,
        AstKind::ObjectProperty { method, kind, .. } => {
            *method || matches!(kind, PropertyKind::Getter | PropertyKind::Setter)
        },
        _ => false,
    }
}

/// Gets the identifier for the function
pub fn get_function_identifier(func: &Function) -> (r: Option<Span>)
    ensures
        r == function_identifier(*func),
{
    match &func.id {
        Some(id) => Some(id.span),
        None => None,
    }
}

pub fn is_same_function(fn1: &Expression, fn2: &Function) -> (r: bool)
    ensures
        r == same_function(*fn1, *fn2),
{
    match fn1 {
        Expression::FunctionExpression { id } => match (id, get_function_identifier(fn2)) {
            (Some(a), Some(b)) => a.start == b.start && a.end == b.end,
            (None, None) => true,
            _ => false,
        },
        Expression::Other => false,
    }
}

fn is_same_optional(expression: &Option<Expression>, function: &Function) -> (r: bool)
    ensures
        r == same_optional(*expression, *function),
{
    match expression {
        Some(expression) => is_same_function(expression, function),
        None => false,
    }
}

/// Determines whether the current FunctionExpression node has a name that would be
/// inferred from context in a conforming ES6 environment.
pub fn has_inferred_name(function: &Function, parent_node: &AstKind) -> (r: bool)
    requires
        parent_wf(*parent_node),
    ensures
        r == inferred_name(*function, *parent_node),
{
    if is_object_or_class_method(parent_node) {
        return true;
    }
    match parent_node {
        AstKind::VariableDeclarator { id_is_identifier, init, .. } => {
            *id_is_identifier && is_same_optional(init, function)
        },
        AstKind::ObjectProperty { value, .. } => is_same_function(value, function),
        AstKind::PropertyDefinition { value, .. } => is_same_optional(value, function),
        AstKind::AssignmentExpression { left_is_identifier, right, .. } => {
            *left_is_identifier && is_same_function(right, function)
        },
        AstKind::AssignmentTargetWithDefault { binding_is_identifier, init } => {
            *binding_is_identifier && is_same_function(init, function)
        },
        AstKind::AssignmentPattern { left_is_identifier, right } => {
            *left_is_identifier && is_same_function(right, function)
        },
        AstKind::AssignmentTargetPropertyIdentifier { init } => is_same_optional(init, function),
        AstKind::ObjectAssignmentTarget { properties } => {
            let mut i: usize = 0;
            while i < properties.len()
                invariant
                    i <= properties.len(),
                    *parent_node is ObjectAssignmentTarget,
                    parent_node->properties == *properties,
                    !object_or_class_method(*parent_node),
                    forall|j: int| 0 <= j < properties@.len() ==> property_wf(#[trigger] properties@[j]),
                    forall|j: int| 0 <= j < i ==> !property_names(#[trigger] properties@[j], *function),
                decreases properties.len() - i,
            {
                if let AssignmentTargetProperty::AssignmentTargetPropertyIdentifier { init } =
                    &properties[i] {
                    assert(property_wf(properties@[i as int]));
                    let init = init.as_ref().unwrap();
                    if is_same_function(init, function) {
                        assert(property_names(properties@[i as int], *function));
                        return true;
                    }
                }
                i += 1;
            }
            false
        },
        _ => false,
    }
}

impl FuncNamesConfig {
    /// Whether `func` under `parent_node` breaks the rule.
    pub fn is_invalid_function(self, func: &Function, parent_node: &AstKind) -> (r: bool)
        requires
            parent_wf(*parent_node),
        ensures
            r == invalid_function(self, *func, *parent_node),
    {
        match self {
            FuncNamesConfig::Never => {
                func.id.is_some() && !matches!(func.function_type, FunctionType::FunctionDeclaration)
            },
            FuncNamesConfig::AsNeeded => func.id.is_none() && !has_inferred_name(func, parent_node),
            FuncNamesConfig::Always => func.id.is_none() && !is_object_or_class_method(parent_node),
        }
    }
}

/// What the configuration value `raw` asks for, or why it asks for nothing.
pub open spec fn parsed_config(raw: Value) -> Result<FuncNamesConfig, Seq<char>> {
    match json_str(raw) {
        None => Err("Expecting string for eslint/func-names configuration"@),
        Some(text) => if text == "always"@ {
            Ok(FuncNamesConfig::Always)
        } else if text == "as-needed"@ {
            Ok(FuncNamesConfig::AsNeeded)
        } else if text == "never"@ {
            Ok(FuncNamesConfig::Never)
        } else {
            Err("Expecting always, as-needed or never for eslint/func-names configuration"@)
        },
    }
}

/// What the configuration `value` sets for functions and for generators,
/// or why it sets nothing: the first element is for functions; generators
/// follow `generators` in the second element, or else the first element.
pub open spec fn configured(value: Value) -> Result<(FuncNamesConfig, FuncNamesConfig), Seq<char>> {
    match json_index(value, 0) {
        None => Ok((FuncNamesConfig::Always, FuncNamesConfig::Always)),
        Some(default_value) => match parsed_config(default_value) {
            Err(message) => Err(message),
            Ok(default_config) => {
                let generators_value = match json_index(value, 1) {
                    Some(options) => match json_field(options, "generators"@) {
                        Some(generators) => generators,
                        None => default_value,
                    },
                    None => default_value,
                };
                match parsed_config(generators_value) {
                    Ok(generators_config) => Ok((default_config, generators_config)),
                    Err(message) => Err(message),
                }
            },
        },
    }
}

impl FuncNamesConfig {
    /// Reads one setting of the rule.
    pub fn try_from(raw: &Value) -> (r: Result<FuncNamesConfig, Diagnostic>)
        ensures
            match r {
                Ok(config) => parsed_config(*raw) == Ok::<_, Seq<char>>(config),
                Err(error) => parsed_config(*raw) == Err::<FuncNamesConfig, _>(error.message@)
                    && error.help is None && error.label is None,
            },
    {
        match as_str(raw) {
            None => Err(
                Diagnostic::warn(
                    String::from_str("Expecting string for eslint/func-names configuration"),
                ),
            ),
            Some(v) => {
                if str_eq(v, "always") {
                    Ok(FuncNamesConfig::Always)
                } else if str_eq(v, "as-needed") {
                    Ok(FuncNamesConfig::AsNeeded)
                } else if str_eq(v, "never") {
                    Ok(FuncNamesConfig::Never)
                } else {
                    Err(
                        Diagnostic::warn(
                            String::from_str(
                                "Expecting always, as-needed or never for eslint/func-names configuration",
                            ),
                        ),
                    )
                }
            },
        }
    }
}

impl FuncNames {
    /// Reads the configuration of the rule, or says what is wrong with it.
    pub fn try_from_configuration(value: &Value) -> (r: Result<FuncNames, Diagnostic>)
        ensures
            match r {
                Ok(rule) => configured(*value) == Ok::<_, Seq<char>>(
                    (rule.default_config, rule.generators_config),
                ),
                Err(error) => configured(*value) == Err::<(FuncNamesConfig, FuncNamesConfig), _>(
                    error.message@,
                ),
            },
    {
        let Some(default_value) = get_index(value, 0) else {
            return Ok(
                FuncNames {
                    default_config: FuncNamesConfig::Always,
                    generators_config: FuncNamesConfig::Always,
                },
            );
        };
        let default_config = match FuncNamesConfig::try_from(default_value) {
            Ok(config) => config,
            Err(error) => {
                return Err(error);
            },
        };
        let generators_value = match get_index(value, 1) {
            Some(options) => match get_field(options, "generators") {
                Some(generators) => generators,
                None => default_value,
            },
            None => default_value,
        };
        match FuncNamesConfig::try_from(generators_value) {
            Ok(generators_config) => Ok(FuncNames { default_config, generators_config }),
            Err(error) => Err(error),
        }
    }

    /// Reads the configuration of the rule, which must be one that
    /// [`configured`] accepts.
    pub fn from_configuration(value: Value) -> (rule: Self)
        requires
            configured(value) is Ok,
        ensures
            configured(value) == Ok::<_, Seq<char>>((rule.default_config, rule.generators_config)),
    {
        match FuncNames::try_from_configuration(&value) {
            Ok(rule) => rule,
            Err(_) => unreached(),
        }
    }
}

/// Whether `name` is a name that a function should not be given.
pub open spec fn invalid_name(name: Seq<char>) -> bool {
    ||| name == "arguments"@
    ||| name == "async"@
    ||| name == "await"@
    ||| name == "constructor"@
    ||| name == "default"@
    ||| name == "eval"@
    ||| name == "null"@
    ||| name == "undefined"@
    ||| name == "yield"@
}

/// Whether the name of a property can be given to a function.
pub open spec fn valid_identifier_name(name: StaticName) -> bool {
    !invalid_name(name.name@) && name.is_identifier_name
}

pub fn is_valid_identifier_name(name: &StaticName) -> (r: bool)
    ensures
        r == valid_identifier_name(*name),
{
    let text = name.name.as_str();
    !(str_eq(text, "arguments") || str_eq(text, "async") || str_eq(text, "await") || str_eq(
        text,
        "constructor",
    ) || str_eq(text, "default") || str_eq(text, "eval") || str_eq(text, "null") || str_eq(
        text,
        "undefined",
    ) || str_eq(text, "yield")) && name.is_identifier_name
}

/// A node with the place of its parent among the nodes; the root has none.
#[derive(Debug, PartialEq, Eq)]
pub struct FuncNode {
    pub kind: AstKind,
    pub parent: Option<usize>,
}

/// Whether each node but the root comes after its parent, and the rule can
/// read each node.
pub open spec fn nodes_wf(nodes: Seq<FuncNode>) -> bool {
    forall|i: int|
        0 <= i < nodes.len() ==> {
            &&& parent_wf((#[trigger] nodes[i]).kind)
            &&& match nodes[i].parent {
                Some(parent) => parent < i,
                None => true,
            }
        }
}

/// The text of `name`, if there is one.
pub open spec fn optional_text(name: Option<String>) -> Option<Seq<char>> {
    match name {
        Some(name) => Some(name@),
        None => None,
    }
}

/// The name of the property, if it can be given to a function.
pub open spec fn key_name(key: Option<StaticName>) -> Option<Seq<char>> {
    match key {
        Some(key) => if valid_identifier_name(key) {
            Some(key.name@)
        } else {
            None
        },
        None => None,
    }
}

/// The name that the function at `at` would be given by what it is assigned
/// to: the name of the variable, of the assignment target or of the
/// property above it, looking through parentheses and type assertions.
pub open spec fn guessed_name(nodes: Seq<FuncNode>, at: int) -> Option<Seq<char>>
    decreases at,
{
    if at < 0 || at >= nodes.len() {
        None
    } else {
        match nodes[at].parent {
            None => None,
            Some(parent) => if parent >= at {
                None
            } else {
                match nodes[parent as int].kind {
                    AstKind::ParenthesizedExpression
                    | AstKind::TSAsExpression
                    | AstKind::TSNonNullExpression
                    | AstKind::TSSatisfiesExpression => guessed_name(nodes, parent as int),
                    AstKind::AssignmentExpression { left_name, .. } => optional_text(left_name),
                    AstKind::VariableDeclarator { id_name, .. } => optional_text(id_name),
                    AstKind::ObjectProperty { key, .. } => key_name(key),
                    AstKind::PropertyDefinition { key, .. } => key_name(key),
                    _ => None,
                }
            },
        }
    }
}

fn clone_name(name: &Option<String>) -> (r: Option<String>)
    ensures
        optional_text(r) == optional_text(*name),
{
    match name {
        Some(name) => Some(name.clone()),
        None => None,
    }
}

fn clone_key(key: &Option<StaticName>) -> (r: Option<String>)
    ensures
        optional_text(r) == key_name(*key),
{
    match key {
        Some(key) => if is_valid_identifier_name(key) {
            Some(key.name.clone())
        } else {
            None
        },
        None => None,
    }
}

/// Guesses the name that the function at `node_id` would be given.
pub fn guess_function_name(nodes: &Vec<FuncNode>, node_id: usize) -> (r: Option<String>)
    requires
        node_id < nodes@.len(),
    ensures
        optional_text(r) == guessed_name(nodes@, node_id as int),
{
    let mut at = node_id;
    loop
        invariant
            at < nodes@.len(),
            guessed_name(nodes@, node_id as int) == guessed_name(nodes@, at as int),
        decreases at,
    {
        let Some(parent) = nodes[at].parent else {
            return None;
        };
        if parent >= at {
            return None;
        }
        match &nodes[parent].kind {
            AstKind::ParenthesizedExpression
            | AstKind::TSAsExpression
            | AstKind::TSNonNullExpression
            | AstKind::TSSatisfiesExpression => {},
            AstKind::AssignmentExpression { left_name, .. } => {
                return clone_name(left_name);
            },
            AstKind::VariableDeclarator { id_name, .. } => {
                return clone_name(id_name);
            },
            AstKind::ObjectProperty { key, .. } => {
                return clone_key(key);
            },
            AstKind::PropertyDefinition { key, .. } => {
                return clone_key(key);
            },
            _ => {
                return None;
            },
        }
        at = parent;
    }
}

/// What mends a report.
#[derive(Debug, PartialEq, Eq)]
pub enum Action {
    /// Take out the text at the range.
    Delete(Span),
    /// Put `text` behind the range.
    InsertAfter { span: Span, text: String },
    /// Nothing can be done safely.
    Noop,
}

/// What mends a report, as contracts see it.
pub enum ActionView {
    Delete(Span),
    InsertAfter { span: Span, text: Seq<char> },
    Noop,
}

impl View for Action {
    type V = ActionView;

    open spec fn view(&self) -> ActionView {
        match *self {
            Action::Delete(span) => ActionView::Delete(span),
            Action::InsertAfter { span, text } => ActionView::InsertAfter { span, text: text@ },
            Action::Noop => ActionView::Noop,
        }
    }
}

/// A warning about a function, with what mends it.
#[derive(Debug, PartialEq, Eq)]
pub struct FuncReport {
    pub diagnostic: Diagnostic,
    pub action: Action,
}

/// A report as contracts see it.
pub struct FuncReportView {
    pub diagnostic: DiagnosticView,
    pub action: ActionView,
}

impl View for FuncReport {
    type V = FuncReportView;

    open spec fn view(&self) -> FuncReportView {
        FuncReportView { diagnostic: self.diagnostic@, action: self.action@ }
    }
}

/// The reports as contracts see them.
pub open spec fn func_report_views(reports: Seq<FuncReport>) -> Seq<FuncReportView> {
    Seq::new(reports.len(), |i: int| reports[i]@)
}

/// The kind of the parent of the node at `at`.
pub open spec fn parent_kind(nodes: Seq<FuncNode>, at: int) -> AstKind {
    match nodes[at].parent {
        Some(parent) => if parent < nodes.len() {
            nodes[parent as int].kind
        } else {
            AstKind::Other
        },
        None => AstKind::Other,
    }
}

/// The name of the function at `at`, if a function with a name stands there.
pub open spec fn function_name_at(nodes: Seq<FuncNode>, at: int) -> Option<Seq<char>> {
    if 0 <= at < nodes.len() {
        match nodes[at].kind {
            AstKind::Function(func) => function_name(func),
            _ => None,
        }
    } else {
        None
    }
}

/// The range of the nearest function above the node at `at` that is called `name`.
pub open spec fn enclosing_named(nodes: Seq<FuncNode>, at: int, name: Seq<char>) -> Option<Span>
    decreases at,
{
    if at < 0 || at >= nodes.len() {
        None
    } else {
        match nodes[at].parent {
            None => None,
            Some(parent) => if parent >= at {
                None
            } else if function_name_at(nodes, parent as int) == Some(name) {
                Some(nodes[parent as int].kind->Function_0.span)
            } else {
                enclosing_named(nodes, parent as int, name)
            },
        }
    }
}

/// Whether one of the functions at `invalid` is called `name`.
pub open spec fn named_among(nodes: Seq<FuncNode>, invalid: Seq<usize>, name: Seq<char>) -> bool {
    exists|k: int|
        0 <= k < invalid.len() && function_name_at(nodes, (#[trigger] invalid[k]) as int) == Some(
            name,
        )
}

/// Whether a function stands at each of `invalid`.
pub open spec fn all_functions(nodes: Seq<FuncNode>, invalid: Seq<usize>) -> bool {
    forall|k: int|
        0 <= k < invalid.len() ==> (#[trigger] invalid[k]) < nodes.len()
            && nodes[invalid[k] as int].kind is Function
}

/// The first `n` of `invalid`, without the functions whose range is `span`.
pub open spec fn without_span(nodes: Seq<FuncNode>, invalid: Seq<usize>, n: int, span: Span) -> Seq<
    usize,
>
    decreases n,
{
    if n <= 0 || n > invalid.len() {
        Seq::empty()
    } else {
        let before = without_span(nodes, invalid, n - 1, span);
        if nodes[invalid[n - 1] as int].kind->Function_0.span == span {
            before
        } else {
            before.push(invalid[n - 1])
        }
    }
}

/// The functions among the first `n` nodes that break the rule, in their
/// order: a function that breaks the rule by itself, unless a call later
/// among these nodes calls it by its name from inside of it.
pub open spec fn invalid_after(rule: FuncNames, nodes: Seq<FuncNode>, n: int) -> Seq<usize>
    decreases n,
{
    if n <= 0 || n > nodes.len() {
        Seq::empty()
    } else {
        let before = invalid_after(rule, nodes, n - 1);
        match nodes[n - 1].kind {
            AstKind::Function(func) => {
                let config = if func.generator {
                    rule.generators_config
                } else {
                    rule.default_config
                };
                if invalid_function(config, func, parent_kind(nodes, n - 1)) {
                    before.push((n - 1) as usize)
                } else {
                    before
                }
            },
            AstKind::CallExpression { callee: Some(name) } => {
                if !named_among(nodes, before, name@) {
                    before
                } else {
                    match enclosing_named(nodes, n - 1, name@) {
                        Some(span) => without_span(nodes, before, before.len() as int, span),
                        None => before,
                    }
                }
            },
            _ => before,
        }
    }
}

/// The first binding at or after `from` that is called `name`.
pub open spec fn find_binding(bindings: Seq<Binding>, from: int, name: Seq<char>) -> Option<int>
    decreases bindings.len() - from,
{
    if from < 0 || from >= bindings.len() {
        None
    } else if bindings[from].name@ == name {
        Some(from)
    } else {
        find_binding(bindings, from + 1, name)
    }
}

/// Whether `outer` holds `inner`, ends included.
pub open spec fn contains_inclusive(outer: Span, inner: Span) -> bool {
    outer.start <= inner.start && inner.end <= outer.end
}

/// Whether `outer` holds one of `references`, ends included.
pub open spec fn holds_reference(outer: Span, references: Seq<Span>) -> bool {
    exists|r: int| 0 <= r < references.len() && contains_inclusive(outer, #[trigger] references[r])
}

/// Whether giving `func` the name `name` would hide a binding that is
/// referred to inside of the function.
pub open spec fn shadows(func: Function, name: Seq<char>) -> bool {
    match find_binding(func.bindings@, 0, name) {
        Some(found) => holds_reference(func.span, func.bindings@[found].references@),
        None => false,
    }
}

/// The message about a function that has a name and should have none.
pub open spec fn named_message(function_name: Seq<char>) -> Seq<char> {
    "Unexpected named "@ + function_name + "."@
}

/// The message about a function that has no name and should have one.
pub open spec fn unnamed_message(description: Seq<char>) -> Seq<char> {
    "Unexpected unnamed "@ + description + "."@
}

/// The range that a report about `func` points at: from the start of the
/// function to the start of its parameters.
pub open spec fn report_span(func: Function) -> Span {
    Span { start: func.span.start, end: func.params_start }
}

/// The range behind which a name for `func` is put.
pub open spec fn replace_span(func: Function) -> Span {
    Span {
        start: func.span.start,
        end: match func.type_parameters_start {
            Some(start) => start,
            None => func.params_start,
        },
    }
}

/// The report about the function at `at`, which breaks the rule.
pub open spec fn func_report(nodes: Seq<FuncNode>, at: int) -> FuncReportView {
    let func = nodes[at].kind->Function_0;
    match func.id {
        Some(id) => FuncReportView {
            diagnostic: DiagnosticView {
                message: named_message(func.name_with_kind@),
                help: Some("Remove the name on this function expression."),
                label: Some(report_span(func)),
            },
            action: ActionView::Delete(id.span),
        },
        None => FuncReportView {
            diagnostic: DiagnosticView {
                message: unnamed_message(func.name_with_kind@),
                help: Some("Consider giving this function expression a name."),
                label: Some(report_span(func)),
            },
            action: match guessed_name(nodes, at) {
                Some(name) => if shadows(func, name) {
                    ActionView::Noop
                } else {
                    ActionView::InsertAfter { span: replace_span(func), text: " "@ + name }
                },
                None => ActionView::Noop,
            },
        },
    }
}

/// The reports about the functions at the first `n` of `invalid`.
pub open spec fn func_reports(nodes: Seq<FuncNode>, invalid: Seq<usize>, n: int) -> Seq<
    FuncReportView,
>
    decreases n,
{
    if n <= 0 || n > invalid.len() {
        Seq::empty()
    } else {
        func_reports(nodes, invalid, n - 1).push(func_report(nodes, invalid[n - 1] as int))
    }
}

fn named_diagnostic(function_name: &str, span: Span) -> (diagnostic: Diagnostic)
    ensures
        diagnostic@ == (DiagnosticView {
            message: named_message(function_name@),
            help: Some("Remove the name on this function expression."),
            label: Some(span),
        }),
{
    let mut message = String::from_str("Unexpected named ");
    message.append(function_name);
    message.append(".");
    Diagnostic::warn(message).with_label(span).with_help(
        "Remove the name on this function expression.",
    )
}

fn unnamed_diagnostic(inferred_name_or_description: &str, span: Span) -> (diagnostic: Diagnostic)
    ensures
        diagnostic@ == (DiagnosticView {
            message: unnamed_message(inferred_name_or_description@),
            help: Some("Consider giving this function expression a name."),
            label: Some(span),
        }),
{
    let mut message = String::from_str("Unexpected unnamed ");
    message.append(inferred_name_or_description);
    message.append(".");
    Diagnostic::warn(message).with_label(span).with_help(
        "Consider giving this function expression a name.",
    )
}

fn is_named_among(nodes: &Vec<FuncNode>, invalid: &Vec<usize>, name: &str) -> (r: bool)
    requires
        all_functions(nodes@, invalid@),
    ensures
        r == named_among(nodes@, invalid@, name@),
{
    let mut k: usize = 0;
    while k < invalid.len()
        invariant
            k <= invalid.len(),
            all_functions(nodes@, invalid@),
            forall|j: int|
                0 <= j < k ==> function_name_at(nodes@, (#[trigger] invalid@[j]) as int) != Some(
                    name@,
                ),
        decreases invalid.len() - k,
    {
        if let AstKind::Function(func) = &nodes[invalid[k]].kind {
            if let Some(id) = &func.id {
                if str_eq(id.name.as_str(), name) {
                    return true;
                }
            }
        }
        k += 1;
    }
    false
}

fn find_enclosing_named(nodes: &Vec<FuncNode>, node_id: usize, name: &str) -> (r: Option<Span>)
    requires
        node_id < nodes@.len(),
    ensures
        r == enclosing_named(nodes@, node_id as int, name@),
{
    let mut at = node_id;
    loop
        invariant
            at < nodes@.len(),
            enclosing_named(nodes@, node_id as int, name@) == enclosing_named(
                nodes@,
                at as int,
                name@,
            ),
        decreases at,
    {
        let Some(parent) = nodes[at].parent else {
            return None;
        };
        if parent >= at {
            return None;
        }
        if let AstKind::Function(func) = &nodes[parent].kind {
            if let Some(id) = &func.id {
                if str_eq(id.name.as_str(), name) {
                    return Some(func.span);
                }
            }
        }
        at = parent;
    }
}

fn retain_other_spans(nodes: &Vec<FuncNode>, invalid: &Vec<usize>, span: Span) -> (kept: Vec<usize>)
    requires
        all_functions(nodes@, invalid@),
    ensures
        kept@ == without_span(nodes@, invalid@, invalid@.len() as int, span),
        all_functions(nodes@, kept@),
{
    let mut kept: Vec<usize> = Vec::new();
    let mut k: usize = 0;
    while k < invalid.len()
        invariant
            k <= invalid.len(),
            all_functions(nodes@, invalid@),
            all_functions(nodes@, kept@),
            kept@ == without_span(nodes@, invalid@, k as int, span),
        decreases invalid.len() - k,
    {
        if let AstKind::Function(func) = &nodes[invalid[k]].kind {
            if !(func.span.start == span.start && func.span.end == span.end) {
                kept.push(invalid[k]);
            }
        }
        k += 1;
    }
    kept
}

fn is_referenced_inside(outer: Span, references: &Vec<Span>) -> (r: bool)
    ensures
        r == holds_reference(outer, references@),
{
    let mut i: usize = 0;
    while i < references.len()
        invariant
            i <= references.len(),
            forall|j: int| 0 <= j < i ==> !contains_inclusive(outer, #[trigger] references@[j]),
        decreases references.len() - i,
    {
        let reference = references[i];
        if outer.start <= reference.start && reference.end <= outer.end {
            assert(contains_inclusive(outer, references@[i as int]));
            return true;
        }
        i += 1;
    }
    false
}

fn is_shadowing(func: &Function, name: &str) -> (r: bool)
    ensures
        r == shadows(*func, name@),
{
    let mut b: usize = 0;
    while b < func.bindings.len()
        invariant
            b <= func.bindings.len(),
            find_binding(func.bindings@, 0, name@) == find_binding(func.bindings@, b as int, name@),
        decreases func.bindings.len() - b,
    {
        if str_eq(func.bindings[b].name.as_str(), name) {
            return is_referenced_inside(func.span, &func.bindings[b].references);
        }
        b += 1;
    }
    false
}

fn report_function(nodes: &Vec<FuncNode>, at: usize) -> (report: FuncReport)
    requires
        at < nodes@.len(),
        nodes@[at as int].kind is Function,
    ensures
        report@ == func_report(nodes@, at as int),
{
    match &nodes[at].kind {
        AstKind::Function(func) => {
            let report_span = Span::new(func.span.start, func.params_start);
            let replace_span = Span::new(
                func.span.start,
                match func.type_parameters_start {
                    Some(start) => start,
                    None => func.params_start,
                },
            );
            match &func.id {
                Some(id) => FuncReport {
                    diagnostic: named_diagnostic(func.name_with_kind.as_str(), report_span),
                    action: Action::Delete(id.span),
                },
                None => {
                    let action = match guess_function_name(nodes, at) {
                        None => Action::Noop,
                        Some(name) => {
                            // if this name shadows a variable in the outer scope **and** that name is
                            // referenced inside the function body, it is unsafe to add a name to
                            // this function
                            if is_shadowing(func, name.as_str()) {
                                Action::Noop
                            } else {
                                let mut text = String::from_str(" ");
                                text.append(name.as_str());
                                Action::InsertAfter { span: replace_span, text }
                            }
                        },
                    };
                    FuncReport {
                        diagnostic: unnamed_diagnostic(func.name_with_kind.as_str(), report_span),
                        action,
                    }
                },
            }
        },
        _ => unreached(),
    }
}

impl FuncNames {
    /// The functions of `nodes` that break the rule.
    pub fn invalid_functions(&self, nodes: &Vec<FuncNode>) -> (invalid: Vec<usize>)
        requires
            nodes_wf(nodes@),
        ensures
            invalid@ == invalid_after(*self, nodes@, nodes@.len() as int),
            all_functions(nodes@, invalid@),
    {
        let mut invalid_funcs: Vec<usize> = Vec::new();
        let mut i: usize = 0;
        while i < nodes.len()
            invariant
                i <= nodes.len(),
                nodes_wf(nodes@),
                all_functions(nodes@, invalid_funcs@),
                invalid_funcs@ == invalid_after(*self, nodes@, i as int),
            decreases nodes.len() - i,
        {
            match &nodes[i].kind {
                // check function if it invalid, do not report it because maybe later the function is calling itself
                AstKind::Function(func) => {
                    let other = AstKind::Other;
                    let parent_node = match nodes[i].parent {
                        Some(parent) => if parent < nodes.len() {
                            &nodes[parent].kind
                        } else {
                            &other
                        },
                        None => &other,
                    };
                    let config = if func.generator {
                        self.generators_config
                    } else {
                        self.default_config
                    };
                    if config.is_invalid_function(func, parent_node) {
                        invalid_funcs.push(i);
                    }
                },
                // check if the calling function is inside of its own body
                // when yes remove it from invalid_funcs because recursion are always named
                AstKind::CallExpression { callee: Some(name) } => {
                    // check at first if the callee calls an invalid function
                    if is_named_among(nodes, &invalid_funcs, name.as_str()) {
                        // a function which is calling itself inside is always valid
                        if let Some(span) = find_enclosing_named(nodes, i, name.as_str()) {
                            // we found a recursive function, remove it from the invalid list
                            invalid_funcs = retain_other_spans(nodes, &invalid_funcs, span);
                        }
                    }
                },
                _ => {},
            }
            i += 1;
        }
        invalid_funcs
    }

    /// Checks all of `nodes`, which stand in the order of the source:
    /// reports each function that breaks the rule, with what mends it.
    pub fn run_once(&self, nodes: &Vec<FuncNode>) -> (reports: Vec<FuncReport>)
        requires
            nodes_wf(nodes@),
        ensures
            func_report_views(reports@) == func_reports(
                nodes@,
                invalid_after(*self, nodes@, nodes@.len() as int),
                invalid_after(*self, nodes@, nodes@.len() as int).len() as int,
            ),
    {
        let invalid_funcs = self.invalid_functions(nodes);
        let mut reports: Vec<FuncReport> = Vec::new();
        let mut k: usize = 0;
        proof {
            assert(func_report_views(reports@) =~= Seq::empty());
        }
        while k < invalid_funcs.len()
            invariant
                k <= invalid_funcs.len(),
                all_functions(nodes@, invalid_funcs@),
                func_report_views(reports@) == func_reports(nodes@, invalid_funcs@, k as int),
            decreases invalid_funcs.len() - k,
        {
            let ghost before = reports@;
            let report = report_function(nodes, invalid_funcs[k]);
            reports.push(report);
            proof {
                assert(func_report_views(reports@) =~= func_report_views(before).push(
                    func_report(nodes@, invalid_funcs@[k as int] as int),
                ));
            }
            k += 1;
        }
        reports
    }
}

} // verus!
