//! Recognising the functions of Jest and Vitest.

use crate::source_text::{str_chars, str_eq};
use vstd::prelude::*;
use vstd::string::StringExecFns;

verus! {

/// The names under which the test functions are known where nothing is imported.
pub const JEST_METHOD_NAMES: [&'static str; 18] = [
    "afterAll",
    "afterEach",
    "beforeAll",
    "beforeEach",
    "bench",
    "describe",
    "expect",
    "expectTypeOf",
    "fdescribe",
    "fit",
    "it",
    "jest",
    "pending",
    "test",
    "vi",
    "xdescribe",
    "xit",
    "xtest",
];

#[derive(Clone, Copy, PartialEq, Eq, Debug, Structural)]
pub enum JestFnKind {
    Expect,
    ExpectTypeOf,
    General(JestGeneralFnKind),
    Unknown,
}

#[derive(Clone, Copy, PartialEq, Eq, Debug, Structural)]
pub enum JestGeneralFnKind {
    Hook,
    Describe,
    Test,
    Jest,
    Vitest,
    Bench,
}

/// The kind of the test function that is called `name`.
pub open spec fn jest_fn_kind(name: Seq<char>) -> JestFnKind {
    if name == "expect"@ {
        JestFnKind::Expect
    } else if name == "expectTypeOf"@ {
        JestFnKind::ExpectTypeOf
    } else if name == "vi"@ {
        JestFnKind::General(JestGeneralFnKind::Vitest)
    } else if name == "bench"@ {
        JestFnKind::General(JestGeneralFnKind::Bench)
    } else if name == "jest"@ {
        JestFnKind::General(JestGeneralFnKind::Jest)
    } else if name == "describe"@ || name == "fdescribe"@ || name == "xdescribe"@ {
        JestFnKind::General(JestGeneralFnKind::Describe)
    } else if name == "fit"@ || name == "it"@ || name == "test"@ || name == "xit"@ || name
        == "xtest"@ {
        JestFnKind::General(JestGeneralFnKind::Test)
    } else if name == "beforeAll"@ || name == "beforeEach"@ || name == "afterAll"@ || name
        == "afterEach"@ {
        JestFnKind::General(JestGeneralFnKind::Hook)
    } else {
        JestFnKind::Unknown
    }
}

impl JestFnKind {
    pub fn from(name: &str) -> (kind: Self)
        ensures
            kind == jest_fn_kind(name@),
    {
        if str_eq(name, "expect") {
            JestFnKind::Expect
        } else if str_eq(name, "expectTypeOf") {
            JestFnKind::ExpectTypeOf
        } else if str_eq(name, "vi") {
            JestFnKind::General(JestGeneralFnKind::Vitest)
        } else if str_eq(name, "bench") {
            JestFnKind::General(JestGeneralFnKind::Bench)
        } else if str_eq(name, "jest") {
            JestFnKind::General(JestGeneralFnKind::Jest)
        } else if str_eq(name, "describe") || str_eq(name, "fdescribe") || str_eq(
            name,
            "xdescribe",
        ) {
            JestFnKind::General(JestGeneralFnKind::Describe)
        } else if str_eq(name, "fit") || str_eq(name, "it") || str_eq(name, "test") || str_eq(
            name,
            "xit",
        ) || str_eq(name, "xtest") {
            JestFnKind::General(JestGeneralFnKind::Test)
        } else if str_eq(name, "beforeAll") || str_eq(name, "beforeEach") || str_eq(
            name,
            "afterAll",
        ) || str_eq(name, "afterEach") {
            JestFnKind::General(JestGeneralFnKind::Hook)
        } else {
            JestFnKind::Unknown
        }
    }

    pub fn to_general(self) -> (kind: Option<JestGeneralFnKind>)
        ensures
            kind == (match self {
                JestFnKind::General(kind) => Some(kind),
                _ => None,
            }),
    {
        match self {
            JestFnKind::General(kind) => Some(kind),
            _ => None,
        }
    }
}

/// Whether `text` ends with `suffix`.
pub open spec fn ends_with(text: Seq<char>, suffix: Seq<char>) -> bool {
    suffix.len() <= text.len() && text.subrange(text.len() - suffix.len(), text.len() as int)
        == suffix
}

fn str_ends_with(text: &Vec<char>, suffix: &str) -> (r: bool)
    ensures
        r == ends_with(text@, suffix@),
{
    let tail = str_chars(suffix);
    if tail.len() > text.len() {
        return false;
    }
    let start = text.len() - tail.len();
    let mut i: usize = 0;
    while i < tail.len()
        invariant
            i <= tail.len(),
            tail@ == suffix@,
            start + tail.len() == text.len(),
            forall|k: int| 0 <= k < i ==> text@[start + k] == tail@[k],
        decreases tail.len() - i,
    {
        if text[start + i] != tail[i] {
            proof {
                assert(text@.subrange(start as int, text@.len() as int)[i as int] == text@[start
                    + i]);
            }
            return false;
        }
        i += 1;
    }
    proof {
        assert(text@.subrange(start as int, text@.len() as int) =~= tail@);
    }
    true
}

/// Whether a file name ends as the name of a test file does.
pub open spec fn has_test_suffix(file_path: Seq<char>) -> bool {
    ||| ends_with(file_path, "spec.js"@)
    ||| ends_with(file_path, "spec.jsx"@)
    ||| ends_with(file_path, "spec.ts"@)
    ||| ends_with(file_path, "spec.tsx"@)
    ||| ends_with(file_path, "test.js"@)
    ||| ends_with(file_path, "test.jsx"@)
    ||| ends_with(file_path, "test.ts"@)
    ||| ends_with(file_path, "test.tsx"@)
}

/// Whether one of `components` is the directory `__tests__`.
pub open spec fn in_tests_directory(components: Seq<String>) -> bool {
    exists|i: int| 0 <= i < components.len() && (#[trigger] components[i])@ == "__tests__"@
}

/// Whether the file at `file_path`, whose directories and name are
/// `components`, is a test file: it lies under a directory `__tests__`, or
/// its name ends as that of a test file does.
///
/// <https://jestjs.io/docs/configuration#testmatch-arraystring>
pub fn is_jest_file(components: &Vec<String>, file_path: &str) -> (r: bool)
    ensures
        r == (in_tests_directory(components@) || has_test_suffix(file_path@)),
{
    let mut i: usize = 0;
    while i < components.len()
        invariant
            i <= components.len(),
            forall|k: int| 0 <= k < i ==> (#[trigger] components@[k])@ != "__tests__"@,
        decreases components.len() - i,
    {
        if str_eq(components[i].as_str(), "__tests__") {
            return true;
        }
        i += 1;
    }
    let file_path = str_chars(file_path);
    str_ends_with(&file_path, "spec.js") || str_ends_with(&file_path, "spec.jsx") || str_ends_with(
        &file_path,
        "spec.ts",
    ) || str_ends_with(&file_path, "spec.tsx") || str_ends_with(&file_path, "test.js")
        || str_ends_with(&file_path, "test.jsx") || str_ends_with(&file_path, "test.ts")
        || str_ends_with(&file_path, "test.tsx")
}

/// A call of a general test function, as it was parsed.
#[derive(Debug, PartialEq, Eq)]
pub struct ParsedGeneralJestFnCall {
    pub kind: JestFnKind,
    pub name: String,
}

/// A call of `expect`, as it was parsed.
#[derive(Debug, PartialEq, Eq)]
pub struct ParsedExpectFnCall {
    pub kind: JestFnKind,
    pub name: String,
}

/// A call of a test function, as it was parsed.
#[derive(Debug, PartialEq, Eq)]
pub enum ParsedJestFnCallNew {
    GeneralJest(ParsedGeneralJestFnCall),
    Expect(ParsedExpectFnCall),
    ExpectTypeOf(ParsedExpectFnCall),
}

impl ParsedJestFnCallNew {
    pub open spec fn spec_kind(&self) -> JestFnKind {
        match *self {
            ParsedJestFnCallNew::GeneralJest(call) => call.kind,
            ParsedJestFnCallNew::Expect(call) => call.kind,
            ParsedJestFnCallNew::ExpectTypeOf(call) => call.kind,
        }
    }

    /// The kind of the function that is called.
    #[verifier::when_used_as_spec(spec_kind)]
    pub fn kind(&self) -> (kind: JestFnKind)
        ensures
            kind == self.spec_kind(),
    {
        match self {
            ParsedJestFnCallNew::GeneralJest(call) => call.kind,
            ParsedJestFnCallNew::Expect(call) => call.kind,
            ParsedJestFnCallNew::ExpectTypeOf(call) => call.kind,
        }
    }
}

fn contains_kind(kinds: &[JestFnKind], kind: JestFnKind) -> (r: bool)
    ensures
        r == kinds@.contains(kind),
{
    let mut i: usize = 0;
    while i < kinds.len()
        invariant
            i <= kinds.len(),
            forall|k: int| 0 <= k < i ==> kinds@[k] != kind,
        decreases kinds.len() - i,
    {
        if kinds[i] == kind {
            return true;
        }
        i += 1;
    }
    false
}

/// Whether what was parsed is a call of a function of one of `kinds`.
pub open spec fn type_of_jest_fn_call(
    jest_fn_call: Option<&ParsedJestFnCallNew>,
    kinds: Seq<JestFnKind>,
) -> bool {
    match jest_fn_call {
        Some(call) => kinds.contains(call.kind()),
        None => false,
    }
}

/// Whether what was parsed is a call, and of one of `kinds`.
pub fn is_type_of_jest_fn_call(jest_fn_call: Option<&ParsedJestFnCallNew>, kinds: &[JestFnKind]) -> (r:
    bool)
    ensures
        r == type_of_jest_fn_call(jest_fn_call, kinds@),
{
    if let Some(jest_fn_call) = jest_fn_call {
        let kind = jest_fn_call.kind();
        if contains_kind(kinds, kind) {
            return true;
        }
    }
    false
}

/// The call of a general test function, if that is what was parsed.
pub fn parse_general_jest_fn_call(jest_fn_call: Option<ParsedJestFnCallNew>) -> (r: Option<
    ParsedGeneralJestFnCall,
>)
    ensures
        r == (match jest_fn_call {
            Some(ParsedJestFnCallNew::GeneralJest(call)) => Some(call),
            _ => None,
        }),
{
    let jest_fn_call = jest_fn_call?;
    if let ParsedJestFnCallNew::GeneralJest(jest_fn_call) = jest_fn_call {
        return Some(jest_fn_call);
    }
    None
}

/// The call of `expect`, if that is what was parsed.
pub fn parse_expect_jest_fn_call(jest_fn_call: Option<ParsedJestFnCallNew>) -> (r: Option<
    ParsedExpectFnCall,
>)
    ensures
        r == (match jest_fn_call {
            Some(ParsedJestFnCallNew::Expect(call)) => Some(call),
            _ => None,
        }),
{
    let jest_fn_call = jest_fn_call?;
    if let ParsedJestFnCallNew::Expect(jest_fn_call) = jest_fn_call {
        return Some(jest_fn_call);
    }
    None
}

/// A property of a member expression whose name may be known.
#[derive(Debug, PartialEq, Eq)]
pub struct KnownMemberExpressionProperty {
    pub name: Option<String>,
}

impl KnownMemberExpressionProperty {
    pub open spec fn spec_is_name_equal(&self, name: &str) -> bool {
        match self.name {
            Some(known) => known@ == name@,
            None => false,
        }
    }

    /// Whether the name of the property is known to be `name`.
    #[verifier::when_used_as_spec(spec_is_name_equal)]
    pub fn is_name_equal(&self, name: &str) -> (r: bool)
        ensures
            r == self.spec_is_name_equal(name),
    {
        match &self.name {
            Some(known) => str_eq(known.as_str(), name),
            None => false,
        }
    }
}

pub fn is_equality_matcher(matcher: &KnownMemberExpressionProperty) -> (r: bool)
    ensures
        r == (matcher.is_name_equal("toBe") || matcher.is_name_equal("toEqual")
            || matcher.is_name_equal("toStrictEqual")),
{
    matcher.is_name_equal("toBe") || matcher.is_name_equal("toEqual") || matcher.is_name_equal(
        "toStrictEqual",
    )
}

/// One name that an import declaration brings in.
#[derive(Debug, PartialEq, Eq)]
pub enum ImportDeclarationSpecifier {
    /// `imported as local`
    ImportSpecifier { local: String, imported: String },
    ImportDefaultSpecifier,
    ImportNamespaceSpecifier,
}

#[derive(Debug, PartialEq, Eq)]
pub struct ImportDeclaration {
    /// The module that is imported from.
    pub source: String,
    pub specifiers: Option<Vec<ImportDeclarationSpecifier>>,
}

/// A node of the syntax tree, as far as the search for test calls reads it.
#[derive(Debug, PartialEq, Eq)]
pub enum AstKind {
    CallExpression,
    StaticMemberExpression,
    TaggedTemplateExpression,
    ComputedMemberExpression,
    ImportDeclaration(ImportDeclaration),
    Other,
}

/// A node with the place of its parent among the nodes; the root has none.
#[derive(Debug, PartialEq, Eq)]
pub struct AstNode {
    pub kind: AstKind,
    pub parent: Option<usize>,
}

/// A declared name, with the node that declares it and the references to it.
#[derive(Debug, PartialEq, Eq)]
pub struct Symbol {
    pub name: String,
    pub is_import: bool,
    pub declaration: usize,
    pub references: Vec<usize>,
}

/// A name that is declared nowhere, with the references to it.
#[derive(Debug, PartialEq, Eq)]
pub struct UnresolvedReferences {
    pub name: String,
    pub references: Vec<usize>,
}

/// What is known of a program beyond its syntax, as far as the search for
/// test calls reads it.
#[derive(Debug, PartialEq, Eq)]
pub struct Semantic {
    pub nodes: Vec<AstNode>,
    pub symbols: Vec<Symbol>,
    /// For each reference, the node that refers.
    pub references: Vec<usize>,
    /// The names that are declared nowhere, in the order in which they are kept.
    pub root_unresolved_references: Vec<UnresolvedReferences>,
}

impl Semantic {
    /// Whether each node but the root comes after its parent, and each
    /// node and reference that is named exists.
    pub open spec fn wf(&self) -> bool {
        &&& forall|i: int|
            0 <= i < self.nodes@.len() ==> match (#[trigger] self.nodes@[i]).parent {
                Some(parent) => parent < i,
                None => true,
            }
        &&& forall|i: int|
            0 <= i < self.references@.len() ==> (#[trigger] self.references@[i])
                < self.nodes@.len()
        &&& forall|i: int|
            0 <= i < self.symbols@.len() ==> {
                &&& (#[trigger] self.symbols@[i]).declaration < self.nodes@.len()
                &&& references_exist(self.symbols@[i].references@, self.references@.len())
            }
        &&& forall|i: int|
            0 <= i < self.root_unresolved_references@.len() ==> references_exist(
                (#[trigger] self.root_unresolved_references@[i]).references@,
                self.references@.len(),
            )
    }
}

/// Whether each of `ids` is one of the first `count` references.
pub open spec fn references_exist(ids: Seq<usize>, count: nat) -> bool {
    forall|i: int| 0 <= i < ids.len() ==> (#[trigger] ids[i]) < count
}

/// A call that may be a call of a test function.
#[derive(Debug, PartialEq, Eq)]
pub struct PossibleJestNode {
    pub node: usize,
    /// if this node is imported from 'jest/globals', this field will be Some(original_name), otherwise None
    pub original: Option<String>,
}

/// A possible test call as contracts see it.
pub struct PossibleJestNodeView {
    pub node: usize,
    pub original: Option<Seq<char>>,
}

impl View for PossibleJestNode {
    type V = PossibleJestNodeView;

    open spec fn view(&self) -> PossibleJestNodeView {
        PossibleJestNodeView {
            node: self.node,
            original: match self.original {
                Some(original) => Some(original@),
                None => None,
            },
        }
    }
}

/// The possible test calls as contracts see them.
pub open spec fn possible_views(nodes: Seq<PossibleJestNode>) -> Seq<PossibleJestNodeView> {
    Seq::new(nodes.len(), |i: int| nodes[i]@)
}

/// A reference with the name under which what it refers to was exported.
pub struct ReferenceWithOriginal {
    pub reference_id: usize,
    pub original: Option<String>,
}

/// A reference with its original name as contracts see it.
pub struct ReferenceView {
    pub reference_id: usize,
    pub original: Option<Seq<char>>,
}

impl View for ReferenceWithOriginal {
    type V = ReferenceView;

    open spec fn view(&self) -> ReferenceView {
        ReferenceView {
            reference_id: self.reference_id,
            original: match self.original {
                Some(original) => Some(original@),
                None => None,
            },
        }
    }
}

/// The references as contracts see them.
pub open spec fn reference_views(references: Seq<ReferenceWithOriginal>) -> Seq<ReferenceView> {
    Seq::new(references.len(), |i: int| references[i]@)
}

/// The name under which `name` was exported: that of the first specifier
/// at or after `from` that brings something in as `name`.
pub open spec fn original_name(
    specifiers: Seq<ImportDeclarationSpecifier>,
    from: int,
    name: Seq<char>,
) -> Option<Seq<char>>
    decreases specifiers.len() - from,
{
    if from < 0 || from >= specifiers.len() {
        None
    } else {
        match specifiers[from] {
            ImportDeclarationSpecifier::ImportSpecifier { local, imported } => if local@ == name {
                Some(imported@)
            } else {
                original_name(specifiers, from + 1, name)
            },
            _ => original_name(specifiers, from + 1, name),
        }
    }
}

/// The name under which the declaration exports what it brings in as `name`.
pub open spec fn declared_original(import_decl: ImportDeclaration, name: Seq<char>) -> Option<
    Seq<char>,
> {
    match import_decl.specifiers {
        Some(specifiers) => original_name(specifiers@, 0, name),
        None => None,
    }
}

/// Find name in the Import Declaration, not use name because of lifetime not long enough.
pub fn find_original_name<'a>(import_decl: &'a ImportDeclaration, name: &str) -> (r: Option<
    &'a str,
>)
    ensures
        match r {
            Some(original) => declared_original(*import_decl, name@) == Some(original@),
            None => declared_original(*import_decl, name@) is None,
        },
{
    match &import_decl.specifiers {
        None => None,
        Some(specifiers) => {
            let mut i: usize = 0;
            while i < specifiers.len()
                invariant
                    i <= specifiers.len(),
                    import_decl.specifiers == Some(*specifiers),
                    original_name(specifiers@, 0, name@) == original_name(
                        specifiers@,
                        i as int,
                        name@,
                    ),
                decreases specifiers.len() - i,
            {
                if let ImportDeclarationSpecifier::ImportSpecifier { local, imported } =
                    &specifiers[i] {
                    if str_eq(local.as_str(), name) {
                        return Some(imported.as_str());
                    }
                }
                i += 1;
            }
            None
        },
    }
}

/// The kind of the parent of the node at `id`.
pub open spec fn parent_kind(nodes: Seq<AstNode>, id: int) -> AstKind {
    match nodes[id].parent {
        Some(parent) => if parent < nodes.len() {
            nodes[parent as int].kind
        } else {
            AstKind::Other
        },
        None => AstKind::Other,
    }
}

/// Whether `source` is a module that exports the test functions.
pub open spec fn test_module(source: Seq<char>) -> bool {
    source == "@jest/globals"@ || source == "vitest"@
}

/// What `symbol` adds to the references to imported test functions: its
/// references, each with the name under which the symbol was exported, if
/// the symbol is imported from a module that exports the test functions.
pub open spec fn import_references(nodes: Seq<AstNode>, symbol: Symbol) -> Seq<ReferenceView> {
    if symbol.is_import {
        match parent_kind(nodes, symbol.declaration as int) {
            AstKind::ImportDeclaration(import_decl) => if test_module(import_decl.source@) {
                Seq::new(
                    symbol.references@.len(),
                    |i: int|
                        ReferenceView {
                            reference_id: symbol.references@[i],
                            original: declared_original(import_decl, symbol.name@),
                        },
                )
            } else {
                Seq::empty()
            },
            _ => Seq::empty(),
        }
    } else {
        Seq::empty()
    }
}

/// The references to test functions that the first `n` symbols import.
pub open spec fn imported_ids(semantic: Semantic, n: int) -> Seq<ReferenceView>
    decreases n,
{
    if n <= 0 || n > semantic.symbols@.len() {
        Seq::empty()
    } else {
        imported_ids(semantic, n - 1) + import_references(semantic.nodes@, semantic.symbols@[n - 1])
    }
}

/// Whether `name` is one of the names of the test functions.
pub open spec fn is_jest_method_name(name: Seq<char>) -> bool {
    exists|i: int| 0 <= i < JEST_METHOD_NAMES@.len() && (#[trigger] JEST_METHOD_NAMES@[i])@ == name
}

/// What `unresolved` adds to the references to global test functions.
pub open spec fn global_references(unresolved: UnresolvedReferences) -> Seq<ReferenceView> {
    if is_jest_method_name(unresolved.name@) {
        Seq::new(
            unresolved.references@.len(),
            |i: int| ReferenceView { reference_id: unresolved.references@[i], original: None },
        )
    } else {
        Seq::empty()
    }
}

/// The references to test functions among the first `n` names that are
/// declared nowhere.
pub open spec fn global_ids(semantic: Semantic, n: int) -> Seq<ReferenceView>
    decreases n,
{
    if n <= 0 || n > semantic.root_unresolved_references@.len() {
        Seq::empty()
    } else {
        global_ids(semantic, n - 1) + global_references(
            semantic.root_unresolved_references@[n - 1],
        )
    }
}

fn clone_original(original: &Option<&str>) -> (r: Option<String>)
    ensures
        match (r, *original) {
            (Some(r), Some(original)) => r@ == original@,
            (None, None) => true,
            _ => false,
        },
{
    match original {
        Some(original) => Some(String::from_str(original)),
        None => None,
    }
}

fn add_references(
    found: &mut Vec<ReferenceWithOriginal>,
    references: &Vec<usize>,
    original: Option<&str>,
)
    ensures
        reference_views(final(found)@) == reference_views(old(found)@) + Seq::new(
            references@.len(),
            |i: int|
                ReferenceView {
                    reference_id: references@[i],
                    original: match original {
                        Some(original) => Some(original@),
                        None => None,
                    },
                },
        ),
{
    let ghost added = Seq::new(
        references@.len(),
        |i: int|
            ReferenceView {
                reference_id: references@[i],
                original: match original {
                    Some(original) => Some(original@),
                    None => None,
                },
            },
    );
    let mut i: usize = 0;
    proof {
        assert(reference_views(found@) =~= reference_views(old(found)@) + added.take(0));
    }
    while i < references.len()
        invariant
            i <= references.len(),
            added.len() == references@.len(),
            added == Seq::new(
                references@.len(),
                |i: int|
                    ReferenceView {
                        reference_id: references@[i],
                        original: match original {
                            Some(original) => Some(original@),
                            None => None,
                        },
                    },
            ),
            reference_views(found@) == reference_views(old(found)@) + added.take(i as int),
        decreases references.len() - i,
    {
        let ghost before = found@;
        found.push(
            ReferenceWithOriginal {
                reference_id: references[i],
                original: clone_original(&original),
            },
        );
        proof {
            assert(reference_views(found@) =~= reference_views(before).push(added[i as int]));
            assert(added.take(i + 1) =~= added.take(i as int).push(added[i as int]));
            assert(reference_views(found@) =~= reference_views(old(found)@) + added.take(i + 1));
        }
        i += 1;
    }
    proof {
        assert(added.take(references@.len() as int) =~= added);
    }
}

/// The references to the test functions that are imported.
pub fn collect_ids_referenced_to_import(semantic: &Semantic) -> (ids: Vec<ReferenceWithOriginal>)
    requires
        semantic.wf(),
    ensures
        reference_views(ids@) == imported_ids(*semantic, semantic.symbols@.len() as int),
{
    let mut ids: Vec<ReferenceWithOriginal> = Vec::new();
    let mut symbol_id: usize = 0;
    proof {
        assert(reference_views(ids@) =~= Seq::empty());
    }
    while symbol_id < semantic.symbols.len()
        invariant
            symbol_id <= semantic.symbols.len(),
            semantic.wf(),
            reference_views(ids@) == imported_ids(*semantic, symbol_id as int),
        decreases semantic.symbols.len() - symbol_id,
    {
        let symbol = &semantic.symbols[symbol_id];
        let ghost before = reference_views(ids@);
        let mut added = false;
        if symbol.is_import {
            let id = symbol.declaration;
            if let Some(parent) = semantic.nodes[id].parent {
                if parent < semantic.nodes.len() {
                    if let AstKind::ImportDeclaration(import_decl) = &semantic.nodes[parent].kind {
                        let source = import_decl.source.as_str();
                        if str_eq(source, "@jest/globals") || str_eq(source, "vitest") {
                            let original = find_original_name(import_decl, symbol.name.as_str());
                            add_references(&mut ids, &symbol.references, original);
                            added = true;
                        }
                    }
                }
            }
        }
        proof {
            if !added {
                assert(before + Seq::<ReferenceView>::empty() =~= before);
            }
        }
        symbol_id += 1;
    }
    ids
}

fn is_jest_method(name: &str) -> (r: bool)
    ensures
        r == is_jest_method_name(name@),
{
    let mut i: usize = 0;
    while i < 18
        invariant
            i <= 18,
            JEST_METHOD_NAMES@.len() == 18,
            forall|k: int| 0 <= k < i ==> (#[trigger] JEST_METHOD_NAMES@[k])@ != name@,
        decreases 18 - i,
    {
        if str_eq(JEST_METHOD_NAMES[i], name) {
            return true;
        }
        i += 1;
    }
    false
}

/// The references to the test functions that are declared nowhere.
pub fn collect_ids_referenced_to_global(semantic: &Semantic) -> (ids: Vec<ReferenceWithOriginal>)
    ensures
        reference_views(ids@) == global_ids(
            *semantic,
            semantic.root_unresolved_references@.len() as int,
        ),
{
    let mut ids: Vec<ReferenceWithOriginal> = Vec::new();
    let mut i: usize = 0;
    proof {
        assert(reference_views(ids@) =~= Seq::empty());
    }
    while i < semantic.root_unresolved_references.len()
        invariant
            i <= semantic.root_unresolved_references.len(),
            reference_views(ids@) == global_ids(*semantic, i as int),
        decreases semantic.root_unresolved_references.len() - i,
    {
        let unresolved = &semantic.root_unresolved_references[i];
        let ghost before = reference_views(ids@);
        if is_jest_method(unresolved.name.as_str()) {
            add_references(&mut ids, &unresolved.references, None);
        } else {
            proof {
                assert(before + Seq::<ReferenceView>::empty() =~= before);
            }
        }
        i += 1;
    }
    ids
}

/// The text of `original`, if there is one.
pub open spec fn original_text(original: Option<String>) -> Option<Seq<char>> {
    match original {
        Some(original) => Some(original@),
        None => None,
    }
}

/// The possible test call at `node`.
pub open spec fn possible_at(node: usize, original: Option<Seq<char>>) -> PossibleJestNodeView {
    PossibleJestNodeView { node, original }
}

/// The calls above the node at `id` that may be calls of the test function
/// that the node refers to: each call that is reached from the node through
/// calls, member expressions and tagged templates alone, innermost first.
pub open spec fn call_chain(nodes: Seq<AstNode>, id: int, original: Option<Seq<char>>) -> Seq<
    PossibleJestNodeView,
>
    decreases id,
{
    if id < 0 || id >= nodes.len() {
        Seq::empty()
    } else {
        match nodes[id].parent {
            None => Seq::empty(),
            Some(parent) => if parent >= id {
                Seq::empty()
            } else {
                match nodes[parent as int].kind {
                    AstKind::CallExpression => seq![possible_at(parent, original)] + call_chain(
                        nodes,
                        parent as int,
                        original,
                    ),
                    AstKind::StaticMemberExpression
                    | AstKind::TaggedTemplateExpression
                    | AstKind::ComputedMemberExpression => call_chain(
                        nodes,
                        parent as int,
                        original,
                    ),
                    _ => Seq::empty(),
                }
            },
        }
    }
}

/// The possible test calls that the reference `reference` leads to.
pub open spec fn reference_chain(semantic: Semantic, reference: ReferenceView) -> Seq<
    PossibleJestNodeView,
> {
    if reference.reference_id < semantic.references@.len() {
        call_chain(
            semantic.nodes@,
            semantic.references@[reference.reference_id as int] as int,
            reference.original,
        )
    } else {
        Seq::empty()
    }
}

/// The possible test calls that the first `n` of `references` lead to.
pub open spec fn chains_of(semantic: Semantic, references: Seq<ReferenceView>, n: int) -> Seq<
    PossibleJestNodeView,
>
    decreases n,
{
    if n <= 0 || n > references.len() {
        Seq::empty()
    } else {
        chains_of(semantic, references, n - 1) + reference_chain(semantic, references[n - 1])
    }
}

/// All calls that may be calls of a test function: those that the
/// references to imported test functions lead to, then those that the
/// references to global test functions lead to.
pub open spec fn possible_jest_call_nodes(semantic: Semantic) -> Seq<PossibleJestNodeView> {
    let references = imported_ids(semantic, semantic.symbols@.len() as int) + global_ids(
        semantic,
        semantic.root_unresolved_references@.len() as int,
    );
    chains_of(semantic, references, references.len() as int)
}

proof fn lemma_possible_push(found: Seq<PossibleJestNode>, next: PossibleJestNode)
    ensures
        possible_views(found.push(next)) == possible_views(found) + seq![
            possible_at(next.node, original_text(next.original)),
        ],
{
    assert(possible_views(found.push(next)) =~= possible_views(found) + seq![
        possible_at(next.node, original_text(next.original)),
    ]);
}

proof fn lemma_views_assoc(
    first: Seq<PossibleJestNodeView>,
    second: Seq<PossibleJestNodeView>,
    third: Seq<PossibleJestNodeView>,
)
    ensures
        (first + second) + third == first + (second + third),
        first + Seq::<PossibleJestNodeView>::empty() == first,
{
    assert((first + second) + third =~= first + (second + third));
    assert(first + Seq::<PossibleJestNodeView>::empty() =~= first);
}

fn clone_text(original: &Option<String>) -> (r: Option<String>)
    ensures
        original_text(r) == original_text(*original),
{
    match original {
        Some(original) => Some(original.clone()),
        None => None,
    }
}

fn add_call_chain(
    found: &mut Vec<PossibleJestNode>,
    nodes: &Vec<AstNode>,
    id: usize,
    original: &Option<String>,
)
    ensures
        possible_views(final(found)@) == possible_views(old(found)@) + call_chain(
            nodes@,
            id as int,
            original_text(*original),
        ),
{
    let ghost whole = call_chain(nodes@, id as int, original_text(*original));
    let ghost start = possible_views(found@);
    let mut at = id;
    if at >= nodes.len() {
        proof {
            lemma_views_assoc(start, Seq::empty(), Seq::empty());
        }
        return;
    }
    loop
        invariant
            at < nodes@.len(),
            start == possible_views(old(found)@),
            whole == call_chain(nodes@, id as int, original_text(*original)),
            possible_views(found@) + call_chain(nodes@, at as int, original_text(*original))
                == start + whole,
        decreases at,
    {
        let ghost rest = call_chain(nodes@, at as int, original_text(*original));
        let ghost so_far = possible_views(found@);
        let Some(parent) = nodes[at].parent else {
            proof {
                lemma_views_assoc(so_far, Seq::empty(), Seq::empty());
            }
            return;
        };
        if parent >= at {
            proof {
                lemma_views_assoc(so_far, Seq::empty(), Seq::empty());
            }
            return;
        }
        match &nodes[parent].kind {
            AstKind::CallExpression => {
                let next = PossibleJestNode { node: parent, original: clone_text(original) };
                proof {
                    lemma_possible_push(found@, next);
                    lemma_views_assoc(
                        so_far,
                        seq![possible_at(parent, original_text(*original))],
                        call_chain(nodes@, parent as int, original_text(*original)),
                    );
                }
                found.push(next);
            },
            AstKind::StaticMemberExpression
            | AstKind::TaggedTemplateExpression
            | AstKind::ComputedMemberExpression => {},
            _ => {
                proof {
                    lemma_views_assoc(so_far, Seq::empty(), Seq::empty());
                }
                return;
            },
        }
        at = parent;
    }
}

proof fn lemma_reference_views_concat(
    head: Seq<ReferenceWithOriginal>,
    tail: Seq<ReferenceWithOriginal>,
)
    ensures
        reference_views(head + tail) == reference_views(head) + reference_views(tail),
{
    assert(reference_views(head + tail) =~= reference_views(head) + reference_views(tail));
}

/// Iterate over all possible Jest fn Call Expression,
/// for `expect(1).toBe(1)`, the result will be an iter over node `expect(1)` and node `expect(1).toBe(1)`.
pub fn iter_possible_jest_call_node(semantic: &Semantic) -> (found: Vec<PossibleJestNode>)
    requires
        semantic.wf(),
    ensures
        possible_views(found@) == possible_jest_call_nodes(*semantic),
{
    // Some people may write codes like below, we need lookup imported test function and global test function.
    // ```
    // import { jest as Jest } from '@jest/globals';
    // Jest.setTimeout(800);
    // test('test', () => {
    //     expect(1 + 2).toEqual(3);
    // });
    // ```
    let mut reference_id_with_original_list = collect_ids_referenced_to_import(semantic);
    let mut globals = collect_ids_referenced_to_global(semantic);
    proof {
        lemma_reference_views_concat(reference_id_with_original_list@, globals@);
    }
    reference_id_with_original_list.append(&mut globals);
    let ghost references = reference_views(reference_id_with_original_list@);
    let mut found: Vec<PossibleJestNode> = Vec::new();
    let mut i: usize = 0;
    proof {
        assert(possible_views(found@) =~= Seq::empty());
    }
    // get the longest valid chain of Jest Call Expression
    while i < reference_id_with_original_list.len()
        invariant
            i <= reference_id_with_original_list.len(),
            references == reference_views(reference_id_with_original_list@),
            possible_views(found@) == chains_of(*semantic, references, i as int),
        decreases reference_id_with_original_list.len() - i,
    {
        let reference = &reference_id_with_original_list[i];
        let ghost before = possible_views(found@);
        assert(references[i as int] == reference@);
        if reference.reference_id < semantic.references.len() {
            let id = semantic.references[reference.reference_id];
            add_call_chain(&mut found, &semantic.nodes, id, &reference.original);
        } else {
            proof {
                lemma_views_assoc(before, Seq::empty(), Seq::empty());
            }
        }
        i += 1;
    }
    found
}

/// Collect all possible Jest fn Call Expression,
/// for `expect(1).toBe(1)`, the result will be a collection of node `expect(1)` and node `expect(1).toBe(1)`.
pub fn collect_possible_jest_call_node(semantic: &Semantic) -> (found: Vec<PossibleJestNode>)
    requires
        semantic.wf(),
    ensures
        possible_views(found@) == possible_jest_call_nodes(*semantic),
{
    iter_possible_jest_call_node(semantic)
}

/// An expression, as far as its name is read.
#[derive(Debug, PartialEq, Eq)]
pub enum Expression {
    Identifier { name: String },
    StringLiteral { value: String },
    /// A template literal, with its text if it is a single piece of text.
    TemplateLiteral { single_quasi: Option<String> },
    TaggedTemplateExpression { tag: Box<Expression> },
    CallExpression { callee: Box<Expression> },
    /// A member expression, with the name of the property if it is known
    /// without running the program.
    MemberExpression { object: Box<Expression>, static_property_name: Option<String> },
    NewExpression { callee: Box<Expression> },
    Other,
}

/// The parts of the name of `expr`, outermost object first.
pub open spec fn node_name_parts(expr: Expression) -> Seq<Seq<char>>
    decreases expr,
{
    match expr {
        Expression::Identifier { name } => seq![name@],
        Expression::StringLiteral { value } => seq![value@],
        Expression::TemplateLiteral { single_quasi } => match single_quasi {
            Some(quasi) => seq![quasi@],
            None => Seq::empty(),
        },
        Expression::TaggedTemplateExpression { tag } => node_name_parts(*tag),
        Expression::CallExpression { callee } => node_name_parts(*callee),
        Expression::MemberExpression { object, static_property_name } => node_name_parts(*object)
            + (match static_property_name {
            Some(name) => seq![name@],
            None => Seq::empty(),
        }),
        Expression::NewExpression { callee } => node_name_parts(*callee),
        Expression::Other => Seq::empty(),
    }
}

/// The texts of `parts`.
pub open spec fn texts(parts: Seq<String>) -> Seq<Seq<char>> {
    Seq::new(parts.len(), |i: int| parts[i]@)
}

proof fn lemma_texts_push(parts: Seq<String>, part: String)
    ensures
        texts(parts.push(part)) == texts(parts) + seq![part@],
        texts(Seq::<String>::empty()) == Seq::<Seq<char>>::empty(),
        texts(Seq::<String>::empty().push(part)) == seq![part@],
{
    assert(texts(parts.push(part)) =~= texts(parts) + seq![part@]);
    assert(texts(Seq::<String>::empty()) =~= Seq::<Seq<char>>::empty());
    assert(texts(Seq::<String>::empty().push(part)) =~= seq![part@]);
}

pub fn get_node_name_vec(expr: &Expression) -> (chain: Vec<String>)
    ensures
        texts(chain@) == node_name_parts(*expr),
    decreases expr,
{
    let mut chain: Vec<String> = Vec::new();
    match expr {
        Expression::Identifier { name } => {
            proof {
                lemma_texts_push(chain@, *name);
            }
            chain.push(name.clone());
        },
        Expression::StringLiteral { value } => {
            proof {
                lemma_texts_push(chain@, *value);
            }
            chain.push(value.clone());
        },
        Expression::TemplateLiteral { single_quasi } => {
            if let Some(quasi) = single_quasi {
                proof {
                    lemma_texts_push(chain@, *quasi);
                }
                chain.push(quasi.clone());
            } else {
                proof {
                    assert(texts(chain@) =~= Seq::empty());
                }
            }
        },
        Expression::TaggedTemplateExpression { tag } => {
            chain = get_node_name_vec(tag);
        },
        Expression::CallExpression { callee } => {
            chain = get_node_name_vec(callee);
        },
        Expression::MemberExpression { object, static_property_name } => {
            chain = get_node_name_vec(object);
            if let Some(name) = static_property_name {
                proof {
                    lemma_texts_push(chain@, *name);
                }
                chain.push(name.clone());
            } else {
                proof {
                    assert(texts(chain@) + Seq::<Seq<char>>::empty() =~= texts(chain@));
                }
            }
        },
        Expression::NewExpression { callee } => {
            chain = get_node_name_vec(callee);
        },
        Expression::Other => {
            proof {
                assert(texts(chain@) =~= Seq::empty());
            }
        },
    }
    chain
}

/// The first `n` of `parts`, with a dot between each two.
pub open spec fn joined(parts: Seq<Seq<char>>, n: int) -> Seq<char>
    decreases n,
{
    if n <= 0 || n > parts.len() {
        Seq::empty()
    } else if n == 1 {
        parts[0]
    } else {
        joined(parts, n - 1) + "."@ + parts[n - 1]
    }
}

/// join name of the expression. e.g.
/// `expect(foo).toBe(bar)`  -> "expect.toBe"
/// `new Foo().bar` -> "Foo.bar"
pub fn get_node_name(expr: &Expression) -> (name: String)
    ensures
        name@ == joined(node_name_parts(*expr), node_name_parts(*expr).len() as int),
{
    let chain = get_node_name_vec(expr);
    let mut name = String::new();
    let mut i: usize = 0;
    while i < chain.len()
        invariant
            i <= chain.len(),
            name@ == joined(texts(chain@), i as int),
        decreases chain.len() - i,
    {
        if i > 0 {
            name.append(".");
        } else {
            proof {
                assert(Seq::<char>::empty() + chain@[0]@ =~= chain@[0]@);
            }
        }
        name.append(chain[i].as_str());
        i += 1;
    }
    name
}

} // verus!
