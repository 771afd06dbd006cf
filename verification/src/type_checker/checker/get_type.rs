//! The type that a type node stands for.

use super::Checker;
use crate::type_checker::ast::TypeId;
use vstd::prelude::*;

verus! {

/// A literal in the place of a type.
#[derive(Debug, Clone, Copy, PartialEq, Eq, Structural)]
pub enum TSLiteral {
    BigIntLiteral,
    BooleanLiteral,
    NullLiteral,
    NumericLiteral,
    RegExpLiteral,
    StringLiteral,
    TemplateLiteral,
    UnaryExpression,
}

/// A type node, as far as the checker resolves it.
#[derive(Debug)]
pub enum TSType {
    TSAnyKeyword,
    TSUnknownKeyword,
    TSStringKeyword,
    TSNumberKeyword,
    TSBigIntKeyword,
    TSBooleanKeyword,
    TSSymbolKeyword,
    TSVoidKeyword,
    TSUndefinedKeyword,
    TSNullKeyword,
    TSNeverKeyword,
    TSObjectKeyword,
    TSIntrinsicKeyword,
    TSLiteralType(TSLiteral),
    TSUnionType(Vec<TSType>),
    TSParenthesizedType(Box<TSType>),
    /// A type node that the checker does not resolve yet.
    Unresolved,
}

/// What a type node resolves to.
#[derive(Debug)]
pub enum TypeFromNode {
    /// A type that is known by its place in the table of types.
    Known(TypeId),
    /// The union of what the members resolve to, which is still to be built.
    Union(Vec<TypeFromNode>),
    /// The checker does not resolve the node yet.
    Unsupported,
}

/// What a type node resolves to, as contracts see it.
pub enum Resolved {
    Known(TypeId),
    Union(Seq<Resolved>),
    Unsupported,
}

/// What `resolution` is, as contracts see it.
pub open spec fn resolved_view(resolution: TypeFromNode) -> Resolved
    decreases resolution, 0nat,
{
    match resolution {
        TypeFromNode::Known(id) => Resolved::Known(id),
        TypeFromNode::Union(members) => Resolved::Union(resolved_views(members@)),
        TypeFromNode::Unsupported => Resolved::Unsupported,
    }
}

/// What `resolutions` are, as contracts see them.
pub open spec fn resolved_views(resolutions: Seq<TypeFromNode>) -> Seq<Resolved>
    decreases resolutions, 1nat,
{
    Seq::new(
        resolutions.len(),
        |i: int|
            if 0 <= i < resolutions.len() {
                resolved_view(resolutions[i])
            } else {
                Resolved::Unsupported
            },
    )
}

/// The type that `node` stands for: a keyword stands for the intrinsic type
/// of its name, `object` in JavaScript without `noImplicitAny` for `any`,
/// a `null` literal for `null`, a union for the union of what its members
/// stand for, and a type in parentheses for what the type stands for.
pub open spec fn type_from_type_node(node: TSType, checker: Checker) -> Resolved
    decreases node, 0nat,
{
    match node {
        TSType::TSAnyKeyword => Resolved::Known(checker.intrinsics.any),
        TSType::TSUnknownKeyword => Resolved::Known(checker.intrinsics.unknown),
        TSType::TSStringKeyword => Resolved::Known(checker.intrinsics.string),
        TSType::TSNumberKeyword => Resolved::Known(checker.intrinsics.number),
        TSType::TSBigIntKeyword => Resolved::Known(checker.intrinsics.bigint),
        TSType::TSBooleanKeyword => Resolved::Known(checker.intrinsics.boolean),
        TSType::TSSymbolKeyword => Resolved::Known(checker.intrinsics.es_symbol),
        TSType::TSVoidKeyword => Resolved::Known(checker.intrinsics.void),
        TSType::TSUndefinedKeyword => Resolved::Known(checker.intrinsics.undefined),
        TSType::TSNullKeyword => Resolved::Known(checker.intrinsics.null),
        TSType::TSNeverKeyword => Resolved::Known(checker.intrinsics.never),
        TSType::TSObjectKeyword => if checker.semantic.is_javascript
            && !checker.settings.no_implicit_any {
            Resolved::Known(checker.intrinsics.any)
        } else {
            Resolved::Known(checker.intrinsics.non_primitive)
        },
        TSType::TSIntrinsicKeyword => Resolved::Known(checker.intrinsics.intrinsic_marker),
        TSType::TSLiteralType(literal) => if literal is NullLiteral {
            Resolved::Known(checker.intrinsics.null)
        } else {
            Resolved::Unsupported
        },
        TSType::TSUnionType(types) => Resolved::Union(types_from_type_nodes(types@, checker)),
        TSType::TSParenthesizedType(inner) => type_from_type_node(*inner, checker),
        TSType::Unresolved => Resolved::Unsupported,
    }
}

/// The types that `nodes` stand for, one by one.
pub open spec fn types_from_type_nodes(nodes: Seq<TSType>, checker: Checker) -> Seq<Resolved>
    decreases nodes, 1nat,
{
    Seq::new(
        nodes.len(),
        |i: int|
            if 0 <= i < nodes.len() {
                type_from_type_node(nodes[i], checker)
            } else {
                Resolved::Unsupported
            },
    )
}

impl TSLiteral {
    // getTypeFromLiteralTypeNode
    pub fn get_type_from_type_node(&self, checker: &Checker) -> (resolution: TypeFromNode)
        ensures
            resolved_view(resolution) == type_from_type_node(TSType::TSLiteralType(*self), *checker),
    {
        if matches!(self, TSLiteral::NullLiteral) {
            // note: differs from the check of a null literal, which returns the widening null
            return TypeFromNode::Known(checker.intrinsics.null);
        }
        TypeFromNode::Unsupported
    }
}

/// The types that the members of a union stand for.
pub fn get_types_from_union_members(types: &Vec<TSType>, checker: &Checker) -> (resolutions: Vec<
    TypeFromNode,
>)
    ensures
        resolved_views(resolutions@) == types_from_type_nodes(types@, *checker),
    decreases types, 0nat,
{
    let mut resolutions: Vec<TypeFromNode> = Vec::new();
    let mut i: usize = 0;
    while i < types.len()
        invariant
            i <= types.len(),
            resolutions@.len() == i,
            forall|k: int|
                0 <= k < i ==> resolved_view(#[trigger] resolutions@[k]) == type_from_type_node(
                    types@[k],
                    *checker,
                ),
        decreases types.len() - i,
    {
        resolutions.push(types[i].get_type_from_type_node(checker));
        i += 1;
    }
    proof {
        assert(resolved_views(resolutions@) =~= types_from_type_nodes(types@, *checker));
    }
    resolutions
}

impl TSType {
    /// See: checker.ts, line 19871, getTypeFromTypeNodeWorker
    pub fn get_type_from_type_node(&self, checker: &Checker) -> (resolution: TypeFromNode)
        ensures
            resolved_view(resolution) == type_from_type_node(*self, *checker),
        decreases self, 1nat,
    {
        match self {
            TSType::TSAnyKeyword => TypeFromNode::Known(checker.intrinsics.any),
            TSType::TSUnknownKeyword => TypeFromNode::Known(checker.intrinsics.unknown),
            TSType::TSStringKeyword => TypeFromNode::Known(checker.intrinsics.string),
            TSType::TSNumberKeyword => TypeFromNode::Known(checker.intrinsics.number),
            TSType::TSBigIntKeyword => TypeFromNode::Known(checker.intrinsics.bigint),
            TSType::TSBooleanKeyword => TypeFromNode::Known(checker.intrinsics.boolean),
            TSType::TSSymbolKeyword => TypeFromNode::Known(checker.intrinsics.es_symbol),
            TSType::TSVoidKeyword => TypeFromNode::Known(checker.intrinsics.void),
            TSType::TSUndefinedKeyword => TypeFromNode::Known(checker.intrinsics.undefined),
            TSType::TSNullKeyword => TypeFromNode::Known(checker.intrinsics.null),
            TSType::TSNeverKeyword => TypeFromNode::Known(checker.intrinsics.never),
            TSType::TSObjectKeyword => {
                if checker.semantic.is_javascript && !checker.settings.no_implicit_any {
                    TypeFromNode::Known(checker.intrinsics.any)
                } else {
                    TypeFromNode::Known(checker.intrinsics.non_primitive)
                }
            },
            TSType::TSIntrinsicKeyword => TypeFromNode::Known(checker.intrinsics.intrinsic_marker),
            TSType::TSLiteralType(lit) => lit.get_type_from_type_node(checker),
            TSType::TSUnionType(types) => TypeFromNode::Union(
                get_types_from_union_members(types, checker),
            ),
            TSType::TSParenthesizedType(ty) => ty.get_type_from_type_node(checker),
            TSType::Unresolved => TypeFromNode::Unsupported,
        }
    }
}

} // verus!
