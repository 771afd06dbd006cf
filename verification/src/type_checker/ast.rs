//! The types that the checker knows.

use vstd::prelude::*;

verus! {

/// The place of a type in the table of types.
#[derive(Debug, Clone, Copy, PartialEq, Eq, Structural)]
pub struct TypeId {
    pub index: u32,
}

/// What is known of an object type, one bit per fact.
#[derive(Debug, Clone, Copy, PartialEq, Eq, Structural)]
pub struct ObjectFlags {
    pub bits: u32,
}

/// The type of a literal.
#[derive(Debug)]
pub struct LiteralType {
    pub object_flags: ObjectFlags,
}

#[derive(Debug)]
pub enum Type<'a> {
    Literal(Box<LiteralType>),
    Intrinsic(Box<IntrinsicType<'a>>),
    Union(Box<UnionType>),
}

#[derive(Debug)]
pub struct IntrinsicType<'a> {
    pub name: &'a str,
    pub debug_name: Option<&'a str>,
    pub object_flags: ObjectFlags,
}

#[derive(Debug)]
pub struct UnionType {
    pub types: Vec<TypeId>,
    pub object_flags: ObjectFlags,
}

} // verus!
