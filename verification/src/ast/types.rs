//! Type names.

use vstd::prelude::*;
use crate::ast::definition::{IdentifierPath, ParameterList};
use crate::ast::expression::{Expression, lemma_expression_same_chain};
use crate::misc::{SourceLocation, StateMutability, TypeDescriptions, Visibility};
use crate::shape::{Shape, lemma_max_of_bounds, lemma_max_of_mono, max_of};

verus! {

/// The name of a type, as written in the source.
#[derive(Debug, PartialEq, Eq)]
pub enum TypeName {
    ArrayTypeName(ArrayTypeName),
    ElementaryTypeName(ElementaryTypeName),
    FunctionTypeName(FunctionTypeName),
    Mapping(Mapping),
    UserDefinedTypeName(UserDefinedTypeName),
}

impl Shape for TypeName {
    open spec fn depth(&self) -> nat
        decreases self,
    {
        match self {
            TypeName::ArrayTypeName(n) => 1 + n.depth(),
            TypeName::ElementaryTypeName(n) => 1 + n.depth(),
            TypeName::FunctionTypeName(n) => 1 + n.depth(),
            TypeName::Mapping(n) => 1 + n.depth(),
            TypeName::UserDefinedTypeName(n) => 1 + n.depth(),
        }
    }

    open spec fn same_as(&self, other: &Self) -> bool
        decreases self,
    {
        match (self, other) {
            (TypeName::ArrayTypeName(a), TypeName::ArrayTypeName(b)) => a.same_as(b),
            (TypeName::ElementaryTypeName(a), TypeName::ElementaryTypeName(b)) => a.same_as(b),
            (TypeName::FunctionTypeName(a), TypeName::FunctionTypeName(b)) => a.same_as(b),
            (TypeName::Mapping(a), TypeName::Mapping(b)) => a.same_as(b),
            (TypeName::UserDefinedTypeName(a), TypeName::UserDefinedTypeName(b)) => a.same_as(b),
            _ => false,
        }
    }
}

/// Sameness carries over: if `a` holds what `b` holds, and `b` what `c` holds, then `a`
/// holds what `c` holds.
pub proof fn lemma_type_name_same_chain(a: TypeName, b: TypeName, c: TypeName)
    requires
        a.same_as(&b),
        b.same_as(&c),
    ensures
        a.same_as(&c),
    decreases a,
{
    match (a, b, c) {
        (
            TypeName::ArrayTypeName(x),
            TypeName::ArrayTypeName(y),
            TypeName::ArrayTypeName(z),
        ) => lemma_array_type_name_same_chain(x, y, z),
        _ => {},
    }
}

/// An array type: the type of its elements and, for a fixed size, its length.
#[derive(Debug, PartialEq, Eq)]
pub struct ArrayTypeName {
    pub id: usize,
    pub src: SourceLocation,
    pub type_descriptions: TypeDescriptions,
    pub base_type: Box<TypeName>,
    pub length: Option<Box<Expression>>,
}

impl Shape for ArrayTypeName {
    open spec fn depth(&self) -> nat
        decreases self,
    {
        1 + (match self.length {
                        Some(e) => e.depth(),
                        None => 0,
                    })
    }

    open spec fn same_as(&self, other: &Self) -> bool
        decreases self,
    {
        &&& *other == (ArrayTypeName { length: other.length, ..*self })
        &&& (match (self.length, other.length) {
            (Some(a), Some(b)) => a.same_as(&*b),
            (None, None) => true,
            _ => false,
        })
    }
}

/// Sameness carries over: if `a` holds what `b` holds, and `b` what `c` holds, then `a`
/// holds what `c` holds.
pub proof fn lemma_array_type_name_same_chain(a: ArrayTypeName, b: ArrayTypeName, c: ArrayTypeName)
    requires
        a.same_as(&b),
        b.same_as(&c),
    ensures
        a.same_as(&c),
    decreases a,
{
    match (a.length, b.length, c.length) {
        (Some(x), Some(y), Some(z)) => lemma_expression_same_chain(*x, *y, *z),
        _ => {},
    }
}

/// A built-in type such as `uint256` or `address`.
#[derive(Debug, PartialEq, Eq)]
pub struct ElementaryTypeName {
    pub id: usize,
    pub src: SourceLocation,
    pub type_descriptions: TypeDescriptions,
    pub name: String,
    pub state_mutability: Option<StateMutability>,
}

impl Shape for ElementaryTypeName {
    open spec fn depth(&self) -> nat {
        0
    }

    open spec fn same_as(&self, other: &Self) -> bool {
        *self == *other
    }
}

/// A function type.
#[derive(Debug, PartialEq, Eq)]
pub struct FunctionTypeName {
    pub id: usize,
    pub src: SourceLocation,
    pub type_descriptions: TypeDescriptions,
    pub parameter_types: ParameterList,
    pub return_parameter_types: ParameterList,
    pub state_mutability: StateMutability,
    pub visibility: Visibility,
}

impl Shape for FunctionTypeName {
    open spec fn depth(&self) -> nat {
        0
    }

    open spec fn same_as(&self, other: &Self) -> bool {
        *self == *other
    }
}

/// A mapping type, from keys to values.
#[derive(Debug, PartialEq, Eq)]
pub struct Mapping {
    pub id: usize,
    pub src: SourceLocation,
    pub type_descriptions: TypeDescriptions,
    pub key_type: Box<TypeName>,
    pub value_type: Box<TypeName>,
}

impl Shape for Mapping {
    open spec fn depth(&self) -> nat {
        0
    }

    open spec fn same_as(&self, other: &Self) -> bool {
        *self == *other
    }
}

/// A type that the program declares, named by its path.
#[derive(Debug, PartialEq, Eq)]
pub struct UserDefinedTypeName {
    pub id: usize,
    pub src: SourceLocation,
    pub type_descriptions: TypeDescriptions,
    pub name: Option<String>,
    pub path_node: Option<IdentifierPath>,
    pub referenced_declaration: isize,
}

impl Shape for UserDefinedTypeName {
    open spec fn depth(&self) -> nat {
        0
    }

    open spec fn same_as(&self, other: &Self) -> bool {
        *self == *other
    }
}

/// The name of a declared type or library, in either of its two forms.
#[derive(Debug, PartialEq, Eq)]
pub enum UserDefinedTypeNameOrIdentifierPath {
    UserDefinedTypeName(UserDefinedTypeName),
    IdentifierPath(IdentifierPath),
}

impl Shape for UserDefinedTypeNameOrIdentifierPath {
    open spec fn depth(&self) -> nat
        decreases self,
    {
        match self {
            UserDefinedTypeNameOrIdentifierPath::UserDefinedTypeName(n) => 1 + n.depth(),
            UserDefinedTypeNameOrIdentifierPath::IdentifierPath(n) => 1 + n.depth(),
        }
    }

    open spec fn same_as(&self, other: &Self) -> bool
        decreases self,
    {
        match (self, other) {
            (
                UserDefinedTypeNameOrIdentifierPath::UserDefinedTypeName(a),
                UserDefinedTypeNameOrIdentifierPath::UserDefinedTypeName(b),
            ) => a.same_as(b),
            (
                UserDefinedTypeNameOrIdentifierPath::IdentifierPath(a),
                UserDefinedTypeNameOrIdentifierPath::IdentifierPath(b),
            ) => a.same_as(b),
            _ => false,
        }
    }
}

/// The depth of each of `items`, in order.
pub open spec fn user_defined_type_name_or_identifier_paths_depths(
    items: Seq<UserDefinedTypeNameOrIdentifierPath>,
) -> Seq<nat>
    decreases items, 0int,
{
    Seq::new(
        items.len(),
        |i: int|
            if 0 <= i < items.len() {
                items[i].depth()
            } else {
                0
            },
    )
}

/// The depth of the deepest of `items`, or 0 if there is none.
pub open spec fn user_defined_type_name_or_identifier_paths_depth(
    items: Seq<UserDefinedTypeNameOrIdentifierPath>,
) -> nat
    decreases items, 1int,
{
    max_of(user_defined_type_name_or_identifier_paths_depths(items))
}

/// `a` and `b` are equally long, and each item of `a` holds what its partner in `b`
/// holds.
pub open spec fn user_defined_type_name_or_identifier_paths_same(
    a: Seq<UserDefinedTypeNameOrIdentifierPath>,
    b: Seq<UserDefinedTypeNameOrIdentifierPath>,
) -> bool
    decreases a,
{
    &&& a.len() == b.len()
    &&& forall|i: int| #![trigger a[i]] 0 <= i < a.len() ==> a[i].same_as(&b[i])
}

/// No item is deeper than the deepest.
pub proof fn lemma_user_defined_type_name_or_identifier_paths_depth_bound(
    items: Seq<UserDefinedTypeNameOrIdentifierPath>,
    i: int,
)
    requires
        0 <= i < items.len(),
    ensures
        user_defined_type_name_or_identifier_paths_depths(items)[i]
            <= user_defined_type_name_or_identifier_paths_depth(items),
{
    lemma_max_of_bounds(user_defined_type_name_or_identifier_paths_depths(items), i);
}

/// Where no item has become deeper, the deepest has not either.
pub proof fn lemma_user_defined_type_name_or_identifier_paths_depth_mono(
    a: Seq<UserDefinedTypeNameOrIdentifierPath>,
    b: Seq<UserDefinedTypeNameOrIdentifierPath>,
)
    requires
        a.len() == b.len(),
        forall|i: int|
            0 <= i < a.len() ==> user_defined_type_name_or_identifier_paths_depths(a)[i]
                <= user_defined_type_name_or_identifier_paths_depths(b)[i],
    ensures
        user_defined_type_name_or_identifier_paths_depth(a)
            <= user_defined_type_name_or_identifier_paths_depth(b),
{
    lemma_max_of_mono(
        user_defined_type_name_or_identifier_paths_depths(a),
        user_defined_type_name_or_identifier_paths_depths(b),
    );
}

} // verus!
