//! Declarations: variables, functions, structs, enums, errors, events and modifiers, and
//! the names that refer to them.

use vstd::prelude::*;
use crate::ast::expression::{Expression, expressions_depth, expressions_same};
use crate::ast::statement::Block;
use crate::ast::types::{
    TypeName, UserDefinedTypeNameOrIdentifierPath, user_defined_type_name_or_identifier_paths_depth,
    user_defined_type_name_or_identifier_paths_same,
};
use crate::misc::{
    Mutability, SourceLocation, StateMutability, StorageLocation, TypeDescriptions, Visibility,
};
use crate::shape::{Shape, lemma_max_of_bounds, lemma_max_of_mono, max_of, top};

verus! {

/// The declaration of a state variable, a local variable, a parameter or a struct member.
#[derive(Debug, PartialEq, Eq)]
pub struct VariableDeclaration {
    pub id: usize,
    pub src: SourceLocation,
    pub name: String,
    pub constant: bool,
    pub state_variable: bool,
    pub indexed: bool,
    pub mutability: Option<Mutability>,
    pub overrides: Option<OverrideSpecifier>,
    pub storage_location: StorageLocation,
    pub type_descriptions: TypeDescriptions,
    pub declared_type: Option<TypeName>,
    pub value: Option<Expression>,
    pub visibility: Visibility,
}

impl Shape for VariableDeclaration {
    open spec fn depth(&self) -> nat
        decreases self,
    {
        1 + top(
            top(
                (match self.overrides {
                                Some(e) => e.depth(),
                                None => 0,
                            }),
                (match self.declared_type {
                                Some(e) => e.depth(),
                                None => 0,
                            }),
            ),
            (match self.value {
                            Some(e) => e.depth(),
                            None => 0,
                        }),
        )
    }

    open spec fn same_as(&self, other: &Self) -> bool
        decreases self,
    {
        &&& *other == (VariableDeclaration {
            overrides: other.overrides,
            declared_type: other.declared_type,
            value: other.value,
            ..*self
        })
        &&& (match (self.overrides, other.overrides) {
            (Some(a), Some(b)) => a.same_as(&b),
            (None, None) => true,
            _ => false,
        })
        &&& (match (self.declared_type, other.declared_type) {
            (Some(a), Some(b)) => a.same_as(&b),
            (None, None) => true,
            _ => false,
        })
        &&& (match (self.value, other.value) {
            (Some(a), Some(b)) => a.same_as(&b),
            (None, None) => true,
            _ => false,
        })
    }
}

/// The depth of each of `items`, in order.
pub open spec fn variable_declarations_depths(items: Seq<VariableDeclaration>) -> Seq<nat>
    decreases items, 0int,
{
    Seq::new(
        items.len(),
        |i: int|
            if 0 <= i < items.len() {
                items[i].depth()
            } else {
                0
            },
    )
}

/// The depth of the deepest of `items`, or 0 if there is none.
pub open spec fn variable_declarations_depth(items: Seq<VariableDeclaration>) -> nat
    decreases items, 1int,
{
    max_of(variable_declarations_depths(items))
}

/// `a` and `b` are equally long, and each item of `a` holds what its partner in `b`
/// holds.
pub open spec fn variable_declarations_same(
    a: Seq<VariableDeclaration>,
    b: Seq<VariableDeclaration>,
) -> bool
    decreases a,
{
    &&& a.len() == b.len()
    &&& forall|i: int| #![trigger a[i]] 0 <= i < a.len() ==> a[i].same_as(&b[i])
}

/// No item is deeper than the deepest.
pub proof fn lemma_variable_declarations_depth_bound(items: Seq<VariableDeclaration>, i: int)
    requires
        0 <= i < items.len(),
    ensures
        variable_declarations_depths(items)[i] <= variable_declarations_depth(items),
{
    lemma_max_of_bounds(variable_declarations_depths(items), i);
}

/// Where no item has become deeper, the deepest has not either.
pub proof fn lemma_variable_declarations_depth_mono(
    a: Seq<VariableDeclaration>,
    b: Seq<VariableDeclaration>,
)
    requires
        a.len() == b.len(),
        forall|i: int|
            0 <= i < a.len() ==> variable_declarations_depths(a)[i]
                <= variable_declarations_depths(b)[i],
    ensures
        variable_declarations_depth(a) <= variable_declarations_depth(b),
{
    lemma_max_of_mono(variable_declarations_depths(a), variable_declarations_depths(b));
}

/// The depth of each of `items`, in order.
pub open spec fn optional_variable_declarations_depths(
    items: Seq<Option<VariableDeclaration>>,
) -> Seq<nat>
    decreases items, 0int,
{
    Seq::new(
        items.len(),
        |i: int|
            if 0 <= i < items.len() {
                match items[i] {
                    Some(e) => e.depth(),
                    None => 0,
                }
            } else {
                0
            },
    )
}

/// The depth of the deepest of `items`, or 0 if there is none.
pub open spec fn optional_variable_declarations_depth(
    items: Seq<Option<VariableDeclaration>>,
) -> nat
    decreases items, 1int,
{
    max_of(optional_variable_declarations_depths(items))
}

/// `a` and `b` are equally long, and each item of `a` holds what its partner in `b`
/// holds.
pub open spec fn optional_variable_declarations_same(
    a: Seq<Option<VariableDeclaration>>,
    b: Seq<Option<VariableDeclaration>>,
) -> bool
    decreases a,
{
    &&& a.len() == b.len()
    &&& forall|i: int| #![trigger a[i]] 0 <= i < a.len() ==> (match (a[i], b[i]) {
            (Some(x), Some(y)) => x.same_as(&y),
            (None, None) => true,
            _ => false,
        })
}

/// No item is deeper than the deepest.
pub proof fn lemma_optional_variable_declarations_depth_bound(
    items: Seq<Option<VariableDeclaration>>,
    i: int,
)
    requires
        0 <= i < items.len(),
    ensures
        optional_variable_declarations_depths(items)[i]
            <= optional_variable_declarations_depth(items),
{
    lemma_max_of_bounds(optional_variable_declarations_depths(items), i);
}

/// Where no item has become deeper, the deepest has not either.
pub proof fn lemma_optional_variable_declarations_depth_mono(
    a: Seq<Option<VariableDeclaration>>,
    b: Seq<Option<VariableDeclaration>>,
)
    requires
        a.len() == b.len(),
        forall|i: int|
            0 <= i < a.len() ==> optional_variable_declarations_depths(a)[i]
                <= optional_variable_declarations_depths(b)[i],
    ensures
        optional_variable_declarations_depth(a) <= optional_variable_declarations_depth(b),
{
    lemma_max_of_mono(
        optional_variable_declarations_depths(a),
        optional_variable_declarations_depths(b),
    );
}

/// An `override` specifier, with the bases it names.
#[derive(Debug, PartialEq, Eq)]
pub struct OverrideSpecifier {
    pub id: usize,
    pub src: SourceLocation,
    pub overrides: Vec<UserDefinedTypeNameOrIdentifierPath>,
}

impl Shape for OverrideSpecifier {
    open spec fn depth(&self) -> nat
        decreases self,
    {
        1 + user_defined_type_name_or_identifier_paths_depth(self.overrides@)
    }

    open spec fn same_as(&self, other: &Self) -> bool
        decreases self,
    {
        &&& *other == (OverrideSpecifier { overrides: other.overrides, ..*self })
        &&& user_defined_type_name_or_identifier_paths_same(self.overrides@, other.overrides@)
    }
}

/// The parameters of a function, event, error or modifier, or the values a function returns.
#[derive(Debug, PartialEq, Eq)]
pub struct ParameterList {
    pub id: usize,
    pub src: SourceLocation,
    pub parameters: Vec<VariableDeclaration>,
}

impl Shape for ParameterList {
    open spec fn depth(&self) -> nat
        decreases self,
    {
        1 + variable_declarations_depth(self.parameters@)
    }

    open spec fn same_as(&self, other: &Self) -> bool
        decreases self,
    {
        &&& *other == (ParameterList { parameters: other.parameters, ..*self })
        &&& variable_declarations_same(self.parameters@, other.parameters@)
    }
}

/// An enum and its values.
#[derive(Debug, PartialEq, Eq)]
pub struct EnumDefinition {
    pub id: usize,
    pub src: SourceLocation,
    pub name: String,
    pub canonical_name: String,
    pub members: Vec<EnumValue>,
}

impl Shape for EnumDefinition {
    open spec fn depth(&self) -> nat {
        0
    }

    open spec fn same_as(&self, other: &Self) -> bool {
        *self == *other
    }
}

/// One value of an enum.
#[derive(Debug, PartialEq, Eq)]
pub struct EnumValue {
    pub id: usize,
    pub src: SourceLocation,
    pub name: String,
}

impl Shape for EnumValue {
    open spec fn depth(&self) -> nat {
        0
    }

    open spec fn same_as(&self, other: &Self) -> bool {
        *self == *other
    }
}

/// A custom error and its parameters.
#[derive(Debug, PartialEq, Eq)]
pub struct ErrorDefinition {
    pub id: usize,
    pub src: SourceLocation,
    pub name: String,
    pub parameters: ParameterList,
}

impl Shape for ErrorDefinition {
    open spec fn depth(&self) -> nat
        decreases self,
    {
        1 + self.parameters.depth()
    }

    open spec fn same_as(&self, other: &Self) -> bool
        decreases self,
    {
        &&& *other == (ErrorDefinition { parameters: other.parameters, ..*self })
        &&& self.parameters.same_as(&other.parameters)
    }
}

/// An event and its parameters.
#[derive(Debug, PartialEq, Eq)]
pub struct EventDefinition {
    pub id: usize,
    pub src: SourceLocation,
    pub name: String,
    pub anonymous: bool,
    pub parameters: ParameterList,
}

impl Shape for EventDefinition {
    open spec fn depth(&self) -> nat {
        0
    }

    open spec fn same_as(&self, other: &Self) -> bool {
        *self == *other
    }
}

/// A function, constructor, fallback or receive function.
#[derive(Debug, PartialEq, Eq)]
pub struct FunctionDefinition {
    pub id: usize,
    pub src: SourceLocation,
    pub name: String,
    pub kind: Option<FunctionKind>,
    pub body: Option<Block>,
    pub modifiers: Vec<ModifierInvocation>,
    pub overrides: Option<OverrideSpecifier>,
    pub parameters: ParameterList,
    pub return_parameters: ParameterList,
    pub state_mutability: Option<StateMutability>,
    pub visibility: Visibility,
    pub is_virtual: bool,
    pub implemented: bool,
}

impl Shape for FunctionDefinition {
    open spec fn depth(&self) -> nat
        decreases self,
    {
        1 + top(
            top(
                top(
                    top(
                        (match self.body {
                                        Some(e) => e.depth(),
                                        None => 0,
                                    }),
                        modifier_invocations_depth(self.modifiers@),
                    ),
                    (match self.overrides {
                                    Some(e) => e.depth(),
                                    None => 0,
                                }),
                ),
                self.parameters.depth(),
            ),
            self.return_parameters.depth(),
        )
    }

    open spec fn same_as(&self, other: &Self) -> bool
        decreases self,
    {
        &&& *other == (FunctionDefinition {
            body: other.body,
            modifiers: other.modifiers,
            overrides: other.overrides,
            parameters: other.parameters,
            return_parameters: other.return_parameters,
            ..*self
        })
        &&& (match (self.body, other.body) {
            (Some(a), Some(b)) => a.same_as(&b),
            (None, None) => true,
            _ => false,
        })
        &&& modifier_invocations_same(self.modifiers@, other.modifiers@)
        &&& (match (self.overrides, other.overrides) {
            (Some(a), Some(b)) => a.same_as(&b),
            (None, None) => true,
            _ => false,
        })
        &&& self.parameters.same_as(&other.parameters)
        &&& self.return_parameters.same_as(&other.return_parameters)
    }
}

/// What a function definition declares.
#[derive(Debug, Clone, Copy, PartialEq, Eq)]
pub enum FunctionKind {
    Function,
    Receive,
    Constructor,
    Fallback,
    FreeFunction,
}

impl Shape for FunctionKind {
    open spec fn depth(&self) -> nat {
        0
    }

    open spec fn same_as(&self, other: &Self) -> bool {
        *self == *other
    }
}

/// A modifier applied in a function header, or a base constructor called there.
#[derive(Debug, PartialEq, Eq)]
pub struct ModifierInvocation {
    pub id: usize,
    pub src: SourceLocation,
    pub arguments: Option<Vec<Expression>>,
    pub modifier_name: IdentifierOrIdentifierPath,
}

impl Shape for ModifierInvocation {
    open spec fn depth(&self) -> nat
        decreases self,
    {
        1 + top(
            (match self.arguments {
                            Some(items) => expressions_depth(items@),
                            None => 0,
                        }),
            self.modifier_name.depth(),
        )
    }

    open spec fn same_as(&self, other: &Self) -> bool
        decreases self,
    {
        &&& *other == (ModifierInvocation {
            arguments: other.arguments,
            modifier_name: other.modifier_name,
            ..*self
        })
        &&& (match (self.arguments, other.arguments) {
            (Some(a), Some(b)) => expressions_same(a@, b@),
            (None, None) => true,
            _ => false,
        })
        &&& self.modifier_name.same_as(&other.modifier_name)
    }
}

/// The depth of each of `items`, in order.
pub open spec fn modifier_invocations_depths(items: Seq<ModifierInvocation>) -> Seq<nat>
    decreases items, 0int,
{
    Seq::new(
        items.len(),
        |i: int|
            if 0 <= i < items.len() {
                items[i].depth()
            } else {
                0
            },
    )
}

/// The depth of the deepest of `items`, or 0 if there is none.
pub open spec fn modifier_invocations_depth(items: Seq<ModifierInvocation>) -> nat
    decreases items, 1int,
{
    max_of(modifier_invocations_depths(items))
}

/// `a` and `b` are equally long, and each item of `a` holds what its partner in `b`
/// holds.
pub open spec fn modifier_invocations_same(
    a: Seq<ModifierInvocation>,
    b: Seq<ModifierInvocation>,
) -> bool
    decreases a,
{
    &&& a.len() == b.len()
    &&& forall|i: int| #![trigger a[i]] 0 <= i < a.len() ==> a[i].same_as(&b[i])
}

/// No item is deeper than the deepest.
pub proof fn lemma_modifier_invocations_depth_bound(items: Seq<ModifierInvocation>, i: int)
    requires
        0 <= i < items.len(),
    ensures
        modifier_invocations_depths(items)[i] <= modifier_invocations_depth(items),
{
    lemma_max_of_bounds(modifier_invocations_depths(items), i);
}

/// Where no item has become deeper, the deepest has not either.
pub proof fn lemma_modifier_invocations_depth_mono(
    a: Seq<ModifierInvocation>,
    b: Seq<ModifierInvocation>,
)
    requires
        a.len() == b.len(),
        forall|i: int|
            0 <= i < a.len() ==> modifier_invocations_depths(a)[i]
                <= modifier_invocations_depths(b)[i],
    ensures
        modifier_invocations_depth(a) <= modifier_invocations_depth(b),
{
    lemma_max_of_mono(modifier_invocations_depths(a), modifier_invocations_depths(b));
}

/// A modifier and its body.
#[derive(Debug, PartialEq, Eq)]
pub struct ModifierDefinition {
    pub id: usize,
    pub src: SourceLocation,
    pub name: String,
    pub body: Block,
    pub overrides: Option<OverrideSpecifier>,
    pub parameters: ParameterList,
    pub is_virtual: bool,
    pub visibility: Visibility,
}

impl Shape for ModifierDefinition {
    open spec fn depth(&self) -> nat {
        0
    }

    open spec fn same_as(&self, other: &Self) -> bool {
        *self == *other
    }
}

/// A struct and its members.
#[derive(Debug, PartialEq, Eq)]
pub struct StructDefinition {
    pub id: usize,
    pub src: SourceLocation,
    pub name: String,
    pub canonical_name: String,
    pub members: Vec<VariableDeclaration>,
    pub visibility: Visibility,
}

impl Shape for StructDefinition {
    open spec fn depth(&self) -> nat
        decreases self,
    {
        1 + variable_declarations_depth(self.members@)
    }

    open spec fn same_as(&self, other: &Self) -> bool
        decreases self,
    {
        &&& *other == (StructDefinition { members: other.members, ..*self })
        &&& variable_declarations_same(self.members@, other.members@)
    }
}

/// A user-defined value type over an elementary type.
#[derive(Debug, PartialEq, Eq)]
pub struct UserDefinedValueTypeDefinition {
    pub id: usize,
    pub src: SourceLocation,
    pub name: String,
    pub underlying_type: TypeName,
}

impl Shape for UserDefinedValueTypeDefinition {
    open spec fn depth(&self) -> nat
        decreases self,
    {
        1 + self.underlying_type.depth()
    }

    open spec fn same_as(&self, other: &Self) -> bool
        decreases self,
    {
        &&& *other == (UserDefinedValueTypeDefinition {
            underlying_type: other.underlying_type,
            ..*self
        })
        &&& self.underlying_type.same_as(&other.underlying_type)
    }
}

/// A name used as an expression.
#[derive(Debug, PartialEq, Eq)]
pub struct Identifier {
    pub id: usize,
    pub src: SourceLocation,
    pub name: String,
    pub referenced_declaration: Option<isize>,
    pub type_descriptions: TypeDescriptions,
}

impl Shape for Identifier {
    open spec fn depth(&self) -> nat {
        0
    }

    open spec fn same_as(&self, other: &Self) -> bool {
        *self == *other
    }
}

/// A dotted path that names a declaration.
#[derive(Debug, PartialEq, Eq)]
pub struct IdentifierPath {
    pub id: usize,
    pub src: SourceLocation,
    pub name: String,
    pub referenced_declaration: isize,
}

impl Shape for IdentifierPath {
    open spec fn depth(&self) -> nat {
        0
    }

    open spec fn same_as(&self, other: &Self) -> bool {
        *self == *other
    }
}

/// A name, in either of the two forms in which it is written.
#[derive(Debug, PartialEq, Eq)]
pub enum IdentifierOrIdentifierPath {
    Identifier(Identifier),
    IdentifierPath(IdentifierPath),
}

impl Shape for IdentifierOrIdentifierPath {
    open spec fn depth(&self) -> nat
        decreases self,
    {
        match self {
            IdentifierOrIdentifierPath::Identifier(n) => 1 + n.depth(),
            IdentifierOrIdentifierPath::IdentifierPath(n) => 1 + n.depth(),
        }
    }

    open spec fn same_as(&self, other: &Self) -> bool
        decreases self,
    {
        match (self, other) {
            (
                IdentifierOrIdentifierPath::Identifier(a),
                IdentifierOrIdentifierPath::Identifier(b),
            ) => a.same_as(b),
            (
                IdentifierOrIdentifierPath::IdentifierPath(a),
                IdentifierOrIdentifierPath::IdentifierPath(b),
            ) => a.same_as(b),
            _ => false,
        }
    }
}

} // verus!
