//! The root of a tree, its top-level parts, and contracts.

use vstd::prelude::*;
use crate::ast::definition::{
    EnumDefinition, ErrorDefinition, EventDefinition, FunctionDefinition, Identifier,
    IdentifierPath, ModifierDefinition, StructDefinition, UserDefinedValueTypeDefinition,
    VariableDeclaration,
};
use crate::ast::expression::{Expression, expressions_depth, expressions_same};
use crate::ast::types::{TypeName, UserDefinedTypeNameOrIdentifierPath};
use crate::misc::SourceLocation;
use crate::shape::{Shape, lemma_max_of_bounds, lemma_max_of_mono, max_of, top};

verus! {

/// The root of a tree: one source file, as an ordered run of top-level parts.
#[derive(Debug, PartialEq, Eq)]
pub struct SourceUnit {
    pub id: usize,
    pub src: SourceLocation,
    pub absolute_path: String,
    pub license: Option<String>,
    pub nodes: Vec<SourceUnitPart>,
}

impl Shape for SourceUnit {
    open spec fn depth(&self) -> nat
        decreases self,
    {
        1 + source_unit_parts_depth(self.nodes@)
    }

    open spec fn same_as(&self, other: &Self) -> bool
        decreases self,
    {
        &&& *other == (SourceUnit { nodes: other.nodes, ..*self })
        &&& source_unit_parts_same(self.nodes@, other.nodes@)
    }
}

/// One top-level part of a source file.
#[derive(Debug, PartialEq, Eq)]
pub enum SourceUnitPart {
    PragmaDirective(PragmaDirective),
    ImportDirective(ImportDirective),
    UsingForDirective(UsingForDirective),
    VariableDeclaration(VariableDeclaration),
    EnumDefinition(EnumDefinition),
    ErrorDefinition(ErrorDefinition),
    FunctionDefinition(FunctionDefinition),
    StructDefinition(StructDefinition),
    UserDefinedValueTypeDefinition(UserDefinedValueTypeDefinition),
    ContractDefinition(ContractDefinition),
}

impl Shape for SourceUnitPart {
    open spec fn depth(&self) -> nat
        decreases self,
    {
        match self {
            SourceUnitPart::PragmaDirective(n) => 1 + n.depth(),
            SourceUnitPart::ImportDirective(n) => 1 + n.depth(),
            SourceUnitPart::UsingForDirective(n) => 1 + n.depth(),
            SourceUnitPart::VariableDeclaration(n) => 1 + n.depth(),
            SourceUnitPart::EnumDefinition(n) => 1 + n.depth(),
            SourceUnitPart::ErrorDefinition(n) => 1 + n.depth(),
            SourceUnitPart::FunctionDefinition(n) => 1 + n.depth(),
            SourceUnitPart::StructDefinition(n) => 1 + n.depth(),
            SourceUnitPart::UserDefinedValueTypeDefinition(n) => 1 + n.depth(),
            SourceUnitPart::ContractDefinition(n) => 1 + n.depth(),
        }
    }

    open spec fn same_as(&self, other: &Self) -> bool
        decreases self,
    {
        match (self, other) {
            (
                SourceUnitPart::PragmaDirective(a),
                SourceUnitPart::PragmaDirective(b),
            ) => a.same_as(b),
            (
                SourceUnitPart::ImportDirective(a),
                SourceUnitPart::ImportDirective(b),
            ) => a.same_as(b),
            (
                SourceUnitPart::UsingForDirective(a),
                SourceUnitPart::UsingForDirective(b),
            ) => a.same_as(b),
            (
                SourceUnitPart::VariableDeclaration(a),
                SourceUnitPart::VariableDeclaration(b),
            ) => a.same_as(b),
            (SourceUnitPart::EnumDefinition(a), SourceUnitPart::EnumDefinition(b)) => a.same_as(b),
            (
                SourceUnitPart::ErrorDefinition(a),
                SourceUnitPart::ErrorDefinition(b),
            ) => a.same_as(b),
            (
                SourceUnitPart::FunctionDefinition(a),
                SourceUnitPart::FunctionDefinition(b),
            ) => a.same_as(b),
            (
                SourceUnitPart::StructDefinition(a),
                SourceUnitPart::StructDefinition(b),
            ) => a.same_as(b),
            (
                SourceUnitPart::UserDefinedValueTypeDefinition(a),
                SourceUnitPart::UserDefinedValueTypeDefinition(b),
            ) => a.same_as(b),
            (
                SourceUnitPart::ContractDefinition(a),
                SourceUnitPart::ContractDefinition(b),
            ) => a.same_as(b),
            _ => false,
        }
    }
}

/// The depth of each of `items`, in order.
pub open spec fn source_unit_parts_depths(items: Seq<SourceUnitPart>) -> Seq<nat>
    decreases items, 0int,
{
    Seq::new(
        items.len(),
        |i: int|
            if 0 <= i < items.len() {
                items[i].depth()
            } else {
                0
            },
    )
}

/// The depth of the deepest of `items`, or 0 if there is none.
pub open spec fn source_unit_parts_depth(items: Seq<SourceUnitPart>) -> nat
    decreases items, 1int,
{
    max_of(source_unit_parts_depths(items))
}

/// `a` and `b` are equally long, and each item of `a` holds what its partner in `b`
/// holds.
pub open spec fn source_unit_parts_same(a: Seq<SourceUnitPart>, b: Seq<SourceUnitPart>) -> bool
    decreases a,
{
    &&& a.len() == b.len()
    &&& forall|i: int| #![trigger a[i]] 0 <= i < a.len() ==> a[i].same_as(&b[i])
}

/// No item is deeper than the deepest.
pub proof fn lemma_source_unit_parts_depth_bound(items: Seq<SourceUnitPart>, i: int)
    requires
        0 <= i < items.len(),
    ensures
        source_unit_parts_depths(items)[i] <= source_unit_parts_depth(items),
{
    lemma_max_of_bounds(source_unit_parts_depths(items), i);
}

/// Where no item has become deeper, the deepest has not either.
pub proof fn lemma_source_unit_parts_depth_mono(a: Seq<SourceUnitPart>, b: Seq<SourceUnitPart>)
    requires
        a.len() == b.len(),
        forall|i: int|
            0 <= i < a.len() ==> source_unit_parts_depths(a)[i] <= source_unit_parts_depths(b)[i],
    ensures
        source_unit_parts_depth(a) <= source_unit_parts_depth(b),
{
    lemma_max_of_mono(source_unit_parts_depths(a), source_unit_parts_depths(b));
}

/// A pragma: the words after the keyword, e.g. `solidity`, `^`, `0.8`.
#[derive(Debug, PartialEq, Eq)]
pub struct PragmaDirective {
    pub id: usize,
    pub src: SourceLocation,
    pub literals: Vec<String>,
}

impl Shape for PragmaDirective {
    open spec fn depth(&self) -> nat {
        0
    }

    open spec fn same_as(&self, other: &Self) -> bool {
        *self == *other
    }
}

/// An import of another source file, with the names it brings in.
#[derive(Debug, PartialEq, Eq)]
pub struct ImportDirective {
    pub id: usize,
    pub src: SourceLocation,
    pub absolute_path: String,
    pub file: String,
    pub unit_alias: String,
    pub symbol_aliases: Vec<SymbolAlias>,
}

impl Shape for ImportDirective {
    open spec fn depth(&self) -> nat
        decreases self,
    {
        1 + symbol_aliases_depth(self.symbol_aliases@)
    }

    open spec fn same_as(&self, other: &Self) -> bool
        decreases self,
    {
        &&& *other == (ImportDirective { symbol_aliases: other.symbol_aliases, ..*self })
        &&& symbol_aliases_same(self.symbol_aliases@, other.symbol_aliases@)
    }
}

/// One name that an import brings in, and the local name it is given, if any.
#[derive(Debug, PartialEq, Eq)]
pub struct SymbolAlias {
    pub foreign: Identifier,
    pub local: Option<String>,
}

impl Shape for SymbolAlias {
    open spec fn depth(&self) -> nat
        decreases self,
    {
        1 + self.foreign.depth()
    }

    open spec fn same_as(&self, other: &Self) -> bool
        decreases self,
    {
        &&& *other == (SymbolAlias { foreign: other.foreign, ..*self })
        &&& self.foreign.same_as(&other.foreign)
    }
}

/// The depth of each of `items`, in order.
pub open spec fn symbol_aliases_depths(items: Seq<SymbolAlias>) -> Seq<nat>
    decreases items, 0int,
{
    Seq::new(
        items.len(),
        |i: int|
            if 0 <= i < items.len() {
                items[i].depth()
            } else {
                0
            },
    )
}

/// The depth of the deepest of `items`, or 0 if there is none.
pub open spec fn symbol_aliases_depth(items: Seq<SymbolAlias>) -> nat
    decreases items, 1int,
{
    max_of(symbol_aliases_depths(items))
}

/// `a` and `b` are equally long, and each item of `a` holds what its partner in `b`
/// holds.
pub open spec fn symbol_aliases_same(a: Seq<SymbolAlias>, b: Seq<SymbolAlias>) -> bool
    decreases a,
{
    &&& a.len() == b.len()
    &&& forall|i: int| #![trigger a[i]] 0 <= i < a.len() ==> a[i].same_as(&b[i])
}

/// No item is deeper than the deepest.
pub proof fn lemma_symbol_aliases_depth_bound(items: Seq<SymbolAlias>, i: int)
    requires
        0 <= i < items.len(),
    ensures
        symbol_aliases_depths(items)[i] <= symbol_aliases_depth(items),
{
    lemma_max_of_bounds(symbol_aliases_depths(items), i);
}

/// Where no item has become deeper, the deepest has not either.
pub proof fn lemma_symbol_aliases_depth_mono(a: Seq<SymbolAlias>, b: Seq<SymbolAlias>)
    requires
        a.len() == b.len(),
        forall|i: int|
            0 <= i < a.len() ==> symbol_aliases_depths(a)[i] <= symbol_aliases_depths(b)[i],
    ensures
        symbol_aliases_depth(a) <= symbol_aliases_depth(b),
{
    lemma_max_of_mono(symbol_aliases_depths(a), symbol_aliases_depths(b));
}

/// A `using ... for ...` directive: functions or a library attached to a type.
#[derive(Debug, PartialEq, Eq)]
pub struct UsingForDirective {
    pub id: usize,
    pub src: SourceLocation,
    pub function_list: Vec<FunctionIdentifierPath>,
    pub is_global: bool,
    pub library_name: Option<UserDefinedTypeNameOrIdentifierPath>,
    pub target_type: Option<TypeName>,
}

impl Shape for UsingForDirective {
    open spec fn depth(&self) -> nat
        decreases self,
    {
        1 + top(
            (match self.library_name {
                            Some(e) => e.depth(),
                            None => 0,
                        }),
            (match self.target_type {
                            Some(e) => e.depth(),
                            None => 0,
                        }),
        )
    }

    open spec fn same_as(&self, other: &Self) -> bool
        decreases self,
    {
        &&& *other == (UsingForDirective {
            library_name: other.library_name,
            target_type: other.target_type,
            ..*self
        })
        &&& (match (self.library_name, other.library_name) {
            (Some(a), Some(b)) => a.same_as(&b),
            (None, None) => true,
            _ => false,
        })
        &&& (match (self.target_type, other.target_type) {
            (Some(a), Some(b)) => a.same_as(&b),
            (None, None) => true,
            _ => false,
        })
    }
}

/// A function named in the list of a `using` directive.
#[derive(Debug, PartialEq, Eq)]
pub struct FunctionIdentifierPath {
    pub function: IdentifierPath,
}

impl Shape for FunctionIdentifierPath {
    open spec fn depth(&self) -> nat {
        0
    }

    open spec fn same_as(&self, other: &Self) -> bool {
        *self == *other
    }
}

/// A contract, interface or library.
#[derive(Debug, PartialEq, Eq)]
pub struct ContractDefinition {
    pub id: usize,
    pub src: SourceLocation,
    pub name: String,
    pub is_abstract: bool,
    pub kind: ContractKind,
    pub base_contracts: Vec<InheritanceSpecifier>,
    pub nodes: Vec<ContractDefinitionPart>,
}

impl Shape for ContractDefinition {
    open spec fn depth(&self) -> nat
        decreases self,
    {
        1 + top(
            inheritance_specifiers_depth(self.base_contracts@),
            contract_definition_parts_depth(self.nodes@),
        )
    }

    open spec fn same_as(&self, other: &Self) -> bool
        decreases self,
    {
        &&& *other == (ContractDefinition {
            base_contracts: other.base_contracts,
            nodes: other.nodes,
            ..*self
        })
        &&& inheritance_specifiers_same(self.base_contracts@, other.base_contracts@)
        &&& contract_definition_parts_same(self.nodes@, other.nodes@)
    }
}

/// What a contract definition declares.
#[derive(Debug, Clone, Copy, PartialEq, Eq)]
pub enum ContractKind {
    Contract,
    Interface,
    Library,
}

impl Shape for ContractKind {
    open spec fn depth(&self) -> nat {
        0
    }

    open spec fn same_as(&self, other: &Self) -> bool {
        *self == *other
    }
}

/// A base contract in a contract header, with the arguments handed to its constructor.
#[derive(Debug, PartialEq, Eq)]
pub struct InheritanceSpecifier {
    pub id: usize,
    pub src: SourceLocation,
    pub arguments: Option<Vec<Expression>>,
    pub base_name: UserDefinedTypeNameOrIdentifierPath,
}

impl Shape for InheritanceSpecifier {
    open spec fn depth(&self) -> nat
        decreases self,
    {
        1 + top(
            (match self.arguments {
                            Some(items) => expressions_depth(items@),
                            None => 0,
                        }),
            self.base_name.depth(),
        )
    }

    open spec fn same_as(&self, other: &Self) -> bool
        decreases self,
    {
        &&& *other == (InheritanceSpecifier {
            arguments: other.arguments,
            base_name: other.base_name,
            ..*self
        })
        &&& (match (self.arguments, other.arguments) {
            (Some(a), Some(b)) => expressions_same(a@, b@),
            (None, None) => true,
            _ => false,
        })
        &&& self.base_name.same_as(&other.base_name)
    }
}

/// The depth of each of `items`, in order.
pub open spec fn inheritance_specifiers_depths(items: Seq<InheritanceSpecifier>) -> Seq<nat>
    decreases items, 0int,
{
    Seq::new(
        items.len(),
        |i: int|
            if 0 <= i < items.len() {
                items[i].depth()
            } else {
                0
            },
    )
}

/// The depth of the deepest of `items`, or 0 if there is none.
pub open spec fn inheritance_specifiers_depth(items: Seq<InheritanceSpecifier>) -> nat
    decreases items, 1int,
{
    max_of(inheritance_specifiers_depths(items))
}

/// `a` and `b` are equally long, and each item of `a` holds what its partner in `b`
/// holds.
pub open spec fn inheritance_specifiers_same(
    a: Seq<InheritanceSpecifier>,
    b: Seq<InheritanceSpecifier>,
) -> bool
    decreases a,
{
    &&& a.len() == b.len()
    &&& forall|i: int| #![trigger a[i]] 0 <= i < a.len() ==> a[i].same_as(&b[i])
}

/// No item is deeper than the deepest.
pub proof fn lemma_inheritance_specifiers_depth_bound(items: Seq<InheritanceSpecifier>, i: int)
    requires
        0 <= i < items.len(),
    ensures
        inheritance_specifiers_depths(items)[i] <= inheritance_specifiers_depth(items),
{
    lemma_max_of_bounds(inheritance_specifiers_depths(items), i);
}

/// Where no item has become deeper, the deepest has not either.
pub proof fn lemma_inheritance_specifiers_depth_mono(
    a: Seq<InheritanceSpecifier>,
    b: Seq<InheritanceSpecifier>,
)
    requires
        a.len() == b.len(),
        forall|i: int|
            0 <= i < a.len() ==> inheritance_specifiers_depths(a)[i]
                <= inheritance_specifiers_depths(b)[i],
    ensures
        inheritance_specifiers_depth(a) <= inheritance_specifiers_depth(b),
{
    lemma_max_of_mono(inheritance_specifiers_depths(a), inheritance_specifiers_depths(b));
}

/// One member of a contract.
#[derive(Debug, PartialEq, Eq)]
pub enum ContractDefinitionPart {
    EnumDefinition(EnumDefinition),
    ErrorDefinition(ErrorDefinition),
    EventDefinition(EventDefinition),
    FunctionDefinition(FunctionDefinition),
    ModifierDefinition(ModifierDefinition),
    StructDefinition(StructDefinition),
    UserDefinedValueTypeDefinition(UserDefinedValueTypeDefinition),
    UsingForDirective(UsingForDirective),
    VariableDeclaration(VariableDeclaration),
}

impl Shape for ContractDefinitionPart {
    open spec fn depth(&self) -> nat
        decreases self,
    {
        match self {
            ContractDefinitionPart::EnumDefinition(n) => 1 + n.depth(),
            ContractDefinitionPart::ErrorDefinition(n) => 1 + n.depth(),
            ContractDefinitionPart::EventDefinition(n) => 1 + n.depth(),
            ContractDefinitionPart::FunctionDefinition(n) => 1 + n.depth(),
            ContractDefinitionPart::ModifierDefinition(n) => 1 + n.depth(),
            ContractDefinitionPart::StructDefinition(n) => 1 + n.depth(),
            ContractDefinitionPart::UserDefinedValueTypeDefinition(n) => 1 + n.depth(),
            ContractDefinitionPart::UsingForDirective(n) => 1 + n.depth(),
            ContractDefinitionPart::VariableDeclaration(n) => 1 + n.depth(),
        }
    }

    open spec fn same_as(&self, other: &Self) -> bool
        decreases self,
    {
        match (self, other) {
            (
                ContractDefinitionPart::EnumDefinition(a),
                ContractDefinitionPart::EnumDefinition(b),
            ) => a.same_as(b),
            (
                ContractDefinitionPart::ErrorDefinition(a),
                ContractDefinitionPart::ErrorDefinition(b),
            ) => a.same_as(b),
            (
                ContractDefinitionPart::EventDefinition(a),
                ContractDefinitionPart::EventDefinition(b),
            ) => a.same_as(b),
            (
                ContractDefinitionPart::FunctionDefinition(a),
                ContractDefinitionPart::FunctionDefinition(b),
            ) => a.same_as(b),
            (
                ContractDefinitionPart::ModifierDefinition(a),
                ContractDefinitionPart::ModifierDefinition(b),
            ) => a.same_as(b),
            (
                ContractDefinitionPart::StructDefinition(a),
                ContractDefinitionPart::StructDefinition(b),
            ) => a.same_as(b),
            (
                ContractDefinitionPart::UserDefinedValueTypeDefinition(a),
                ContractDefinitionPart::UserDefinedValueTypeDefinition(b),
            ) => a.same_as(b),
            (
                ContractDefinitionPart::UsingForDirective(a),
                ContractDefinitionPart::UsingForDirective(b),
            ) => a.same_as(b),
            (
                ContractDefinitionPart::VariableDeclaration(a),
                ContractDefinitionPart::VariableDeclaration(b),
            ) => a.same_as(b),
            _ => false,
        }
    }
}

/// The depth of each of `items`, in order.
pub open spec fn contract_definition_parts_depths(items: Seq<ContractDefinitionPart>) -> Seq<nat>
    decreases items, 0int,
{
    Seq::new(
        items.len(),
        |i: int|
            if 0 <= i < items.len() {
                items[i].depth()
            } else {
                0
            },
    )
}

/// The depth of the deepest of `items`, or 0 if there is none.
pub open spec fn contract_definition_parts_depth(items: Seq<ContractDefinitionPart>) -> nat
    decreases items, 1int,
{
    max_of(contract_definition_parts_depths(items))
}

/// `a` and `b` are equally long, and each item of `a` holds what its partner in `b`
/// holds.
pub open spec fn contract_definition_parts_same(
    a: Seq<ContractDefinitionPart>,
    b: Seq<ContractDefinitionPart>,
) -> bool
    decreases a,
{
    &&& a.len() == b.len()
    &&& forall|i: int| #![trigger a[i]] 0 <= i < a.len() ==> a[i].same_as(&b[i])
}

/// No item is deeper than the deepest.
pub proof fn lemma_contract_definition_parts_depth_bound(items: Seq<ContractDefinitionPart>, i: int)
    requires
        0 <= i < items.len(),
    ensures
        contract_definition_parts_depths(items)[i] <= contract_definition_parts_depth(items),
{
    lemma_max_of_bounds(contract_definition_parts_depths(items), i);
}

/// Where no item has become deeper, the deepest has not either.
pub proof fn lemma_contract_definition_parts_depth_mono(
    a: Seq<ContractDefinitionPart>,
    b: Seq<ContractDefinitionPart>,
)
    requires
        a.len() == b.len(),
        forall|i: int|
            0 <= i < a.len() ==> contract_definition_parts_depths(a)[i]
                <= contract_definition_parts_depths(b)[i],
    ensures
        contract_definition_parts_depth(a) <= contract_definition_parts_depth(b),
{
    lemma_max_of_mono(contract_definition_parts_depths(a), contract_definition_parts_depths(b));
}

} // verus!
