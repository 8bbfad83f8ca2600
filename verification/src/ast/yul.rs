//! The tree of an inline assembly block.

use vstd::prelude::*;
use crate::misc::SourceLocation;
use crate::shape::{Shape, lemma_max_of_bounds, lemma_max_of_mono, max_of, top};

verus! {

/// A statement of the assembly language.
#[derive(Debug, PartialEq, Eq)]
pub enum YulStatement {
    YulAssignment(YulAssignment),
    YulBlock(YulBlock),
    YulBreak(YulBreak),
    YulContinue(YulContinue),
    YulExpressionStatement(YulExpressionStatement),
    YulLeave(YulLeave),
    YulForLoop(YulForLoop),
    YulFunctionDefinition(YulFunctionDefinition),
    YulIf(YulIf),
    YulSwitch(YulSwitch),
    YulVariableDeclaration(YulVariableDeclaration),
}

impl Shape for YulStatement {
    open spec fn depth(&self) -> nat
        decreases self,
    {
        match self {
            YulStatement::YulAssignment(n) => 1 + n.depth(),
            YulStatement::YulBlock(n) => 1 + n.depth(),
            YulStatement::YulBreak(n) => 1 + n.depth(),
            YulStatement::YulContinue(n) => 1 + n.depth(),
            YulStatement::YulExpressionStatement(n) => 1 + n.depth(),
            YulStatement::YulLeave(n) => 1 + n.depth(),
            YulStatement::YulForLoop(n) => 1 + n.depth(),
            YulStatement::YulFunctionDefinition(n) => 1 + n.depth(),
            YulStatement::YulIf(n) => 1 + n.depth(),
            YulStatement::YulSwitch(n) => 1 + n.depth(),
            YulStatement::YulVariableDeclaration(n) => 1 + n.depth(),
        }
    }

    open spec fn same_as(&self, other: &Self) -> bool
        decreases self,
    {
        match (self, other) {
            (YulStatement::YulAssignment(a), YulStatement::YulAssignment(b)) => a.same_as(b),
            (YulStatement::YulBlock(a), YulStatement::YulBlock(b)) => a.same_as(b),
            (YulStatement::YulBreak(a), YulStatement::YulBreak(b)) => a.same_as(b),
            (YulStatement::YulContinue(a), YulStatement::YulContinue(b)) => a.same_as(b),
            (
                YulStatement::YulExpressionStatement(a),
                YulStatement::YulExpressionStatement(b),
            ) => a.same_as(b),
            (YulStatement::YulLeave(a), YulStatement::YulLeave(b)) => a.same_as(b),
            (YulStatement::YulForLoop(a), YulStatement::YulForLoop(b)) => a.same_as(b),
            (
                YulStatement::YulFunctionDefinition(a),
                YulStatement::YulFunctionDefinition(b),
            ) => a.same_as(b),
            (YulStatement::YulIf(a), YulStatement::YulIf(b)) => a.same_as(b),
            (YulStatement::YulSwitch(a), YulStatement::YulSwitch(b)) => a.same_as(b),
            (
                YulStatement::YulVariableDeclaration(a),
                YulStatement::YulVariableDeclaration(b),
            ) => a.same_as(b),
            _ => false,
        }
    }
}

/// The depth of each of `items`, in order.
pub open spec fn yul_statements_depths(items: Seq<YulStatement>) -> Seq<nat>
    decreases items, 0int,
{
    Seq::new(
        items.len(),
        |i: int|
            if 0 <= i < items.len() {
                items[i].depth()
            } else {
                0
            },
    )
}

/// The depth of the deepest of `items`, or 0 if there is none.
pub open spec fn yul_statements_depth(items: Seq<YulStatement>) -> nat
    decreases items, 1int,
{
    max_of(yul_statements_depths(items))
}

/// `a` and `b` are equally long, and each item of `a` holds what its partner in `b`
/// holds.
pub open spec fn yul_statements_same(a: Seq<YulStatement>, b: Seq<YulStatement>) -> bool
    decreases a,
{
    &&& a.len() == b.len()
    &&& forall|i: int| #![trigger a[i]] 0 <= i < a.len() ==> a[i].same_as(&b[i])
}

/// No item is deeper than the deepest.
pub proof fn lemma_yul_statements_depth_bound(items: Seq<YulStatement>, i: int)
    requires
        0 <= i < items.len(),
    ensures
        yul_statements_depths(items)[i] <= yul_statements_depth(items),
{
    lemma_max_of_bounds(yul_statements_depths(items), i);
}

/// Where no item has become deeper, the deepest has not either.
pub proof fn lemma_yul_statements_depth_mono(a: Seq<YulStatement>, b: Seq<YulStatement>)
    requires
        a.len() == b.len(),
        forall|i: int|
            0 <= i < a.len() ==> yul_statements_depths(a)[i] <= yul_statements_depths(b)[i],
    ensures
        yul_statements_depth(a) <= yul_statements_depth(b),
{
    lemma_max_of_mono(yul_statements_depths(a), yul_statements_depths(b));
}

/// An expression of the assembly language.
#[derive(Debug, PartialEq, Eq)]
pub enum YulExpression {
    YulFunctionCall(YulFunctionCall),
    YulIdentifier(YulIdentifier),
    YulLiteral(YulLiteral),
}

impl Shape for YulExpression {
    open spec fn depth(&self) -> nat
        decreases self,
    {
        match self {
            YulExpression::YulFunctionCall(n) => 1 + n.depth(),
            YulExpression::YulIdentifier(n) => 1 + n.depth(),
            YulExpression::YulLiteral(n) => 1 + n.depth(),
        }
    }

    open spec fn same_as(&self, other: &Self) -> bool
        decreases self,
    {
        match (self, other) {
            (YulExpression::YulFunctionCall(a), YulExpression::YulFunctionCall(b)) => a.same_as(b),
            (YulExpression::YulIdentifier(a), YulExpression::YulIdentifier(b)) => a.same_as(b),
            (YulExpression::YulLiteral(a), YulExpression::YulLiteral(b)) => a.same_as(b),
            _ => false,
        }
    }
}

/// The depth of each of `items`, in order.
pub open spec fn yul_expressions_depths(items: Seq<YulExpression>) -> Seq<nat>
    decreases items, 0int,
{
    Seq::new(
        items.len(),
        |i: int|
            if 0 <= i < items.len() {
                items[i].depth()
            } else {
                0
            },
    )
}

/// The depth of the deepest of `items`, or 0 if there is none.
pub open spec fn yul_expressions_depth(items: Seq<YulExpression>) -> nat
    decreases items, 1int,
{
    max_of(yul_expressions_depths(items))
}

/// `a` and `b` are equally long, and each item of `a` holds what its partner in `b`
/// holds.
pub open spec fn yul_expressions_same(a: Seq<YulExpression>, b: Seq<YulExpression>) -> bool
    decreases a,
{
    &&& a.len() == b.len()
    &&& forall|i: int| #![trigger a[i]] 0 <= i < a.len() ==> a[i].same_as(&b[i])
}

/// No item is deeper than the deepest.
pub proof fn lemma_yul_expressions_depth_bound(items: Seq<YulExpression>, i: int)
    requires
        0 <= i < items.len(),
    ensures
        yul_expressions_depths(items)[i] <= yul_expressions_depth(items),
{
    lemma_max_of_bounds(yul_expressions_depths(items), i);
}

/// Where no item has become deeper, the deepest has not either.
pub proof fn lemma_yul_expressions_depth_mono(a: Seq<YulExpression>, b: Seq<YulExpression>)
    requires
        a.len() == b.len(),
        forall|i: int|
            0 <= i < a.len() ==> yul_expressions_depths(a)[i] <= yul_expressions_depths(b)[i],
    ensures
        yul_expressions_depth(a) <= yul_expressions_depth(b),
{
    lemma_max_of_mono(yul_expressions_depths(a), yul_expressions_depths(b));
}

/// A block of assembly statements.
#[derive(Debug, PartialEq, Eq)]
pub struct YulBlock {
    pub src: SourceLocation,
    pub statements: Vec<YulStatement>,
}

impl Shape for YulBlock {
    open spec fn depth(&self) -> nat
        decreases self,
    {
        1 + yul_statements_depth(self.statements@)
    }

    open spec fn same_as(&self, other: &Self) -> bool
        decreases self,
    {
        &&& *other == (YulBlock { statements: other.statements, ..*self })
        &&& yul_statements_same(self.statements@, other.statements@)
    }
}

/// An assignment to one or more variables.
#[derive(Debug, PartialEq, Eq)]
pub struct YulAssignment {
    pub src: SourceLocation,
    pub value: YulExpression,
    pub variable_names: Vec<YulIdentifier>,
}

impl Shape for YulAssignment {
    open spec fn depth(&self) -> nat
        decreases self,
    {
        1 + self.value.depth()
    }

    open spec fn same_as(&self, other: &Self) -> bool
        decreases self,
    {
        &&& *other == (YulAssignment { value: other.value, ..*self })
        &&& self.value.same_as(&other.value)
    }
}

/// A `break` statement.
#[derive(Debug, PartialEq, Eq)]
pub struct YulBreak {
    pub src: SourceLocation,
}

impl Shape for YulBreak {
    open spec fn depth(&self) -> nat {
        0
    }

    open spec fn same_as(&self, other: &Self) -> bool {
        *self == *other
    }
}

/// A `continue` statement.
#[derive(Debug, PartialEq, Eq)]
pub struct YulContinue {
    pub src: SourceLocation,
}

impl Shape for YulContinue {
    open spec fn depth(&self) -> nat {
        0
    }

    open spec fn same_as(&self, other: &Self) -> bool {
        *self == *other
    }
}

/// A `leave` statement.
#[derive(Debug, PartialEq, Eq)]
pub struct YulLeave {
    pub src: SourceLocation,
}

impl Shape for YulLeave {
    open spec fn depth(&self) -> nat {
        0
    }

    open spec fn same_as(&self, other: &Self) -> bool {
        *self == *other
    }
}

/// An expression used as a statement.
#[derive(Debug, PartialEq, Eq)]
pub struct YulExpressionStatement {
    pub src: SourceLocation,
    pub expression: YulExpression,
}

impl Shape for YulExpressionStatement {
    open spec fn depth(&self) -> nat {
        0
    }

    open spec fn same_as(&self, other: &Self) -> bool {
        *self == *other
    }
}

/// A `for` loop.
#[derive(Debug, PartialEq, Eq)]
pub struct YulForLoop {
    pub src: SourceLocation,
    pub body: YulBlock,
    pub condition: YulExpression,
    pub post: YulBlock,
    pub pre: YulBlock,
}

impl Shape for YulForLoop {
    open spec fn depth(&self) -> nat
        decreases self,
    {
        1 + top(
            top(top(self.body.depth(), self.condition.depth()), self.post.depth()),
            self.pre.depth(),
        )
    }

    open spec fn same_as(&self, other: &Self) -> bool
        decreases self,
    {
        &&& *other == (YulForLoop {
            body: other.body,
            condition: other.condition,
            post: other.post,
            pre: other.pre,
            ..*self
        })
        &&& self.body.same_as(&other.body)
        &&& self.condition.same_as(&other.condition)
        &&& self.post.same_as(&other.post)
        &&& self.pre.same_as(&other.pre)
    }
}

/// The definition of an assembly function.
#[derive(Debug, PartialEq, Eq)]
pub struct YulFunctionDefinition {
    pub src: SourceLocation,
    pub name: String,
    pub parameters: Vec<YulTypedName>,
    pub return_variables: Vec<YulTypedName>,
    pub body: YulBlock,
}

impl Shape for YulFunctionDefinition {
    open spec fn depth(&self) -> nat {
        0
    }

    open spec fn same_as(&self, other: &Self) -> bool {
        *self == *other
    }
}

/// A name with its type.
#[derive(Debug, PartialEq, Eq)]
pub struct YulTypedName {
    pub src: SourceLocation,
    pub name: String,
    pub type_label: String,
}

impl Shape for YulTypedName {
    open spec fn depth(&self) -> nat {
        0
    }

    open spec fn same_as(&self, other: &Self) -> bool {
        *self == *other
    }
}

/// An `if` statement.
#[derive(Debug, PartialEq, Eq)]
pub struct YulIf {
    pub src: SourceLocation,
    pub condition: YulExpression,
    pub body: YulBlock,
}

impl Shape for YulIf {
    open spec fn depth(&self) -> nat {
        0
    }

    open spec fn same_as(&self, other: &Self) -> bool {
        *self == *other
    }
}

/// A `switch` statement.
#[derive(Debug, PartialEq, Eq)]
pub struct YulSwitch {
    pub src: SourceLocation,
    pub expression: YulExpression,
    pub cases: Vec<YulCase>,
}

impl Shape for YulSwitch {
    open spec fn depth(&self) -> nat {
        0
    }

    open spec fn same_as(&self, other: &Self) -> bool {
        *self == *other
    }
}

/// One case of a `switch`; the default case has no value.
#[derive(Debug, PartialEq, Eq)]
pub struct YulCase {
    pub src: SourceLocation,
    pub value: Option<YulLiteral>,
    pub body: YulBlock,
}

impl Shape for YulCase {
    open spec fn depth(&self) -> nat {
        0
    }

    open spec fn same_as(&self, other: &Self) -> bool {
        *self == *other
    }
}

/// A declaration of variables, with or without a first value.
#[derive(Debug, PartialEq, Eq)]
pub struct YulVariableDeclaration {
    pub src: SourceLocation,
    pub variables: Vec<YulTypedName>,
    pub value: Option<YulExpression>,
}

impl Shape for YulVariableDeclaration {
    open spec fn depth(&self) -> nat {
        0
    }

    open spec fn same_as(&self, other: &Self) -> bool {
        *self == *other
    }
}

/// A call of an assembly function or of an instruction.
#[derive(Debug, PartialEq, Eq)]
pub struct YulFunctionCall {
    pub src: SourceLocation,
    pub arguments: Vec<YulExpression>,
    pub function_name: YulIdentifier,
}

impl Shape for YulFunctionCall {
    open spec fn depth(&self) -> nat
        decreases self,
    {
        1 + yul_expressions_depth(self.arguments@)
    }

    open spec fn same_as(&self, other: &Self) -> bool
        decreases self,
    {
        &&& *other == (YulFunctionCall { arguments: other.arguments, ..*self })
        &&& yul_expressions_same(self.arguments@, other.arguments@)
    }
}

/// A name.
#[derive(Debug, PartialEq, Eq)]
pub struct YulIdentifier {
    pub src: SourceLocation,
    pub name: String,
}

impl Shape for YulIdentifier {
    open spec fn depth(&self) -> nat {
        0
    }

    open spec fn same_as(&self, other: &Self) -> bool {
        *self == *other
    }
}

/// A literal value.
#[derive(Debug, PartialEq, Eq)]
pub struct YulLiteral {
    pub src: SourceLocation,
    pub kind: YulLiteralKind,
    pub value: Option<String>,
    pub hex_value: Option<String>,
}

impl Shape for YulLiteral {
    open spec fn depth(&self) -> nat {
        0
    }

    open spec fn same_as(&self, other: &Self) -> bool {
        *self == *other
    }
}

/// What an assembly literal is.
#[derive(Debug, Clone, Copy, PartialEq, Eq)]
pub enum YulLiteralKind {
    Number,
    String,
    Bool,
}

impl Shape for YulLiteralKind {
    open spec fn depth(&self) -> nat {
        0
    }

    open spec fn same_as(&self, other: &Self) -> bool {
        *self == *other
    }
}

} // verus!
