//! Statements.

use vstd::prelude::*;
use crate::ast::definition::{
    ParameterList, VariableDeclaration, optional_variable_declarations_depth,
    optional_variable_declarations_same,
};
use crate::ast::expression::{Expression, FunctionCall};
use crate::ast::yul::YulBlock;
use crate::misc::SourceLocation;
use crate::shape::{Shape, lemma_max_of_bounds, lemma_max_of_mono, max_of, top};

verus! {

/// A statement.
#[derive(Debug, PartialEq, Eq)]
pub enum Statement {
    Block(Block),
    Break(Break),
    Continue(Continue),
    DoWhileStatement(DoWhileStatement),
    EmitStatement(EmitStatement),
    ExpressionStatement(ExpressionStatement),
    ForStatement(ForStatement),
    IfStatement(IfStatement),
    InlineAssembly(InlineAssembly),
    PlaceholderStatement(PlaceholderStatement),
    Return(Return),
    RevertStatement(RevertStatement),
    TryStatement(TryStatement),
    UncheckedBlock(UncheckedBlock),
    VariableDeclarationStatement(VariableDeclarationStatement),
    WhileStatement(WhileStatement),
}

impl Shape for Statement {
    open spec fn depth(&self) -> nat
        decreases self,
    {
        match self {
            Statement::Block(n) => 1 + n.depth(),
            Statement::Break(n) => 1 + n.depth(),
            Statement::Continue(n) => 1 + n.depth(),
            Statement::DoWhileStatement(n) => 1 + n.depth(),
            Statement::EmitStatement(n) => 1 + n.depth(),
            Statement::ExpressionStatement(n) => 1 + n.depth(),
            Statement::ForStatement(n) => 1 + n.depth(),
            Statement::IfStatement(n) => 1 + n.depth(),
            Statement::InlineAssembly(n) => 1 + n.depth(),
            Statement::PlaceholderStatement(n) => 1 + n.depth(),
            Statement::Return(n) => 1 + n.depth(),
            Statement::RevertStatement(n) => 1 + n.depth(),
            Statement::TryStatement(n) => 1 + n.depth(),
            Statement::UncheckedBlock(n) => 1 + n.depth(),
            Statement::VariableDeclarationStatement(n) => 1 + n.depth(),
            Statement::WhileStatement(n) => 1 + n.depth(),
        }
    }

    open spec fn same_as(&self, other: &Self) -> bool
        decreases self,
    {
        match (self, other) {
            (Statement::Block(a), Statement::Block(b)) => a.same_as(b),
            (Statement::Break(a), Statement::Break(b)) => a.same_as(b),
            (Statement::Continue(a), Statement::Continue(b)) => a.same_as(b),
            (Statement::DoWhileStatement(a), Statement::DoWhileStatement(b)) => a.same_as(b),
            (Statement::EmitStatement(a), Statement::EmitStatement(b)) => a.same_as(b),
            (Statement::ExpressionStatement(a), Statement::ExpressionStatement(b)) => a.same_as(b),
            (Statement::ForStatement(a), Statement::ForStatement(b)) => a.same_as(b),
            (Statement::IfStatement(a), Statement::IfStatement(b)) => a.same_as(b),
            (Statement::InlineAssembly(a), Statement::InlineAssembly(b)) => a.same_as(b),
            (
                Statement::PlaceholderStatement(a),
                Statement::PlaceholderStatement(b),
            ) => a.same_as(b),
            (Statement::Return(a), Statement::Return(b)) => a.same_as(b),
            (Statement::RevertStatement(a), Statement::RevertStatement(b)) => a.same_as(b),
            (Statement::TryStatement(a), Statement::TryStatement(b)) => a.same_as(b),
            (Statement::UncheckedBlock(a), Statement::UncheckedBlock(b)) => a.same_as(b),
            (
                Statement::VariableDeclarationStatement(a),
                Statement::VariableDeclarationStatement(b),
            ) => a.same_as(b),
            (Statement::WhileStatement(a), Statement::WhileStatement(b)) => a.same_as(b),
            _ => false,
        }
    }
}

/// The depth of each of `items`, in order.
pub open spec fn statements_depths(items: Seq<Statement>) -> Seq<nat>
    decreases items, 0int,
{
    Seq::new(
        items.len(),
        |i: int|
            if 0 <= i < items.len() {
                items[i].depth()
            } else {
                0
            },
    )
}

/// The depth of the deepest of `items`, or 0 if there is none.
pub open spec fn statements_depth(items: Seq<Statement>) -> nat
    decreases items, 1int,
{
    max_of(statements_depths(items))
}

/// `a` and `b` are equally long, and each item of `a` holds what its partner in `b`
/// holds.
pub open spec fn statements_same(a: Seq<Statement>, b: Seq<Statement>) -> bool
    decreases a,
{
    &&& a.len() == b.len()
    &&& forall|i: int| #![trigger a[i]] 0 <= i < a.len() ==> a[i].same_as(&b[i])
}

/// No item is deeper than the deepest.
pub proof fn lemma_statements_depth_bound(items: Seq<Statement>, i: int)
    requires
        0 <= i < items.len(),
    ensures
        statements_depths(items)[i] <= statements_depth(items),
{
    lemma_max_of_bounds(statements_depths(items), i);
}

/// Where no item has become deeper, the deepest has not either.
pub proof fn lemma_statements_depth_mono(a: Seq<Statement>, b: Seq<Statement>)
    requires
        a.len() == b.len(),
        forall|i: int| 0 <= i < a.len() ==> statements_depths(a)[i] <= statements_depths(b)[i],
    ensures
        statements_depth(a) <= statements_depth(b),
{
    lemma_max_of_mono(statements_depths(a), statements_depths(b));
}

/// A block of statements.
#[derive(Debug, PartialEq, Eq)]
pub struct Block {
    pub id: usize,
    pub src: SourceLocation,
    pub statements: Vec<Statement>,
}

impl Shape for Block {
    open spec fn depth(&self) -> nat
        decreases self,
    {
        1 + statements_depth(self.statements@)
    }

    open spec fn same_as(&self, other: &Self) -> bool
        decreases self,
    {
        &&& *other == (Block { statements: other.statements, ..*self })
        &&& statements_same(self.statements@, other.statements@)
    }
}

/// The body of a loop or of a branch: a block, or one statement.
#[derive(Debug, PartialEq, Eq)]
pub enum BlockOrStatement {
    Block(Block),
    Statement(Box<Statement>),
}

impl Shape for BlockOrStatement {
    open spec fn depth(&self) -> nat
        decreases self,
    {
        match self {
            BlockOrStatement::Block(n) => 1 + n.depth(),
            BlockOrStatement::Statement(n) => 1 + n.depth(),
        }
    }

    open spec fn same_as(&self, other: &Self) -> bool
        decreases self,
    {
        match (self, other) {
            (BlockOrStatement::Block(a), BlockOrStatement::Block(b)) => a.same_as(b),
            (BlockOrStatement::Statement(a), BlockOrStatement::Statement(b)) => a.same_as(&**b),
            _ => false,
        }
    }
}

/// A `break` statement.
#[derive(Debug, PartialEq, Eq)]
pub struct Break {
    pub id: usize,
    pub src: SourceLocation,
}

impl Shape for Break {
    open spec fn depth(&self) -> nat {
        0
    }

    open spec fn same_as(&self, other: &Self) -> bool {
        *self == *other
    }
}

/// A `continue` statement.
#[derive(Debug, PartialEq, Eq)]
pub struct Continue {
    pub id: usize,
    pub src: SourceLocation,
}

impl Shape for Continue {
    open spec fn depth(&self) -> nat {
        0
    }

    open spec fn same_as(&self, other: &Self) -> bool {
        *self == *other
    }
}

/// A `do ... while` loop.
#[derive(Debug, PartialEq, Eq)]
pub struct DoWhileStatement {
    pub id: usize,
    pub src: SourceLocation,
    pub block: Block,
    pub condition: Expression,
}

impl Shape for DoWhileStatement {
    open spec fn depth(&self) -> nat
        decreases self,
    {
        1 + top(self.block.depth(), self.condition.depth())
    }

    open spec fn same_as(&self, other: &Self) -> bool
        decreases self,
    {
        &&& *other == (DoWhileStatement { block: other.block, condition: other.condition, ..*self })
        &&& self.block.same_as(&other.block)
        &&& self.condition.same_as(&other.condition)
    }
}

/// An `emit` statement: the call that names the event.
#[derive(Debug, PartialEq, Eq)]
pub struct EmitStatement {
    pub id: usize,
    pub src: SourceLocation,
    pub event_call: FunctionCall,
}

impl Shape for EmitStatement {
    open spec fn depth(&self) -> nat
        decreases self,
    {
        1 + self.event_call.depth()
    }

    open spec fn same_as(&self, other: &Self) -> bool
        decreases self,
    {
        &&& *other == (EmitStatement { event_call: other.event_call, ..*self })
        &&& self.event_call.same_as(&other.event_call)
    }
}

/// An expression used as a statement.
#[derive(Debug, PartialEq, Eq)]
pub struct ExpressionStatement {
    pub id: usize,
    pub src: SourceLocation,
    pub expression: Expression,
}

impl Shape for ExpressionStatement {
    open spec fn depth(&self) -> nat
        decreases self,
    {
        1 + self.expression.depth()
    }

    open spec fn same_as(&self, other: &Self) -> bool
        decreases self,
    {
        &&& *other == (ExpressionStatement { expression: other.expression, ..*self })
        &&& self.expression.same_as(&other.expression)
    }
}

/// What may stand in the first slot of a `for` header.
#[derive(Debug, PartialEq, Eq)]
pub enum ExpressionOrVariableDeclarationStatement {
    ExpressionStatement(ExpressionStatement),
    VariableDeclarationStatement(VariableDeclarationStatement),
}

impl Shape for ExpressionOrVariableDeclarationStatement {
    open spec fn depth(&self) -> nat
        decreases self,
    {
        match self {
            ExpressionOrVariableDeclarationStatement::ExpressionStatement(n) => 1 + n.depth(),
            ExpressionOrVariableDeclarationStatement::VariableDeclarationStatement(n) => {
                1 + n.depth()
            },
        }
    }

    open spec fn same_as(&self, other: &Self) -> bool
        decreases self,
    {
        match (self, other) {
            (
                ExpressionOrVariableDeclarationStatement::ExpressionStatement(a),
                ExpressionOrVariableDeclarationStatement::ExpressionStatement(b),
            ) => a.same_as(b),
            (
                ExpressionOrVariableDeclarationStatement::VariableDeclarationStatement(a),
                ExpressionOrVariableDeclarationStatement::VariableDeclarationStatement(b),
            ) => a.same_as(b),
            _ => false,
        }
    }
}

/// A `for` loop.
#[derive(Debug, PartialEq, Eq)]
pub struct ForStatement {
    pub id: usize,
    pub src: SourceLocation,
    pub body: BlockOrStatement,
    pub condition: Option<Expression>,
    pub initialization_expression: Option<ExpressionOrVariableDeclarationStatement>,
    pub loop_expression: Option<ExpressionStatement>,
}

impl Shape for ForStatement {
    open spec fn depth(&self) -> nat
        decreases self,
    {
        1 + top(
            top(
                top(
                    self.body.depth(),
                    (match self.condition {
                                    Some(e) => e.depth(),
                                    None => 0,
                                }),
                ),
                (match self.initialization_expression {
                                Some(e) => e.depth(),
                                None => 0,
                            }),
            ),
            (match self.loop_expression {
                            Some(e) => e.depth(),
                            None => 0,
                        }),
        )
    }

    open spec fn same_as(&self, other: &Self) -> bool
        decreases self,
    {
        &&& *other == (ForStatement {
            body: other.body,
            condition: other.condition,
            initialization_expression: other.initialization_expression,
            loop_expression: other.loop_expression,
            ..*self
        })
        &&& self.body.same_as(&other.body)
        &&& (match (self.condition, other.condition) {
            (Some(a), Some(b)) => a.same_as(&b),
            (None, None) => true,
            _ => false,
        })
        &&& (match (self.initialization_expression, other.initialization_expression) {
            (Some(a), Some(b)) => a.same_as(&b),
            (None, None) => true,
            _ => false,
        })
        &&& (match (self.loop_expression, other.loop_expression) {
            (Some(a), Some(b)) => a.same_as(&b),
            (None, None) => true,
            _ => false,
        })
    }
}

/// An `if` statement, with or without an `else` branch.
#[derive(Debug, PartialEq, Eq)]
pub struct IfStatement {
    pub id: usize,
    pub src: SourceLocation,
    pub condition: Expression,
    pub false_body: Option<BlockOrStatement>,
    pub true_body: BlockOrStatement,
}

impl Shape for IfStatement {
    open spec fn depth(&self) -> nat
        decreases self,
    {
        1 + top(
            top(
                self.condition.depth(),
                (match self.false_body {
                                Some(e) => e.depth(),
                                None => 0,
                            }),
            ),
            self.true_body.depth(),
        )
    }

    open spec fn same_as(&self, other: &Self) -> bool
        decreases self,
    {
        &&& *other == (IfStatement {
            condition: other.condition,
            false_body: other.false_body,
            true_body: other.true_body,
            ..*self
        })
        &&& self.condition.same_as(&other.condition)
        &&& (match (self.false_body, other.false_body) {
            (Some(a), Some(b)) => a.same_as(&b),
            (None, None) => true,
            _ => false,
        })
        &&& self.true_body.same_as(&other.true_body)
    }
}

/// An inline assembly block.
#[derive(Debug, PartialEq, Eq)]
pub struct InlineAssembly {
    pub id: usize,
    pub src: SourceLocation,
    pub ast: YulBlock,
    pub documentation: Option<String>,
}

impl Shape for InlineAssembly {
    open spec fn depth(&self) -> nat
        decreases self,
    {
        1 + self.ast.depth()
    }

    open spec fn same_as(&self, other: &Self) -> bool
        decreases self,
    {
        &&& *other == (InlineAssembly { ast: other.ast, ..*self })
        &&& self.ast.same_as(&other.ast)
    }
}

/// The placeholder `_` in the body of a modifier.
#[derive(Debug, PartialEq, Eq)]
pub struct PlaceholderStatement {
    pub id: usize,
    pub src: SourceLocation,
}

impl Shape for PlaceholderStatement {
    open spec fn depth(&self) -> nat {
        0
    }

    open spec fn same_as(&self, other: &Self) -> bool {
        *self == *other
    }
}

/// A `return` statement.
#[derive(Debug, PartialEq, Eq)]
pub struct Return {
    pub id: usize,
    pub src: SourceLocation,
    pub expression: Option<Expression>,
    pub function_return_parameters: usize,
}

impl Shape for Return {
    open spec fn depth(&self) -> nat
        decreases self,
    {
        1 + (match self.expression {
                        Some(e) => e.depth(),
                        None => 0,
                    })
    }

    open spec fn same_as(&self, other: &Self) -> bool
        decreases self,
    {
        &&& *other == (Return { expression: other.expression, ..*self })
        &&& (match (self.expression, other.expression) {
            (Some(a), Some(b)) => a.same_as(&b),
            (None, None) => true,
            _ => false,
        })
    }
}

/// A `revert` statement: the call that names the error.
#[derive(Debug, PartialEq, Eq)]
pub struct RevertStatement {
    pub id: usize,
    pub src: SourceLocation,
    pub error_call: FunctionCall,
}

impl Shape for RevertStatement {
    open spec fn depth(&self) -> nat
        decreases self,
    {
        1 + self.error_call.depth()
    }

    open spec fn same_as(&self, other: &Self) -> bool
        decreases self,
    {
        &&& *other == (RevertStatement { error_call: other.error_call, ..*self })
        &&& self.error_call.same_as(&other.error_call)
    }
}

/// A `try` statement: the external call and the clauses that handle its outcomes.
#[derive(Debug, PartialEq, Eq)]
pub struct TryStatement {
    pub id: usize,
    pub src: SourceLocation,
    pub clauses: Vec<TryCatchClause>,
    pub external_call: FunctionCall,
}

impl Shape for TryStatement {
    open spec fn depth(&self) -> nat
        decreases self,
    {
        1 + top(try_catch_clauses_depth(self.clauses@), self.external_call.depth())
    }

    open spec fn same_as(&self, other: &Self) -> bool
        decreases self,
    {
        &&& *other == (TryStatement {
            clauses: other.clauses,
            external_call: other.external_call,
            ..*self
        })
        &&& try_catch_clauses_same(self.clauses@, other.clauses@)
        &&& self.external_call.same_as(&other.external_call)
    }
}

/// One clause of a `try` statement.
#[derive(Debug, PartialEq, Eq)]
pub struct TryCatchClause {
    pub id: usize,
    pub src: SourceLocation,
    pub block: Block,
    pub error_name: String,
    pub parameters: Option<ParameterList>,
}

impl Shape for TryCatchClause {
    open spec fn depth(&self) -> nat
        decreases self,
    {
        1 + top(
            self.block.depth(),
            (match self.parameters {
                            Some(e) => e.depth(),
                            None => 0,
                        }),
        )
    }

    open spec fn same_as(&self, other: &Self) -> bool
        decreases self,
    {
        &&& *other == (TryCatchClause { block: other.block, parameters: other.parameters, ..*self })
        &&& self.block.same_as(&other.block)
        &&& (match (self.parameters, other.parameters) {
            (Some(a), Some(b)) => a.same_as(&b),
            (None, None) => true,
            _ => false,
        })
    }
}

/// The depth of each of `items`, in order.
pub open spec fn try_catch_clauses_depths(items: Seq<TryCatchClause>) -> Seq<nat>
    decreases items, 0int,
{
    Seq::new(
        items.len(),
        |i: int|
            if 0 <= i < items.len() {
                items[i].depth()
            } else {
                0
            },
    )
}

/// The depth of the deepest of `items`, or 0 if there is none.
pub open spec fn try_catch_clauses_depth(items: Seq<TryCatchClause>) -> nat
    decreases items, 1int,
{
    max_of(try_catch_clauses_depths(items))
}

/// `a` and `b` are equally long, and each item of `a` holds what its partner in `b`
/// holds.
pub open spec fn try_catch_clauses_same(a: Seq<TryCatchClause>, b: Seq<TryCatchClause>) -> bool
    decreases a,
{
    &&& a.len() == b.len()
    &&& forall|i: int| #![trigger a[i]] 0 <= i < a.len() ==> a[i].same_as(&b[i])
}

/// No item is deeper than the deepest.
pub proof fn lemma_try_catch_clauses_depth_bound(items: Seq<TryCatchClause>, i: int)
    requires
        0 <= i < items.len(),
    ensures
        try_catch_clauses_depths(items)[i] <= try_catch_clauses_depth(items),
{
    lemma_max_of_bounds(try_catch_clauses_depths(items), i);
}

/// Where no item has become deeper, the deepest has not either.
pub proof fn lemma_try_catch_clauses_depth_mono(a: Seq<TryCatchClause>, b: Seq<TryCatchClause>)
    requires
        a.len() == b.len(),
        forall|i: int|
            0 <= i < a.len() ==> try_catch_clauses_depths(a)[i] <= try_catch_clauses_depths(b)[i],
    ensures
        try_catch_clauses_depth(a) <= try_catch_clauses_depth(b),
{
    lemma_max_of_mono(try_catch_clauses_depths(a), try_catch_clauses_depths(b));
}

/// An `unchecked` block.
#[derive(Debug, PartialEq, Eq)]
pub struct UncheckedBlock {
    pub id: usize,
    pub src: SourceLocation,
    pub statements: Vec<Statement>,
}

impl Shape for UncheckedBlock {
    open spec fn depth(&self) -> nat
        decreases self,
    {
        1 + statements_depth(self.statements@)
    }

    open spec fn same_as(&self, other: &Self) -> bool
        decreases self,
    {
        &&& *other == (UncheckedBlock { statements: other.statements, ..*self })
        &&& statements_same(self.statements@, other.statements@)
    }
}

/// A statement that declares local variables; in a tuple declaration a slot may be left out.
#[derive(Debug, PartialEq, Eq)]
pub struct VariableDeclarationStatement {
    pub id: usize,
    pub src: SourceLocation,
    pub assignments: Vec<Option<usize>>,
    pub declarations: Vec<Option<VariableDeclaration>>,
    pub initial_value: Option<Expression>,
}

impl Shape for VariableDeclarationStatement {
    open spec fn depth(&self) -> nat
        decreases self,
    {
        1 + top(
            optional_variable_declarations_depth(self.declarations@),
            (match self.initial_value {
                            Some(e) => e.depth(),
                            None => 0,
                        }),
        )
    }

    open spec fn same_as(&self, other: &Self) -> bool
        decreases self,
    {
        &&& *other == (VariableDeclarationStatement {
            declarations: other.declarations,
            initial_value: other.initial_value,
            ..*self
        })
        &&& optional_variable_declarations_same(self.declarations@, other.declarations@)
        &&& (match (self.initial_value, other.initial_value) {
            (Some(a), Some(b)) => a.same_as(&b),
            (None, None) => true,
            _ => false,
        })
    }
}

/// A `while` loop.
#[derive(Debug, PartialEq, Eq)]
pub struct WhileStatement {
    pub id: usize,
    pub src: SourceLocation,
    pub body: BlockOrStatement,
    pub condition: Expression,
}

impl Shape for WhileStatement {
    open spec fn depth(&self) -> nat
        decreases self,
    {
        1 + top(self.body.depth(), self.condition.depth())
    }

    open spec fn same_as(&self, other: &Self) -> bool
        decreases self,
    {
        &&& *other == (WhileStatement { body: other.body, condition: other.condition, ..*self })
        &&& self.body.same_as(&other.body)
        &&& self.condition.same_as(&other.condition)
    }
}

} // verus!
