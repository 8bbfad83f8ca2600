//! Expressions.

use vstd::prelude::*;
use crate::ast::definition::Identifier;
use crate::ast::types::{ElementaryTypeName, TypeName, lemma_type_name_same_chain};
use crate::misc::{SourceLocation, TypeDescriptions};
use crate::shape::{Shape, lemma_max_of_bounds, lemma_max_of_mono, max_of, top};

verus! {

/// An expression.
#[derive(Debug, PartialEq, Eq)]
pub enum Expression {
    Assignment(Assignment),
    BinaryOperation(BinaryOperation),
    Conditional(Conditional),
    ElementaryTypeNameExpression(ElementaryTypeNameExpression),
    FunctionCall(FunctionCall),
    FunctionCallOptions(FunctionCallOptions),
    Identifier(Identifier),
    IndexAccess(IndexAccess),
    IndexRangeAccess(IndexRangeAccess),
    Literal(Literal),
    MemberAccess(MemberAccess),
    NewExpression(NewExpression),
    TupleExpression(TupleExpression),
    UnaryOperation(UnaryOperation),
}

impl Shape for Expression {
    open spec fn depth(&self) -> nat
        decreases self,
    {
        match self {
            Expression::Assignment(n) => 1 + n.depth(),
            Expression::BinaryOperation(n) => 1 + n.depth(),
            Expression::Conditional(n) => 1 + n.depth(),
            Expression::ElementaryTypeNameExpression(n) => 1 + n.depth(),
            Expression::FunctionCall(n) => 1 + n.depth(),
            Expression::FunctionCallOptions(n) => 1 + n.depth(),
            Expression::Identifier(n) => 1 + n.depth(),
            Expression::IndexAccess(n) => 1 + n.depth(),
            Expression::IndexRangeAccess(n) => 1 + n.depth(),
            Expression::Literal(n) => 1 + n.depth(),
            Expression::MemberAccess(n) => 1 + n.depth(),
            Expression::NewExpression(n) => 1 + n.depth(),
            Expression::TupleExpression(n) => 1 + n.depth(),
            Expression::UnaryOperation(n) => 1 + n.depth(),
        }
    }

    open spec fn same_as(&self, other: &Self) -> bool
        decreases self,
    {
        match (self, other) {
            (Expression::Assignment(a), Expression::Assignment(b)) => a.same_as(b),
            (Expression::BinaryOperation(a), Expression::BinaryOperation(b)) => a.same_as(b),
            (Expression::Conditional(a), Expression::Conditional(b)) => a.same_as(b),
            (
                Expression::ElementaryTypeNameExpression(a),
                Expression::ElementaryTypeNameExpression(b),
            ) => a.same_as(b),
            (Expression::FunctionCall(a), Expression::FunctionCall(b)) => a.same_as(b),
            (
                Expression::FunctionCallOptions(a),
                Expression::FunctionCallOptions(b),
            ) => a.same_as(b),
            (Expression::Identifier(a), Expression::Identifier(b)) => a.same_as(b),
            (Expression::IndexAccess(a), Expression::IndexAccess(b)) => a.same_as(b),
            (Expression::IndexRangeAccess(a), Expression::IndexRangeAccess(b)) => a.same_as(b),
            (Expression::Literal(a), Expression::Literal(b)) => a.same_as(b),
            (Expression::MemberAccess(a), Expression::MemberAccess(b)) => a.same_as(b),
            (Expression::NewExpression(a), Expression::NewExpression(b)) => a.same_as(b),
            (Expression::TupleExpression(a), Expression::TupleExpression(b)) => a.same_as(b),
            (Expression::UnaryOperation(a), Expression::UnaryOperation(b)) => a.same_as(b),
            _ => false,
        }
    }
}

/// The depth of each of `items`, in order.
pub open spec fn expressions_depths(items: Seq<Expression>) -> Seq<nat>
    decreases items, 0int,
{
    Seq::new(
        items.len(),
        |i: int|
            if 0 <= i < items.len() {
                items[i].depth()
            } else {
                0
            },
    )
}

/// The depth of the deepest of `items`, or 0 if there is none.
pub open spec fn expressions_depth(items: Seq<Expression>) -> nat
    decreases items, 1int,
{
    max_of(expressions_depths(items))
}

/// `a` and `b` are equally long, and each item of `a` holds what its partner in `b`
/// holds.
pub open spec fn expressions_same(a: Seq<Expression>, b: Seq<Expression>) -> bool
    decreases a,
{
    &&& a.len() == b.len()
    &&& forall|i: int| #![trigger a[i]] 0 <= i < a.len() ==> a[i].same_as(&b[i])
}

/// No item is deeper than the deepest.
pub proof fn lemma_expressions_depth_bound(items: Seq<Expression>, i: int)
    requires
        0 <= i < items.len(),
    ensures
        expressions_depths(items)[i] <= expressions_depth(items),
{
    lemma_max_of_bounds(expressions_depths(items), i);
}

/// Where no item has become deeper, the deepest has not either.
pub proof fn lemma_expressions_depth_mono(a: Seq<Expression>, b: Seq<Expression>)
    requires
        a.len() == b.len(),
        forall|i: int| 0 <= i < a.len() ==> expressions_depths(a)[i] <= expressions_depths(b)[i],
    ensures
        expressions_depth(a) <= expressions_depth(b),
{
    lemma_max_of_mono(expressions_depths(a), expressions_depths(b));
}

/// The depth of each of `items`, in order.
pub open spec fn optional_expressions_depths(items: Seq<Option<Expression>>) -> Seq<nat>
    decreases items, 0int,
{
    Seq::new(
        items.len(),
        |i: int|
            if 0 <= i < items.len() {
                match items[i] {
                    Some(e) => e.depth(),
                    None => 0,
                }
            } else {
                0
            },
    )
}

/// The depth of the deepest of `items`, or 0 if there is none.
pub open spec fn optional_expressions_depth(items: Seq<Option<Expression>>) -> nat
    decreases items, 1int,
{
    max_of(optional_expressions_depths(items))
}

/// `a` and `b` are equally long, and each item of `a` holds what its partner in `b`
/// holds.
pub open spec fn optional_expressions_same(
    a: Seq<Option<Expression>>,
    b: Seq<Option<Expression>>,
) -> bool
    decreases a,
{
    &&& a.len() == b.len()
    &&& forall|i: int| #![trigger a[i]] 0 <= i < a.len() ==> (match (a[i], b[i]) {
            (Some(x), Some(y)) => x.same_as(&y),
            (None, None) => true,
            _ => false,
        })
}

/// No item is deeper than the deepest.
pub proof fn lemma_optional_expressions_depth_bound(items: Seq<Option<Expression>>, i: int)
    requires
        0 <= i < items.len(),
    ensures
        optional_expressions_depths(items)[i] <= optional_expressions_depth(items),
{
    lemma_max_of_bounds(optional_expressions_depths(items), i);
}

/// Where no item has become deeper, the deepest has not either.
pub proof fn lemma_optional_expressions_depth_mono(
    a: Seq<Option<Expression>>,
    b: Seq<Option<Expression>>,
)
    requires
        a.len() == b.len(),
        forall|i: int|
            0 <= i < a.len() ==> optional_expressions_depths(a)[i]
                <= optional_expressions_depths(b)[i],
    ensures
        optional_expressions_depth(a) <= optional_expressions_depth(b),
{
    lemma_max_of_mono(optional_expressions_depths(a), optional_expressions_depths(b));
}

/// Sameness carries over: if `a` holds what `b` holds, and `b` what `c` holds, then `a`
/// holds what `c` holds.
pub proof fn lemma_expression_same_chain(a: Expression, b: Expression, c: Expression)
    requires
        a.same_as(&b),
        b.same_as(&c),
    ensures
        a.same_as(&c),
    decreases a,
{
    match (a, b, c) {
        (
            Expression::Assignment(x),
            Expression::Assignment(y),
            Expression::Assignment(z),
        ) => lemma_assignment_same_chain(x, y, z),
        (
            Expression::BinaryOperation(x),
            Expression::BinaryOperation(y),
            Expression::BinaryOperation(z),
        ) => lemma_binary_operation_same_chain(x, y, z),
        (
            Expression::Conditional(x),
            Expression::Conditional(y),
            Expression::Conditional(z),
        ) => lemma_conditional_same_chain(x, y, z),
        (
            Expression::FunctionCall(x),
            Expression::FunctionCall(y),
            Expression::FunctionCall(z),
        ) => lemma_function_call_same_chain(x, y, z),
        (
            Expression::FunctionCallOptions(x),
            Expression::FunctionCallOptions(y),
            Expression::FunctionCallOptions(z),
        ) => lemma_function_call_options_same_chain(x, y, z),
        (
            Expression::IndexAccess(x),
            Expression::IndexAccess(y),
            Expression::IndexAccess(z),
        ) => lemma_index_access_same_chain(x, y, z),
        (
            Expression::IndexRangeAccess(x),
            Expression::IndexRangeAccess(y),
            Expression::IndexRangeAccess(z),
        ) => lemma_index_range_access_same_chain(x, y, z),
        (
            Expression::MemberAccess(x),
            Expression::MemberAccess(y),
            Expression::MemberAccess(z),
        ) => lemma_member_access_same_chain(x, y, z),
        (
            Expression::NewExpression(x),
            Expression::NewExpression(y),
            Expression::NewExpression(z),
        ) => lemma_new_expression_same_chain(x, y, z),
        (
            Expression::TupleExpression(x),
            Expression::TupleExpression(y),
            Expression::TupleExpression(z),
        ) => lemma_tuple_expression_same_chain(x, y, z),
        (
            Expression::UnaryOperation(x),
            Expression::UnaryOperation(y),
            Expression::UnaryOperation(z),
        ) => lemma_unary_operation_same_chain(x, y, z),
        _ => {},
    }
}

/// Sameness carries over, item by item.
pub proof fn lemma_expressions_same_chain(
    a: Seq<Expression>,
    b: Seq<Expression>,
    c: Seq<Expression>,
)
    requires
        expressions_same(a, b),
        expressions_same(b, c),
    ensures
        expressions_same(a, c),
    decreases a,
{
    assert forall|i: int| #![trigger a[i]] 0 <= i < a.len() implies a[i].same_as(&c[i]) by {
        assert(b[i] == b[i]);
        lemma_expression_same_chain(a[i], b[i], c[i]);
    }
}

/// Sameness carries over, item by item.
pub proof fn lemma_optional_expressions_same_chain(
    a: Seq<Option<Expression>>,
    b: Seq<Option<Expression>>,
    c: Seq<Option<Expression>>,
)
    requires
        optional_expressions_same(a, b),
        optional_expressions_same(b, c),
    ensures
        optional_expressions_same(a, c),
    decreases a,
{
    assert forall|i: int| #![trigger a[i]] 0 <= i < a.len() implies (match (a[i], c[i]) {
        (Some(x), Some(z)) => x.same_as(&z),
        (None, None) => true,
        _ => false,
    }) by {
        assert(b[i] == b[i]);
        match (a[i], b[i], c[i]) {
            (Some(x), Some(y), Some(z)) => lemma_expression_same_chain(x, y, z),
            _ => {},
        }
    }
}

/// An assignment, plain or compound.
#[derive(Debug, PartialEq, Eq)]
pub struct Assignment {
    pub id: usize,
    pub src: SourceLocation,
    pub type_descriptions: TypeDescriptions,
    pub lhs: Box<Expression>,
    pub operator: AssignmentOperator,
    pub rhs: Box<Expression>,
}

impl Shape for Assignment {
    open spec fn depth(&self) -> nat
        decreases self,
    {
        1 + top(self.lhs.depth(), self.rhs.depth())
    }

    open spec fn same_as(&self, other: &Self) -> bool
        decreases self,
    {
        &&& *other == (Assignment { lhs: other.lhs, rhs: other.rhs, ..*self })
        &&& self.lhs.same_as(&*other.lhs)
        &&& self.rhs.same_as(&*other.rhs)
    }
}

/// Sameness carries over: if `a` holds what `b` holds, and `b` what `c` holds, then `a`
/// holds what `c` holds.
pub proof fn lemma_assignment_same_chain(a: Assignment, b: Assignment, c: Assignment)
    requires
        a.same_as(&b),
        b.same_as(&c),
    ensures
        a.same_as(&c),
    decreases a,
{
    lemma_expression_same_chain(*a.lhs, *b.lhs, *c.lhs);
    lemma_expression_same_chain(*a.rhs, *b.rhs, *c.rhs);
}

/// The operator of an assignment.
#[derive(Debug, Clone, Copy, PartialEq, Eq)]
pub enum AssignmentOperator {
    Assign,
    AddAssign,
    SubAssign,
    MulAssign,
    DivAssign,
    ModAssign,
    OrAssign,
    AndAssign,
    XorAssign,
    ShrAssign,
    ShlAssign,
}

impl Shape for AssignmentOperator {
    open spec fn depth(&self) -> nat {
        0
    }

    open spec fn same_as(&self, other: &Self) -> bool {
        *self == *other
    }
}

/// An operation on two operands.
#[derive(Debug, PartialEq, Eq)]
pub struct BinaryOperation {
    pub id: usize,
    pub src: SourceLocation,
    pub type_descriptions: TypeDescriptions,
    pub common_type: TypeDescriptions,
    pub lhs: Box<Expression>,
    pub operator: BinaryOperator,
    pub rhs: Box<Expression>,
}

impl Shape for BinaryOperation {
    open spec fn depth(&self) -> nat
        decreases self,
    {
        1 + top(self.lhs.depth(), self.rhs.depth())
    }

    open spec fn same_as(&self, other: &Self) -> bool
        decreases self,
    {
        &&& *other == (BinaryOperation { lhs: other.lhs, rhs: other.rhs, ..*self })
        &&& self.lhs.same_as(&*other.lhs)
        &&& self.rhs.same_as(&*other.rhs)
    }
}

/// Sameness carries over: if `a` holds what `b` holds, and `b` what `c` holds, then `a`
/// holds what `c` holds.
pub proof fn lemma_binary_operation_same_chain(
    a: BinaryOperation,
    b: BinaryOperation,
    c: BinaryOperation,
)
    requires
        a.same_as(&b),
        b.same_as(&c),
    ensures
        a.same_as(&c),
    decreases a,
{
    lemma_expression_same_chain(*a.lhs, *b.lhs, *c.lhs);
    lemma_expression_same_chain(*a.rhs, *b.rhs, *c.rhs);
}

/// The operator of a binary operation.
#[derive(Debug, Clone, Copy, PartialEq, Eq)]
pub enum BinaryOperator {
    Add,
    Sub,
    Mul,
    Div,
    Mod,
    Pow,
    And,
    Or,
    NotEqual,
    Equal,
    LessThan,
    LessThanOrEqual,
    GreaterThan,
    GreaterThanOrEqual,
    Xor,
    BitAnd,
    BitOr,
    Shl,
    Shr,
}

impl Shape for BinaryOperator {
    open spec fn depth(&self) -> nat {
        0
    }

    open spec fn same_as(&self, other: &Self) -> bool {
        *self == *other
    }
}

/// A conditional expression, `condition ? true_expression : false_expression`.
#[derive(Debug, PartialEq, Eq)]
pub struct Conditional {
    pub id: usize,
    pub src: SourceLocation,
    pub type_descriptions: TypeDescriptions,
    pub condition: Box<Expression>,
    pub false_expression: Box<Expression>,
    pub true_expression: Box<Expression>,
}

impl Shape for Conditional {
    open spec fn depth(&self) -> nat
        decreases self,
    {
        1 + top(self.condition.depth(), self.false_expression.depth())
    }

    open spec fn same_as(&self, other: &Self) -> bool
        decreases self,
    {
        &&& *other == (Conditional {
            condition: other.condition,
            false_expression: other.false_expression,
            ..*self
        })
        &&& self.condition.same_as(&*other.condition)
        &&& self.false_expression.same_as(&*other.false_expression)
    }
}

/// Sameness carries over: if `a` holds what `b` holds, and `b` what `c` holds, then `a`
/// holds what `c` holds.
pub proof fn lemma_conditional_same_chain(a: Conditional, b: Conditional, c: Conditional)
    requires
        a.same_as(&b),
        b.same_as(&c),
    ensures
        a.same_as(&c),
    decreases a,
{
    lemma_expression_same_chain(*a.condition, *b.condition, *c.condition);
    lemma_expression_same_chain(*a.false_expression, *b.false_expression, *c.false_expression);
}

/// An elementary type used as an expression, as in `uint256(x)`.
#[derive(Debug, PartialEq, Eq)]
pub struct ElementaryTypeNameExpression {
    pub id: usize,
    pub src: SourceLocation,
    pub type_descriptions: TypeDescriptions,
    pub elementary_type: ElementaryTypeName,
}

impl Shape for ElementaryTypeNameExpression {
    open spec fn depth(&self) -> nat {
        0
    }

    open spec fn same_as(&self, other: &Self) -> bool {
        *self == *other
    }
}

/// A call: of a function, a type conversion or a struct constructor.
#[derive(Debug, PartialEq, Eq)]
pub struct FunctionCall {
    pub id: usize,
    pub src: SourceLocation,
    pub type_descriptions: TypeDescriptions,
    pub arguments: Vec<Expression>,
    pub expression: Box<Expression>,
    pub kind: FunctionCallKind,
    pub names: Vec<String>,
    pub try_call: bool,
}

impl Shape for FunctionCall {
    open spec fn depth(&self) -> nat
        decreases self,
    {
        1 + top(expressions_depth(self.arguments@), self.expression.depth())
    }

    open spec fn same_as(&self, other: &Self) -> bool
        decreases self,
    {
        &&& *other == (FunctionCall {
            arguments: other.arguments,
            expression: other.expression,
            ..*self
        })
        &&& expressions_same(self.arguments@, other.arguments@)
        &&& self.expression.same_as(&*other.expression)
    }
}

/// Sameness carries over: if `a` holds what `b` holds, and `b` what `c` holds, then `a`
/// holds what `c` holds.
pub proof fn lemma_function_call_same_chain(a: FunctionCall, b: FunctionCall, c: FunctionCall)
    requires
        a.same_as(&b),
        b.same_as(&c),
    ensures
        a.same_as(&c),
    decreases a,
{
    lemma_expressions_same_chain(a.arguments@, b.arguments@, c.arguments@);
    lemma_expression_same_chain(*a.expression, *b.expression, *c.expression);
}

/// What a call does.
#[derive(Debug, Clone, Copy, PartialEq, Eq)]
pub enum FunctionCallKind {
    FunctionCall,
    TypeConversion,
    StructConstructorCall,
}

impl Shape for FunctionCallKind {
    open spec fn depth(&self) -> nat {
        0
    }

    open spec fn same_as(&self, other: &Self) -> bool {
        *self == *other
    }
}

/// A callee with call options, as in `f{value: 1}`.
#[derive(Debug, PartialEq, Eq)]
pub struct FunctionCallOptions {
    pub id: usize,
    pub src: SourceLocation,
    pub type_descriptions: TypeDescriptions,
    pub expression: Box<Expression>,
    pub names: Vec<String>,
    pub options: Vec<Expression>,
}

impl Shape for FunctionCallOptions {
    open spec fn depth(&self) -> nat
        decreases self,
    {
        1 + top(self.expression.depth(), expressions_depth(self.options@))
    }

    open spec fn same_as(&self, other: &Self) -> bool
        decreases self,
    {
        &&& *other == (FunctionCallOptions {
            expression: other.expression,
            options: other.options,
            ..*self
        })
        &&& self.expression.same_as(&*other.expression)
        &&& expressions_same(self.options@, other.options@)
    }
}

/// Sameness carries over: if `a` holds what `b` holds, and `b` what `c` holds, then `a`
/// holds what `c` holds.
pub proof fn lemma_function_call_options_same_chain(
    a: FunctionCallOptions,
    b: FunctionCallOptions,
    c: FunctionCallOptions,
)
    requires
        a.same_as(&b),
        b.same_as(&c),
    ensures
        a.same_as(&c),
    decreases a,
{
    lemma_expression_same_chain(*a.expression, *b.expression, *c.expression);
    lemma_expressions_same_chain(a.options@, b.options@, c.options@);
}

/// An index into an array or mapping, `base[index]`.
#[derive(Debug, PartialEq, Eq)]
pub struct IndexAccess {
    pub id: usize,
    pub src: SourceLocation,
    pub type_descriptions: TypeDescriptions,
    pub base_expression: Box<Expression>,
    pub index_expression: Option<Box<Expression>>,
}

impl Shape for IndexAccess {
    open spec fn depth(&self) -> nat
        decreases self,
    {
        1 + top(
            self.base_expression.depth(),
            (match self.index_expression {
                            Some(e) => e.depth(),
                            None => 0,
                        }),
        )
    }

    open spec fn same_as(&self, other: &Self) -> bool
        decreases self,
    {
        &&& *other == (IndexAccess {
            base_expression: other.base_expression,
            index_expression: other.index_expression,
            ..*self
        })
        &&& self.base_expression.same_as(&*other.base_expression)
        &&& (match (self.index_expression, other.index_expression) {
            (Some(a), Some(b)) => a.same_as(&*b),
            (None, None) => true,
            _ => false,
        })
    }
}

/// Sameness carries over: if `a` holds what `b` holds, and `b` what `c` holds, then `a`
/// holds what `c` holds.
pub proof fn lemma_index_access_same_chain(a: IndexAccess, b: IndexAccess, c: IndexAccess)
    requires
        a.same_as(&b),
        b.same_as(&c),
    ensures
        a.same_as(&c),
    decreases a,
{
    lemma_expression_same_chain(*a.base_expression, *b.base_expression, *c.base_expression);
    match (a.index_expression, b.index_expression, c.index_expression) {
        (Some(x), Some(y), Some(z)) => lemma_expression_same_chain(*x, *y, *z),
        _ => {},
    }
}

/// A slice of an array, `base[start:end]`.
#[derive(Debug, PartialEq, Eq)]
pub struct IndexRangeAccess {
    pub id: usize,
    pub src: SourceLocation,
    pub type_descriptions: TypeDescriptions,
    pub base_expression: Box<Expression>,
    pub start_expression: Option<Box<Expression>>,
    pub end_expression: Option<Box<Expression>>,
}

impl Shape for IndexRangeAccess {
    open spec fn depth(&self) -> nat
        decreases self,
    {
        1 + top(
            top(
                self.base_expression.depth(),
                (match self.start_expression {
                                Some(e) => e.depth(),
                                None => 0,
                            }),
            ),
            (match self.end_expression {
                            Some(e) => e.depth(),
                            None => 0,
                        }),
        )
    }

    open spec fn same_as(&self, other: &Self) -> bool
        decreases self,
    {
        &&& *other == (IndexRangeAccess {
            base_expression: other.base_expression,
            start_expression: other.start_expression,
            end_expression: other.end_expression,
            ..*self
        })
        &&& self.base_expression.same_as(&*other.base_expression)
        &&& (match (self.start_expression, other.start_expression) {
            (Some(a), Some(b)) => a.same_as(&*b),
            (None, None) => true,
            _ => false,
        })
        &&& (match (self.end_expression, other.end_expression) {
            (Some(a), Some(b)) => a.same_as(&*b),
            (None, None) => true,
            _ => false,
        })
    }
}

/// Sameness carries over: if `a` holds what `b` holds, and `b` what `c` holds, then `a`
/// holds what `c` holds.
pub proof fn lemma_index_range_access_same_chain(
    a: IndexRangeAccess,
    b: IndexRangeAccess,
    c: IndexRangeAccess,
)
    requires
        a.same_as(&b),
        b.same_as(&c),
    ensures
        a.same_as(&c),
    decreases a,
{
    lemma_expression_same_chain(*a.base_expression, *b.base_expression, *c.base_expression);
    match (a.start_expression, b.start_expression, c.start_expression) {
        (Some(x), Some(y), Some(z)) => lemma_expression_same_chain(*x, *y, *z),
        _ => {},
    }
    match (a.end_expression, b.end_expression, c.end_expression) {
        (Some(x), Some(y), Some(z)) => lemma_expression_same_chain(*x, *y, *z),
        _ => {},
    }
}

/// A literal value.
#[derive(Debug, PartialEq, Eq)]
pub struct Literal {
    pub id: usize,
    pub src: SourceLocation,
    pub type_descriptions: TypeDescriptions,
    pub kind: LiteralKind,
    pub value: Option<String>,
    pub hex_value: String,
}

impl Shape for Literal {
    open spec fn depth(&self) -> nat {
        0
    }

    open spec fn same_as(&self, other: &Self) -> bool {
        *self == *other
    }
}

/// What a literal is.
#[derive(Debug, Clone, Copy, PartialEq, Eq)]
pub enum LiteralKind {
    Bool,
    Number,
    String,
    HexString,
    UnicodeString,
}

impl Shape for LiteralKind {
    open spec fn depth(&self) -> nat {
        0
    }

    open spec fn same_as(&self, other: &Self) -> bool {
        *self == *other
    }
}

/// An access to a member, `expression.member_name`.
#[derive(Debug, PartialEq, Eq)]
pub struct MemberAccess {
    pub id: usize,
    pub src: SourceLocation,
    pub type_descriptions: TypeDescriptions,
    pub expression: Box<Expression>,
    pub member_name: String,
    pub referenced_declaration: Option<isize>,
}

impl Shape for MemberAccess {
    open spec fn depth(&self) -> nat
        decreases self,
    {
        1 + self.expression.depth()
    }

    open spec fn same_as(&self, other: &Self) -> bool
        decreases self,
    {
        &&& *other == (MemberAccess { expression: other.expression, ..*self })
        &&& self.expression.same_as(&*other.expression)
    }
}

/// Sameness carries over: if `a` holds what `b` holds, and `b` what `c` holds, then `a`
/// holds what `c` holds.
pub proof fn lemma_member_access_same_chain(a: MemberAccess, b: MemberAccess, c: MemberAccess)
    requires
        a.same_as(&b),
        b.same_as(&c),
    ensures
        a.same_as(&c),
    decreases a,
{
    lemma_expression_same_chain(*a.expression, *b.expression, *c.expression);
}

/// A `new` expression: the type that is created.
#[derive(Debug, PartialEq, Eq)]
pub struct NewExpression {
    pub id: usize,
    pub src: SourceLocation,
    pub type_descriptions: TypeDescriptions,
    pub created_type: TypeName,
}

impl Shape for NewExpression {
    open spec fn depth(&self) -> nat
        decreases self,
    {
        1 + self.created_type.depth()
    }

    open spec fn same_as(&self, other: &Self) -> bool
        decreases self,
    {
        &&& *other == (NewExpression { created_type: other.created_type, ..*self })
        &&& self.created_type.same_as(&other.created_type)
    }
}

/// Sameness carries over: if `a` holds what `b` holds, and `b` what `c` holds, then `a`
/// holds what `c` holds.
pub proof fn lemma_new_expression_same_chain(a: NewExpression, b: NewExpression, c: NewExpression)
    requires
        a.same_as(&b),
        b.same_as(&c),
    ensures
        a.same_as(&c),
    decreases a,
{
    lemma_type_name_same_chain(a.created_type, b.created_type, c.created_type);
}

/// A tuple or an inline array; a component may be left out.
#[derive(Debug, PartialEq, Eq)]
pub struct TupleExpression {
    pub id: usize,
    pub src: SourceLocation,
    pub type_descriptions: TypeDescriptions,
    pub components: Vec<Option<Expression>>,
    pub is_inline_array: bool,
}

impl Shape for TupleExpression {
    open spec fn depth(&self) -> nat
        decreases self,
    {
        1 + optional_expressions_depth(self.components@)
    }

    open spec fn same_as(&self, other: &Self) -> bool
        decreases self,
    {
        &&& *other == (TupleExpression { components: other.components, ..*self })
        &&& optional_expressions_same(self.components@, other.components@)
    }
}

/// Sameness carries over: if `a` holds what `b` holds, and `b` what `c` holds, then `a`
/// holds what `c` holds.
pub proof fn lemma_tuple_expression_same_chain(
    a: TupleExpression,
    b: TupleExpression,
    c: TupleExpression,
)
    requires
        a.same_as(&b),
        b.same_as(&c),
    ensures
        a.same_as(&c),
    decreases a,
{
    lemma_optional_expressions_same_chain(a.components@, b.components@, c.components@);
}

/// An operation on one operand.
#[derive(Debug, PartialEq, Eq)]
pub struct UnaryOperation {
    pub id: usize,
    pub src: SourceLocation,
    pub type_descriptions: TypeDescriptions,
    pub operator: UnaryOperator,
    pub prefix: bool,
    pub sub_expression: Box<Expression>,
}

impl Shape for UnaryOperation {
    open spec fn depth(&self) -> nat
        decreases self,
    {
        1 + self.sub_expression.depth()
    }

    open spec fn same_as(&self, other: &Self) -> bool
        decreases self,
    {
        &&& *other == (UnaryOperation { sub_expression: other.sub_expression, ..*self })
        &&& self.sub_expression.same_as(&*other.sub_expression)
    }
}

/// Sameness carries over: if `a` holds what `b` holds, and `b` what `c` holds, then `a`
/// holds what `c` holds.
pub proof fn lemma_unary_operation_same_chain(
    a: UnaryOperation,
    b: UnaryOperation,
    c: UnaryOperation,
)
    requires
        a.same_as(&b),
        b.same_as(&c),
    ensures
        a.same_as(&c),
    decreases a,
{
    lemma_expression_same_chain(*a.sub_expression, *b.sub_expression, *c.sub_expression);
}

/// The operator of a unary operation.
#[derive(Debug, Clone, Copy, PartialEq, Eq)]
pub enum UnaryOperator {
    Increment,
    Decrement,
    Negate,
    Not,
    BitNot,
    Delete,
}

impl Shape for UnaryOperator {
    open spec fn depth(&self) -> nat {
        0
    }

    open spec fn same_as(&self, other: &Self) -> bool {
        *self == *other
    }
}

} // verus!
