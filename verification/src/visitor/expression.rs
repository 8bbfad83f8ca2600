//! The walk of expressions.

use vstd::prelude::*;
use crate::ast::definition::Identifier;
use crate::ast::expression::{
    Assignment, AssignmentOperator, BinaryOperation, BinaryOperator, Conditional,
    ElementaryTypeNameExpression, Expression, FunctionCall, FunctionCallOptions, IndexAccess,
    IndexRangeAccess, Literal, MemberAccess, NewExpression, TupleExpression, UnaryOperation,
    expressions_depth, expressions_depths, expressions_same, lemma_expression_same_chain,
    lemma_expressions_depth_bound, lemma_expressions_depth_mono,
    lemma_optional_expressions_depth_bound, lemma_optional_expressions_depth_mono,
    optional_expressions_depth, optional_expressions_depths, optional_expressions_same,
};
use crate::shape::{Shape, depths_of};
use crate::visitor::{
    Call, Node, Step, VisitError, Visitable, Visitor, assignment_answered, between,
    binary_operation_answered, called, conditional_answered,
    elementary_type_name_expression_answered, failure_was_answered, function_call_answered,
    function_call_options_answered, held, index_access_answered, index_range_access_answered,
    literal_answered, member_access_answered, new_expression_answered, picked, reached, settled,
    tuple_expression_answered, unary_operation_answered, unfailing,
};

verus! {

impl Expression {
    /// How `visit` takes this node and the visitor `pre_v` to `post` and `post_v`, with
    /// the result `r`, the calls of callbacks being among `made`: as `accept` does on
    /// the node inside, which keeps its kind.
    pub open spec fn walked<V: Visitor<D>, D>(
        &self,
        made: spec_fn(Call<V>) -> bool,
        pre_v: V,
        post_v: V,
        post: Expression,
        r: Result<(), VisitError>,
    ) -> bool
        decreases self.depth(), 0int, 0int,
    {
        match (self, post) {
            (
                Expression::Assignment(a),
                Expression::Assignment(b),
            ) => a.accepted::<V, D>(made, pre_v, post_v, b, r),
            (
                Expression::BinaryOperation(a),
                Expression::BinaryOperation(b),
            ) => a.accepted::<V, D>(made, pre_v, post_v, b, r),
            (
                Expression::Conditional(a),
                Expression::Conditional(b),
            ) => a.accepted::<V, D>(made, pre_v, post_v, b, r),
            (
                Expression::ElementaryTypeNameExpression(a),
                Expression::ElementaryTypeNameExpression(b),
            ) => a.accepted::<V, D>(made, pre_v, post_v, b, r),
            (
                Expression::FunctionCall(a),
                Expression::FunctionCall(b),
            ) => a.accepted::<V, D>(made, pre_v, post_v, b, r),
            (
                Expression::FunctionCallOptions(a),
                Expression::FunctionCallOptions(b),
            ) => a.accepted::<V, D>(made, pre_v, post_v, b, r),
            (
                Expression::Identifier(a),
                Expression::Identifier(b),
            ) => a.accepted::<V, D>(made, pre_v, post_v, b, r),
            (
                Expression::IndexAccess(a),
                Expression::IndexAccess(b),
            ) => a.accepted::<V, D>(made, pre_v, post_v, b, r),
            (
                Expression::IndexRangeAccess(a),
                Expression::IndexRangeAccess(b),
            ) => a.accepted::<V, D>(made, pre_v, post_v, b, r),
            (
                Expression::Literal(a),
                Expression::Literal(b),
            ) => a.accepted::<V, D>(made, pre_v, post_v, b, r),
            (
                Expression::MemberAccess(a),
                Expression::MemberAccess(b),
            ) => a.accepted::<V, D>(made, pre_v, post_v, b, r),
            (
                Expression::NewExpression(a),
                Expression::NewExpression(b),
            ) => a.accepted::<V, D>(made, pre_v, post_v, b, r),
            (
                Expression::TupleExpression(a),
                Expression::TupleExpression(b),
            ) => a.accepted::<V, D>(made, pre_v, post_v, b, r),
            (
                Expression::UnaryOperation(a),
                Expression::UnaryOperation(b),
            ) => a.accepted::<V, D>(made, pre_v, post_v, b, r),
            _ => false,
        }
    }
}

impl Visitable for Expression {
    /// Hands the node inside to the callback of its kind, and to no other, as `accept`
    /// on that kind does.
    fn visit<V: Visitor<D>, D>(&mut self, v: &mut V) -> (r: Result<(), VisitError>)
        ensures
            forall|made: spec_fn(Call<V>) -> bool|
                #![trigger picked(made)]
                picked(made)
                    && (forall|mv: &mut V, node: Node, answer: Result<Step, VisitError>|
                        #[trigger] called::<V, D>(node, mv, answer) ==> made(
                            (Call { node, before: *mv, after: *final(mv), answer }),
                        ))
                    ==> old(self).walked::<V, D>(made, *old(v), *final(v), *final(self), r),
            forall|made: spec_fn(Call<V>) -> bool|
                #![trigger picked(made)]
                picked(made)
                    && (forall|mv: &mut V, node: Node, answer: Result<Step, VisitError>|
                        #[trigger] called::<V, D>(node, mv, answer) ==> made(
                            (Call { node, before: *mv, after: *final(mv), answer }),
                        ))
                    ==> failure_was_answered(made, r),
            between(*final(v), r),
            *old(self) matches Expression::Assignment(n) ==> ((*final(self)) is Assignment
                && exists|mv: &mut V, mn: &mut Assignment, answer: Result<Step, VisitError>|
                    *mv == *old(v) && *mn == n
                        && #[trigger] call_ensures(V::visit_assignment, (mv, mn), answer)
                        && settled::<V, D, Assignment>(
                            answer,
                            r,
                            *final(mv),
                            *final(v),
                            *final(mn),
                            (*final(self))->Assignment_0,
                        )),
            *old(self) matches Expression::BinaryOperation(n) ==> ((*final(self)) is BinaryOperation
                && exists|mv: &mut V, mn: &mut BinaryOperation, answer: Result<Step, VisitError>|
                    *mv == *old(v) && *mn == n
                        && #[trigger] call_ensures(V::visit_binary_operation, (mv, mn), answer)
                        && settled::<V, D, BinaryOperation>(
                            answer,
                            r,
                            *final(mv),
                            *final(v),
                            *final(mn),
                            (*final(self))->BinaryOperation_0,
                        )),
            *old(self) matches Expression::Conditional(n) ==> ((*final(self)) is Conditional
                && exists|mv: &mut V, mn: &mut Conditional, answer: Result<Step, VisitError>|
                    *mv == *old(v) && *mn == n
                        && #[trigger] call_ensures(V::visit_conditional, (mv, mn), answer)
                        && settled::<V, D, Conditional>(
                            answer,
                            r,
                            *final(mv),
                            *final(v),
                            *final(mn),
                            (*final(self))->Conditional_0,
                        )),
            *old(self) matches Expression::ElementaryTypeNameExpression(n)
                ==> ((*final(self)) is ElementaryTypeNameExpression
                && exists|
                    mv: &mut V,
                    mn: &mut ElementaryTypeNameExpression,
                    answer: Result<Step, VisitError>,
                |
                    *mv == *old(v) && *mn == n
                        && #[trigger] call_ensures(
                            V::visit_elementary_type_name_expression,
                            (mv, mn),
                            answer,
                        )
                        && settled::<V, D, ElementaryTypeNameExpression>(
                            answer,
                            r,
                            *final(mv),
                            *final(v),
                            *final(mn),
                            (*final(self))->ElementaryTypeNameExpression_0,
                        )),
            *old(self) matches Expression::FunctionCall(n) ==> ((*final(self)) is FunctionCall
                && exists|mv: &mut V, mn: &mut FunctionCall, answer: Result<Step, VisitError>|
                    *mv == *old(v) && *mn == n
                        && #[trigger] call_ensures(V::visit_function_call, (mv, mn), answer)
                        && settled::<V, D, FunctionCall>(
                            answer,
                            r,
                            *final(mv),
                            *final(v),
                            *final(mn),
                            (*final(self))->FunctionCall_0,
                        )),
            *old(self) matches Expression::FunctionCallOptions(n)
                ==> ((*final(self)) is FunctionCallOptions
                && exists|
                    mv: &mut V,
                    mn: &mut FunctionCallOptions,
                    answer: Result<Step, VisitError>,
                |
                    *mv == *old(v) && *mn == n
                        && #[trigger] call_ensures(V::visit_function_call_options, (mv, mn), answer)
                        && settled::<V, D, FunctionCallOptions>(
                            answer,
                            r,
                            *final(mv),
                            *final(v),
                            *final(mn),
                            (*final(self))->FunctionCallOptions_0,
                        )),
            *old(self) matches Expression::Identifier(n) ==> ((*final(self)) is Identifier
                && exists|mv: &mut V, mn: &mut Identifier, answer: Result<Step, VisitError>|
                    *mv == *old(v) && *mn == n
                        && #[trigger] call_ensures(V::visit_identifier, (mv, mn), answer)
                        && settled::<V, D, Identifier>(
                            answer,
                            r,
                            *final(mv),
                            *final(v),
                            *final(mn),
                            (*final(self))->Identifier_0,
                        )),
            *old(self) matches Expression::IndexAccess(n) ==> ((*final(self)) is IndexAccess
                && exists|mv: &mut V, mn: &mut IndexAccess, answer: Result<Step, VisitError>|
                    *mv == *old(v) && *mn == n
                        && #[trigger] call_ensures(V::visit_index_access, (mv, mn), answer)
                        && settled::<V, D, IndexAccess>(
                            answer,
                            r,
                            *final(mv),
                            *final(v),
                            *final(mn),
                            (*final(self))->IndexAccess_0,
                        )),
            *old(self) matches Expression::IndexRangeAccess(n)
                ==> ((*final(self)) is IndexRangeAccess
                && exists|mv: &mut V, mn: &mut IndexRangeAccess, answer: Result<Step, VisitError>|
                    *mv == *old(v) && *mn == n
                        && #[trigger] call_ensures(V::visit_index_range_access, (mv, mn), answer)
                        && settled::<V, D, IndexRangeAccess>(
                            answer,
                            r,
                            *final(mv),
                            *final(v),
                            *final(mn),
                            (*final(self))->IndexRangeAccess_0,
                        )),
            *old(self) matches Expression::Literal(n) ==> ((*final(self)) is Literal
                && exists|mv: &mut V, mn: &mut Literal, answer: Result<Step, VisitError>|
                    *mv == *old(v) && *mn == n
                        && #[trigger] call_ensures(V::visit_literal, (mv, mn), answer)
                        && settled::<V, D, Literal>(
                            answer,
                            r,
                            *final(mv),
                            *final(v),
                            *final(mn),
                            (*final(self))->Literal_0,
                        )),
            *old(self) matches Expression::MemberAccess(n) ==> ((*final(self)) is MemberAccess
                && exists|mv: &mut V, mn: &mut MemberAccess, answer: Result<Step, VisitError>|
                    *mv == *old(v) && *mn == n
                        && #[trigger] call_ensures(V::visit_member_access, (mv, mn), answer)
                        && settled::<V, D, MemberAccess>(
                            answer,
                            r,
                            *final(mv),
                            *final(v),
                            *final(mn),
                            (*final(self))->MemberAccess_0,
                        )),
            *old(self) matches Expression::NewExpression(n) ==> ((*final(self)) is NewExpression
                && exists|mv: &mut V, mn: &mut NewExpression, answer: Result<Step, VisitError>|
                    *mv == *old(v) && *mn == n
                        && #[trigger] call_ensures(V::visit_new_expression, (mv, mn), answer)
                        && settled::<V, D, NewExpression>(
                            answer,
                            r,
                            *final(mv),
                            *final(v),
                            *final(mn),
                            (*final(self))->NewExpression_0,
                        )),
            *old(self) matches Expression::TupleExpression(n) ==> ((*final(self)) is TupleExpression
                && exists|mv: &mut V, mn: &mut TupleExpression, answer: Result<Step, VisitError>|
                    *mv == *old(v) && *mn == n
                        && #[trigger] call_ensures(V::visit_tuple_expression, (mv, mn), answer)
                        && settled::<V, D, TupleExpression>(
                            answer,
                            r,
                            *final(mv),
                            *final(v),
                            *final(mn),
                            (*final(self))->TupleExpression_0,
                        )),
            *old(self) matches Expression::UnaryOperation(n) ==> ((*final(self)) is UnaryOperation
                && exists|mv: &mut V, mn: &mut UnaryOperation, answer: Result<Step, VisitError>|
                    *mv == *old(v) && *mn == n
                        && #[trigger] call_ensures(V::visit_unary_operation, (mv, mn), answer)
                        && settled::<V, D, UnaryOperation>(
                            answer,
                            r,
                            *final(mv),
                            *final(v),
                            *final(mn),
                            (*final(self))->UnaryOperation_0,
                        )),
        decreases old(self).depth(), 0int,
    {
        match self {
            Expression::Assignment(e) => e.accept(v),
            Expression::BinaryOperation(e) => e.accept(v),
            Expression::Conditional(e) => e.accept(v),
            Expression::ElementaryTypeNameExpression(e) => e.accept(v),
            Expression::FunctionCall(e) => e.accept(v),
            Expression::FunctionCallOptions(e) => e.accept(v),
            Expression::Identifier(e) => e.accept(v),
            Expression::IndexAccess(e) => e.accept(v),
            Expression::IndexRangeAccess(e) => e.accept(v),
            Expression::Literal(e) => e.accept(v),
            Expression::MemberAccess(e) => e.accept(v),
            Expression::NewExpression(e) => e.accept(v),
            Expression::TupleExpression(e) => e.accept(v),
            Expression::UnaryOperation(e) => e.accept(v),
        }
    }
}

/// How the walk takes an optional slot and the visitor `pre_v` to `post` and `post_v`,
/// with the result `r`, the calls of callbacks being among `made`: the items of the
/// vector, if there is one, are walked; an empty slot stays empty, and nothing is
/// called.
pub open spec fn maybe_expressions_walked<V: Visitor<D>, D>(
    made: spec_fn(Call<V>) -> bool,
    pre: Option<Vec<Expression>>,
    pre_v: V,
    post_v: V,
    post: Option<Vec<Expression>>,
    r: Result<(), VisitError>,
) -> bool
    decreases
        (match pre {
            Some(items) => expressions_depth(items@),
            None => 0,
        }),
        2int,
        0int,
{
    match (pre, post) {
        (Some(a), Some(b)) => expressions_walked::<V, D>(made, a@, pre_v, post_v, b@, r),
        (None, None) => r is Ok && post_v == pre_v,
        _ => false,
    }
}

/// Walks what an optional slot holds, and does nothing if it is empty.
pub fn visit_maybe_expressions<V: Visitor<D>, D>(
    slot: &mut Option<Vec<Expression>>,
    v: &mut V,
) -> (r: Result<(), VisitError>)
    ensures
        forall|made: spec_fn(Call<V>) -> bool|
            #![trigger picked(made)]
            picked(made)
                && (forall|mv: &mut V, node: Node, answer: Result<Step, VisitError>|
                    #[trigger] called::<V, D>(node, mv, answer) ==> made(
                        (Call { node, before: *mv, after: *final(mv), answer }),
                    ))
                ==> maybe_expressions_walked::<V, D>(
                    made,
                    *old(slot),
                    *old(v),
                    *final(v),
                    *final(slot),
                    r,
                ),
        forall|made: spec_fn(Call<V>) -> bool|
            #![trigger picked(made)]
            picked(made)
                && (forall|mv: &mut V, node: Node, answer: Result<Step, VisitError>|
                    #[trigger] called::<V, D>(node, mv, answer) ==> made(
                        (Call { node, before: *mv, after: *final(mv), answer }),
                    ))
                ==> failure_was_answered(made, r),
        between(*final(v), r),
        ((*final(slot)) is Some) == ((*old(slot)) is Some),
        (match *final(slot) {
            Some(items) => expressions_depth(items@),
            None => 0,
        })
        <= (match *old(slot) {
            Some(items) => expressions_depth(items@),
            None => 0,
        }),
        final(v).shared() == old(v).shared(),
        unfailing::<V, D>() ==> r is Ok,
        old(v).inert() ==> {
            &&& r is Ok
            &&& *final(v) == *old(v)
            &&& (match (*final(slot), *old(slot)) {
                (Some(a), Some(b)) => expressions_same(a@, b@),
                (None, None) => true,
                _ => false,
            })
        },
    decreases
        (match *old(slot) {
            Some(items) => expressions_depth(items@),
            None => 0,
        }),
        2int,
{
    match slot {
        Some(items) => visit_expressions(items, v),
        None => Ok(()),
    }
}

/// How the walk takes an optional slot and the visitor `pre_v` to `post` and `post_v`,
/// with the result `r`, the calls of callbacks being among `made`: the node, if there
/// is one, is walked; an empty slot stays empty, and nothing is called.
pub open spec fn maybe_expression_walked<V: Visitor<D>, D>(
    made: spec_fn(Call<V>) -> bool,
    pre: Option<Expression>,
    pre_v: V,
    post_v: V,
    post: Option<Expression>,
    r: Result<(), VisitError>,
) -> bool
    decreases
        (match pre {
            Some(e) => e.depth(),
            None => 0,
        }),
        2int,
        0int,
{
    match (pre, post) {
        (Some(a), Some(b)) => a.walked::<V, D>(made, pre_v, post_v, b, r),
        (None, None) => r is Ok && post_v == pre_v,
        _ => false,
    }
}

/// Walks what an optional slot holds, and does nothing if it is empty.
pub fn visit_maybe_expression<V: Visitor<D>, D>(
    slot: &mut Option<Expression>,
    v: &mut V,
) -> (r: Result<(), VisitError>)
    ensures
        forall|made: spec_fn(Call<V>) -> bool|
            #![trigger picked(made)]
            picked(made)
                && (forall|mv: &mut V, node: Node, answer: Result<Step, VisitError>|
                    #[trigger] called::<V, D>(node, mv, answer) ==> made(
                        (Call { node, before: *mv, after: *final(mv), answer }),
                    ))
                ==> maybe_expression_walked::<V, D>(
                    made,
                    *old(slot),
                    *old(v),
                    *final(v),
                    *final(slot),
                    r,
                ),
        forall|made: spec_fn(Call<V>) -> bool|
            #![trigger picked(made)]
            picked(made)
                && (forall|mv: &mut V, node: Node, answer: Result<Step, VisitError>|
                    #[trigger] called::<V, D>(node, mv, answer) ==> made(
                        (Call { node, before: *mv, after: *final(mv), answer }),
                    ))
                ==> failure_was_answered(made, r),
        between(*final(v), r),
        ((*final(slot)) is Some) == ((*old(slot)) is Some),
        (match *final(slot) {
            Some(e) => e.depth(),
            None => 0,
        })
        <= (match *old(slot) {
            Some(e) => e.depth(),
            None => 0,
        }),
        final(v).shared() == old(v).shared(),
        unfailing::<V, D>() ==> r is Ok,
        old(v).inert() ==> {
            &&& r is Ok
            &&& *final(v) == *old(v)
            &&& (match (*final(slot), *old(slot)) {
                (Some(a), Some(b)) => a.same_as(&b),
                (None, None) => true,
                _ => false,
            })
        },
    decreases
        (match *old(slot) {
            Some(e) => e.depth(),
            None => 0,
        }),
        2int,
{
    match slot {
        Some(e) => e.visit(v),
        None => Ok(()),
    }
}

impl Visitable for Option<Expression> {
    /// Walks the node if there is one, as [`visit_maybe_expression`] does.
    fn visit<V: Visitor<D>, D>(&mut self, v: &mut V) -> (r: Result<(), VisitError>)
        ensures
            forall|made: spec_fn(Call<V>) -> bool|
                #![trigger picked(made)]
                picked(made)
                    && (forall|mv: &mut V, node: Node, answer: Result<Step, VisitError>|
                        #[trigger] called::<V, D>(node, mv, answer) ==> made(
                            (Call { node, before: *mv, after: *final(mv), answer }),
                        ))
                    ==> maybe_expression_walked::<V, D>(
                        made,
                        *old(self),
                        *old(v),
                        *final(v),
                        *final(self),
                        r,
                    ),
            forall|made: spec_fn(Call<V>) -> bool|
                #![trigger picked(made)]
                picked(made)
                    && (forall|mv: &mut V, node: Node, answer: Result<Step, VisitError>|
                        #[trigger] called::<V, D>(node, mv, answer) ==> made(
                            (Call { node, before: *mv, after: *final(mv), answer }),
                        ))
                    ==> failure_was_answered(made, r),
            ((*final(self)) is Some) == ((*old(self)) is Some),
    {
        visit_maybe_expression(self, v)
    }
}

/// How the walk takes an optional slot and the visitor `pre_v` to `post` and `post_v`,
/// with the result `r`, the calls of callbacks being among `made`: the node, if there
/// is one, is walked; an empty slot stays empty, and nothing is called.
pub open spec fn maybe_boxed_expression_walked<V: Visitor<D>, D>(
    made: spec_fn(Call<V>) -> bool,
    pre: Option<Box<Expression>>,
    pre_v: V,
    post_v: V,
    post: Option<Box<Expression>>,
    r: Result<(), VisitError>,
) -> bool
    decreases
        (match pre {
            Some(e) => e.depth(),
            None => 0,
        }),
        2int,
        0int,
{
    match (pre, post) {
        (Some(a), Some(b)) => a.walked::<V, D>(made, pre_v, post_v, *b, r),
        (None, None) => r is Ok && post_v == pre_v,
        _ => false,
    }
}

/// Walks what an optional slot holds, and does nothing if it is empty.
pub fn visit_maybe_boxed_expression<V: Visitor<D>, D>(
    slot: &mut Option<Box<Expression>>,
    v: &mut V,
) -> (r: Result<(), VisitError>)
    ensures
        forall|made: spec_fn(Call<V>) -> bool|
            #![trigger picked(made)]
            picked(made)
                && (forall|mv: &mut V, node: Node, answer: Result<Step, VisitError>|
                    #[trigger] called::<V, D>(node, mv, answer) ==> made(
                        (Call { node, before: *mv, after: *final(mv), answer }),
                    ))
                ==> maybe_boxed_expression_walked::<V, D>(
                    made,
                    *old(slot),
                    *old(v),
                    *final(v),
                    *final(slot),
                    r,
                ),
        forall|made: spec_fn(Call<V>) -> bool|
            #![trigger picked(made)]
            picked(made)
                && (forall|mv: &mut V, node: Node, answer: Result<Step, VisitError>|
                    #[trigger] called::<V, D>(node, mv, answer) ==> made(
                        (Call { node, before: *mv, after: *final(mv), answer }),
                    ))
                ==> failure_was_answered(made, r),
        between(*final(v), r),
        ((*final(slot)) is Some) == ((*old(slot)) is Some),
        (match *final(slot) {
            Some(e) => e.depth(),
            None => 0,
        })
        <= (match *old(slot) {
            Some(e) => e.depth(),
            None => 0,
        }),
        final(v).shared() == old(v).shared(),
        unfailing::<V, D>() ==> r is Ok,
        old(v).inert() ==> {
            &&& r is Ok
            &&& *final(v) == *old(v)
            &&& (match (*final(slot), *old(slot)) {
                (Some(a), Some(b)) => a.same_as(&*b),
                (None, None) => true,
                _ => false,
            })
        },
    decreases
        (match *old(slot) {
            Some(e) => e.depth(),
            None => 0,
        }),
        2int,
{
    match slot {
        Some(e) => e.visit(v),
        None => Ok(()),
    }
}

/// The items of `pre` that stand where `done` has items have been walked with success,
/// in order and each once, the first from the visitor `pre_v` and each next one from
/// the visitor as the one before has left it; they are now what `done` holds, and the
/// visitor is `v`. (The clause on the depths holds of every sequence: it is what lets
/// this definition end.)
pub open spec fn expressions_walked_to<V: Visitor<D>, D>(
    made: spec_fn(Call<V>) -> bool,
    pre: Seq<Expression>,
    done: Seq<Expression>,
    pre_v: V,
    v: V,
) -> bool
    decreases expressions_depth(pre), 3int, done.len(),
{
    if done.len() == 0 {
        v == pre_v
    } else if done.len() > pre.len() {
        false
    } else {
        &&& expressions_depths(pre)[done.len() - 1] <= expressions_depth(pre)
        &&& exists|u: V, ok: Result<(), VisitError>|
            #[trigger] between(u, ok) && ok is Ok
                && expressions_walked_to::<V, D>(made, pre, done.drop_last(), pre_v, u)
                && pre[done.len() - 1].walked::<V, D>(made, u, v, done.last(), ok)
    }
}

/// How the walk takes the items `pre` and the visitor `pre_v` to `post` and `post_v`,
/// with the result `r`: the items are walked in order, each once, each from the visitor
/// as the one before has left it, up to the first failure. That failure is the result,
/// and the items behind it are as they were. (The clause on the depths holds of every
/// sequence.)
pub open spec fn expressions_walked<V: Visitor<D>, D>(
    made: spec_fn(Call<V>) -> bool,
    pre: Seq<Expression>,
    pre_v: V,
    post_v: V,
    post: Seq<Expression>,
    r: Result<(), VisitError>,
) -> bool
    decreases expressions_depth(pre), 5int, 0int,
{
    &&& pre.len() == post.len()
    &&& match r {
        Ok(_) => expressions_walked_to::<V, D>(made, pre, post, pre_v, post_v),
        Err(e) => exists|k: int, u: V|
            #[trigger] reached(k, u) && 0 <= k < pre.len()
                && expressions_depths(pre)[k] <= expressions_depth(pre)
                && expressions_walked_to::<V, D>(made, pre, post.take(k), pre_v, u)
                && pre[k].walked::<V, D>(made, u, post_v, post[k], Err::<(), VisitError>(e))
                && forall|j: int| k < j < pre.len() ==> post[j] == pre[j],
    }
}

/// Walks `items` in order. The first failure ends the walk; the items after it are left
/// alone.
pub fn visit_expressions<V: Visitor<D>, D>(
    items: &mut Vec<Expression>,
    v: &mut V,
) -> (r: Result<(), VisitError>)
    ensures
        forall|made: spec_fn(Call<V>) -> bool|
            #![trigger picked(made)]
            picked(made)
                && (forall|mv: &mut V, node: Node, answer: Result<Step, VisitError>|
                    #[trigger] called::<V, D>(node, mv, answer) ==> made(
                        (Call { node, before: *mv, after: *final(mv), answer }),
                    ))
                ==> expressions_walked::<V, D>(
                    made,
                    old(items)@,
                    *old(v),
                    *final(v),
                    final(items)@,
                    r,
                ),
        forall|made: spec_fn(Call<V>) -> bool|
            #![trigger picked(made)]
            picked(made)
                && (forall|mv: &mut V, node: Node, answer: Result<Step, VisitError>|
                    #[trigger] called::<V, D>(node, mv, answer) ==> made(
                        (Call { node, before: *mv, after: *final(mv), answer }),
                    ))
                ==> failure_was_answered(made, r),
        between(*final(v), r),
        final(items)@.len() == old(items)@.len(),
        expressions_depth(final(items)@) <= expressions_depth(old(items)@),
        final(v).shared() == old(v).shared(),
        unfailing::<V, D>() ==> r is Ok,
        old(v).inert() ==> {
            &&& r is Ok
            &&& *final(v) == *old(v)
            &&& expressions_same(final(items)@, old(items)@)
        },
    decreases expressions_depth(old(items)@), 3int,
{
    let n = items.len();
    let mut i: usize = 0;
    while i < n
        invariant
            i <= n,
            n == items@.len(),
            n == old(items)@.len(),
            forall|j: int| i <= j < n ==> items@[j] == old(items)@[j],
            forall|j: int|
                0 <= j < n ==> expressions_depths(items@)[j] <= expressions_depths(old(items)@)[j],
            v.shared() == old(v).shared(),
            old(v).inert() ==> *v == *old(v),
            forall|made: spec_fn(Call<V>) -> bool|
                #![trigger picked(made)]
                picked(made)
                    && (forall|mv: &mut V, node: Node, answer: Result<Step, VisitError>|
                        #[trigger] called::<V, D>(node, mv, answer) ==> made(
                            (Call { node, before: *mv, after: *final(mv), answer }),
                        ))
                    ==> expressions_walked_to::<V, D>(
                        made,
                        old(items)@,
                        items@.take(i as int),
                        *old(v),
                        *v,
                    ),
            old(v).inert() ==> forall|j: int|
                #![trigger items@[j]]
                0 <= j < i ==> items@[j].same_as(&old(items)@[j]),
        decreases n - i,
    {
        proof {
            lemma_expressions_depth_bound(old(items)@, i as int);
        }
        let ghost done = items@.take(i as int);
        let ghost u = *v;
        let step = items[i].visit(v);
        proof {
            assert(between(u, step));
        }
        match step {
            Ok(_) => {
                proof {
                    let grown = items@.take(i + 1);
                    assert(grown.drop_last() =~= done);
                    assert(grown.last() == items@[i as int]);
                    assert forall|made: spec_fn(Call<V>) -> bool|
                        #![trigger picked(made)]
                        picked(made)
                            && (forall|mv: &mut V, node: Node, answer: Result<Step, VisitError>|
                                #[trigger] called::<V, D>(node, mv, answer) ==> made(
                                    (Call { node, before: *mv, after: *final(mv), answer }),
                                ))
                        implies expressions_walked_to::<V, D>(
                            made,
                            old(items)@,
                            grown,
                            *old(v),
                            *v,
                        ) by {
                        assert(expressions_walked_to::<V, D>(made, old(items)@, done, *old(v), u));
                    }
                }
            },
            Err(e) => {
                proof {
                    lemma_expressions_depth_mono(items@, old(items)@);
                    assert(items@.take(i as int) =~= done);
                    assert(reached(i as int, u));
                    assert forall|made: spec_fn(Call<V>) -> bool|
                        #![trigger picked(made)]
                        picked(made)
                            && (forall|mv: &mut V, node: Node, answer: Result<Step, VisitError>|
                                #[trigger] called::<V, D>(node, mv, answer) ==> made(
                                    (Call { node, before: *mv, after: *final(mv), answer }),
                                ))
                        implies expressions_walked::<V, D>(
                            made,
                            old(items)@,
                            *old(v),
                            *v,
                            items@,
                            Err::<(), VisitError>(e),
                        ) by {
                        assert(expressions_walked_to::<V, D>(made, old(items)@, done, *old(v), u));
                    }
                }
                return Err(e);
            },
        }
        i += 1;
    }
    proof {
        lemma_expressions_depth_mono(items@, old(items)@);
        assert(items@.take(n as int) =~= items@);
    }
    Ok(())
}

impl Visitable for Vec<Expression> {
    /// Walks the items in order, as [`visit_expressions`] does.
    fn visit<V: Visitor<D>, D>(&mut self, v: &mut V) -> (r: Result<(), VisitError>)
        ensures
            forall|made: spec_fn(Call<V>) -> bool|
                #![trigger picked(made)]
                picked(made)
                    && (forall|mv: &mut V, node: Node, answer: Result<Step, VisitError>|
                        #[trigger] called::<V, D>(node, mv, answer) ==> made(
                            (Call { node, before: *mv, after: *final(mv), answer }),
                        ))
                    ==> expressions_walked::<V, D>(
                        made,
                        old(self)@,
                        *old(v),
                        *final(v),
                        final(self)@,
                        r,
                    ),
            forall|made: spec_fn(Call<V>) -> bool|
                #![trigger picked(made)]
                picked(made)
                    && (forall|mv: &mut V, node: Node, answer: Result<Step, VisitError>|
                        #[trigger] called::<V, D>(node, mv, answer) ==> made(
                            (Call { node, before: *mv, after: *final(mv), answer }),
                        ))
                    ==> failure_was_answered(made, r),
            final(self)@.len() == old(self)@.len(),
    {
        let ghost before = self@;
        let r = visit_expressions(self, v);
        proof {
            assert(depths_of(before) =~= expressions_depths(before));
            assert(depths_of(self@) =~= expressions_depths(self@));
        }
        r
    }
}

/// The items of `pre` that stand where `done` has items have been walked with success,
/// in order and each once, the first from the visitor `pre_v` and each next one from
/// the visitor as the one before has left it; they are now what `done` holds, and the
/// visitor is `v`. (The clause on the depths holds of every sequence: it is what lets
/// this definition end.)
pub open spec fn optional_expressions_walked_to<V: Visitor<D>, D>(
    made: spec_fn(Call<V>) -> bool,
    pre: Seq<Option<Expression>>,
    done: Seq<Option<Expression>>,
    pre_v: V,
    v: V,
) -> bool
    decreases optional_expressions_depth(pre), 3int, done.len(),
{
    if done.len() == 0 {
        v == pre_v
    } else if done.len() > pre.len() {
        false
    } else {
        &&& optional_expressions_depths(pre)[done.len() - 1] <= optional_expressions_depth(pre)
        &&& exists|u: V, ok: Result<(), VisitError>|
            #[trigger] between(u, ok) && ok is Ok
                && optional_expressions_walked_to::<V, D>(made, pre, done.drop_last(), pre_v, u)
                && maybe_expression_walked::<V, D>(made, pre[done.len() - 1], u, v, done.last(), ok)
    }
}

/// How the walk takes the items `pre` and the visitor `pre_v` to `post` and `post_v`,
/// with the result `r`: the items are walked in order, each once, each from the visitor
/// as the one before has left it, up to the first failure. That failure is the result,
/// and the items behind it are as they were. (The clause on the depths holds of every
/// sequence.)
pub open spec fn optional_expressions_walked<V: Visitor<D>, D>(
    made: spec_fn(Call<V>) -> bool,
    pre: Seq<Option<Expression>>,
    pre_v: V,
    post_v: V,
    post: Seq<Option<Expression>>,
    r: Result<(), VisitError>,
) -> bool
    decreases optional_expressions_depth(pre), 5int, 0int,
{
    &&& pre.len() == post.len()
    &&& match r {
        Ok(_) => optional_expressions_walked_to::<V, D>(made, pre, post, pre_v, post_v),
        Err(e) => exists|k: int, u: V|
            #[trigger] reached(k, u) && 0 <= k < pre.len()
                && optional_expressions_depths(pre)[k] <= optional_expressions_depth(pre)
                && optional_expressions_walked_to::<V, D>(made, pre, post.take(k), pre_v, u)
                && maybe_expression_walked::<V, D>(
                    made,
                    pre[k],
                    u,
                    post_v,
                    post[k],
                    Err::<(), VisitError>(e),
                )
                && forall|j: int| k < j < pre.len() ==> post[j] == pre[j],
    }
}

/// Walks the `Expression` nodes that `items` holds, in order, passing over the empty
/// slots. The first failure ends the walk; the items after it are left alone.
pub fn visit_optional_expressions<V: Visitor<D>, D>(
    items: &mut Vec<Option<Expression>>,
    v: &mut V,
) -> (r: Result<(), VisitError>)
    ensures
        forall|made: spec_fn(Call<V>) -> bool|
            #![trigger picked(made)]
            picked(made)
                && (forall|mv: &mut V, node: Node, answer: Result<Step, VisitError>|
                    #[trigger] called::<V, D>(node, mv, answer) ==> made(
                        (Call { node, before: *mv, after: *final(mv), answer }),
                    ))
                ==> optional_expressions_walked::<V, D>(
                    made,
                    old(items)@,
                    *old(v),
                    *final(v),
                    final(items)@,
                    r,
                ),
        forall|made: spec_fn(Call<V>) -> bool|
            #![trigger picked(made)]
            picked(made)
                && (forall|mv: &mut V, node: Node, answer: Result<Step, VisitError>|
                    #[trigger] called::<V, D>(node, mv, answer) ==> made(
                        (Call { node, before: *mv, after: *final(mv), answer }),
                    ))
                ==> failure_was_answered(made, r),
        between(*final(v), r),
        final(items)@.len() == old(items)@.len(),
        optional_expressions_depth(final(items)@) <= optional_expressions_depth(old(items)@),
        final(v).shared() == old(v).shared(),
        unfailing::<V, D>() ==> r is Ok,
        old(v).inert() ==> {
            &&& r is Ok
            &&& *final(v) == *old(v)
            &&& optional_expressions_same(final(items)@, old(items)@)
        },
    decreases optional_expressions_depth(old(items)@), 3int,
{
    let n = items.len();
    let mut i: usize = 0;
    while i < n
        invariant
            i <= n,
            n == items@.len(),
            n == old(items)@.len(),
            forall|j: int| i <= j < n ==> items@[j] == old(items)@[j],
            forall|j: int|
                0 <= j < n ==> optional_expressions_depths(items@)[j]
                    <= optional_expressions_depths(old(items)@)[j],
            v.shared() == old(v).shared(),
            old(v).inert() ==> *v == *old(v),
            forall|made: spec_fn(Call<V>) -> bool|
                #![trigger picked(made)]
                picked(made)
                    && (forall|mv: &mut V, node: Node, answer: Result<Step, VisitError>|
                        #[trigger] called::<V, D>(node, mv, answer) ==> made(
                            (Call { node, before: *mv, after: *final(mv), answer }),
                        ))
                    ==> optional_expressions_walked_to::<V, D>(
                        made,
                        old(items)@,
                        items@.take(i as int),
                        *old(v),
                        *v,
                    ),
            old(v).inert() ==> forall|j: int|
                #![trigger items@[j]]
                0 <= j < i ==> (match (items@[j], old(items)@[j]) {
                    (Some(x), Some(y)) => x.same_as(&y),
                    (None, None) => true,
                    _ => false,
                }),
        decreases n - i,
    {
        proof {
            lemma_optional_expressions_depth_bound(old(items)@, i as int);
        }
        let ghost done = items@.take(i as int);
        let ghost u = *v;
        let step = visit_maybe_expression(&mut items[i], v);
        proof {
            assert(between(u, step));
        }
        match step {
            Ok(_) => {
                proof {
                    let grown = items@.take(i + 1);
                    assert(grown.drop_last() =~= done);
                    assert(grown.last() == items@[i as int]);
                    assert forall|made: spec_fn(Call<V>) -> bool|
                        #![trigger picked(made)]
                        picked(made)
                            && (forall|mv: &mut V, node: Node, answer: Result<Step, VisitError>|
                                #[trigger] called::<V, D>(node, mv, answer) ==> made(
                                    (Call { node, before: *mv, after: *final(mv), answer }),
                                ))
                        implies optional_expressions_walked_to::<V, D>(
                            made,
                            old(items)@,
                            grown,
                            *old(v),
                            *v,
                        ) by {
                        assert(optional_expressions_walked_to::<V, D>(
                            made,
                            old(items)@,
                            done,
                            *old(v),
                            u,
                        ));
                    }
                }
            },
            Err(e) => {
                proof {
                    lemma_optional_expressions_depth_mono(items@, old(items)@);
                    assert(items@.take(i as int) =~= done);
                    assert(reached(i as int, u));
                    assert forall|made: spec_fn(Call<V>) -> bool|
                        #![trigger picked(made)]
                        picked(made)
                            && (forall|mv: &mut V, node: Node, answer: Result<Step, VisitError>|
                                #[trigger] called::<V, D>(node, mv, answer) ==> made(
                                    (Call { node, before: *mv, after: *final(mv), answer }),
                                ))
                        implies optional_expressions_walked::<V, D>(
                            made,
                            old(items)@,
                            *old(v),
                            *v,
                            items@,
                            Err::<(), VisitError>(e),
                        ) by {
                        assert(optional_expressions_walked_to::<V, D>(
                            made,
                            old(items)@,
                            done,
                            *old(v),
                            u,
                        ));
                    }
                }
                return Err(e);
            },
        }
        i += 1;
    }
    proof {
        lemma_optional_expressions_depth_mono(items@, old(items)@);
        assert(items@.take(n as int) =~= items@);
    }
    Ok(())
}

impl Visitable for Vec<Option<Expression>> {
    /// Walks the items in order, as [`visit_optional_expressions`] does.
    fn visit<V: Visitor<D>, D>(&mut self, v: &mut V) -> (r: Result<(), VisitError>)
        ensures
            forall|made: spec_fn(Call<V>) -> bool|
                #![trigger picked(made)]
                picked(made)
                    && (forall|mv: &mut V, node: Node, answer: Result<Step, VisitError>|
                        #[trigger] called::<V, D>(node, mv, answer) ==> made(
                            (Call { node, before: *mv, after: *final(mv), answer }),
                        ))
                    ==> optional_expressions_walked::<V, D>(
                        made,
                        old(self)@,
                        *old(v),
                        *final(v),
                        final(self)@,
                        r,
                    ),
            forall|made: spec_fn(Call<V>) -> bool|
                #![trigger picked(made)]
                picked(made)
                    && (forall|mv: &mut V, node: Node, answer: Result<Step, VisitError>|
                        #[trigger] called::<V, D>(node, mv, answer) ==> made(
                            (Call { node, before: *mv, after: *final(mv), answer }),
                        ))
                    ==> failure_was_answered(made, r),
            final(self)@.len() == old(self)@.len(),
    {
        let ghost before = self@;
        let r = visit_optional_expressions(self, v);
        proof {
            assert(depths_of(before) =~= optional_expressions_depths(before));
            assert(depths_of(self@) =~= optional_expressions_depths(self@));
        }
        r
    }
}

impl Assignment {
    /// How `visit` takes this node and the visitor `pre_v` to `post` and `post_v`, with
    /// the result `r`, the calls of callbacks being among `made`: the children are
    /// walked one after the other, each from the visitor as the one before has left it;
    /// the first failure is the result, and what stands behind it is as it was. What is
    /// no child is as it was.
    pub open spec fn walked<V: Visitor<D>, D>(
        &self,
        made: spec_fn(Call<V>) -> bool,
        pre_v: V,
        post_v: V,
        post: Assignment,
        r: Result<(), VisitError>,
    ) -> bool
        decreases self.depth(), 0int, 0int,
    {
        &&& post == (Assignment { lhs: post.lhs, rhs: post.rhs, ..*self })
        &&& (exists|v1: V, r1: Result<(), VisitError>|
                #[trigger] between(v1, r1)
                    && self.lhs.walked::<V, D>(made, pre_v, v1, *post.lhs, r1)
                    && match r1 {
                        Ok(_) => {
                            self.rhs.walked::<V, D>(made, v1, post_v, *post.rhs, r)
                        },
                        Err(e) => {
                            &&& r == Err::<(), VisitError>(e)
                            &&& post_v == v1
                            &&& post.rhs == self.rhs
                        },
                    })
    }

    /// How `accept` takes this node and the visitor `pre_v` to `post` and `post_v`,
    /// with the result `r`, the calls of callbacks being among `made`: the callback for
    /// this kind is called with `pre_v` and this node, answers, and leaves `mid_v` and
    /// `mid`, which is no deeper; after [`Step::Descend`] the children of `mid` are
    /// walked from `mid_v`, after anything else nothing more happens, and an error is
    /// the result as it is.
    pub open spec fn accepted<V: Visitor<D>, D>(
        &self,
        made: spec_fn(Call<V>) -> bool,
        pre_v: V,
        post_v: V,
        post: Assignment,
        r: Result<(), VisitError>,
    ) -> bool
        decreases self.depth(), 1int, 0int,
    {
        exists|mid_v: V, mid: Assignment, answer: Result<Step, VisitError>|
            #[trigger] assignment_answered::<V, D>(pre_v, *self, mid_v, mid, answer)
                && made(
                    (Call { node: Node::Assignment(*self), before: pre_v, after: mid_v, answer }),
                )
                && mid.depth() <= self.depth() && match answer {
                    Ok(Step::Descend) => mid.walked::<V, D>(made, mid_v, post_v, post, r),
                    Ok(Step::Prune) => r is Ok && post_v == mid_v && post == mid,
                    Err(e) => r == Err::<(), VisitError>(e) && post_v == mid_v && post == mid,
                }
    }

    /// Hands this node to [`Visitor::visit_assignment`] and does what the callback
    /// answers: on [`Step::Descend`] it walks the children as [`Visitable::visit`]
    /// does, on [`Step::Prune`] it leaves them alone; an error is handed on.
    pub fn accept<V: Visitor<D>, D>(&mut self, v: &mut V) -> (r: Result<(), VisitError>)
        ensures
            final(self).depth() <= old(self).depth(),
            final(v).shared() == old(v).shared(),
            unfailing::<V, D>() ==> r is Ok,
            old(v).inert() ==> r is Ok && *final(v) == *old(v) && final(self).same_as(old(self)),
            forall|made: spec_fn(Call<V>) -> bool|
                #![trigger picked(made)]
                picked(made)
                    && (forall|mv: &mut V, node: Node, answer: Result<Step, VisitError>|
                        #[trigger] called::<V, D>(node, mv, answer) ==> made(
                            (Call { node, before: *mv, after: *final(mv), answer }),
                        ))
                    ==> old(self).accepted::<V, D>(made, *old(v), *final(v), *final(self), r),
            forall|made: spec_fn(Call<V>) -> bool|
                #![trigger picked(made)]
                picked(made)
                    && (forall|mv: &mut V, node: Node, answer: Result<Step, VisitError>|
                        #[trigger] called::<V, D>(node, mv, answer) ==> made(
                            (Call { node, before: *mv, after: *final(mv), answer }),
                        ))
                    ==> failure_was_answered(made, r),
            between(*final(v), r),
            exists|mv: &mut V, mn: &mut Assignment, answer: Result<Step, VisitError>|
                *mv == *old(v) && *mn == *old(self)
                    && #[trigger] call_ensures(V::visit_assignment, (mv, mn), answer)
                    && settled::<V, D, Assignment>(
                        answer,
                        r,
                        *final(mv),
                        *final(v),
                        *final(mn),
                        *final(self),
                    ),
        decreases old(self).depth(), 1int,
    {
        let ghost pre_v = *v;
        let ghost pre = *self;
        let answer = v.visit_assignment(self);
        let ghost mid_v = *v;
        proof {
            assert(assignment_answered::<V, D>(pre_v, pre, *v, *self, answer));
            let (mv0, mn0) = choose|mv: &mut V, mn: &mut Assignment|
                *mv == pre_v && *final(mv) == mid_v && *mn == pre
                    && #[trigger] call_ensures(V::visit_assignment, (mv, mn), answer);
            assert(called::<V, D>(Node::Assignment(pre), mv0, answer));
        }
        match answer {
            Ok(Step::Descend) => {
                let r = self.visit(v);
                proof {
                    assert forall|made: spec_fn(Call<V>) -> bool|
                        #![trigger picked(made)]
                        picked(made)
                            && (forall|mv: &mut V, node: Node, answer: Result<Step, VisitError>|
                                #[trigger] called::<V, D>(node, mv, answer) ==> made(
                                    (Call { node, before: *mv, after: *final(mv), answer }),
                                ))
                        implies pre.accepted::<V, D>(made, pre_v, *v, *self, r) by {
                    }
                }
                r
            },
            Ok(Step::Prune) => {
                proof {
                    assert forall|made: spec_fn(Call<V>) -> bool|
                        #![trigger picked(made)]
                        picked(made)
                            && (forall|mv: &mut V, node: Node, answer: Result<Step, VisitError>|
                                #[trigger] called::<V, D>(node, mv, answer) ==> made(
                                    (Call { node, before: *mv, after: *final(mv), answer }),
                                ))
                        implies pre.accepted::<V, D>(
                            made,
                            pre_v,
                            *v,
                            *self,
                            Ok::<(), VisitError>(()),
                        ) by {
                    }
                }
                Ok(())
            },
            Err(e) => {
                proof {
                    assert forall|made: spec_fn(Call<V>) -> bool|
                        #![trigger picked(made)]
                        picked(made)
                            && (forall|mv: &mut V, node: Node, answer: Result<Step, VisitError>|
                                #[trigger] called::<V, D>(node, mv, answer) ==> made(
                                    (Call { node, before: *mv, after: *final(mv), answer }),
                                ))
                        implies pre.accepted::<V, D>(
                            made,
                            pre_v,
                            *v,
                            *self,
                            Err::<(), VisitError>(e),
                        ) by {
                    }
                }
                Err(e)
            },
        }
    }
}

impl Visitable for Assignment {
    /// Walks the children in this order: `lhs`, then `rhs`. The first failure ends the
    /// walk; what stands after it is left alone.
    fn visit<V: Visitor<D>, D>(&mut self, v: &mut V) -> (r: Result<(), VisitError>)
        ensures
            forall|made: spec_fn(Call<V>) -> bool|
                #![trigger picked(made)]
                picked(made)
                    && (forall|mv: &mut V, node: Node, answer: Result<Step, VisitError>|
                        #[trigger] called::<V, D>(node, mv, answer) ==> made(
                            (Call { node, before: *mv, after: *final(mv), answer }),
                        ))
                    ==> old(self).walked::<V, D>(made, *old(v), *final(v), *final(self), r),
            forall|made: spec_fn(Call<V>) -> bool|
                #![trigger picked(made)]
                picked(made)
                    && (forall|mv: &mut V, node: Node, answer: Result<Step, VisitError>|
                        #[trigger] called::<V, D>(node, mv, answer) ==> made(
                            (Call { node, before: *mv, after: *final(mv), answer }),
                        ))
                    ==> failure_was_answered(made, r),
            between(*final(v), r),
            *final(self) == (Assignment {
                lhs: final(self).lhs,
                rhs: final(self).rhs,
                ..*old(self)
            }),
        decreases old(self).depth(), 0int,
    {
        self.lhs.visit(v)?;
        self.rhs.visit(v)
    }
}

impl Visitable for AssignmentOperator {
    /// Does nothing: an assignment operator has no children.
    fn visit<V: Visitor<D>, D>(&mut self, v: &mut V) -> (r: Result<(), VisitError>)
        ensures
            r is Ok,
            *final(self) == *old(self),
            *final(v) == *old(v),
    {
        Ok(())
    }
}

impl BinaryOperation {
    /// How `visit` takes this node and the visitor `pre_v` to `post` and `post_v`, with
    /// the result `r`, the calls of callbacks being among `made`: the children are
    /// walked one after the other, each from the visitor as the one before has left it;
    /// the first failure is the result, and what stands behind it is as it was. What is
    /// no child is as it was.
    pub open spec fn walked<V: Visitor<D>, D>(
        &self,
        made: spec_fn(Call<V>) -> bool,
        pre_v: V,
        post_v: V,
        post: BinaryOperation,
        r: Result<(), VisitError>,
    ) -> bool
        decreases self.depth(), 0int, 0int,
    {
        &&& post == (BinaryOperation { lhs: post.lhs, rhs: post.rhs, ..*self })
        &&& (exists|v1: V, r1: Result<(), VisitError>|
                #[trigger] between(v1, r1)
                    && self.lhs.walked::<V, D>(made, pre_v, v1, *post.lhs, r1)
                    && match r1 {
                        Ok(_) => {
                            self.rhs.walked::<V, D>(made, v1, post_v, *post.rhs, r)
                        },
                        Err(e) => {
                            &&& r == Err::<(), VisitError>(e)
                            &&& post_v == v1
                            &&& post.rhs == self.rhs
                        },
                    })
    }

    /// How `accept` takes this node and the visitor `pre_v` to `post` and `post_v`,
    /// with the result `r`, the calls of callbacks being among `made`: the callback for
    /// this kind is called with `pre_v` and this node, answers, and leaves `mid_v` and
    /// `mid`, which is no deeper; after [`Step::Descend`] the children of `mid` are
    /// walked from `mid_v`, after anything else nothing more happens, and an error is
    /// the result as it is.
    pub open spec fn accepted<V: Visitor<D>, D>(
        &self,
        made: spec_fn(Call<V>) -> bool,
        pre_v: V,
        post_v: V,
        post: BinaryOperation,
        r: Result<(), VisitError>,
    ) -> bool
        decreases self.depth(), 1int, 0int,
    {
        exists|mid_v: V, mid: BinaryOperation, answer: Result<Step, VisitError>|
            #[trigger] binary_operation_answered::<V, D>(pre_v, *self, mid_v, mid, answer)
                && made(
                    (Call {
                        node: Node::BinaryOperation(*self),
                        before: pre_v,
                        after: mid_v,
                        answer,
                    }),
                )
                && mid.depth() <= self.depth() && match answer {
                    Ok(Step::Descend) => mid.walked::<V, D>(made, mid_v, post_v, post, r),
                    Ok(Step::Prune) => r is Ok && post_v == mid_v && post == mid,
                    Err(e) => r == Err::<(), VisitError>(e) && post_v == mid_v && post == mid,
                }
    }

    /// Hands this node to [`Visitor::visit_binary_operation`] and does what the
    /// callback answers: on [`Step::Descend`] it walks the children as
    /// [`Visitable::visit`] does, on [`Step::Prune`] it leaves them alone; an error is
    /// handed on.
    pub fn accept<V: Visitor<D>, D>(&mut self, v: &mut V) -> (r: Result<(), VisitError>)
        ensures
            final(self).depth() <= old(self).depth(),
            final(v).shared() == old(v).shared(),
            unfailing::<V, D>() ==> r is Ok,
            old(v).inert() ==> r is Ok && *final(v) == *old(v) && final(self).same_as(old(self)),
            forall|made: spec_fn(Call<V>) -> bool|
                #![trigger picked(made)]
                picked(made)
                    && (forall|mv: &mut V, node: Node, answer: Result<Step, VisitError>|
                        #[trigger] called::<V, D>(node, mv, answer) ==> made(
                            (Call { node, before: *mv, after: *final(mv), answer }),
                        ))
                    ==> old(self).accepted::<V, D>(made, *old(v), *final(v), *final(self), r),
            forall|made: spec_fn(Call<V>) -> bool|
                #![trigger picked(made)]
                picked(made)
                    && (forall|mv: &mut V, node: Node, answer: Result<Step, VisitError>|
                        #[trigger] called::<V, D>(node, mv, answer) ==> made(
                            (Call { node, before: *mv, after: *final(mv), answer }),
                        ))
                    ==> failure_was_answered(made, r),
            between(*final(v), r),
            exists|mv: &mut V, mn: &mut BinaryOperation, answer: Result<Step, VisitError>|
                *mv == *old(v) && *mn == *old(self)
                    && #[trigger] call_ensures(V::visit_binary_operation, (mv, mn), answer)
                    && settled::<V, D, BinaryOperation>(
                        answer,
                        r,
                        *final(mv),
                        *final(v),
                        *final(mn),
                        *final(self),
                    ),
        decreases old(self).depth(), 1int,
    {
        let ghost pre_v = *v;
        let ghost pre = *self;
        let answer = v.visit_binary_operation(self);
        let ghost mid_v = *v;
        proof {
            assert(binary_operation_answered::<V, D>(pre_v, pre, *v, *self, answer));
            let (mv0, mn0) = choose|mv: &mut V, mn: &mut BinaryOperation|
                *mv == pre_v && *final(mv) == mid_v && *mn == pre
                    && #[trigger] call_ensures(V::visit_binary_operation, (mv, mn), answer);
            assert(called::<V, D>(Node::BinaryOperation(pre), mv0, answer));
        }
        match answer {
            Ok(Step::Descend) => {
                let r = self.visit(v);
                proof {
                    assert forall|made: spec_fn(Call<V>) -> bool|
                        #![trigger picked(made)]
                        picked(made)
                            && (forall|mv: &mut V, node: Node, answer: Result<Step, VisitError>|
                                #[trigger] called::<V, D>(node, mv, answer) ==> made(
                                    (Call { node, before: *mv, after: *final(mv), answer }),
                                ))
                        implies pre.accepted::<V, D>(made, pre_v, *v, *self, r) by {
                    }
                }
                r
            },
            Ok(Step::Prune) => {
                proof {
                    assert forall|made: spec_fn(Call<V>) -> bool|
                        #![trigger picked(made)]
                        picked(made)
                            && (forall|mv: &mut V, node: Node, answer: Result<Step, VisitError>|
                                #[trigger] called::<V, D>(node, mv, answer) ==> made(
                                    (Call { node, before: *mv, after: *final(mv), answer }),
                                ))
                        implies pre.accepted::<V, D>(
                            made,
                            pre_v,
                            *v,
                            *self,
                            Ok::<(), VisitError>(()),
                        ) by {
                    }
                }
                Ok(())
            },
            Err(e) => {
                proof {
                    assert forall|made: spec_fn(Call<V>) -> bool|
                        #![trigger picked(made)]
                        picked(made)
                            && (forall|mv: &mut V, node: Node, answer: Result<Step, VisitError>|
                                #[trigger] called::<V, D>(node, mv, answer) ==> made(
                                    (Call { node, before: *mv, after: *final(mv), answer }),
                                ))
                        implies pre.accepted::<V, D>(
                            made,
                            pre_v,
                            *v,
                            *self,
                            Err::<(), VisitError>(e),
                        ) by {
                    }
                }
                Err(e)
            },
        }
    }
}

impl Visitable for BinaryOperation {
    /// Walks the children in this order: `lhs`, then `rhs`. The first failure ends the
    /// walk; what stands after it is left alone.
    fn visit<V: Visitor<D>, D>(&mut self, v: &mut V) -> (r: Result<(), VisitError>)
        ensures
            forall|made: spec_fn(Call<V>) -> bool|
                #![trigger picked(made)]
                picked(made)
                    && (forall|mv: &mut V, node: Node, answer: Result<Step, VisitError>|
                        #[trigger] called::<V, D>(node, mv, answer) ==> made(
                            (Call { node, before: *mv, after: *final(mv), answer }),
                        ))
                    ==> old(self).walked::<V, D>(made, *old(v), *final(v), *final(self), r),
            forall|made: spec_fn(Call<V>) -> bool|
                #![trigger picked(made)]
                picked(made)
                    && (forall|mv: &mut V, node: Node, answer: Result<Step, VisitError>|
                        #[trigger] called::<V, D>(node, mv, answer) ==> made(
                            (Call { node, before: *mv, after: *final(mv), answer }),
                        ))
                    ==> failure_was_answered(made, r),
            between(*final(v), r),
            *final(self) == (BinaryOperation {
                lhs: final(self).lhs,
                rhs: final(self).rhs,
                ..*old(self)
            }),
        decreases old(self).depth(), 0int,
    {
        self.lhs.visit(v)?;
        self.rhs.visit(v)
    }
}

impl Visitable for BinaryOperator {
    /// Does nothing: a binary operator has no children.
    fn visit<V: Visitor<D>, D>(&mut self, v: &mut V) -> (r: Result<(), VisitError>)
        ensures
            r is Ok,
            *final(self) == *old(self),
            *final(v) == *old(v),
    {
        Ok(())
    }
}

impl Conditional {
    /// How `visit` takes this node and the visitor `pre_v` to `post` and `post_v`, with
    /// the result `r`, the calls of callbacks being among `made`: the children are
    /// walked one after the other, each from the visitor as the one before has left it;
    /// the first failure is the result, and what stands behind it is as it was. What is
    /// no child is as it was.
    pub open spec fn walked<V: Visitor<D>, D>(
        &self,
        made: spec_fn(Call<V>) -> bool,
        pre_v: V,
        post_v: V,
        post: Conditional,
        r: Result<(), VisitError>,
    ) -> bool
        decreases self.depth(), 0int, 0int,
    {
        &&& post == (Conditional {
            condition: post.condition,
            false_expression: post.false_expression,
            ..*self
        })
        &&& (exists|v1: V, r1: Result<(), VisitError>|
            #[trigger] between(v1, r1) && self.condition.walked::<V, D>(
                made,
                pre_v,
                v1,
                *post.condition,
                r1,
            )
                && match r1 {
                    Ok(_) => {
                        exists|v2: V, once: Expression, r2: Result<(), VisitError>|
                            #![trigger between(v2, r2), held(once)]
                            self.false_expression.walked::<V, D>(made, v1, v2, once, r2)
                                && once.depth() <= self.false_expression.depth()
                                && match r2 {
                                    Ok(_) => once.walked::<V, D>(
                                        made,
                                        v2,
                                        post_v,
                                        *post.false_expression,
                                        r,
                                    ),
                                    Err(e) => {
                                        &&& r == Err::<(), VisitError>(e)
                                        &&& post_v == v2
                                        &&& *post.false_expression == once
                                    },
                                }
                    },
                    Err(e) => {
                        &&& r == Err::<(), VisitError>(e)
                        &&& post_v == v1
                        &&& post.false_expression == self.false_expression
                    },
                })
    }

    /// How `accept` takes this node and the visitor `pre_v` to `post` and `post_v`,
    /// with the result `r`, the calls of callbacks being among `made`: the callback for
    /// this kind is called with `pre_v` and this node, answers, and leaves `mid_v` and
    /// `mid`, which is no deeper; after [`Step::Descend`] the children of `mid` are
    /// walked from `mid_v`, after anything else nothing more happens, and an error is
    /// the result as it is.
    pub open spec fn accepted<V: Visitor<D>, D>(
        &self,
        made: spec_fn(Call<V>) -> bool,
        pre_v: V,
        post_v: V,
        post: Conditional,
        r: Result<(), VisitError>,
    ) -> bool
        decreases self.depth(), 1int, 0int,
    {
        exists|mid_v: V, mid: Conditional, answer: Result<Step, VisitError>|
            #[trigger] conditional_answered::<V, D>(pre_v, *self, mid_v, mid, answer)
                && made(
                    (Call { node: Node::Conditional(*self), before: pre_v, after: mid_v, answer }),
                )
                && mid.depth() <= self.depth() && match answer {
                    Ok(Step::Descend) => mid.walked::<V, D>(made, mid_v, post_v, post, r),
                    Ok(Step::Prune) => r is Ok && post_v == mid_v && post == mid,
                    Err(e) => r == Err::<(), VisitError>(e) && post_v == mid_v && post == mid,
                }
    }

    /// Hands this node to [`Visitor::visit_conditional`] and does what the callback
    /// answers: on [`Step::Descend`] it walks the children as [`Visitable::visit`]
    /// does, on [`Step::Prune`] it leaves them alone; an error is handed on.
    pub fn accept<V: Visitor<D>, D>(&mut self, v: &mut V) -> (r: Result<(), VisitError>)
        ensures
            final(self).depth() <= old(self).depth(),
            final(v).shared() == old(v).shared(),
            unfailing::<V, D>() ==> r is Ok,
            old(v).inert() ==> r is Ok && *final(v) == *old(v) && final(self).same_as(old(self)),
            forall|made: spec_fn(Call<V>) -> bool|
                #![trigger picked(made)]
                picked(made)
                    && (forall|mv: &mut V, node: Node, answer: Result<Step, VisitError>|
                        #[trigger] called::<V, D>(node, mv, answer) ==> made(
                            (Call { node, before: *mv, after: *final(mv), answer }),
                        ))
                    ==> old(self).accepted::<V, D>(made, *old(v), *final(v), *final(self), r),
            forall|made: spec_fn(Call<V>) -> bool|
                #![trigger picked(made)]
                picked(made)
                    && (forall|mv: &mut V, node: Node, answer: Result<Step, VisitError>|
                        #[trigger] called::<V, D>(node, mv, answer) ==> made(
                            (Call { node, before: *mv, after: *final(mv), answer }),
                        ))
                    ==> failure_was_answered(made, r),
            between(*final(v), r),
            exists|mv: &mut V, mn: &mut Conditional, answer: Result<Step, VisitError>|
                *mv == *old(v) && *mn == *old(self)
                    && #[trigger] call_ensures(V::visit_conditional, (mv, mn), answer)
                    && settled::<V, D, Conditional>(
                        answer,
                        r,
                        *final(mv),
                        *final(v),
                        *final(mn),
                        *final(self),
                    ),
        decreases old(self).depth(), 1int,
    {
        let ghost pre_v = *v;
        let ghost pre = *self;
        let answer = v.visit_conditional(self);
        let ghost mid_v = *v;
        proof {
            assert(conditional_answered::<V, D>(pre_v, pre, *v, *self, answer));
            let (mv0, mn0) = choose|mv: &mut V, mn: &mut Conditional|
                *mv == pre_v && *final(mv) == mid_v && *mn == pre
                    && #[trigger] call_ensures(V::visit_conditional, (mv, mn), answer);
            assert(called::<V, D>(Node::Conditional(pre), mv0, answer));
        }
        match answer {
            Ok(Step::Descend) => {
                let r = self.visit(v);
                proof {
                    assert forall|made: spec_fn(Call<V>) -> bool|
                        #![trigger picked(made)]
                        picked(made)
                            && (forall|mv: &mut V, node: Node, answer: Result<Step, VisitError>|
                                #[trigger] called::<V, D>(node, mv, answer) ==> made(
                                    (Call { node, before: *mv, after: *final(mv), answer }),
                                ))
                        implies pre.accepted::<V, D>(made, pre_v, *v, *self, r) by {
                    }
                }
                r
            },
            Ok(Step::Prune) => {
                proof {
                    assert forall|made: spec_fn(Call<V>) -> bool|
                        #![trigger picked(made)]
                        picked(made)
                            && (forall|mv: &mut V, node: Node, answer: Result<Step, VisitError>|
                                #[trigger] called::<V, D>(node, mv, answer) ==> made(
                                    (Call { node, before: *mv, after: *final(mv), answer }),
                                ))
                        implies pre.accepted::<V, D>(
                            made,
                            pre_v,
                            *v,
                            *self,
                            Ok::<(), VisitError>(()),
                        ) by {
                    }
                }
                Ok(())
            },
            Err(e) => {
                proof {
                    assert forall|made: spec_fn(Call<V>) -> bool|
                        #![trigger picked(made)]
                        picked(made)
                            && (forall|mv: &mut V, node: Node, answer: Result<Step, VisitError>|
                                #[trigger] called::<V, D>(node, mv, answer) ==> made(
                                    (Call { node, before: *mv, after: *final(mv), answer }),
                                ))
                        implies pre.accepted::<V, D>(
                            made,
                            pre_v,
                            *v,
                            *self,
                            Err::<(), VisitError>(e),
                        ) by {
                    }
                }
                Err(e)
            },
        }
    }
}

impl Visitable for Conditional {
    /// Walks the children in this order: `condition`, then `false_expression`, then
    /// `false_expression` once more. The first failure ends the walk; what stands after
    /// it is left alone.
    ///
    /// The false branch is walked twice, and the second time in the state in which the
    /// first has left it. The true branch is never walked: a visitor that is to see it
    /// walks it from its callback for the conditional.
    fn visit<V: Visitor<D>, D>(&mut self, v: &mut V) -> (r: Result<(), VisitError>)
        ensures
            forall|made: spec_fn(Call<V>) -> bool|
                #![trigger picked(made)]
                picked(made)
                    && (forall|mv: &mut V, node: Node, answer: Result<Step, VisitError>|
                        #[trigger] called::<V, D>(node, mv, answer) ==> made(
                            (Call { node, before: *mv, after: *final(mv), answer }),
                        ))
                    ==> old(self).walked::<V, D>(made, *old(v), *final(v), *final(self), r),
            forall|made: spec_fn(Call<V>) -> bool|
                #![trigger picked(made)]
                picked(made)
                    && (forall|mv: &mut V, node: Node, answer: Result<Step, VisitError>|
                        #[trigger] called::<V, D>(node, mv, answer) ==> made(
                            (Call { node, before: *mv, after: *final(mv), answer }),
                        ))
                    ==> failure_was_answered(made, r),
            between(*final(v), r),
            *final(self) == (Conditional {
                condition: final(self).condition,
                false_expression: final(self).false_expression,
                ..*old(self)
            }),
        decreases old(self).depth(), 0int,
    {
        self.condition.visit(v)?;
        let first = self.false_expression.visit(v);
        let ghost once = *self.false_expression;
        proof {
            assert(held(once));
        }
        match first {
            Ok(_) => {},
            Err(e) => {
                return Err(e);
            },
        }
        let r = self.false_expression.visit(v);
        proof {
            if old(v).inert() {
                lemma_expression_same_chain(
                    *self.false_expression,
                    once,
                    *old(self).false_expression,
                );
            }
        }
        r
    }
}

impl ElementaryTypeNameExpression {
    /// How `accept` takes this node and the visitor `pre_v` to `post` and `post_v`,
    /// with the result `r`, the calls of callbacks being among `made`: the callback for
    /// this kind is called with `pre_v` and this node, answers, and leaves `mid_v` and
    /// `mid`, which is no deeper; after [`Step::Descend`] the children of `mid` are
    /// walked from `mid_v`, after anything else nothing more happens, and an error is
    /// the result as it is.
    pub open spec fn accepted<V: Visitor<D>, D>(
        &self,
        made: spec_fn(Call<V>) -> bool,
        pre_v: V,
        post_v: V,
        post: ElementaryTypeNameExpression,
        r: Result<(), VisitError>,
    ) -> bool
    {
        exists|mid_v: V, mid: ElementaryTypeNameExpression, answer: Result<Step, VisitError>|
            #[trigger] elementary_type_name_expression_answered::<V, D>(
                pre_v,
                *self,
                mid_v,
                mid,
                answer,
            )
                && made(
                    (Call {
                        node: Node::ElementaryTypeNameExpression(*self),
                        before: pre_v,
                        after: mid_v,
                        answer,
                    }),
                )
                && post_v == mid_v && post == mid && match answer {
                    Ok(_) => r is Ok,
                    Err(e) => r == Err::<(), VisitError>(e),
                }
    }

    /// Hands this node to [`Visitor::visit_elementary_type_name_expression`]. The node
    /// has no children that the walk enters, so nothing follows the callback; its
    /// error, if any, is handed on.
    pub fn accept<V: Visitor<D>, D>(&mut self, v: &mut V) -> (r: Result<(), VisitError>)
        ensures
            final(self).depth() <= old(self).depth(),
            final(v).shared() == old(v).shared(),
            unfailing::<V, D>() ==> r is Ok,
            old(v).inert() ==> r is Ok && *final(v) == *old(v) && final(self).same_as(old(self)),
            forall|made: spec_fn(Call<V>) -> bool|
                #![trigger picked(made)]
                picked(made)
                    && (forall|mv: &mut V, node: Node, answer: Result<Step, VisitError>|
                        #[trigger] called::<V, D>(node, mv, answer) ==> made(
                            (Call { node, before: *mv, after: *final(mv), answer }),
                        ))
                    ==> old(self).accepted::<V, D>(made, *old(v), *final(v), *final(self), r),
            forall|made: spec_fn(Call<V>) -> bool|
                #![trigger picked(made)]
                picked(made)
                    && (forall|mv: &mut V, node: Node, answer: Result<Step, VisitError>|
                        #[trigger] called::<V, D>(node, mv, answer) ==> made(
                            (Call { node, before: *mv, after: *final(mv), answer }),
                        ))
                    ==> failure_was_answered(made, r),
            between(*final(v), r),
            exists|
                mv: &mut V,
                mn: &mut ElementaryTypeNameExpression,
                answer: Result<Step, VisitError>,
            |
                *mv == *old(v) && *mn == *old(self)
                    && #[trigger] call_ensures(
                        V::visit_elementary_type_name_expression,
                        (mv, mn),
                        answer,
                    )
                    && settled::<V, D, ElementaryTypeNameExpression>(
                        answer,
                        r,
                        *final(mv),
                        *final(v),
                        *final(mn),
                        *final(self),
                    ),
    {
        let ghost pre_v = *v;
        let ghost pre = *self;
        let answer = v.visit_elementary_type_name_expression(self);
        let ghost mid_v = *v;
        proof {
            assert(elementary_type_name_expression_answered::<V, D>(pre_v, pre, *v, *self, answer));
            let (mv0, mn0) = choose|mv: &mut V, mn: &mut ElementaryTypeNameExpression|
                *mv == pre_v && *final(mv) == mid_v && *mn == pre
                    && #[trigger] call_ensures(
                        V::visit_elementary_type_name_expression,
                        (mv, mn),
                        answer,
                    );
            assert(called::<V, D>(Node::ElementaryTypeNameExpression(pre), mv0, answer));
        }
        match answer {
            Ok(Step::Descend) => {
                let r = self.visit(v);
                proof {
                    assert forall|made: spec_fn(Call<V>) -> bool|
                        #![trigger picked(made)]
                        picked(made)
                            && (forall|mv: &mut V, node: Node, answer: Result<Step, VisitError>|
                                #[trigger] called::<V, D>(node, mv, answer) ==> made(
                                    (Call { node, before: *mv, after: *final(mv), answer }),
                                ))
                        implies pre.accepted::<V, D>(made, pre_v, *v, *self, r) by {
                    }
                }
                r
            },
            Ok(Step::Prune) => {
                proof {
                    assert forall|made: spec_fn(Call<V>) -> bool|
                        #![trigger picked(made)]
                        picked(made)
                            && (forall|mv: &mut V, node: Node, answer: Result<Step, VisitError>|
                                #[trigger] called::<V, D>(node, mv, answer) ==> made(
                                    (Call { node, before: *mv, after: *final(mv), answer }),
                                ))
                        implies pre.accepted::<V, D>(
                            made,
                            pre_v,
                            *v,
                            *self,
                            Ok::<(), VisitError>(()),
                        ) by {
                    }
                }
                Ok(())
            },
            Err(e) => {
                proof {
                    assert forall|made: spec_fn(Call<V>) -> bool|
                        #![trigger picked(made)]
                        picked(made)
                            && (forall|mv: &mut V, node: Node, answer: Result<Step, VisitError>|
                                #[trigger] called::<V, D>(node, mv, answer) ==> made(
                                    (Call { node, before: *mv, after: *final(mv), answer }),
                                ))
                        implies pre.accepted::<V, D>(
                            made,
                            pre_v,
                            *v,
                            *self,
                            Err::<(), VisitError>(e),
                        ) by {
                    }
                }
                Err(e)
            },
        }
    }
}

impl Visitable for ElementaryTypeNameExpression {
    /// Does nothing: the walk does not enter an elementary type name expression.
    fn visit<V: Visitor<D>, D>(&mut self, v: &mut V) -> (r: Result<(), VisitError>)
        ensures
            r is Ok,
            *final(self) == *old(self),
            *final(v) == *old(v),
    {
        Ok(())
    }
}

impl FunctionCall {
    /// How `visit` takes this node and the visitor `pre_v` to `post` and `post_v`, with
    /// the result `r`, the calls of callbacks being among `made`: the children are
    /// walked one after the other, each from the visitor as the one before has left it;
    /// the first failure is the result, and what stands behind it is as it was. What is
    /// no child is as it was.
    pub open spec fn walked<V: Visitor<D>, D>(
        &self,
        made: spec_fn(Call<V>) -> bool,
        pre_v: V,
        post_v: V,
        post: FunctionCall,
        r: Result<(), VisitError>,
    ) -> bool
        decreases self.depth(), 0int, 0int,
    {
        &&& post == (FunctionCall {
            arguments: post.arguments,
            expression: post.expression,
            ..*self
        })
        &&& (exists|v1: V, r1: Result<(), VisitError>|
                #[trigger] between(v1, r1)
                    && expressions_walked::<V, D>(
                        made,
                        self.arguments@,
                        pre_v,
                        v1,
                        post.arguments@,
                        r1,
                    )
                    && match r1 {
                        Ok(_) => {
                            self.expression.walked::<V, D>(made, v1, post_v, *post.expression, r)
                        },
                        Err(e) => {
                            &&& r == Err::<(), VisitError>(e)
                            &&& post_v == v1
                            &&& post.expression == self.expression
                        },
                    })
    }

    /// How `accept` takes this node and the visitor `pre_v` to `post` and `post_v`,
    /// with the result `r`, the calls of callbacks being among `made`: the callback for
    /// this kind is called with `pre_v` and this node, answers, and leaves `mid_v` and
    /// `mid`, which is no deeper; after [`Step::Descend`] the children of `mid` are
    /// walked from `mid_v`, after anything else nothing more happens, and an error is
    /// the result as it is.
    pub open spec fn accepted<V: Visitor<D>, D>(
        &self,
        made: spec_fn(Call<V>) -> bool,
        pre_v: V,
        post_v: V,
        post: FunctionCall,
        r: Result<(), VisitError>,
    ) -> bool
        decreases self.depth(), 1int, 0int,
    {
        exists|mid_v: V, mid: FunctionCall, answer: Result<Step, VisitError>|
            #[trigger] function_call_answered::<V, D>(pre_v, *self, mid_v, mid, answer)
                && made(
                    (Call { node: Node::FunctionCall(*self), before: pre_v, after: mid_v, answer }),
                )
                && mid.depth() <= self.depth() && match answer {
                    Ok(Step::Descend) => mid.walked::<V, D>(made, mid_v, post_v, post, r),
                    Ok(Step::Prune) => r is Ok && post_v == mid_v && post == mid,
                    Err(e) => r == Err::<(), VisitError>(e) && post_v == mid_v && post == mid,
                }
    }

    /// Hands this node to [`Visitor::visit_function_call`] and does what the callback
    /// answers: on [`Step::Descend`] it walks the children as [`Visitable::visit`]
    /// does, on [`Step::Prune`] it leaves them alone; an error is handed on.
    pub fn accept<V: Visitor<D>, D>(&mut self, v: &mut V) -> (r: Result<(), VisitError>)
        ensures
            final(self).depth() <= old(self).depth(),
            final(v).shared() == old(v).shared(),
            unfailing::<V, D>() ==> r is Ok,
            old(v).inert() ==> r is Ok && *final(v) == *old(v) && final(self).same_as(old(self)),
            forall|made: spec_fn(Call<V>) -> bool|
                #![trigger picked(made)]
                picked(made)
                    && (forall|mv: &mut V, node: Node, answer: Result<Step, VisitError>|
                        #[trigger] called::<V, D>(node, mv, answer) ==> made(
                            (Call { node, before: *mv, after: *final(mv), answer }),
                        ))
                    ==> old(self).accepted::<V, D>(made, *old(v), *final(v), *final(self), r),
            forall|made: spec_fn(Call<V>) -> bool|
                #![trigger picked(made)]
                picked(made)
                    && (forall|mv: &mut V, node: Node, answer: Result<Step, VisitError>|
                        #[trigger] called::<V, D>(node, mv, answer) ==> made(
                            (Call { node, before: *mv, after: *final(mv), answer }),
                        ))
                    ==> failure_was_answered(made, r),
            between(*final(v), r),
            exists|mv: &mut V, mn: &mut FunctionCall, answer: Result<Step, VisitError>|
                *mv == *old(v) && *mn == *old(self)
                    && #[trigger] call_ensures(V::visit_function_call, (mv, mn), answer)
                    && settled::<V, D, FunctionCall>(
                        answer,
                        r,
                        *final(mv),
                        *final(v),
                        *final(mn),
                        *final(self),
                    ),
        decreases old(self).depth(), 1int,
    {
        let ghost pre_v = *v;
        let ghost pre = *self;
        let answer = v.visit_function_call(self);
        let ghost mid_v = *v;
        proof {
            assert(function_call_answered::<V, D>(pre_v, pre, *v, *self, answer));
            let (mv0, mn0) = choose|mv: &mut V, mn: &mut FunctionCall|
                *mv == pre_v && *final(mv) == mid_v && *mn == pre
                    && #[trigger] call_ensures(V::visit_function_call, (mv, mn), answer);
            assert(called::<V, D>(Node::FunctionCall(pre), mv0, answer));
        }
        match answer {
            Ok(Step::Descend) => {
                let r = self.visit(v);
                proof {
                    assert forall|made: spec_fn(Call<V>) -> bool|
                        #![trigger picked(made)]
                        picked(made)
                            && (forall|mv: &mut V, node: Node, answer: Result<Step, VisitError>|
                                #[trigger] called::<V, D>(node, mv, answer) ==> made(
                                    (Call { node, before: *mv, after: *final(mv), answer }),
                                ))
                        implies pre.accepted::<V, D>(made, pre_v, *v, *self, r) by {
                    }
                }
                r
            },
            Ok(Step::Prune) => {
                proof {
                    assert forall|made: spec_fn(Call<V>) -> bool|
                        #![trigger picked(made)]
                        picked(made)
                            && (forall|mv: &mut V, node: Node, answer: Result<Step, VisitError>|
                                #[trigger] called::<V, D>(node, mv, answer) ==> made(
                                    (Call { node, before: *mv, after: *final(mv), answer }),
                                ))
                        implies pre.accepted::<V, D>(
                            made,
                            pre_v,
                            *v,
                            *self,
                            Ok::<(), VisitError>(()),
                        ) by {
                    }
                }
                Ok(())
            },
            Err(e) => {
                proof {
                    assert forall|made: spec_fn(Call<V>) -> bool|
                        #![trigger picked(made)]
                        picked(made)
                            && (forall|mv: &mut V, node: Node, answer: Result<Step, VisitError>|
                                #[trigger] called::<V, D>(node, mv, answer) ==> made(
                                    (Call { node, before: *mv, after: *final(mv), answer }),
                                ))
                        implies pre.accepted::<V, D>(
                            made,
                            pre_v,
                            *v,
                            *self,
                            Err::<(), VisitError>(e),
                        ) by {
                    }
                }
                Err(e)
            },
        }
    }
}

impl Visitable for FunctionCall {
    /// Walks the children in this order: `arguments`, then `expression`. The first
    /// failure ends the walk; what stands after it is left alone.
    fn visit<V: Visitor<D>, D>(&mut self, v: &mut V) -> (r: Result<(), VisitError>)
        ensures
            forall|made: spec_fn(Call<V>) -> bool|
                #![trigger picked(made)]
                picked(made)
                    && (forall|mv: &mut V, node: Node, answer: Result<Step, VisitError>|
                        #[trigger] called::<V, D>(node, mv, answer) ==> made(
                            (Call { node, before: *mv, after: *final(mv), answer }),
                        ))
                    ==> old(self).walked::<V, D>(made, *old(v), *final(v), *final(self), r),
            forall|made: spec_fn(Call<V>) -> bool|
                #![trigger picked(made)]
                picked(made)
                    && (forall|mv: &mut V, node: Node, answer: Result<Step, VisitError>|
                        #[trigger] called::<V, D>(node, mv, answer) ==> made(
                            (Call { node, before: *mv, after: *final(mv), answer }),
                        ))
                    ==> failure_was_answered(made, r),
            between(*final(v), r),
            *final(self) == (FunctionCall {
                arguments: final(self).arguments,
                expression: final(self).expression,
                ..*old(self)
            }),
            final(self).arguments@.len() == old(self).arguments@.len(),
        decreases old(self).depth(), 0int,
    {
        visit_expressions(&mut self.arguments, v)?;
        self.expression.visit(v)
    }
}

impl FunctionCallOptions {
    /// How `visit` takes this node and the visitor `pre_v` to `post` and `post_v`, with
    /// the result `r`, the calls of callbacks being among `made`: the children are
    /// walked one after the other, each from the visitor as the one before has left it;
    /// the first failure is the result, and what stands behind it is as it was. What is
    /// no child is as it was.
    pub open spec fn walked<V: Visitor<D>, D>(
        &self,
        made: spec_fn(Call<V>) -> bool,
        pre_v: V,
        post_v: V,
        post: FunctionCallOptions,
        r: Result<(), VisitError>,
    ) -> bool
        decreases self.depth(), 0int, 0int,
    {
        &&& post == (FunctionCallOptions {
            expression: post.expression,
            options: post.options,
            ..*self
        })
        &&& (exists|v1: V, r1: Result<(), VisitError>|
                #[trigger] between(v1, r1)
                    && self.expression.walked::<V, D>(made, pre_v, v1, *post.expression, r1)
                    && match r1 {
                        Ok(_) => {
                            expressions_walked::<V, D>(
                                made,
                                self.options@,
                                v1,
                                post_v,
                                post.options@,
                                r,
                            )
                        },
                        Err(e) => {
                            &&& r == Err::<(), VisitError>(e)
                            &&& post_v == v1
                            &&& post.options == self.options
                        },
                    })
    }

    /// How `accept` takes this node and the visitor `pre_v` to `post` and `post_v`,
    /// with the result `r`, the calls of callbacks being among `made`: the callback for
    /// this kind is called with `pre_v` and this node, answers, and leaves `mid_v` and
    /// `mid`, which is no deeper; after [`Step::Descend`] the children of `mid` are
    /// walked from `mid_v`, after anything else nothing more happens, and an error is
    /// the result as it is.
    pub open spec fn accepted<V: Visitor<D>, D>(
        &self,
        made: spec_fn(Call<V>) -> bool,
        pre_v: V,
        post_v: V,
        post: FunctionCallOptions,
        r: Result<(), VisitError>,
    ) -> bool
        decreases self.depth(), 1int, 0int,
    {
        exists|mid_v: V, mid: FunctionCallOptions, answer: Result<Step, VisitError>|
            #[trigger] function_call_options_answered::<V, D>(pre_v, *self, mid_v, mid, answer)
                && made(
                    (Call {
                        node: Node::FunctionCallOptions(*self),
                        before: pre_v,
                        after: mid_v,
                        answer,
                    }),
                )
                && mid.depth() <= self.depth() && match answer {
                    Ok(Step::Descend) => mid.walked::<V, D>(made, mid_v, post_v, post, r),
                    Ok(Step::Prune) => r is Ok && post_v == mid_v && post == mid,
                    Err(e) => r == Err::<(), VisitError>(e) && post_v == mid_v && post == mid,
                }
    }

    /// Hands this node to [`Visitor::visit_function_call_options`] and does what the
    /// callback answers: on [`Step::Descend`] it walks the children as
    /// [`Visitable::visit`] does, on [`Step::Prune`] it leaves them alone; an error is
    /// handed on.
    pub fn accept<V: Visitor<D>, D>(&mut self, v: &mut V) -> (r: Result<(), VisitError>)
        ensures
            final(self).depth() <= old(self).depth(),
            final(v).shared() == old(v).shared(),
            unfailing::<V, D>() ==> r is Ok,
            old(v).inert() ==> r is Ok && *final(v) == *old(v) && final(self).same_as(old(self)),
            forall|made: spec_fn(Call<V>) -> bool|
                #![trigger picked(made)]
                picked(made)
                    && (forall|mv: &mut V, node: Node, answer: Result<Step, VisitError>|
                        #[trigger] called::<V, D>(node, mv, answer) ==> made(
                            (Call { node, before: *mv, after: *final(mv), answer }),
                        ))
                    ==> old(self).accepted::<V, D>(made, *old(v), *final(v), *final(self), r),
            forall|made: spec_fn(Call<V>) -> bool|
                #![trigger picked(made)]
                picked(made)
                    && (forall|mv: &mut V, node: Node, answer: Result<Step, VisitError>|
                        #[trigger] called::<V, D>(node, mv, answer) ==> made(
                            (Call { node, before: *mv, after: *final(mv), answer }),
                        ))
                    ==> failure_was_answered(made, r),
            between(*final(v), r),
            exists|mv: &mut V, mn: &mut FunctionCallOptions, answer: Result<Step, VisitError>|
                *mv == *old(v) && *mn == *old(self)
                    && #[trigger] call_ensures(V::visit_function_call_options, (mv, mn), answer)
                    && settled::<V, D, FunctionCallOptions>(
                        answer,
                        r,
                        *final(mv),
                        *final(v),
                        *final(mn),
                        *final(self),
                    ),
        decreases old(self).depth(), 1int,
    {
        let ghost pre_v = *v;
        let ghost pre = *self;
        let answer = v.visit_function_call_options(self);
        let ghost mid_v = *v;
        proof {
            assert(function_call_options_answered::<V, D>(pre_v, pre, *v, *self, answer));
            let (mv0, mn0) = choose|mv: &mut V, mn: &mut FunctionCallOptions|
                *mv == pre_v && *final(mv) == mid_v && *mn == pre
                    && #[trigger] call_ensures(V::visit_function_call_options, (mv, mn), answer);
            assert(called::<V, D>(Node::FunctionCallOptions(pre), mv0, answer));
        }
        match answer {
            Ok(Step::Descend) => {
                let r = self.visit(v);
                proof {
                    assert forall|made: spec_fn(Call<V>) -> bool|
                        #![trigger picked(made)]
                        picked(made)
                            && (forall|mv: &mut V, node: Node, answer: Result<Step, VisitError>|
                                #[trigger] called::<V, D>(node, mv, answer) ==> made(
                                    (Call { node, before: *mv, after: *final(mv), answer }),
                                ))
                        implies pre.accepted::<V, D>(made, pre_v, *v, *self, r) by {
                    }
                }
                r
            },
            Ok(Step::Prune) => {
                proof {
                    assert forall|made: spec_fn(Call<V>) -> bool|
                        #![trigger picked(made)]
                        picked(made)
                            && (forall|mv: &mut V, node: Node, answer: Result<Step, VisitError>|
                                #[trigger] called::<V, D>(node, mv, answer) ==> made(
                                    (Call { node, before: *mv, after: *final(mv), answer }),
                                ))
                        implies pre.accepted::<V, D>(
                            made,
                            pre_v,
                            *v,
                            *self,
                            Ok::<(), VisitError>(()),
                        ) by {
                    }
                }
                Ok(())
            },
            Err(e) => {
                proof {
                    assert forall|made: spec_fn(Call<V>) -> bool|
                        #![trigger picked(made)]
                        picked(made)
                            && (forall|mv: &mut V, node: Node, answer: Result<Step, VisitError>|
                                #[trigger] called::<V, D>(node, mv, answer) ==> made(
                                    (Call { node, before: *mv, after: *final(mv), answer }),
                                ))
                        implies pre.accepted::<V, D>(
                            made,
                            pre_v,
                            *v,
                            *self,
                            Err::<(), VisitError>(e),
                        ) by {
                    }
                }
                Err(e)
            },
        }
    }
}

impl Visitable for FunctionCallOptions {
    /// Walks the children in this order: `expression`, then `options`. The first
    /// failure ends the walk; what stands after it is left alone.
    fn visit<V: Visitor<D>, D>(&mut self, v: &mut V) -> (r: Result<(), VisitError>)
        ensures
            forall|made: spec_fn(Call<V>) -> bool|
                #![trigger picked(made)]
                picked(made)
                    && (forall|mv: &mut V, node: Node, answer: Result<Step, VisitError>|
                        #[trigger] called::<V, D>(node, mv, answer) ==> made(
                            (Call { node, before: *mv, after: *final(mv), answer }),
                        ))
                    ==> old(self).walked::<V, D>(made, *old(v), *final(v), *final(self), r),
            forall|made: spec_fn(Call<V>) -> bool|
                #![trigger picked(made)]
                picked(made)
                    && (forall|mv: &mut V, node: Node, answer: Result<Step, VisitError>|
                        #[trigger] called::<V, D>(node, mv, answer) ==> made(
                            (Call { node, before: *mv, after: *final(mv), answer }),
                        ))
                    ==> failure_was_answered(made, r),
            between(*final(v), r),
            *final(self) == (FunctionCallOptions {
                expression: final(self).expression,
                options: final(self).options,
                ..*old(self)
            }),
            final(self).options@.len() == old(self).options@.len(),
        decreases old(self).depth(), 0int,
    {
        self.expression.visit(v)?;
        visit_expressions(&mut self.options, v)
    }
}

impl IndexAccess {
    /// How `visit` takes this node and the visitor `pre_v` to `post` and `post_v`, with
    /// the result `r`, the calls of callbacks being among `made`: the children are
    /// walked one after the other, each from the visitor as the one before has left it;
    /// the first failure is the result, and what stands behind it is as it was. What is
    /// no child is as it was.
    pub open spec fn walked<V: Visitor<D>, D>(
        &self,
        made: spec_fn(Call<V>) -> bool,
        pre_v: V,
        post_v: V,
        post: IndexAccess,
        r: Result<(), VisitError>,
    ) -> bool
        decreases self.depth(), 0int, 0int,
    {
        &&& post == (IndexAccess {
            base_expression: post.base_expression,
            index_expression: post.index_expression,
            ..*self
        })
        &&& (exists|v1: V, r1: Result<(), VisitError>|
                #[trigger] between(v1, r1)
                    && self.base_expression.walked::<V, D>(
                        made,
                        pre_v,
                        v1,
                        *post.base_expression,
                        r1,
                    )
                    && match r1 {
                        Ok(_) => {
                            maybe_boxed_expression_walked::<V, D>(
                                made,
                                self.index_expression,
                                v1,
                                post_v,
                                post.index_expression,
                                r,
                            )
                        },
                        Err(e) => {
                            &&& r == Err::<(), VisitError>(e)
                            &&& post_v == v1
                            &&& post.index_expression == self.index_expression
                        },
                    })
    }

    /// How `accept` takes this node and the visitor `pre_v` to `post` and `post_v`,
    /// with the result `r`, the calls of callbacks being among `made`: the callback for
    /// this kind is called with `pre_v` and this node, answers, and leaves `mid_v` and
    /// `mid`, which is no deeper; after [`Step::Descend`] the children of `mid` are
    /// walked from `mid_v`, after anything else nothing more happens, and an error is
    /// the result as it is.
    pub open spec fn accepted<V: Visitor<D>, D>(
        &self,
        made: spec_fn(Call<V>) -> bool,
        pre_v: V,
        post_v: V,
        post: IndexAccess,
        r: Result<(), VisitError>,
    ) -> bool
        decreases self.depth(), 1int, 0int,
    {
        exists|mid_v: V, mid: IndexAccess, answer: Result<Step, VisitError>|
            #[trigger] index_access_answered::<V, D>(pre_v, *self, mid_v, mid, answer)
                && made(
                    (Call { node: Node::IndexAccess(*self), before: pre_v, after: mid_v, answer }),
                )
                && mid.depth() <= self.depth() && match answer {
                    Ok(Step::Descend) => mid.walked::<V, D>(made, mid_v, post_v, post, r),
                    Ok(Step::Prune) => r is Ok && post_v == mid_v && post == mid,
                    Err(e) => r == Err::<(), VisitError>(e) && post_v == mid_v && post == mid,
                }
    }

    /// Hands this node to [`Visitor::visit_index_access`] and does what the callback
    /// answers: on [`Step::Descend`] it walks the children as [`Visitable::visit`]
    /// does, on [`Step::Prune`] it leaves them alone; an error is handed on.
    pub fn accept<V: Visitor<D>, D>(&mut self, v: &mut V) -> (r: Result<(), VisitError>)
        ensures
            final(self).depth() <= old(self).depth(),
            final(v).shared() == old(v).shared(),
            unfailing::<V, D>() ==> r is Ok,
            old(v).inert() ==> r is Ok && *final(v) == *old(v) && final(self).same_as(old(self)),
            forall|made: spec_fn(Call<V>) -> bool|
                #![trigger picked(made)]
                picked(made)
                    && (forall|mv: &mut V, node: Node, answer: Result<Step, VisitError>|
                        #[trigger] called::<V, D>(node, mv, answer) ==> made(
                            (Call { node, before: *mv, after: *final(mv), answer }),
                        ))
                    ==> old(self).accepted::<V, D>(made, *old(v), *final(v), *final(self), r),
            forall|made: spec_fn(Call<V>) -> bool|
                #![trigger picked(made)]
                picked(made)
                    && (forall|mv: &mut V, node: Node, answer: Result<Step, VisitError>|
                        #[trigger] called::<V, D>(node, mv, answer) ==> made(
                            (Call { node, before: *mv, after: *final(mv), answer }),
                        ))
                    ==> failure_was_answered(made, r),
            between(*final(v), r),
            exists|mv: &mut V, mn: &mut IndexAccess, answer: Result<Step, VisitError>|
                *mv == *old(v) && *mn == *old(self)
                    && #[trigger] call_ensures(V::visit_index_access, (mv, mn), answer)
                    && settled::<V, D, IndexAccess>(
                        answer,
                        r,
                        *final(mv),
                        *final(v),
                        *final(mn),
                        *final(self),
                    ),
        decreases old(self).depth(), 1int,
    {
        let ghost pre_v = *v;
        let ghost pre = *self;
        let answer = v.visit_index_access(self);
        let ghost mid_v = *v;
        proof {
            assert(index_access_answered::<V, D>(pre_v, pre, *v, *self, answer));
            let (mv0, mn0) = choose|mv: &mut V, mn: &mut IndexAccess|
                *mv == pre_v && *final(mv) == mid_v && *mn == pre
                    && #[trigger] call_ensures(V::visit_index_access, (mv, mn), answer);
            assert(called::<V, D>(Node::IndexAccess(pre), mv0, answer));
        }
        match answer {
            Ok(Step::Descend) => {
                let r = self.visit(v);
                proof {
                    assert forall|made: spec_fn(Call<V>) -> bool|
                        #![trigger picked(made)]
                        picked(made)
                            && (forall|mv: &mut V, node: Node, answer: Result<Step, VisitError>|
                                #[trigger] called::<V, D>(node, mv, answer) ==> made(
                                    (Call { node, before: *mv, after: *final(mv), answer }),
                                ))
                        implies pre.accepted::<V, D>(made, pre_v, *v, *self, r) by {
                    }
                }
                r
            },
            Ok(Step::Prune) => {
                proof {
                    assert forall|made: spec_fn(Call<V>) -> bool|
                        #![trigger picked(made)]
                        picked(made)
                            && (forall|mv: &mut V, node: Node, answer: Result<Step, VisitError>|
                                #[trigger] called::<V, D>(node, mv, answer) ==> made(
                                    (Call { node, before: *mv, after: *final(mv), answer }),
                                ))
                        implies pre.accepted::<V, D>(
                            made,
                            pre_v,
                            *v,
                            *self,
                            Ok::<(), VisitError>(()),
                        ) by {
                    }
                }
                Ok(())
            },
            Err(e) => {
                proof {
                    assert forall|made: spec_fn(Call<V>) -> bool|
                        #![trigger picked(made)]
                        picked(made)
                            && (forall|mv: &mut V, node: Node, answer: Result<Step, VisitError>|
                                #[trigger] called::<V, D>(node, mv, answer) ==> made(
                                    (Call { node, before: *mv, after: *final(mv), answer }),
                                ))
                        implies pre.accepted::<V, D>(
                            made,
                            pre_v,
                            *v,
                            *self,
                            Err::<(), VisitError>(e),
                        ) by {
                    }
                }
                Err(e)
            },
        }
    }
}

impl Visitable for IndexAccess {
    /// Walks the children in this order: `base_expression`, then `index_expression`.
    /// The first failure ends the walk; what stands after it is left alone.
    fn visit<V: Visitor<D>, D>(&mut self, v: &mut V) -> (r: Result<(), VisitError>)
        ensures
            forall|made: spec_fn(Call<V>) -> bool|
                #![trigger picked(made)]
                picked(made)
                    && (forall|mv: &mut V, node: Node, answer: Result<Step, VisitError>|
                        #[trigger] called::<V, D>(node, mv, answer) ==> made(
                            (Call { node, before: *mv, after: *final(mv), answer }),
                        ))
                    ==> old(self).walked::<V, D>(made, *old(v), *final(v), *final(self), r),
            forall|made: spec_fn(Call<V>) -> bool|
                #![trigger picked(made)]
                picked(made)
                    && (forall|mv: &mut V, node: Node, answer: Result<Step, VisitError>|
                        #[trigger] called::<V, D>(node, mv, answer) ==> made(
                            (Call { node, before: *mv, after: *final(mv), answer }),
                        ))
                    ==> failure_was_answered(made, r),
            between(*final(v), r),
            *final(self) == (IndexAccess {
                base_expression: final(self).base_expression,
                index_expression: final(self).index_expression,
                ..*old(self)
            }),
            (final(self).index_expression is Some) == (old(self).index_expression is Some),
        decreases old(self).depth(), 0int,
    {
        self.base_expression.visit(v)?;
        visit_maybe_boxed_expression(&mut self.index_expression, v)
    }
}

impl IndexRangeAccess {
    /// How `visit` takes this node and the visitor `pre_v` to `post` and `post_v`, with
    /// the result `r`, the calls of callbacks being among `made`: the children are
    /// walked one after the other, each from the visitor as the one before has left it;
    /// the first failure is the result, and what stands behind it is as it was. What is
    /// no child is as it was.
    pub open spec fn walked<V: Visitor<D>, D>(
        &self,
        made: spec_fn(Call<V>) -> bool,
        pre_v: V,
        post_v: V,
        post: IndexRangeAccess,
        r: Result<(), VisitError>,
    ) -> bool
        decreases self.depth(), 0int, 0int,
    {
        &&& post == (IndexRangeAccess {
            base_expression: post.base_expression,
            start_expression: post.start_expression,
            end_expression: post.end_expression,
            ..*self
        })
        &&& (exists|v1: V, r1: Result<(), VisitError>|
                #[trigger] between(v1, r1)
                    && self.base_expression.walked::<V, D>(
                        made,
                        pre_v,
                        v1,
                        *post.base_expression,
                        r1,
                    )
                    && match r1 {
                        Ok(_) => {
                            exists|v2: V, r2: Result<(), VisitError>|
                                #[trigger] between(v2, r2)
                                    && maybe_boxed_expression_walked::<V, D>(
                                        made,
                                        self.start_expression,
                                        v1,
                                        v2,
                                        post.start_expression,
                                        r2,
                                    )
                                    && match r2 {
                                        Ok(_) => {
                                            maybe_boxed_expression_walked::<V, D>(
                                                made,
                                                self.end_expression,
                                                v2,
                                                post_v,
                                                post.end_expression,
                                                r,
                                            )
                                        },
                                        Err(e) => {
                                            &&& r == Err::<(), VisitError>(e)
                                            &&& post_v == v2
                                            &&& post.end_expression == self.end_expression
                                        },
                                    }
                        },
                        Err(e) => {
                            &&& r == Err::<(), VisitError>(e)
                            &&& post_v == v1
                            &&& post.start_expression == self.start_expression
                            &&& post.end_expression == self.end_expression
                        },
                    })
    }

    /// How `accept` takes this node and the visitor `pre_v` to `post` and `post_v`,
    /// with the result `r`, the calls of callbacks being among `made`: the callback for
    /// this kind is called with `pre_v` and this node, answers, and leaves `mid_v` and
    /// `mid`, which is no deeper; after [`Step::Descend`] the children of `mid` are
    /// walked from `mid_v`, after anything else nothing more happens, and an error is
    /// the result as it is.
    pub open spec fn accepted<V: Visitor<D>, D>(
        &self,
        made: spec_fn(Call<V>) -> bool,
        pre_v: V,
        post_v: V,
        post: IndexRangeAccess,
        r: Result<(), VisitError>,
    ) -> bool
        decreases self.depth(), 1int, 0int,
    {
        exists|mid_v: V, mid: IndexRangeAccess, answer: Result<Step, VisitError>|
            #[trigger] index_range_access_answered::<V, D>(pre_v, *self, mid_v, mid, answer)
                && made(
                    (Call {
                        node: Node::IndexRangeAccess(*self),
                        before: pre_v,
                        after: mid_v,
                        answer,
                    }),
                )
                && mid.depth() <= self.depth() && match answer {
                    Ok(Step::Descend) => mid.walked::<V, D>(made, mid_v, post_v, post, r),
                    Ok(Step::Prune) => r is Ok && post_v == mid_v && post == mid,
                    Err(e) => r == Err::<(), VisitError>(e) && post_v == mid_v && post == mid,
                }
    }

    /// Hands this node to [`Visitor::visit_index_range_access`] and does what the
    /// callback answers: on [`Step::Descend`] it walks the children as
    /// [`Visitable::visit`] does, on [`Step::Prune`] it leaves them alone; an error is
    /// handed on.
    pub fn accept<V: Visitor<D>, D>(&mut self, v: &mut V) -> (r: Result<(), VisitError>)
        ensures
            final(self).depth() <= old(self).depth(),
            final(v).shared() == old(v).shared(),
            unfailing::<V, D>() ==> r is Ok,
            old(v).inert() ==> r is Ok && *final(v) == *old(v) && final(self).same_as(old(self)),
            forall|made: spec_fn(Call<V>) -> bool|
                #![trigger picked(made)]
                picked(made)
                    && (forall|mv: &mut V, node: Node, answer: Result<Step, VisitError>|
                        #[trigger] called::<V, D>(node, mv, answer) ==> made(
                            (Call { node, before: *mv, after: *final(mv), answer }),
                        ))
                    ==> old(self).accepted::<V, D>(made, *old(v), *final(v), *final(self), r),
            forall|made: spec_fn(Call<V>) -> bool|
                #![trigger picked(made)]
                picked(made)
                    && (forall|mv: &mut V, node: Node, answer: Result<Step, VisitError>|
                        #[trigger] called::<V, D>(node, mv, answer) ==> made(
                            (Call { node, before: *mv, after: *final(mv), answer }),
                        ))
                    ==> failure_was_answered(made, r),
            between(*final(v), r),
            exists|mv: &mut V, mn: &mut IndexRangeAccess, answer: Result<Step, VisitError>|
                *mv == *old(v) && *mn == *old(self)
                    && #[trigger] call_ensures(V::visit_index_range_access, (mv, mn), answer)
                    && settled::<V, D, IndexRangeAccess>(
                        answer,
                        r,
                        *final(mv),
                        *final(v),
                        *final(mn),
                        *final(self),
                    ),
        decreases old(self).depth(), 1int,
    {
        let ghost pre_v = *v;
        let ghost pre = *self;
        let answer = v.visit_index_range_access(self);
        let ghost mid_v = *v;
        proof {
            assert(index_range_access_answered::<V, D>(pre_v, pre, *v, *self, answer));
            let (mv0, mn0) = choose|mv: &mut V, mn: &mut IndexRangeAccess|
                *mv == pre_v && *final(mv) == mid_v && *mn == pre
                    && #[trigger] call_ensures(V::visit_index_range_access, (mv, mn), answer);
            assert(called::<V, D>(Node::IndexRangeAccess(pre), mv0, answer));
        }
        match answer {
            Ok(Step::Descend) => {
                let r = self.visit(v);
                proof {
                    assert forall|made: spec_fn(Call<V>) -> bool|
                        #![trigger picked(made)]
                        picked(made)
                            && (forall|mv: &mut V, node: Node, answer: Result<Step, VisitError>|
                                #[trigger] called::<V, D>(node, mv, answer) ==> made(
                                    (Call { node, before: *mv, after: *final(mv), answer }),
                                ))
                        implies pre.accepted::<V, D>(made, pre_v, *v, *self, r) by {
                    }
                }
                r
            },
            Ok(Step::Prune) => {
                proof {
                    assert forall|made: spec_fn(Call<V>) -> bool|
                        #![trigger picked(made)]
                        picked(made)
                            && (forall|mv: &mut V, node: Node, answer: Result<Step, VisitError>|
                                #[trigger] called::<V, D>(node, mv, answer) ==> made(
                                    (Call { node, before: *mv, after: *final(mv), answer }),
                                ))
                        implies pre.accepted::<V, D>(
                            made,
                            pre_v,
                            *v,
                            *self,
                            Ok::<(), VisitError>(()),
                        ) by {
                    }
                }
                Ok(())
            },
            Err(e) => {
                proof {
                    assert forall|made: spec_fn(Call<V>) -> bool|
                        #![trigger picked(made)]
                        picked(made)
                            && (forall|mv: &mut V, node: Node, answer: Result<Step, VisitError>|
                                #[trigger] called::<V, D>(node, mv, answer) ==> made(
                                    (Call { node, before: *mv, after: *final(mv), answer }),
                                ))
                        implies pre.accepted::<V, D>(
                            made,
                            pre_v,
                            *v,
                            *self,
                            Err::<(), VisitError>(e),
                        ) by {
                    }
                }
                Err(e)
            },
        }
    }
}

impl Visitable for IndexRangeAccess {
    /// Walks the children in this order: `base_expression`, then `start_expression`,
    /// then `end_expression`. The first failure ends the walk; what stands after it is
    /// left alone.
    fn visit<V: Visitor<D>, D>(&mut self, v: &mut V) -> (r: Result<(), VisitError>)
        ensures
            forall|made: spec_fn(Call<V>) -> bool|
                #![trigger picked(made)]
                picked(made)
                    && (forall|mv: &mut V, node: Node, answer: Result<Step, VisitError>|
                        #[trigger] called::<V, D>(node, mv, answer) ==> made(
                            (Call { node, before: *mv, after: *final(mv), answer }),
                        ))
                    ==> old(self).walked::<V, D>(made, *old(v), *final(v), *final(self), r),
            forall|made: spec_fn(Call<V>) -> bool|
                #![trigger picked(made)]
                picked(made)
                    && (forall|mv: &mut V, node: Node, answer: Result<Step, VisitError>|
                        #[trigger] called::<V, D>(node, mv, answer) ==> made(
                            (Call { node, before: *mv, after: *final(mv), answer }),
                        ))
                    ==> failure_was_answered(made, r),
            between(*final(v), r),
            *final(self) == (IndexRangeAccess {
                base_expression: final(self).base_expression,
                start_expression: final(self).start_expression,
                end_expression: final(self).end_expression,
                ..*old(self)
            }),
            (final(self).start_expression is Some) == (old(self).start_expression is Some),
            (final(self).end_expression is Some) == (old(self).end_expression is Some),
        decreases old(self).depth(), 0int,
    {
        self.base_expression.visit(v)?;
        visit_maybe_boxed_expression(&mut self.start_expression, v)?;
        visit_maybe_boxed_expression(&mut self.end_expression, v)
    }
}

impl Literal {
    /// How `accept` takes this node and the visitor `pre_v` to `post` and `post_v`,
    /// with the result `r`, the calls of callbacks being among `made`: the callback for
    /// this kind is called with `pre_v` and this node, answers, and leaves `mid_v` and
    /// `mid`, which is no deeper; after [`Step::Descend`] the children of `mid` are
    /// walked from `mid_v`, after anything else nothing more happens, and an error is
    /// the result as it is.
    pub open spec fn accepted<V: Visitor<D>, D>(
        &self,
        made: spec_fn(Call<V>) -> bool,
        pre_v: V,
        post_v: V,
        post: Literal,
        r: Result<(), VisitError>,
    ) -> bool
    {
        exists|mid_v: V, mid: Literal, answer: Result<Step, VisitError>|
            #[trigger] literal_answered::<V, D>(pre_v, *self, mid_v, mid, answer)
                && made(
                    (Call { node: Node::Literal(*self), before: pre_v, after: mid_v, answer }),
                )
                && post_v == mid_v && post == mid && match answer {
                    Ok(_) => r is Ok,
                    Err(e) => r == Err::<(), VisitError>(e),
                }
    }

    /// Hands this node to [`Visitor::visit_literal`]. The node has no children that the
    /// walk enters, so nothing follows the callback; its error, if any, is handed on.
    pub fn accept<V: Visitor<D>, D>(&mut self, v: &mut V) -> (r: Result<(), VisitError>)
        ensures
            final(self).depth() <= old(self).depth(),
            final(v).shared() == old(v).shared(),
            unfailing::<V, D>() ==> r is Ok,
            old(v).inert() ==> r is Ok && *final(v) == *old(v) && final(self).same_as(old(self)),
            forall|made: spec_fn(Call<V>) -> bool|
                #![trigger picked(made)]
                picked(made)
                    && (forall|mv: &mut V, node: Node, answer: Result<Step, VisitError>|
                        #[trigger] called::<V, D>(node, mv, answer) ==> made(
                            (Call { node, before: *mv, after: *final(mv), answer }),
                        ))
                    ==> old(self).accepted::<V, D>(made, *old(v), *final(v), *final(self), r),
            forall|made: spec_fn(Call<V>) -> bool|
                #![trigger picked(made)]
                picked(made)
                    && (forall|mv: &mut V, node: Node, answer: Result<Step, VisitError>|
                        #[trigger] called::<V, D>(node, mv, answer) ==> made(
                            (Call { node, before: *mv, after: *final(mv), answer }),
                        ))
                    ==> failure_was_answered(made, r),
            between(*final(v), r),
            exists|mv: &mut V, mn: &mut Literal, answer: Result<Step, VisitError>|
                *mv == *old(v) && *mn == *old(self)
                    && #[trigger] call_ensures(V::visit_literal, (mv, mn), answer)
                    && settled::<V, D, Literal>(
                        answer,
                        r,
                        *final(mv),
                        *final(v),
                        *final(mn),
                        *final(self),
                    ),
    {
        let ghost pre_v = *v;
        let ghost pre = *self;
        let answer = v.visit_literal(self);
        let ghost mid_v = *v;
        proof {
            assert(literal_answered::<V, D>(pre_v, pre, *v, *self, answer));
            let (mv0, mn0) = choose|mv: &mut V, mn: &mut Literal|
                *mv == pre_v && *final(mv) == mid_v && *mn == pre
                    && #[trigger] call_ensures(V::visit_literal, (mv, mn), answer);
            assert(called::<V, D>(Node::Literal(pre), mv0, answer));
        }
        match answer {
            Ok(Step::Descend) => {
                let r = self.visit(v);
                proof {
                    assert forall|made: spec_fn(Call<V>) -> bool|
                        #![trigger picked(made)]
                        picked(made)
                            && (forall|mv: &mut V, node: Node, answer: Result<Step, VisitError>|
                                #[trigger] called::<V, D>(node, mv, answer) ==> made(
                                    (Call { node, before: *mv, after: *final(mv), answer }),
                                ))
                        implies pre.accepted::<V, D>(made, pre_v, *v, *self, r) by {
                    }
                }
                r
            },
            Ok(Step::Prune) => {
                proof {
                    assert forall|made: spec_fn(Call<V>) -> bool|
                        #![trigger picked(made)]
                        picked(made)
                            && (forall|mv: &mut V, node: Node, answer: Result<Step, VisitError>|
                                #[trigger] called::<V, D>(node, mv, answer) ==> made(
                                    (Call { node, before: *mv, after: *final(mv), answer }),
                                ))
                        implies pre.accepted::<V, D>(
                            made,
                            pre_v,
                            *v,
                            *self,
                            Ok::<(), VisitError>(()),
                        ) by {
                    }
                }
                Ok(())
            },
            Err(e) => {
                proof {
                    assert forall|made: spec_fn(Call<V>) -> bool|
                        #![trigger picked(made)]
                        picked(made)
                            && (forall|mv: &mut V, node: Node, answer: Result<Step, VisitError>|
                                #[trigger] called::<V, D>(node, mv, answer) ==> made(
                                    (Call { node, before: *mv, after: *final(mv), answer }),
                                ))
                        implies pre.accepted::<V, D>(
                            made,
                            pre_v,
                            *v,
                            *self,
                            Err::<(), VisitError>(e),
                        ) by {
                    }
                }
                Err(e)
            },
        }
    }
}

impl Visitable for Literal {
    /// Does nothing: the walk does not enter a literal.
    fn visit<V: Visitor<D>, D>(&mut self, v: &mut V) -> (r: Result<(), VisitError>)
        ensures
            r is Ok,
            *final(self) == *old(self),
            *final(v) == *old(v),
    {
        Ok(())
    }
}

impl MemberAccess {
    /// How `visit` takes this node and the visitor `pre_v` to `post` and `post_v`, with
    /// the result `r`, the calls of callbacks being among `made`: the children are
    /// walked one after the other, each from the visitor as the one before has left it;
    /// the first failure is the result, and what stands behind it is as it was. What is
    /// no child is as it was.
    pub open spec fn walked<V: Visitor<D>, D>(
        &self,
        made: spec_fn(Call<V>) -> bool,
        pre_v: V,
        post_v: V,
        post: MemberAccess,
        r: Result<(), VisitError>,
    ) -> bool
        decreases self.depth(), 0int, 0int,
    {
        &&& post == (MemberAccess { expression: post.expression, ..*self })
        &&& (self.expression.walked::<V, D>(made, pre_v, post_v, *post.expression, r))
    }

    /// How `accept` takes this node and the visitor `pre_v` to `post` and `post_v`,
    /// with the result `r`, the calls of callbacks being among `made`: the callback for
    /// this kind is called with `pre_v` and this node, answers, and leaves `mid_v` and
    /// `mid`, which is no deeper; after [`Step::Descend`] the children of `mid` are
    /// walked from `mid_v`, after anything else nothing more happens, and an error is
    /// the result as it is.
    pub open spec fn accepted<V: Visitor<D>, D>(
        &self,
        made: spec_fn(Call<V>) -> bool,
        pre_v: V,
        post_v: V,
        post: MemberAccess,
        r: Result<(), VisitError>,
    ) -> bool
        decreases self.depth(), 1int, 0int,
    {
        exists|mid_v: V, mid: MemberAccess, answer: Result<Step, VisitError>|
            #[trigger] member_access_answered::<V, D>(pre_v, *self, mid_v, mid, answer)
                && made(
                    (Call { node: Node::MemberAccess(*self), before: pre_v, after: mid_v, answer }),
                )
                && mid.depth() <= self.depth() && match answer {
                    Ok(Step::Descend) => mid.walked::<V, D>(made, mid_v, post_v, post, r),
                    Ok(Step::Prune) => r is Ok && post_v == mid_v && post == mid,
                    Err(e) => r == Err::<(), VisitError>(e) && post_v == mid_v && post == mid,
                }
    }

    /// Hands this node to [`Visitor::visit_member_access`] and does what the callback
    /// answers: on [`Step::Descend`] it walks the children as [`Visitable::visit`]
    /// does, on [`Step::Prune`] it leaves them alone; an error is handed on.
    pub fn accept<V: Visitor<D>, D>(&mut self, v: &mut V) -> (r: Result<(), VisitError>)
        ensures
            final(self).depth() <= old(self).depth(),
            final(v).shared() == old(v).shared(),
            unfailing::<V, D>() ==> r is Ok,
            old(v).inert() ==> r is Ok && *final(v) == *old(v) && final(self).same_as(old(self)),
            forall|made: spec_fn(Call<V>) -> bool|
                #![trigger picked(made)]
                picked(made)
                    && (forall|mv: &mut V, node: Node, answer: Result<Step, VisitError>|
                        #[trigger] called::<V, D>(node, mv, answer) ==> made(
                            (Call { node, before: *mv, after: *final(mv), answer }),
                        ))
                    ==> old(self).accepted::<V, D>(made, *old(v), *final(v), *final(self), r),
            forall|made: spec_fn(Call<V>) -> bool|
                #![trigger picked(made)]
                picked(made)
                    && (forall|mv: &mut V, node: Node, answer: Result<Step, VisitError>|
                        #[trigger] called::<V, D>(node, mv, answer) ==> made(
                            (Call { node, before: *mv, after: *final(mv), answer }),
                        ))
                    ==> failure_was_answered(made, r),
            between(*final(v), r),
            exists|mv: &mut V, mn: &mut MemberAccess, answer: Result<Step, VisitError>|
                *mv == *old(v) && *mn == *old(self)
                    && #[trigger] call_ensures(V::visit_member_access, (mv, mn), answer)
                    && settled::<V, D, MemberAccess>(
                        answer,
                        r,
                        *final(mv),
                        *final(v),
                        *final(mn),
                        *final(self),
                    ),
        decreases old(self).depth(), 1int,
    {
        let ghost pre_v = *v;
        let ghost pre = *self;
        let answer = v.visit_member_access(self);
        let ghost mid_v = *v;
        proof {
            assert(member_access_answered::<V, D>(pre_v, pre, *v, *self, answer));
            let (mv0, mn0) = choose|mv: &mut V, mn: &mut MemberAccess|
                *mv == pre_v && *final(mv) == mid_v && *mn == pre
                    && #[trigger] call_ensures(V::visit_member_access, (mv, mn), answer);
            assert(called::<V, D>(Node::MemberAccess(pre), mv0, answer));
        }
        match answer {
            Ok(Step::Descend) => {
                let r = self.visit(v);
                proof {
                    assert forall|made: spec_fn(Call<V>) -> bool|
                        #![trigger picked(made)]
                        picked(made)
                            && (forall|mv: &mut V, node: Node, answer: Result<Step, VisitError>|
                                #[trigger] called::<V, D>(node, mv, answer) ==> made(
                                    (Call { node, before: *mv, after: *final(mv), answer }),
                                ))
                        implies pre.accepted::<V, D>(made, pre_v, *v, *self, r) by {
                    }
                }
                r
            },
            Ok(Step::Prune) => {
                proof {
                    assert forall|made: spec_fn(Call<V>) -> bool|
                        #![trigger picked(made)]
                        picked(made)
                            && (forall|mv: &mut V, node: Node, answer: Result<Step, VisitError>|
                                #[trigger] called::<V, D>(node, mv, answer) ==> made(
                                    (Call { node, before: *mv, after: *final(mv), answer }),
                                ))
                        implies pre.accepted::<V, D>(
                            made,
                            pre_v,
                            *v,
                            *self,
                            Ok::<(), VisitError>(()),
                        ) by {
                    }
                }
                Ok(())
            },
            Err(e) => {
                proof {
                    assert forall|made: spec_fn(Call<V>) -> bool|
                        #![trigger picked(made)]
                        picked(made)
                            && (forall|mv: &mut V, node: Node, answer: Result<Step, VisitError>|
                                #[trigger] called::<V, D>(node, mv, answer) ==> made(
                                    (Call { node, before: *mv, after: *final(mv), answer }),
                                ))
                        implies pre.accepted::<V, D>(
                            made,
                            pre_v,
                            *v,
                            *self,
                            Err::<(), VisitError>(e),
                        ) by {
                    }
                }
                Err(e)
            },
        }
    }
}

impl Visitable for MemberAccess {
    /// Walks `expression`.
    fn visit<V: Visitor<D>, D>(&mut self, v: &mut V) -> (r: Result<(), VisitError>)
        ensures
            forall|made: spec_fn(Call<V>) -> bool|
                #![trigger picked(made)]
                picked(made)
                    && (forall|mv: &mut V, node: Node, answer: Result<Step, VisitError>|
                        #[trigger] called::<V, D>(node, mv, answer) ==> made(
                            (Call { node, before: *mv, after: *final(mv), answer }),
                        ))
                    ==> old(self).walked::<V, D>(made, *old(v), *final(v), *final(self), r),
            forall|made: spec_fn(Call<V>) -> bool|
                #![trigger picked(made)]
                picked(made)
                    && (forall|mv: &mut V, node: Node, answer: Result<Step, VisitError>|
                        #[trigger] called::<V, D>(node, mv, answer) ==> made(
                            (Call { node, before: *mv, after: *final(mv), answer }),
                        ))
                    ==> failure_was_answered(made, r),
            between(*final(v), r),
            *final(self) == (MemberAccess { expression: final(self).expression, ..*old(self) }),
        decreases old(self).depth(), 0int,
    {
        self.expression.visit(v)
    }
}

impl NewExpression {
    /// How `visit` takes this node and the visitor `pre_v` to `post` and `post_v`, with
    /// the result `r`, the calls of callbacks being among `made`: the children are
    /// walked one after the other, each from the visitor as the one before has left it;
    /// the first failure is the result, and what stands behind it is as it was. What is
    /// no child is as it was.
    pub open spec fn walked<V: Visitor<D>, D>(
        &self,
        made: spec_fn(Call<V>) -> bool,
        pre_v: V,
        post_v: V,
        post: NewExpression,
        r: Result<(), VisitError>,
    ) -> bool
        decreases self.depth(), 0int, 0int,
    {
        &&& post == (NewExpression { created_type: post.created_type, ..*self })
        &&& (self.created_type.walked::<V, D>(made, pre_v, post_v, post.created_type, r))
    }

    /// How `accept` takes this node and the visitor `pre_v` to `post` and `post_v`,
    /// with the result `r`, the calls of callbacks being among `made`: the callback for
    /// this kind is called with `pre_v` and this node, answers, and leaves `mid_v` and
    /// `mid`, which is no deeper; after [`Step::Descend`] the children of `mid` are
    /// walked from `mid_v`, after anything else nothing more happens, and an error is
    /// the result as it is.
    pub open spec fn accepted<V: Visitor<D>, D>(
        &self,
        made: spec_fn(Call<V>) -> bool,
        pre_v: V,
        post_v: V,
        post: NewExpression,
        r: Result<(), VisitError>,
    ) -> bool
        decreases self.depth(), 1int, 0int,
    {
        exists|mid_v: V, mid: NewExpression, answer: Result<Step, VisitError>|
            #[trigger] new_expression_answered::<V, D>(pre_v, *self, mid_v, mid, answer)
                && made(
                    (Call {
                        node: Node::NewExpression(*self),
                        before: pre_v,
                        after: mid_v,
                        answer,
                    }),
                )
                && mid.depth() <= self.depth() && match answer {
                    Ok(Step::Descend) => mid.walked::<V, D>(made, mid_v, post_v, post, r),
                    Ok(Step::Prune) => r is Ok && post_v == mid_v && post == mid,
                    Err(e) => r == Err::<(), VisitError>(e) && post_v == mid_v && post == mid,
                }
    }

    /// Hands this node to [`Visitor::visit_new_expression`] and does what the callback
    /// answers: on [`Step::Descend`] it walks the children as [`Visitable::visit`]
    /// does, on [`Step::Prune`] it leaves them alone; an error is handed on.
    pub fn accept<V: Visitor<D>, D>(&mut self, v: &mut V) -> (r: Result<(), VisitError>)
        ensures
            final(self).depth() <= old(self).depth(),
            final(v).shared() == old(v).shared(),
            unfailing::<V, D>() ==> r is Ok,
            old(v).inert() ==> r is Ok && *final(v) == *old(v) && final(self).same_as(old(self)),
            forall|made: spec_fn(Call<V>) -> bool|
                #![trigger picked(made)]
                picked(made)
                    && (forall|mv: &mut V, node: Node, answer: Result<Step, VisitError>|
                        #[trigger] called::<V, D>(node, mv, answer) ==> made(
                            (Call { node, before: *mv, after: *final(mv), answer }),
                        ))
                    ==> old(self).accepted::<V, D>(made, *old(v), *final(v), *final(self), r),
            forall|made: spec_fn(Call<V>) -> bool|
                #![trigger picked(made)]
                picked(made)
                    && (forall|mv: &mut V, node: Node, answer: Result<Step, VisitError>|
                        #[trigger] called::<V, D>(node, mv, answer) ==> made(
                            (Call { node, before: *mv, after: *final(mv), answer }),
                        ))
                    ==> failure_was_answered(made, r),
            between(*final(v), r),
            exists|mv: &mut V, mn: &mut NewExpression, answer: Result<Step, VisitError>|
                *mv == *old(v) && *mn == *old(self)
                    && #[trigger] call_ensures(V::visit_new_expression, (mv, mn), answer)
                    && settled::<V, D, NewExpression>(
                        answer,
                        r,
                        *final(mv),
                        *final(v),
                        *final(mn),
                        *final(self),
                    ),
        decreases old(self).depth(), 1int,
    {
        let ghost pre_v = *v;
        let ghost pre = *self;
        let answer = v.visit_new_expression(self);
        let ghost mid_v = *v;
        proof {
            assert(new_expression_answered::<V, D>(pre_v, pre, *v, *self, answer));
            let (mv0, mn0) = choose|mv: &mut V, mn: &mut NewExpression|
                *mv == pre_v && *final(mv) == mid_v && *mn == pre
                    && #[trigger] call_ensures(V::visit_new_expression, (mv, mn), answer);
            assert(called::<V, D>(Node::NewExpression(pre), mv0, answer));
        }
        match answer {
            Ok(Step::Descend) => {
                let r = self.visit(v);
                proof {
                    assert forall|made: spec_fn(Call<V>) -> bool|
                        #![trigger picked(made)]
                        picked(made)
                            && (forall|mv: &mut V, node: Node, answer: Result<Step, VisitError>|
                                #[trigger] called::<V, D>(node, mv, answer) ==> made(
                                    (Call { node, before: *mv, after: *final(mv), answer }),
                                ))
                        implies pre.accepted::<V, D>(made, pre_v, *v, *self, r) by {
                    }
                }
                r
            },
            Ok(Step::Prune) => {
                proof {
                    assert forall|made: spec_fn(Call<V>) -> bool|
                        #![trigger picked(made)]
                        picked(made)
                            && (forall|mv: &mut V, node: Node, answer: Result<Step, VisitError>|
                                #[trigger] called::<V, D>(node, mv, answer) ==> made(
                                    (Call { node, before: *mv, after: *final(mv), answer }),
                                ))
                        implies pre.accepted::<V, D>(
                            made,
                            pre_v,
                            *v,
                            *self,
                            Ok::<(), VisitError>(()),
                        ) by {
                    }
                }
                Ok(())
            },
            Err(e) => {
                proof {
                    assert forall|made: spec_fn(Call<V>) -> bool|
                        #![trigger picked(made)]
                        picked(made)
                            && (forall|mv: &mut V, node: Node, answer: Result<Step, VisitError>|
                                #[trigger] called::<V, D>(node, mv, answer) ==> made(
                                    (Call { node, before: *mv, after: *final(mv), answer }),
                                ))
                        implies pre.accepted::<V, D>(
                            made,
                            pre_v,
                            *v,
                            *self,
                            Err::<(), VisitError>(e),
                        ) by {
                    }
                }
                Err(e)
            },
        }
    }
}

impl Visitable for NewExpression {
    /// Walks `created_type`.
    fn visit<V: Visitor<D>, D>(&mut self, v: &mut V) -> (r: Result<(), VisitError>)
        ensures
            forall|made: spec_fn(Call<V>) -> bool|
                #![trigger picked(made)]
                picked(made)
                    && (forall|mv: &mut V, node: Node, answer: Result<Step, VisitError>|
                        #[trigger] called::<V, D>(node, mv, answer) ==> made(
                            (Call { node, before: *mv, after: *final(mv), answer }),
                        ))
                    ==> old(self).walked::<V, D>(made, *old(v), *final(v), *final(self), r),
            forall|made: spec_fn(Call<V>) -> bool|
                #![trigger picked(made)]
                picked(made)
                    && (forall|mv: &mut V, node: Node, answer: Result<Step, VisitError>|
                        #[trigger] called::<V, D>(node, mv, answer) ==> made(
                            (Call { node, before: *mv, after: *final(mv), answer }),
                        ))
                    ==> failure_was_answered(made, r),
            between(*final(v), r),
            *final(self) == (NewExpression {
                created_type: final(self).created_type,
                ..*old(self)
            }),
        decreases old(self).depth(), 0int,
    {
        self.created_type.visit(v)
    }
}

impl TupleExpression {
    /// How `visit` takes this node and the visitor `pre_v` to `post` and `post_v`, with
    /// the result `r`, the calls of callbacks being among `made`: the children are
    /// walked one after the other, each from the visitor as the one before has left it;
    /// the first failure is the result, and what stands behind it is as it was. What is
    /// no child is as it was.
    pub open spec fn walked<V: Visitor<D>, D>(
        &self,
        made: spec_fn(Call<V>) -> bool,
        pre_v: V,
        post_v: V,
        post: TupleExpression,
        r: Result<(), VisitError>,
    ) -> bool
        decreases self.depth(), 0int, 0int,
    {
        &&& post == (TupleExpression { components: post.components, ..*self })
        &&& (optional_expressions_walked::<V, D>(
            made,
            self.components@,
            pre_v,
            post_v,
            post.components@,
            r,
        ))
    }

    /// How `accept` takes this node and the visitor `pre_v` to `post` and `post_v`,
    /// with the result `r`, the calls of callbacks being among `made`: the callback for
    /// this kind is called with `pre_v` and this node, answers, and leaves `mid_v` and
    /// `mid`, which is no deeper; after [`Step::Descend`] the children of `mid` are
    /// walked from `mid_v`, after anything else nothing more happens, and an error is
    /// the result as it is.
    pub open spec fn accepted<V: Visitor<D>, D>(
        &self,
        made: spec_fn(Call<V>) -> bool,
        pre_v: V,
        post_v: V,
        post: TupleExpression,
        r: Result<(), VisitError>,
    ) -> bool
        decreases self.depth(), 1int, 0int,
    {
        exists|mid_v: V, mid: TupleExpression, answer: Result<Step, VisitError>|
            #[trigger] tuple_expression_answered::<V, D>(pre_v, *self, mid_v, mid, answer)
                && made(
                    (Call {
                        node: Node::TupleExpression(*self),
                        before: pre_v,
                        after: mid_v,
                        answer,
                    }),
                )
                && mid.depth() <= self.depth() && match answer {
                    Ok(Step::Descend) => mid.walked::<V, D>(made, mid_v, post_v, post, r),
                    Ok(Step::Prune) => r is Ok && post_v == mid_v && post == mid,
                    Err(e) => r == Err::<(), VisitError>(e) && post_v == mid_v && post == mid,
                }
    }

    /// Hands this node to [`Visitor::visit_tuple_expression`] and does what the
    /// callback answers: on [`Step::Descend`] it walks the children as
    /// [`Visitable::visit`] does, on [`Step::Prune`] it leaves them alone; an error is
    /// handed on.
    pub fn accept<V: Visitor<D>, D>(&mut self, v: &mut V) -> (r: Result<(), VisitError>)
        ensures
            final(self).depth() <= old(self).depth(),
            final(v).shared() == old(v).shared(),
            unfailing::<V, D>() ==> r is Ok,
            old(v).inert() ==> r is Ok && *final(v) == *old(v) && final(self).same_as(old(self)),
            forall|made: spec_fn(Call<V>) -> bool|
                #![trigger picked(made)]
                picked(made)
                    && (forall|mv: &mut V, node: Node, answer: Result<Step, VisitError>|
                        #[trigger] called::<V, D>(node, mv, answer) ==> made(
                            (Call { node, before: *mv, after: *final(mv), answer }),
                        ))
                    ==> old(self).accepted::<V, D>(made, *old(v), *final(v), *final(self), r),
            forall|made: spec_fn(Call<V>) -> bool|
                #![trigger picked(made)]
                picked(made)
                    && (forall|mv: &mut V, node: Node, answer: Result<Step, VisitError>|
                        #[trigger] called::<V, D>(node, mv, answer) ==> made(
                            (Call { node, before: *mv, after: *final(mv), answer }),
                        ))
                    ==> failure_was_answered(made, r),
            between(*final(v), r),
            exists|mv: &mut V, mn: &mut TupleExpression, answer: Result<Step, VisitError>|
                *mv == *old(v) && *mn == *old(self)
                    && #[trigger] call_ensures(V::visit_tuple_expression, (mv, mn), answer)
                    && settled::<V, D, TupleExpression>(
                        answer,
                        r,
                        *final(mv),
                        *final(v),
                        *final(mn),
                        *final(self),
                    ),
        decreases old(self).depth(), 1int,
    {
        let ghost pre_v = *v;
        let ghost pre = *self;
        let answer = v.visit_tuple_expression(self);
        let ghost mid_v = *v;
        proof {
            assert(tuple_expression_answered::<V, D>(pre_v, pre, *v, *self, answer));
            let (mv0, mn0) = choose|mv: &mut V, mn: &mut TupleExpression|
                *mv == pre_v && *final(mv) == mid_v && *mn == pre
                    && #[trigger] call_ensures(V::visit_tuple_expression, (mv, mn), answer);
            assert(called::<V, D>(Node::TupleExpression(pre), mv0, answer));
        }
        match answer {
            Ok(Step::Descend) => {
                let r = self.visit(v);
                proof {
                    assert forall|made: spec_fn(Call<V>) -> bool|
                        #![trigger picked(made)]
                        picked(made)
                            && (forall|mv: &mut V, node: Node, answer: Result<Step, VisitError>|
                                #[trigger] called::<V, D>(node, mv, answer) ==> made(
                                    (Call { node, before: *mv, after: *final(mv), answer }),
                                ))
                        implies pre.accepted::<V, D>(made, pre_v, *v, *self, r) by {
                    }
                }
                r
            },
            Ok(Step::Prune) => {
                proof {
                    assert forall|made: spec_fn(Call<V>) -> bool|
                        #![trigger picked(made)]
                        picked(made)
                            && (forall|mv: &mut V, node: Node, answer: Result<Step, VisitError>|
                                #[trigger] called::<V, D>(node, mv, answer) ==> made(
                                    (Call { node, before: *mv, after: *final(mv), answer }),
                                ))
                        implies pre.accepted::<V, D>(
                            made,
                            pre_v,
                            *v,
                            *self,
                            Ok::<(), VisitError>(()),
                        ) by {
                    }
                }
                Ok(())
            },
            Err(e) => {
                proof {
                    assert forall|made: spec_fn(Call<V>) -> bool|
                        #![trigger picked(made)]
                        picked(made)
                            && (forall|mv: &mut V, node: Node, answer: Result<Step, VisitError>|
                                #[trigger] called::<V, D>(node, mv, answer) ==> made(
                                    (Call { node, before: *mv, after: *final(mv), answer }),
                                ))
                        implies pre.accepted::<V, D>(
                            made,
                            pre_v,
                            *v,
                            *self,
                            Err::<(), VisitError>(e),
                        ) by {
                    }
                }
                Err(e)
            },
        }
    }
}

impl Visitable for TupleExpression {
    /// Walks `components`.
    fn visit<V: Visitor<D>, D>(&mut self, v: &mut V) -> (r: Result<(), VisitError>)
        ensures
            forall|made: spec_fn(Call<V>) -> bool|
                #![trigger picked(made)]
                picked(made)
                    && (forall|mv: &mut V, node: Node, answer: Result<Step, VisitError>|
                        #[trigger] called::<V, D>(node, mv, answer) ==> made(
                            (Call { node, before: *mv, after: *final(mv), answer }),
                        ))
                    ==> old(self).walked::<V, D>(made, *old(v), *final(v), *final(self), r),
            forall|made: spec_fn(Call<V>) -> bool|
                #![trigger picked(made)]
                picked(made)
                    && (forall|mv: &mut V, node: Node, answer: Result<Step, VisitError>|
                        #[trigger] called::<V, D>(node, mv, answer) ==> made(
                            (Call { node, before: *mv, after: *final(mv), answer }),
                        ))
                    ==> failure_was_answered(made, r),
            between(*final(v), r),
            *final(self) == (TupleExpression { components: final(self).components, ..*old(self) }),
            final(self).components@.len() == old(self).components@.len(),
        decreases old(self).depth(), 0int,
    {
        visit_optional_expressions(&mut self.components, v)
    }
}

impl UnaryOperation {
    /// How `visit` takes this node and the visitor `pre_v` to `post` and `post_v`, with
    /// the result `r`, the calls of callbacks being among `made`: the children are
    /// walked one after the other, each from the visitor as the one before has left it;
    /// the first failure is the result, and what stands behind it is as it was. What is
    /// no child is as it was.
    pub open spec fn walked<V: Visitor<D>, D>(
        &self,
        made: spec_fn(Call<V>) -> bool,
        pre_v: V,
        post_v: V,
        post: UnaryOperation,
        r: Result<(), VisitError>,
    ) -> bool
        decreases self.depth(), 0int, 0int,
    {
        &&& post == (UnaryOperation { sub_expression: post.sub_expression, ..*self })
        &&& (self.sub_expression.walked::<V, D>(made, pre_v, post_v, *post.sub_expression, r))
    }

    /// How `accept` takes this node and the visitor `pre_v` to `post` and `post_v`,
    /// with the result `r`, the calls of callbacks being among `made`: the callback for
    /// this kind is called with `pre_v` and this node, answers, and leaves `mid_v` and
    /// `mid`, which is no deeper; after [`Step::Descend`] the children of `mid` are
    /// walked from `mid_v`, after anything else nothing more happens, and an error is
    /// the result as it is.
    pub open spec fn accepted<V: Visitor<D>, D>(
        &self,
        made: spec_fn(Call<V>) -> bool,
        pre_v: V,
        post_v: V,
        post: UnaryOperation,
        r: Result<(), VisitError>,
    ) -> bool
        decreases self.depth(), 1int, 0int,
    {
        exists|mid_v: V, mid: UnaryOperation, answer: Result<Step, VisitError>|
            #[trigger] unary_operation_answered::<V, D>(pre_v, *self, mid_v, mid, answer)
                && made(
                    (Call {
                        node: Node::UnaryOperation(*self),
                        before: pre_v,
                        after: mid_v,
                        answer,
                    }),
                )
                && mid.depth() <= self.depth() && match answer {
                    Ok(Step::Descend) => mid.walked::<V, D>(made, mid_v, post_v, post, r),
                    Ok(Step::Prune) => r is Ok && post_v == mid_v && post == mid,
                    Err(e) => r == Err::<(), VisitError>(e) && post_v == mid_v && post == mid,
                }
    }

    /// Hands this node to [`Visitor::visit_unary_operation`] and does what the callback
    /// answers: on [`Step::Descend`] it walks the children as [`Visitable::visit`]
    /// does, on [`Step::Prune`] it leaves them alone; an error is handed on.
    pub fn accept<V: Visitor<D>, D>(&mut self, v: &mut V) -> (r: Result<(), VisitError>)
        ensures
            final(self).depth() <= old(self).depth(),
            final(v).shared() == old(v).shared(),
            unfailing::<V, D>() ==> r is Ok,
            old(v).inert() ==> r is Ok && *final(v) == *old(v) && final(self).same_as(old(self)),
            forall|made: spec_fn(Call<V>) -> bool|
                #![trigger picked(made)]
                picked(made)
                    && (forall|mv: &mut V, node: Node, answer: Result<Step, VisitError>|
                        #[trigger] called::<V, D>(node, mv, answer) ==> made(
                            (Call { node, before: *mv, after: *final(mv), answer }),
                        ))
                    ==> old(self).accepted::<V, D>(made, *old(v), *final(v), *final(self), r),
            forall|made: spec_fn(Call<V>) -> bool|
                #![trigger picked(made)]
                picked(made)
                    && (forall|mv: &mut V, node: Node, answer: Result<Step, VisitError>|
                        #[trigger] called::<V, D>(node, mv, answer) ==> made(
                            (Call { node, before: *mv, after: *final(mv), answer }),
                        ))
                    ==> failure_was_answered(made, r),
            between(*final(v), r),
            exists|mv: &mut V, mn: &mut UnaryOperation, answer: Result<Step, VisitError>|
                *mv == *old(v) && *mn == *old(self)
                    && #[trigger] call_ensures(V::visit_unary_operation, (mv, mn), answer)
                    && settled::<V, D, UnaryOperation>(
                        answer,
                        r,
                        *final(mv),
                        *final(v),
                        *final(mn),
                        *final(self),
                    ),
        decreases old(self).depth(), 1int,
    {
        let ghost pre_v = *v;
        let ghost pre = *self;
        let answer = v.visit_unary_operation(self);
        let ghost mid_v = *v;
        proof {
            assert(unary_operation_answered::<V, D>(pre_v, pre, *v, *self, answer));
            let (mv0, mn0) = choose|mv: &mut V, mn: &mut UnaryOperation|
                *mv == pre_v && *final(mv) == mid_v && *mn == pre
                    && #[trigger] call_ensures(V::visit_unary_operation, (mv, mn), answer);
            assert(called::<V, D>(Node::UnaryOperation(pre), mv0, answer));
        }
        match answer {
            Ok(Step::Descend) => {
                let r = self.visit(v);
                proof {
                    assert forall|made: spec_fn(Call<V>) -> bool|
                        #![trigger picked(made)]
                        picked(made)
                            && (forall|mv: &mut V, node: Node, answer: Result<Step, VisitError>|
                                #[trigger] called::<V, D>(node, mv, answer) ==> made(
                                    (Call { node, before: *mv, after: *final(mv), answer }),
                                ))
                        implies pre.accepted::<V, D>(made, pre_v, *v, *self, r) by {
                    }
                }
                r
            },
            Ok(Step::Prune) => {
                proof {
                    assert forall|made: spec_fn(Call<V>) -> bool|
                        #![trigger picked(made)]
                        picked(made)
                            && (forall|mv: &mut V, node: Node, answer: Result<Step, VisitError>|
                                #[trigger] called::<V, D>(node, mv, answer) ==> made(
                                    (Call { node, before: *mv, after: *final(mv), answer }),
                                ))
                        implies pre.accepted::<V, D>(
                            made,
                            pre_v,
                            *v,
                            *self,
                            Ok::<(), VisitError>(()),
                        ) by {
                    }
                }
                Ok(())
            },
            Err(e) => {
                proof {
                    assert forall|made: spec_fn(Call<V>) -> bool|
                        #![trigger picked(made)]
                        picked(made)
                            && (forall|mv: &mut V, node: Node, answer: Result<Step, VisitError>|
                                #[trigger] called::<V, D>(node, mv, answer) ==> made(
                                    (Call { node, before: *mv, after: *final(mv), answer }),
                                ))
                        implies pre.accepted::<V, D>(
                            made,
                            pre_v,
                            *v,
                            *self,
                            Err::<(), VisitError>(e),
                        ) by {
                    }
                }
                Err(e)
            },
        }
    }
}

impl Visitable for UnaryOperation {
    /// Walks `sub_expression`.
    fn visit<V: Visitor<D>, D>(&mut self, v: &mut V) -> (r: Result<(), VisitError>)
        ensures
            forall|made: spec_fn(Call<V>) -> bool|
                #![trigger picked(made)]
                picked(made)
                    && (forall|mv: &mut V, node: Node, answer: Result<Step, VisitError>|
                        #[trigger] called::<V, D>(node, mv, answer) ==> made(
                            (Call { node, before: *mv, after: *final(mv), answer }),
                        ))
                    ==> old(self).walked::<V, D>(made, *old(v), *final(v), *final(self), r),
            forall|made: spec_fn(Call<V>) -> bool|
                #![trigger picked(made)]
                picked(made)
                    && (forall|mv: &mut V, node: Node, answer: Result<Step, VisitError>|
                        #[trigger] called::<V, D>(node, mv, answer) ==> made(
                            (Call { node, before: *mv, after: *final(mv), answer }),
                        ))
                    ==> failure_was_answered(made, r),
            between(*final(v), r),
            *final(self) == (UnaryOperation {
                sub_expression: final(self).sub_expression,
                ..*old(self)
            }),
        decreases old(self).depth(), 0int,
    {
        self.sub_expression.visit(v)
    }
}

/// The left operand of a binary operation is walked before the right one: the
/// walk of the right operand starts from the visitor as the walk of the left one has
/// left it, and it does not take place where that walk has failed.
pub proof fn the_left_operand_is_walked_first<V: Visitor<D>, D>(
    node: BinaryOperation,
    made: spec_fn(Call<V>) -> bool,
    pre_v: V,
    post_v: V,
    post: BinaryOperation,
    r: Result<(), VisitError>,
)
    requires
        node.walked::<V, D>(made, pre_v, post_v, post, r),
    ensures
        exists|v1: V, r1: Result<(), VisitError>|
            {
                &&& #[trigger] between(v1, r1)
                &&& node.lhs.walked::<V, D>(made, pre_v, v1, *post.lhs, r1)
                &&& r1 is Ok ==> node.rhs.walked::<V, D>(made, v1, post_v, *post.rhs, r)
                &&& r1 is Err ==> r == r1 && post_v == v1 && post.rhs == node.rhs
            },
{
}

} // verus!
