//! The walk over a tree.
//!
//! A [`Visitor`] has one callback for each kind of node. The walk hands a node
//! to the callback of its kind, and the callback answers with a [`Step`]: go on
//! into the children of the node, or leave them out. Every callback has a
//! default that changes nothing and answers [`Step::Descend`], so a visitor
//! states only what it cares about and the walk still reaches every node.
//!
//! Each node type says by [`Visitable::visit`] which of its children are walked
//! and in which order; `accept` on a node type hands the node itself to its
//! callback first. The first failure ends the walk at once, and what the
//! callbacks have changed up to then stays changed.
//!
//! The walk calls nothing but callbacks, and it cannot say what a callback does.
//! Its contracts say how it goes from callback to callback: `walked` and
//! `accepted` on each node type, and the functions of the same names for
//! sequences and optional slots, relate the node and the visitor before a walk
//! to the node, the visitor and the result after it, step by step.
//!
//! Each of these relations takes a set of calls, `made`, and asks of every step
//! at a callback that this call is in the set: the node and the visitor that
//! the callback got, the visitor that it left, and its answer. A walking function
//! promises its relation for every `made` that holds all the calls that can
//! really be made, which are those that `call_ensures` of the callback admits
//! ([`called`]). So who knows the callbacks of a visitor type puts into `made`
//! what they promise, and reads off the relation what the walk has done: which
//! callbacks were called, in which order, how often and with which result. What a
//! callback has left in its node the relations take from the `on_` function in
//! which the visitor says it. An error that a walk returns is the answer of one of
//! the calls in `made` ([`failure_was_answered`]).

use vstd::prelude::*;
use crate::ast::definition::{
    EnumDefinition, ErrorDefinition, EventDefinition, FunctionDefinition, Identifier,
    IdentifierOrIdentifierPath, IdentifierPath, ModifierDefinition, StructDefinition,
    UserDefinedValueTypeDefinition, VariableDeclaration,
};
use crate::ast::expression::{
    Assignment, AssignmentOperator, BinaryOperation, BinaryOperator, Conditional,
    ElementaryTypeNameExpression, Expression, FunctionCall, FunctionCallOptions, IndexAccess,
    IndexRangeAccess, Literal, MemberAccess, NewExpression, TupleExpression, UnaryOperation,
};
use crate::ast::source_unit::{
    ContractDefinition, ContractDefinitionPart, ImportDirective, InheritanceSpecifier,
    PragmaDirective, SourceUnit, SourceUnitPart, UsingForDirective,
};
use crate::ast::statement::{
    Block, Break, Continue, DoWhileStatement, EmitStatement,
    ExpressionOrVariableDeclarationStatement, ExpressionStatement, ForStatement, IfStatement,
    InlineAssembly, PlaceholderStatement, Return, RevertStatement, Statement, TryStatement,
    UncheckedBlock, VariableDeclarationStatement, WhileStatement,
};
use crate::ast::types::{
    ArrayTypeName, ElementaryTypeName, FunctionTypeName, Mapping, TypeName, UserDefinedTypeName,
    UserDefinedTypeNameOrIdentifierPath,
};
use crate::ast::yul::{
    YulAssignment, YulBlock, YulBreak, YulContinue, YulExpressionStatement, YulForLoop,
    YulFunctionCall, YulFunctionDefinition, YulIdentifier, YulIf, YulLeave, YulLiteral, YulSwitch,
    YulVariableDeclaration,
};
use crate::misc::TypeDescriptions;
use crate::shape::Shape;

pub mod definition;
pub mod expression;
pub mod source_unit;
pub mod statement;
pub mod types;
pub mod yul;

verus! {

/// Why a walk has ended early.
#[derive(Debug, PartialEq, Eq)]
pub enum VisitError {
    /// A callback has failed, and says why.
    MsgError(String),
    /// A callback has failed without saying why.
    Unknown,
}

impl Clone for VisitError {
    fn clone(&self) -> (copy: Self)
        ensures
            copy == *self,
    {
        match self {
            VisitError::MsgError(message) => VisitError::MsgError(message.clone()),
            VisitError::Unknown => VisitError::Unknown,
        }
    }
}

impl VisitError {
    /// The reason as a text: the message of the callback, or the empty text.
    pub fn message(&self) -> (text: String)
        ensures
            text@ == (match *self {
                VisitError::MsgError(m) => m@,
                VisitError::Unknown => Seq::<char>::empty(),
            }),
    {
        match self {
            VisitError::MsgError(m) => m.clone(),
            VisitError::Unknown => String::new(),
        }
    }
}

/// What a callback asks of the walk.
#[derive(Debug, Clone, Copy, PartialEq, Eq)]
pub enum Step {
    /// Go on into the children of the node.
    Descend,
    /// Leave the children of the node out.
    Prune,
}

/// A callback has changed neither the visitor nor the node, and asks the walk to
/// go on: what every default does.
pub open spec fn untouched<V, T>(
    r: Result<Step, VisitError>,
    before: V,
    after: V,
    node_before: T,
    node_after: T,
) -> bool {
    &&& r == Ok::<Step, VisitError>(Step::Descend)
    &&& after == before
    &&& node_after == node_before
}

/// Holds of every visitor and every result. The contracts say it of the visitor
/// and the result between two steps of a walk, which gives the prover the words
/// by which it finds them.
pub open spec fn between<V>(v: V, r: Result<(), VisitError>) -> bool {
    true
}

/// Holds of every place in a sequence and every visitor: as [`between`], for the
/// item at which a walk has failed and the visitor that came to it.
pub open spec fn reached<V>(k: int, v: V) -> bool {
    true
}

/// Holds of every node: as [`between`], for a node between two walks of it.
pub open spec fn held<T>(node: T) -> bool {
    true
}

/// What the walk does with a node once its callback has answered. `left_v` and
/// `left_n` are the visitor and the node as the callback left them, `end_v` and
/// `end_n` as the walk leaves them, and `r` is what the walk returns.
///
/// After [`Step::Prune`] or an error nothing more is called: visitor and node
/// stay as the callback left them, and the error, if any, is returned as it is.
/// After [`Step::Descend`] the children are walked.
pub open spec fn settled<V: Visitor<D>, D, T: Shape>(
    answer: Result<Step, VisitError>,
    r: Result<(), VisitError>,
    left_v: V,
    end_v: V,
    left_n: T,
    end_n: T,
) -> bool {
    match answer {
        Ok(Step::Descend) => {
            &&& end_n.depth() <= left_n.depth()
            &&& end_v.shared() == left_v.shared()
            &&& unfailing::<V, D>() ==> r is Ok
            &&& left_v.inert() ==> r is Ok && end_v == left_v && end_n.same_as(&left_n)
        },
        Ok(Step::Prune) => r == Ok::<(), VisitError>(()) && end_v == left_v && end_n == left_n,
        Err(e) => r == Err::<(), VisitError>(e) && end_v == left_v && end_n == left_n,
    }
}

/// A node whose callback answers [`Step::Prune`] is left alone: nothing below it is
/// walked, so the visitor and the node stay as the callback has left them, and the
/// walk of the node succeeds.
pub proof fn a_pruned_node_is_left_alone<V: Visitor<D>, D, T: Shape>(
    answer: Result<Step, VisitError>,
    r: Result<(), VisitError>,
    left_v: V,
    end_v: V,
    left_n: T,
    end_n: T,
)
    requires
        settled::<V, D, T>(answer, r, left_v, end_v, left_n, end_n),
        answer == Ok::<Step, VisitError>(Step::Prune),
    ensures
        r == Ok::<(), VisitError>(()),
        end_v == left_v,
        end_n == left_n,
{
}

/// A callback that fails ends the walk of its node: nothing more is called, so the
/// visitor and the node stay as the callback has left them, and the walk returns
/// the error of the callback as it is.
pub proof fn a_failed_callback_ends_the_walk<V: Visitor<D>, D, T: Shape>(
    answer: Result<Step, VisitError>,
    r: Result<(), VisitError>,
    left_v: V,
    end_v: V,
    left_n: T,
    end_n: T,
    e: VisitError,
)
    requires
        settled::<V, D, T>(answer, r, left_v, end_v, left_n, end_n),
        answer == Err::<Step, VisitError>(e),
    ensures
        r == Err::<(), VisitError>(e),
        end_v == left_v,
        end_n == left_n,
{
}

/// One callback for each kind of node, and the data that the callbacks share.
///
/// A callback gets the node to read and to change in place, and answers what is
/// to happen to the children of the node:
///
/// - [`Step::Descend`]: the walk goes on into the children, as the callback has
///   left them. This is what a callback answers that does its own work at a node
///   and wants the walk to reach what lies below.
/// - [`Step::Prune`]: the walk leaves the children out, and goes on behind the
///   node. A callback that wants to walk the children in its own way does so
///   (by `visit` on the node, or on a child) and then answers this.
/// - an error: the walk ends, and hands the error to whoever started it.
///
/// A callback that is not overridden changes nothing and answers
/// [`Step::Descend`].
///
/// Each callback that the walk calls has an `on_` function beside it, in which a
/// visitor that puts a callback of its own in place of the default says what
/// that callback does. The contract of a callback is that it does what the
/// default does or what its `on_` function says; it is one contract for the
/// default and for what is put in its place. A visitor that keeps a default
/// leaves the `on_` function as it is.
///
/// Two things are asked of every callback that the walk calls. It must not make
/// its node deeper than it was: the walk goes on into the node as the callback
/// leaves it, and it ends only because every step leads one level down. And it
/// must leave the shared data as they are. A visitor whose callbacks are not
/// verified is taken at its word for both.
pub trait Visitor<D>: Sized {
    /// Whether this visitor, as it stands, changes nothing and prunes nothing: a
    /// visitor that says yes promises that each of its callbacks behaves as the
    /// default does. One that overrides a callback says no.
    open spec fn inert(&self) -> bool {
        false
    }

    /// The data that the callbacks share, as a value: what [`Visitor::shared_data`]
    /// hands out. No callback changes it, so it is the same throughout a walk.
    open spec fn shared(&self) -> D {
        arbitrary()
    }

    /// The data that the callbacks share. The walk never calls this; it is there
    /// for the callbacks, which can read the data without having it handed
    /// through every node.
    fn shared_data(&mut self) -> (data: &D)
        ensures
            *data == old(self).shared(),
            final(self).shared() == old(self).shared(),
    ;

    /// What the callback for [`SourceUnit`] does where it does something else than the
    /// default: how the visitor `before` and the node `node` can turn into `after` and
    /// `left`, and with which answer. A visitor that puts a callback of its own in
    /// place of the default says here what that callback does, be it that anything can
    /// happen.
    open spec fn on_source_unit(
        before: Self,
        node: SourceUnit,
        after: Self,
        left: SourceUnit,
        answer: Result<Step, VisitError>,
    ) -> bool {
        false
    }

    /// Called once for the root of the tree, before anything else.
    fn visit_source_unit(&mut self, node: &mut SourceUnit) -> (r: Result<Step, VisitError>)
        ensures
            final(node).depth() <= old(node).depth(),
            final(self).shared() == old(self).shared(),
            old(self).inert() ==> untouched(r, *old(self), *final(self), *old(node), *final(node)),
            untouched(r, *old(self), *final(self), *old(node), *final(node))
                || Self::on_source_unit(*old(self), *old(node), *final(self), *final(node), r),
        default_ensures
            untouched(r, *old(self), *final(self), *old(node), *final(node)),
    {
        Ok(Step::Descend)
    }

    /// What the callback for [`PragmaDirective`] does where it does something else than
    /// the default: how the visitor `before` and the node `node` can turn into `after`
    /// and `left`, and with which answer. A visitor that puts a callback of its own in
    /// place of the default says here what that callback does, be it that anything can
    /// happen.
    open spec fn on_pragma_directive(
        before: Self,
        node: PragmaDirective,
        after: Self,
        left: PragmaDirective,
        answer: Result<Step, VisitError>,
    ) -> bool {
        false
    }

    /// Called for each [`PragmaDirective`] that the walk reaches.
    fn visit_pragma_directive(
        &mut self,
        node: &mut PragmaDirective,
    ) -> (r: Result<Step, VisitError>)
        ensures
            final(self).shared() == old(self).shared(),
            old(self).inert() ==> untouched(r, *old(self), *final(self), *old(node), *final(node)),
            untouched(r, *old(self), *final(self), *old(node), *final(node))
                || Self::on_pragma_directive(*old(self), *old(node), *final(self), *final(node), r),
        default_ensures
            untouched(r, *old(self), *final(self), *old(node), *final(node)),
    {
        Ok(Step::Descend)
    }

    /// What the callback for [`ImportDirective`] does where it does something else than
    /// the default: how the visitor `before` and the node `node` can turn into `after`
    /// and `left`, and with which answer. A visitor that puts a callback of its own in
    /// place of the default says here what that callback does, be it that anything can
    /// happen.
    open spec fn on_import_directive(
        before: Self,
        node: ImportDirective,
        after: Self,
        left: ImportDirective,
        answer: Result<Step, VisitError>,
    ) -> bool {
        false
    }

    /// Called for each [`ImportDirective`] that the walk reaches.
    fn visit_import_directive(
        &mut self,
        node: &mut ImportDirective,
    ) -> (r: Result<Step, VisitError>)
        ensures
            final(node).depth() <= old(node).depth(),
            final(self).shared() == old(self).shared(),
            old(self).inert() ==> untouched(r, *old(self), *final(self), *old(node), *final(node)),
            untouched(r, *old(self), *final(self), *old(node), *final(node))
                || Self::on_import_directive(*old(self), *old(node), *final(self), *final(node), r),
        default_ensures
            untouched(r, *old(self), *final(self), *old(node), *final(node)),
    {
        Ok(Step::Descend)
    }

    /// For a [`SourceUnitPart`]. The walk itself never calls this callback: it is there
    /// for other callbacks to call.
    fn visit_source_unit_part(&mut self, node: &mut SourceUnitPart) -> (r: Result<Step, VisitError>)
        ensures
            final(self).shared() == old(self).shared(),
            old(self).inert() ==> untouched(r, *old(self), *final(self), *old(node), *final(node)),
        default_ensures
            untouched(r, *old(self), *final(self), *old(node), *final(node)),
    {
        Ok(Step::Descend)
    }

    /// What the callback for [`UsingForDirective`] does where it does something else
    /// than the default: how the visitor `before` and the node `node` can turn into
    /// `after` and `left`, and with which answer. A visitor that puts a callback of its
    /// own in place of the default says here what that callback does, be it that
    /// anything can happen.
    open spec fn on_using_for_directive(
        before: Self,
        node: UsingForDirective,
        after: Self,
        left: UsingForDirective,
        answer: Result<Step, VisitError>,
    ) -> bool {
        false
    }

    /// Called for each [`UsingForDirective`] that the walk reaches.
    fn visit_using_for_directive(
        &mut self,
        node: &mut UsingForDirective,
    ) -> (r: Result<Step, VisitError>)
        ensures
            final(node).depth() <= old(node).depth(),
            final(self).shared() == old(self).shared(),
            old(self).inert() ==> untouched(r, *old(self), *final(self), *old(node), *final(node)),
            untouched(r, *old(self), *final(self), *old(node), *final(node))
                || Self::on_using_for_directive(
                    *old(self),
                    *old(node),
                    *final(self),
                    *final(node),
                    r,
                ),
        default_ensures
            untouched(r, *old(self), *final(self), *old(node), *final(node)),
    {
        Ok(Step::Descend)
    }

    /// What the callback for [`VariableDeclaration`] does where it does something else
    /// than the default: how the visitor `before` and the node `node` can turn into
    /// `after` and `left`, and with which answer. A visitor that puts a callback of its
    /// own in place of the default says here what that callback does, be it that
    /// anything can happen.
    open spec fn on_variable_declaration(
        before: Self,
        node: VariableDeclaration,
        after: Self,
        left: VariableDeclaration,
        answer: Result<Step, VisitError>,
    ) -> bool {
        false
    }

    /// Called for each [`VariableDeclaration`] that the walk reaches.
    fn visit_variable_declaration(
        &mut self,
        node: &mut VariableDeclaration,
    ) -> (r: Result<Step, VisitError>)
        ensures
            final(node).depth() <= old(node).depth(),
            final(self).shared() == old(self).shared(),
            old(self).inert() ==> untouched(r, *old(self), *final(self), *old(node), *final(node)),
            untouched(r, *old(self), *final(self), *old(node), *final(node))
                || Self::on_variable_declaration(
                    *old(self),
                    *old(node),
                    *final(self),
                    *final(node),
                    r,
                ),
        default_ensures
            untouched(r, *old(self), *final(self), *old(node), *final(node)),
    {
        Ok(Step::Descend)
    }

    /// What the callback for [`BinaryOperation`] does where it does something else than
    /// the default: how the visitor `before` and the node `node` can turn into `after`
    /// and `left`, and with which answer. A visitor that puts a callback of its own in
    /// place of the default says here what that callback does, be it that anything can
    /// happen.
    open spec fn on_binary_operation(
        before: Self,
        node: BinaryOperation,
        after: Self,
        left: BinaryOperation,
        answer: Result<Step, VisitError>,
    ) -> bool {
        false
    }

    /// Called for each [`BinaryOperation`] that the walk reaches.
    fn visit_binary_operation(
        &mut self,
        node: &mut BinaryOperation,
    ) -> (r: Result<Step, VisitError>)
        ensures
            final(node).depth() <= old(node).depth(),
            final(self).shared() == old(self).shared(),
            old(self).inert() ==> untouched(r, *old(self), *final(self), *old(node), *final(node)),
            untouched(r, *old(self), *final(self), *old(node), *final(node))
                || Self::on_binary_operation(*old(self), *old(node), *final(self), *final(node), r),
        default_ensures
            untouched(r, *old(self), *final(self), *old(node), *final(node)),
    {
        Ok(Step::Descend)
    }

    /// What the callback for [`Conditional`] does where it does something else than the
    /// default: how the visitor `before` and the node `node` can turn into `after` and
    /// `left`, and with which answer. A visitor that puts a callback of its own in
    /// place of the default says here what that callback does, be it that anything can
    /// happen.
    open spec fn on_conditional(
        before: Self,
        node: Conditional,
        after: Self,
        left: Conditional,
        answer: Result<Step, VisitError>,
    ) -> bool {
        false
    }

    /// Called for each [`Conditional`] that the walk reaches.
    fn visit_conditional(&mut self, node: &mut Conditional) -> (r: Result<Step, VisitError>)
        ensures
            final(node).depth() <= old(node).depth(),
            final(self).shared() == old(self).shared(),
            old(self).inert() ==> untouched(r, *old(self), *final(self), *old(node), *final(node)),
            untouched(r, *old(self), *final(self), *old(node), *final(node))
                || Self::on_conditional(*old(self), *old(node), *final(self), *final(node), r),
        default_ensures
            untouched(r, *old(self), *final(self), *old(node), *final(node)),
    {
        Ok(Step::Descend)
    }

    /// What the callback for [`ElementaryTypeName`] does where it does something else
    /// than the default: how the visitor `before` and the node `node` can turn into
    /// `after` and `left`, and with which answer. A visitor that puts a callback of its
    /// own in place of the default says here what that callback does, be it that
    /// anything can happen.
    open spec fn on_elementary_type_name(
        before: Self,
        node: ElementaryTypeName,
        after: Self,
        left: ElementaryTypeName,
        answer: Result<Step, VisitError>,
    ) -> bool {
        false
    }

    /// Called for each [`ElementaryTypeName`] that the walk reaches.
    fn visit_elementary_type_name(
        &mut self,
        node: &mut ElementaryTypeName,
    ) -> (r: Result<Step, VisitError>)
        ensures
            final(self).shared() == old(self).shared(),
            old(self).inert() ==> untouched(r, *old(self), *final(self), *old(node), *final(node)),
            untouched(r, *old(self), *final(self), *old(node), *final(node))
                || Self::on_elementary_type_name(
                    *old(self),
                    *old(node),
                    *final(self),
                    *final(node),
                    r,
                ),
        default_ensures
            untouched(r, *old(self), *final(self), *old(node), *final(node)),
    {
        Ok(Step::Descend)
    }

    /// What the callback for [`ElementaryTypeNameExpression`] does where it does
    /// something else than the default: how the visitor `before` and the node `node`
    /// can turn into `after` and `left`, and with which answer. A visitor that puts a
    /// callback of its own in place of the default says here what that callback does,
    /// be it that anything can happen.
    open spec fn on_elementary_type_name_expression(
        before: Self,
        node: ElementaryTypeNameExpression,
        after: Self,
        left: ElementaryTypeNameExpression,
        answer: Result<Step, VisitError>,
    ) -> bool {
        false
    }

    /// Called for each [`ElementaryTypeNameExpression`] that the walk reaches.
    fn visit_elementary_type_name_expression(
        &mut self,
        node: &mut ElementaryTypeNameExpression,
    ) -> (r: Result<Step, VisitError>)
        ensures
            final(self).shared() == old(self).shared(),
            old(self).inert() ==> untouched(r, *old(self), *final(self), *old(node), *final(node)),
            untouched(r, *old(self), *final(self), *old(node), *final(node))
                || Self::on_elementary_type_name_expression(
                    *old(self),
                    *old(node),
                    *final(self),
                    *final(node),
                    r,
                ),
        default_ensures
            untouched(r, *old(self), *final(self), *old(node), *final(node)),
    {
        Ok(Step::Descend)
    }

    /// What the callback for [`FunctionCall`] does where it does something else than
    /// the default: how the visitor `before` and the node `node` can turn into `after`
    /// and `left`, and with which answer. A visitor that puts a callback of its own in
    /// place of the default says here what that callback does, be it that anything can
    /// happen.
    open spec fn on_function_call(
        before: Self,
        node: FunctionCall,
        after: Self,
        left: FunctionCall,
        answer: Result<Step, VisitError>,
    ) -> bool {
        false
    }

    /// Called for each [`FunctionCall`] that the walk reaches.
    fn visit_function_call(&mut self, node: &mut FunctionCall) -> (r: Result<Step, VisitError>)
        ensures
            final(node).depth() <= old(node).depth(),
            final(self).shared() == old(self).shared(),
            old(self).inert() ==> untouched(r, *old(self), *final(self), *old(node), *final(node)),
            untouched(r, *old(self), *final(self), *old(node), *final(node))
                || Self::on_function_call(*old(self), *old(node), *final(self), *final(node), r),
        default_ensures
            untouched(r, *old(self), *final(self), *old(node), *final(node)),
    {
        Ok(Step::Descend)
    }

    /// What the callback for [`UnaryOperation`] does where it does something else than
    /// the default: how the visitor `before` and the node `node` can turn into `after`
    /// and `left`, and with which answer. A visitor that puts a callback of its own in
    /// place of the default says here what that callback does, be it that anything can
    /// happen.
    open spec fn on_unary_operation(
        before: Self,
        node: UnaryOperation,
        after: Self,
        left: UnaryOperation,
        answer: Result<Step, VisitError>,
    ) -> bool {
        false
    }

    /// Called for each [`UnaryOperation`] that the walk reaches.
    fn visit_unary_operation(&mut self, node: &mut UnaryOperation) -> (r: Result<Step, VisitError>)
        ensures
            final(node).depth() <= old(node).depth(),
            final(self).shared() == old(self).shared(),
            old(self).inert() ==> untouched(r, *old(self), *final(self), *old(node), *final(node)),
            untouched(r, *old(self), *final(self), *old(node), *final(node))
                || Self::on_unary_operation(*old(self), *old(node), *final(self), *final(node), r),
        default_ensures
            untouched(r, *old(self), *final(self), *old(node), *final(node)),
    {
        Ok(Step::Descend)
    }

    /// What the callback for [`TupleExpression`] does where it does something else than
    /// the default: how the visitor `before` and the node `node` can turn into `after`
    /// and `left`, and with which answer. A visitor that puts a callback of its own in
    /// place of the default says here what that callback does, be it that anything can
    /// happen.
    open spec fn on_tuple_expression(
        before: Self,
        node: TupleExpression,
        after: Self,
        left: TupleExpression,
        answer: Result<Step, VisitError>,
    ) -> bool {
        false
    }

    /// Called for each [`TupleExpression`] that the walk reaches.
    fn visit_tuple_expression(
        &mut self,
        node: &mut TupleExpression,
    ) -> (r: Result<Step, VisitError>)
        ensures
            final(node).depth() <= old(node).depth(),
            final(self).shared() == old(self).shared(),
            old(self).inert() ==> untouched(r, *old(self), *final(self), *old(node), *final(node)),
            untouched(r, *old(self), *final(self), *old(node), *final(node))
                || Self::on_tuple_expression(*old(self), *old(node), *final(self), *final(node), r),
        default_ensures
            untouched(r, *old(self), *final(self), *old(node), *final(node)),
    {
        Ok(Step::Descend)
    }

    /// What the callback for [`NewExpression`] does where it does something else than
    /// the default: how the visitor `before` and the node `node` can turn into `after`
    /// and `left`, and with which answer. A visitor that puts a callback of its own in
    /// place of the default says here what that callback does, be it that anything can
    /// happen.
    open spec fn on_new_expression(
        before: Self,
        node: NewExpression,
        after: Self,
        left: NewExpression,
        answer: Result<Step, VisitError>,
    ) -> bool {
        false
    }

    /// Called for each [`NewExpression`] that the walk reaches.
    fn visit_new_expression(&mut self, node: &mut NewExpression) -> (r: Result<Step, VisitError>)
        ensures
            final(node).depth() <= old(node).depth(),
            final(self).shared() == old(self).shared(),
            old(self).inert() ==> untouched(r, *old(self), *final(self), *old(node), *final(node)),
            untouched(r, *old(self), *final(self), *old(node), *final(node))
                || Self::on_new_expression(*old(self), *old(node), *final(self), *final(node), r),
        default_ensures
            untouched(r, *old(self), *final(self), *old(node), *final(node)),
    {
        Ok(Step::Descend)
    }

    /// What the callback for [`MemberAccess`] does where it does something else than
    /// the default: how the visitor `before` and the node `node` can turn into `after`
    /// and `left`, and with which answer. A visitor that puts a callback of its own in
    /// place of the default says here what that callback does, be it that anything can
    /// happen.
    open spec fn on_member_access(
        before: Self,
        node: MemberAccess,
        after: Self,
        left: MemberAccess,
        answer: Result<Step, VisitError>,
    ) -> bool {
        false
    }

    /// Called for each [`MemberAccess`] that the walk reaches.
    fn visit_member_access(&mut self, node: &mut MemberAccess) -> (r: Result<Step, VisitError>)
        ensures
            final(node).depth() <= old(node).depth(),
            final(self).shared() == old(self).shared(),
            old(self).inert() ==> untouched(r, *old(self), *final(self), *old(node), *final(node)),
            untouched(r, *old(self), *final(self), *old(node), *final(node))
                || Self::on_member_access(*old(self), *old(node), *final(self), *final(node), r),
        default_ensures
            untouched(r, *old(self), *final(self), *old(node), *final(node)),
    {
        Ok(Step::Descend)
    }

    /// For a [`TypeDescriptions`]. The walk itself never calls this callback: it is
    /// there for other callbacks to call.
    fn visit_type_descriptions(
        &mut self,
        node: &mut TypeDescriptions,
    ) -> (r: Result<Step, VisitError>)
        ensures
            final(self).shared() == old(self).shared(),
            old(self).inert() ==> untouched(r, *old(self), *final(self), *old(node), *final(node)),
        default_ensures
            untouched(r, *old(self), *final(self), *old(node), *final(node)),
    {
        Ok(Step::Descend)
    }

    /// What the callback for [`Literal`] does where it does something else than the
    /// default: how the visitor `before` and the node `node` can turn into `after` and
    /// `left`, and with which answer. A visitor that puts a callback of its own in
    /// place of the default says here what that callback does, be it that anything can
    /// happen.
    open spec fn on_literal(
        before: Self,
        node: Literal,
        after: Self,
        left: Literal,
        answer: Result<Step, VisitError>,
    ) -> bool {
        false
    }

    /// Called for each [`Literal`] that the walk reaches.
    fn visit_literal(&mut self, node: &mut Literal) -> (r: Result<Step, VisitError>)
        ensures
            final(self).shared() == old(self).shared(),
            old(self).inert() ==> untouched(r, *old(self), *final(self), *old(node), *final(node)),
            untouched(r, *old(self), *final(self), *old(node), *final(node))
                || Self::on_literal(*old(self), *old(node), *final(self), *final(node), r),
        default_ensures
            untouched(r, *old(self), *final(self), *old(node), *final(node)),
    {
        Ok(Step::Descend)
    }

    /// What the callback for [`IndexRangeAccess`] does where it does something else
    /// than the default: how the visitor `before` and the node `node` can turn into
    /// `after` and `left`, and with which answer. A visitor that puts a callback of its
    /// own in place of the default says here what that callback does, be it that
    /// anything can happen.
    open spec fn on_index_range_access(
        before: Self,
        node: IndexRangeAccess,
        after: Self,
        left: IndexRangeAccess,
        answer: Result<Step, VisitError>,
    ) -> bool {
        false
    }

    /// Called for each [`IndexRangeAccess`] that the walk reaches.
    fn visit_index_range_access(
        &mut self,
        node: &mut IndexRangeAccess,
    ) -> (r: Result<Step, VisitError>)
        ensures
            final(node).depth() <= old(node).depth(),
            final(self).shared() == old(self).shared(),
            old(self).inert() ==> untouched(r, *old(self), *final(self), *old(node), *final(node)),
            untouched(r, *old(self), *final(self), *old(node), *final(node))
                || Self::on_index_range_access(
                    *old(self),
                    *old(node),
                    *final(self),
                    *final(node),
                    r,
                ),
        default_ensures
            untouched(r, *old(self), *final(self), *old(node), *final(node)),
    {
        Ok(Step::Descend)
    }

    /// What the callback for [`IndexAccess`] does where it does something else than the
    /// default: how the visitor `before` and the node `node` can turn into `after` and
    /// `left`, and with which answer. A visitor that puts a callback of its own in
    /// place of the default says here what that callback does, be it that anything can
    /// happen.
    open spec fn on_index_access(
        before: Self,
        node: IndexAccess,
        after: Self,
        left: IndexAccess,
        answer: Result<Step, VisitError>,
    ) -> bool {
        false
    }

    /// Called for each [`IndexAccess`] that the walk reaches.
    fn visit_index_access(&mut self, node: &mut IndexAccess) -> (r: Result<Step, VisitError>)
        ensures
            final(node).depth() <= old(node).depth(),
            final(self).shared() == old(self).shared(),
            old(self).inert() ==> untouched(r, *old(self), *final(self), *old(node), *final(node)),
            untouched(r, *old(self), *final(self), *old(node), *final(node))
                || Self::on_index_access(*old(self), *old(node), *final(self), *final(node), r),
        default_ensures
            untouched(r, *old(self), *final(self), *old(node), *final(node)),
    {
        Ok(Step::Descend)
    }

    /// What the callback for [`Identifier`] does where it does something else than the
    /// default: how the visitor `before` and the node `node` can turn into `after` and
    /// `left`, and with which answer. A visitor that puts a callback of its own in
    /// place of the default says here what that callback does, be it that anything can
    /// happen.
    open spec fn on_identifier(
        before: Self,
        node: Identifier,
        after: Self,
        left: Identifier,
        answer: Result<Step, VisitError>,
    ) -> bool {
        false
    }

    /// Called for each [`Identifier`] that the walk reaches.
    fn visit_identifier(&mut self, node: &mut Identifier) -> (r: Result<Step, VisitError>)
        ensures
            final(self).shared() == old(self).shared(),
            old(self).inert() ==> untouched(r, *old(self), *final(self), *old(node), *final(node)),
            untouched(r, *old(self), *final(self), *old(node), *final(node))
                || Self::on_identifier(*old(self), *old(node), *final(self), *final(node), r),
        default_ensures
            untouched(r, *old(self), *final(self), *old(node), *final(node)),
    {
        Ok(Step::Descend)
    }

    /// What the callback for [`FunctionCallOptions`] does where it does something else
    /// than the default: how the visitor `before` and the node `node` can turn into
    /// `after` and `left`, and with which answer. A visitor that puts a callback of its
    /// own in place of the default says here what that callback does, be it that
    /// anything can happen.
    open spec fn on_function_call_options(
        before: Self,
        node: FunctionCallOptions,
        after: Self,
        left: FunctionCallOptions,
        answer: Result<Step, VisitError>,
    ) -> bool {
        false
    }

    /// Called for each [`FunctionCallOptions`] that the walk reaches.
    fn visit_function_call_options(
        &mut self,
        node: &mut FunctionCallOptions,
    ) -> (r: Result<Step, VisitError>)
        ensures
            final(node).depth() <= old(node).depth(),
            final(self).shared() == old(self).shared(),
            old(self).inert() ==> untouched(r, *old(self), *final(self), *old(node), *final(node)),
            untouched(r, *old(self), *final(self), *old(node), *final(node))
                || Self::on_function_call_options(
                    *old(self),
                    *old(node),
                    *final(self),
                    *final(node),
                    r,
                ),
        default_ensures
            untouched(r, *old(self), *final(self), *old(node), *final(node)),
    {
        Ok(Step::Descend)
    }

    /// What the callback for [`EnumDefinition`] does where it does something else than
    /// the default: how the visitor `before` and the node `node` can turn into `after`
    /// and `left`, and with which answer. A visitor that puts a callback of its own in
    /// place of the default says here what that callback does, be it that anything can
    /// happen.
    open spec fn on_enum_definition(
        before: Self,
        node: EnumDefinition,
        after: Self,
        left: EnumDefinition,
        answer: Result<Step, VisitError>,
    ) -> bool {
        false
    }

    /// Called for each [`EnumDefinition`] that the walk reaches.
    fn visit_enum_definition(&mut self, node: &mut EnumDefinition) -> (r: Result<Step, VisitError>)
        ensures
            final(self).shared() == old(self).shared(),
            old(self).inert() ==> untouched(r, *old(self), *final(self), *old(node), *final(node)),
            untouched(r, *old(self), *final(self), *old(node), *final(node))
                || Self::on_enum_definition(*old(self), *old(node), *final(self), *final(node), r),
        default_ensures
            untouched(r, *old(self), *final(self), *old(node), *final(node)),
    {
        Ok(Step::Descend)
    }

    /// What the callback for [`EventDefinition`] does where it does something else than
    /// the default: how the visitor `before` and the node `node` can turn into `after`
    /// and `left`, and with which answer. A visitor that puts a callback of its own in
    /// place of the default says here what that callback does, be it that anything can
    /// happen.
    open spec fn on_event_definition(
        before: Self,
        node: EventDefinition,
        after: Self,
        left: EventDefinition,
        answer: Result<Step, VisitError>,
    ) -> bool {
        false
    }

    /// Called for each [`EventDefinition`] that the walk reaches.
    fn visit_event_definition(
        &mut self,
        node: &mut EventDefinition,
    ) -> (r: Result<Step, VisitError>)
        ensures
            final(self).shared() == old(self).shared(),
            old(self).inert() ==> untouched(r, *old(self), *final(self), *old(node), *final(node)),
            untouched(r, *old(self), *final(self), *old(node), *final(node))
                || Self::on_event_definition(*old(self), *old(node), *final(self), *final(node), r),
        default_ensures
            untouched(r, *old(self), *final(self), *old(node), *final(node)),
    {
        Ok(Step::Descend)
    }

    /// What the callback for [`ModifierDefinition`] does where it does something else
    /// than the default: how the visitor `before` and the node `node` can turn into
    /// `after` and `left`, and with which answer. A visitor that puts a callback of its
    /// own in place of the default says here what that callback does, be it that
    /// anything can happen.
    open spec fn on_modifier_definition(
        before: Self,
        node: ModifierDefinition,
        after: Self,
        left: ModifierDefinition,
        answer: Result<Step, VisitError>,
    ) -> bool {
        false
    }

    /// Called for each [`ModifierDefinition`] that the walk reaches.
    fn visit_modifier_definition(
        &mut self,
        node: &mut ModifierDefinition,
    ) -> (r: Result<Step, VisitError>)
        ensures
            final(self).shared() == old(self).shared(),
            old(self).inert() ==> untouched(r, *old(self), *final(self), *old(node), *final(node)),
            untouched(r, *old(self), *final(self), *old(node), *final(node))
                || Self::on_modifier_definition(
                    *old(self),
                    *old(node),
                    *final(self),
                    *final(node),
                    r,
                ),
        default_ensures
            untouched(r, *old(self), *final(self), *old(node), *final(node)),
    {
        Ok(Step::Descend)
    }

    /// What the callback for [`ErrorDefinition`] does where it does something else than
    /// the default: how the visitor `before` and the node `node` can turn into `after`
    /// and `left`, and with which answer. A visitor that puts a callback of its own in
    /// place of the default says here what that callback does, be it that anything can
    /// happen.
    open spec fn on_error_definition(
        before: Self,
        node: ErrorDefinition,
        after: Self,
        left: ErrorDefinition,
        answer: Result<Step, VisitError>,
    ) -> bool {
        false
    }

    /// Called for each [`ErrorDefinition`] that the walk reaches.
    fn visit_error_definition(
        &mut self,
        node: &mut ErrorDefinition,
    ) -> (r: Result<Step, VisitError>)
        ensures
            final(node).depth() <= old(node).depth(),
            final(self).shared() == old(self).shared(),
            old(self).inert() ==> untouched(r, *old(self), *final(self), *old(node), *final(node)),
            untouched(r, *old(self), *final(self), *old(node), *final(node))
                || Self::on_error_definition(*old(self), *old(node), *final(self), *final(node), r),
        default_ensures
            untouched(r, *old(self), *final(self), *old(node), *final(node)),
    {
        Ok(Step::Descend)
    }

    /// What the callback for [`FunctionDefinition`] does where it does something else
    /// than the default: how the visitor `before` and the node `node` can turn into
    /// `after` and `left`, and with which answer. A visitor that puts a callback of its
    /// own in place of the default says here what that callback does, be it that
    /// anything can happen.
    open spec fn on_function_definition(
        before: Self,
        node: FunctionDefinition,
        after: Self,
        left: FunctionDefinition,
        answer: Result<Step, VisitError>,
    ) -> bool {
        false
    }

    /// Called for each [`FunctionDefinition`] that the walk reaches.
    fn visit_function_definition(
        &mut self,
        node: &mut FunctionDefinition,
    ) -> (r: Result<Step, VisitError>)
        ensures
            final(node).depth() <= old(node).depth(),
            final(self).shared() == old(self).shared(),
            old(self).inert() ==> untouched(r, *old(self), *final(self), *old(node), *final(node)),
            untouched(r, *old(self), *final(self), *old(node), *final(node))
                || Self::on_function_definition(
                    *old(self),
                    *old(node),
                    *final(self),
                    *final(node),
                    r,
                ),
        default_ensures
            untouched(r, *old(self), *final(self), *old(node), *final(node)),
    {
        Ok(Step::Descend)
    }

    /// What the callback for [`StructDefinition`] does where it does something else
    /// than the default: how the visitor `before` and the node `node` can turn into
    /// `after` and `left`, and with which answer. A visitor that puts a callback of its
    /// own in place of the default says here what that callback does, be it that
    /// anything can happen.
    open spec fn on_struct_definition(
        before: Self,
        node: StructDefinition,
        after: Self,
        left: StructDefinition,
        answer: Result<Step, VisitError>,
    ) -> bool {
        false
    }

    /// Called for each [`StructDefinition`] that the walk reaches.
    fn visit_struct_definition(
        &mut self,
        node: &mut StructDefinition,
    ) -> (r: Result<Step, VisitError>)
        ensures
            final(node).depth() <= old(node).depth(),
            final(self).shared() == old(self).shared(),
            old(self).inert() ==> untouched(r, *old(self), *final(self), *old(node), *final(node)),
            untouched(r, *old(self), *final(self), *old(node), *final(node))
                || Self::on_struct_definition(
                    *old(self),
                    *old(node),
                    *final(self),
                    *final(node),
                    r,
                ),
        default_ensures
            untouched(r, *old(self), *final(self), *old(node), *final(node)),
    {
        Ok(Step::Descend)
    }

    /// For an [`Expression`]. The walk itself never calls this callback: it is there
    /// for other callbacks to call.
    fn visit_expression(&mut self, node: &mut Expression) -> (r: Result<Step, VisitError>)
        ensures
            final(self).shared() == old(self).shared(),
            old(self).inert() ==> untouched(r, *old(self), *final(self), *old(node), *final(node)),
        default_ensures
            untouched(r, *old(self), *final(self), *old(node), *final(node)),
    {
        Ok(Step::Descend)
    }

    /// For a [`Statement`]. The walk itself never calls this callback: it is there for
    /// other callbacks to call.
    fn visit_statement(&mut self, node: &mut Statement) -> (r: Result<Step, VisitError>)
        ensures
            final(self).shared() == old(self).shared(),
            old(self).inert() ==> untouched(r, *old(self), *final(self), *old(node), *final(node)),
        default_ensures
            untouched(r, *old(self), *final(self), *old(node), *final(node)),
    {
        Ok(Step::Descend)
    }

    /// What the callback for [`ContractDefinition`] does where it does something else
    /// than the default: how the visitor `before` and the node `node` can turn into
    /// `after` and `left`, and with which answer. A visitor that puts a callback of its
    /// own in place of the default says here what that callback does, be it that
    /// anything can happen.
    open spec fn on_contract_definition(
        before: Self,
        node: ContractDefinition,
        after: Self,
        left: ContractDefinition,
        answer: Result<Step, VisitError>,
    ) -> bool {
        false
    }

    /// Called for each [`ContractDefinition`] that the walk reaches.
    fn visit_contract_definition(
        &mut self,
        node: &mut ContractDefinition,
    ) -> (r: Result<Step, VisitError>)
        ensures
            final(node).depth() <= old(node).depth(),
            final(self).shared() == old(self).shared(),
            old(self).inert() ==> untouched(r, *old(self), *final(self), *old(node), *final(node)),
            untouched(r, *old(self), *final(self), *old(node), *final(node))
                || Self::on_contract_definition(
                    *old(self),
                    *old(node),
                    *final(self),
                    *final(node),
                    r,
                ),
        default_ensures
            untouched(r, *old(self), *final(self), *old(node), *final(node)),
    {
        Ok(Step::Descend)
    }

    /// For a [`ContractDefinitionPart`]. The walk itself never calls this callback: it
    /// is there for other callbacks to call.
    fn visit_contract_definition_part(
        &mut self,
        node: &mut ContractDefinitionPart,
    ) -> (r: Result<Step, VisitError>)
        ensures
            final(self).shared() == old(self).shared(),
            old(self).inert() ==> untouched(r, *old(self), *final(self), *old(node), *final(node)),
        default_ensures
            untouched(r, *old(self), *final(self), *old(node), *final(node)),
    {
        Ok(Step::Descend)
    }

    /// For a [`TypeName`]. The walk itself never calls this callback: it is there for
    /// other callbacks to call.
    fn visit_type_name(&mut self, node: &mut TypeName) -> (r: Result<Step, VisitError>)
        ensures
            final(self).shared() == old(self).shared(),
            old(self).inert() ==> untouched(r, *old(self), *final(self), *old(node), *final(node)),
        default_ensures
            untouched(r, *old(self), *final(self), *old(node), *final(node)),
    {
        Ok(Step::Descend)
    }

    /// What the callback for [`UserDefinedValueTypeDefinition`] does where it does
    /// something else than the default: how the visitor `before` and the node `node`
    /// can turn into `after` and `left`, and with which answer. A visitor that puts a
    /// callback of its own in place of the default says here what that callback does,
    /// be it that anything can happen.
    open spec fn on_user_defined_value_type_definition(
        before: Self,
        node: UserDefinedValueTypeDefinition,
        after: Self,
        left: UserDefinedValueTypeDefinition,
        answer: Result<Step, VisitError>,
    ) -> bool {
        false
    }

    /// Called for each [`UserDefinedValueTypeDefinition`] that the walk reaches.
    fn visit_user_defined_value_type_definition(
        &mut self,
        node: &mut UserDefinedValueTypeDefinition,
    ) -> (r: Result<Step, VisitError>)
        ensures
            final(node).depth() <= old(node).depth(),
            final(self).shared() == old(self).shared(),
            old(self).inert() ==> untouched(r, *old(self), *final(self), *old(node), *final(node)),
            untouched(r, *old(self), *final(self), *old(node), *final(node))
                || Self::on_user_defined_value_type_definition(
                    *old(self),
                    *old(node),
                    *final(self),
                    *final(node),
                    r,
                ),
        default_ensures
            untouched(r, *old(self), *final(self), *old(node), *final(node)),
    {
        Ok(Step::Descend)
    }

    /// For a [`UserDefinedTypeNameOrIdentifierPath`]. The walk itself never calls this
    /// callback: it is there for other callbacks to call.
    fn visit_user_defined_type_name_or_identifier_path(
        &mut self,
        node: &mut UserDefinedTypeNameOrIdentifierPath,
    ) -> (r: Result<Step, VisitError>)
        ensures
            final(self).shared() == old(self).shared(),
            old(self).inert() ==> untouched(r, *old(self), *final(self), *old(node), *final(node)),
        default_ensures
            untouched(r, *old(self), *final(self), *old(node), *final(node)),
    {
        Ok(Step::Descend)
    }

    /// For an [`ExpressionOrVariableDeclarationStatement`]. The walk itself never calls
    /// this callback: it is there for other callbacks to call.
    fn visit_expression_or_variable_declaration_statement(
        &mut self,
        node: &mut ExpressionOrVariableDeclarationStatement,
    ) -> (r: Result<Step, VisitError>)
        ensures
            final(self).shared() == old(self).shared(),
            old(self).inert() ==> untouched(r, *old(self), *final(self), *old(node), *final(node)),
        default_ensures
            untouched(r, *old(self), *final(self), *old(node), *final(node)),
    {
        Ok(Step::Descend)
    }

    /// For an [`IdentifierOrIdentifierPath`]. The walk itself never calls this
    /// callback: it is there for other callbacks to call.
    fn visit_identifier_or_identifier_path(
        &mut self,
        node: &mut IdentifierOrIdentifierPath,
    ) -> (r: Result<Step, VisitError>)
        ensures
            final(self).shared() == old(self).shared(),
            old(self).inert() ==> untouched(r, *old(self), *final(self), *old(node), *final(node)),
        default_ensures
            untouched(r, *old(self), *final(self), *old(node), *final(node)),
    {
        Ok(Step::Descend)
    }

    /// For an [`InheritanceSpecifier`]. The walk itself never calls this callback: it
    /// is there for other callbacks to call.
    fn visit_inheritance_specifier(
        &mut self,
        node: &mut InheritanceSpecifier,
    ) -> (r: Result<Step, VisitError>)
        ensures
            final(self).shared() == old(self).shared(),
            old(self).inert() ==> untouched(r, *old(self), *final(self), *old(node), *final(node)),
        default_ensures
            untouched(r, *old(self), *final(self), *old(node), *final(node)),
    {
        Ok(Step::Descend)
    }

    /// What the callback for [`UserDefinedTypeName`] does where it does something else
    /// than the default: how the visitor `before` and the node `node` can turn into
    /// `after` and `left`, and with which answer. A visitor that puts a callback of its
    /// own in place of the default says here what that callback does, be it that
    /// anything can happen.
    open spec fn on_user_defined_type_name(
        before: Self,
        node: UserDefinedTypeName,
        after: Self,
        left: UserDefinedTypeName,
        answer: Result<Step, VisitError>,
    ) -> bool {
        false
    }

    /// Called for each [`UserDefinedTypeName`] that the walk reaches.
    fn visit_user_defined_type_name(
        &mut self,
        node: &mut UserDefinedTypeName,
    ) -> (r: Result<Step, VisitError>)
        ensures
            final(self).shared() == old(self).shared(),
            old(self).inert() ==> untouched(r, *old(self), *final(self), *old(node), *final(node)),
            untouched(r, *old(self), *final(self), *old(node), *final(node))
                || Self::on_user_defined_type_name(
                    *old(self),
                    *old(node),
                    *final(self),
                    *final(node),
                    r,
                ),
        default_ensures
            untouched(r, *old(self), *final(self), *old(node), *final(node)),
    {
        Ok(Step::Descend)
    }

    /// What the callback for [`Mapping`] does where it does something else than the
    /// default: how the visitor `before` and the node `node` can turn into `after` and
    /// `left`, and with which answer. A visitor that puts a callback of its own in
    /// place of the default says here what that callback does, be it that anything can
    /// happen.
    open spec fn on_mapping(
        before: Self,
        node: Mapping,
        after: Self,
        left: Mapping,
        answer: Result<Step, VisitError>,
    ) -> bool {
        false
    }

    /// Called for each [`Mapping`] that the walk reaches.
    fn visit_mapping(&mut self, node: &mut Mapping) -> (r: Result<Step, VisitError>)
        ensures
            final(self).shared() == old(self).shared(),
            old(self).inert() ==> untouched(r, *old(self), *final(self), *old(node), *final(node)),
            untouched(r, *old(self), *final(self), *old(node), *final(node))
                || Self::on_mapping(*old(self), *old(node), *final(self), *final(node), r),
        default_ensures
            untouched(r, *old(self), *final(self), *old(node), *final(node)),
    {
        Ok(Step::Descend)
    }

    /// What the callback for [`FunctionTypeName`] does where it does something else
    /// than the default: how the visitor `before` and the node `node` can turn into
    /// `after` and `left`, and with which answer. A visitor that puts a callback of its
    /// own in place of the default says here what that callback does, be it that
    /// anything can happen.
    open spec fn on_function_type_name(
        before: Self,
        node: FunctionTypeName,
        after: Self,
        left: FunctionTypeName,
        answer: Result<Step, VisitError>,
    ) -> bool {
        false
    }

    /// Called for each [`FunctionTypeName`] that the walk reaches.
    fn visit_function_type_name(
        &mut self,
        node: &mut FunctionTypeName,
    ) -> (r: Result<Step, VisitError>)
        ensures
            final(self).shared() == old(self).shared(),
            old(self).inert() ==> untouched(r, *old(self), *final(self), *old(node), *final(node)),
            untouched(r, *old(self), *final(self), *old(node), *final(node))
                || Self::on_function_type_name(
                    *old(self),
                    *old(node),
                    *final(self),
                    *final(node),
                    r,
                ),
        default_ensures
            untouched(r, *old(self), *final(self), *old(node), *final(node)),
    {
        Ok(Step::Descend)
    }

    /// What the callback for [`ArrayTypeName`] does where it does something else than
    /// the default: how the visitor `before` and the node `node` can turn into `after`
    /// and `left`, and with which answer. A visitor that puts a callback of its own in
    /// place of the default says here what that callback does, be it that anything can
    /// happen.
    open spec fn on_array_type_name(
        before: Self,
        node: ArrayTypeName,
        after: Self,
        left: ArrayTypeName,
        answer: Result<Step, VisitError>,
    ) -> bool {
        false
    }

    /// Called for each [`ArrayTypeName`] that the walk reaches.
    fn visit_array_type_name(&mut self, node: &mut ArrayTypeName) -> (r: Result<Step, VisitError>)
        ensures
            final(node).depth() <= old(node).depth(),
            final(self).shared() == old(self).shared(),
            old(self).inert() ==> untouched(r, *old(self), *final(self), *old(node), *final(node)),
            untouched(r, *old(self), *final(self), *old(node), *final(node))
                || Self::on_array_type_name(*old(self), *old(node), *final(self), *final(node), r),
        default_ensures
            untouched(r, *old(self), *final(self), *old(node), *final(node)),
    {
        Ok(Step::Descend)
    }

    /// What the callback for [`Assignment`] does where it does something else than the
    /// default: how the visitor `before` and the node `node` can turn into `after` and
    /// `left`, and with which answer. A visitor that puts a callback of its own in
    /// place of the default says here what that callback does, be it that anything can
    /// happen.
    open spec fn on_assignment(
        before: Self,
        node: Assignment,
        after: Self,
        left: Assignment,
        answer: Result<Step, VisitError>,
    ) -> bool {
        false
    }

    /// Called for each [`Assignment`] that the walk reaches.
    fn visit_assignment(&mut self, node: &mut Assignment) -> (r: Result<Step, VisitError>)
        ensures
            final(node).depth() <= old(node).depth(),
            final(self).shared() == old(self).shared(),
            old(self).inert() ==> untouched(r, *old(self), *final(self), *old(node), *final(node)),
            untouched(r, *old(self), *final(self), *old(node), *final(node))
                || Self::on_assignment(*old(self), *old(node), *final(self), *final(node), r),
        default_ensures
            untouched(r, *old(self), *final(self), *old(node), *final(node)),
    {
        Ok(Step::Descend)
    }

    /// For an [`AssignmentOperator`]. The walk itself never calls this callback: it is
    /// there for other callbacks to call.
    fn visit_assignment_operator(
        &mut self,
        node: &mut AssignmentOperator,
    ) -> (r: Result<Step, VisitError>)
        ensures
            final(self).shared() == old(self).shared(),
            old(self).inert() ==> untouched(r, *old(self), *final(self), *old(node), *final(node)),
        default_ensures
            untouched(r, *old(self), *final(self), *old(node), *final(node)),
    {
        Ok(Step::Descend)
    }

    /// For a [`BinaryOperator`]. The walk itself never calls this callback: it is there
    /// for other callbacks to call.
    fn visit_binary_operator(&mut self, node: &mut BinaryOperator) -> (r: Result<Step, VisitError>)
        ensures
            final(self).shared() == old(self).shared(),
            old(self).inert() ==> untouched(r, *old(self), *final(self), *old(node), *final(node)),
        default_ensures
            untouched(r, *old(self), *final(self), *old(node), *final(node)),
    {
        Ok(Step::Descend)
    }

    /// What the callback for [`PlaceholderStatement`] does where it does something else
    /// than the default: how the visitor `before` and the node `node` can turn into
    /// `after` and `left`, and with which answer. A visitor that puts a callback of its
    /// own in place of the default says here what that callback does, be it that
    /// anything can happen.
    open spec fn on_placeholder_statement(
        before: Self,
        node: PlaceholderStatement,
        after: Self,
        left: PlaceholderStatement,
        answer: Result<Step, VisitError>,
    ) -> bool {
        false
    }

    /// Called for each [`PlaceholderStatement`] that the walk reaches.
    fn visit_placeholder_statement(
        &mut self,
        node: &mut PlaceholderStatement,
    ) -> (r: Result<Step, VisitError>)
        ensures
            final(self).shared() == old(self).shared(),
            old(self).inert() ==> untouched(r, *old(self), *final(self), *old(node), *final(node)),
            untouched(r, *old(self), *final(self), *old(node), *final(node))
                || Self::on_placeholder_statement(
                    *old(self),
                    *old(node),
                    *final(self),
                    *final(node),
                    r,
                ),
        default_ensures
            untouched(r, *old(self), *final(self), *old(node), *final(node)),
    {
        Ok(Step::Descend)
    }

    /// What the callback for [`InlineAssembly`] does where it does something else than
    /// the default: how the visitor `before` and the node `node` can turn into `after`
    /// and `left`, and with which answer. A visitor that puts a callback of its own in
    /// place of the default says here what that callback does, be it that anything can
    /// happen.
    open spec fn on_inline_assembly(
        before: Self,
        node: InlineAssembly,
        after: Self,
        left: InlineAssembly,
        answer: Result<Step, VisitError>,
    ) -> bool {
        false
    }

    /// Called for each [`InlineAssembly`] that the walk reaches.
    fn visit_inline_assembly(&mut self, node: &mut InlineAssembly) -> (r: Result<Step, VisitError>)
        ensures
            final(node).depth() <= old(node).depth(),
            final(self).shared() == old(self).shared(),
            old(self).inert() ==> untouched(r, *old(self), *final(self), *old(node), *final(node)),
            untouched(r, *old(self), *final(self), *old(node), *final(node))
                || Self::on_inline_assembly(*old(self), *old(node), *final(self), *final(node), r),
        default_ensures
            untouched(r, *old(self), *final(self), *old(node), *final(node)),
    {
        Ok(Step::Descend)
    }

    /// What the callback for [`IfStatement`] does where it does something else than the
    /// default: how the visitor `before` and the node `node` can turn into `after` and
    /// `left`, and with which answer. A visitor that puts a callback of its own in
    /// place of the default says here what that callback does, be it that anything can
    /// happen.
    open spec fn on_if_statement(
        before: Self,
        node: IfStatement,
        after: Self,
        left: IfStatement,
        answer: Result<Step, VisitError>,
    ) -> bool {
        false
    }

    /// Called for each [`IfStatement`] that the walk reaches.
    fn visit_if_statement(&mut self, node: &mut IfStatement) -> (r: Result<Step, VisitError>)
        ensures
            final(node).depth() <= old(node).depth(),
            final(self).shared() == old(self).shared(),
            old(self).inert() ==> untouched(r, *old(self), *final(self), *old(node), *final(node)),
            untouched(r, *old(self), *final(self), *old(node), *final(node))
                || Self::on_if_statement(*old(self), *old(node), *final(self), *final(node), r),
        default_ensures
            untouched(r, *old(self), *final(self), *old(node), *final(node)),
    {
        Ok(Step::Descend)
    }

    /// What the callback for [`ForStatement`] does where it does something else than
    /// the default: how the visitor `before` and the node `node` can turn into `after`
    /// and `left`, and with which answer. A visitor that puts a callback of its own in
    /// place of the default says here what that callback does, be it that anything can
    /// happen.
    open spec fn on_for_statement(
        before: Self,
        node: ForStatement,
        after: Self,
        left: ForStatement,
        answer: Result<Step, VisitError>,
    ) -> bool {
        false
    }

    /// Called for each [`ForStatement`] that the walk reaches.
    fn visit_for_statement(&mut self, node: &mut ForStatement) -> (r: Result<Step, VisitError>)
        ensures
            final(node).depth() <= old(node).depth(),
            final(self).shared() == old(self).shared(),
            old(self).inert() ==> untouched(r, *old(self), *final(self), *old(node), *final(node)),
            untouched(r, *old(self), *final(self), *old(node), *final(node))
                || Self::on_for_statement(*old(self), *old(node), *final(self), *final(node), r),
        default_ensures
            untouched(r, *old(self), *final(self), *old(node), *final(node)),
    {
        Ok(Step::Descend)
    }

    /// What the callback for [`ExpressionStatement`] does where it does something else
    /// than the default: how the visitor `before` and the node `node` can turn into
    /// `after` and `left`, and with which answer. A visitor that puts a callback of its
    /// own in place of the default says here what that callback does, be it that
    /// anything can happen.
    open spec fn on_expression_statement(
        before: Self,
        node: ExpressionStatement,
        after: Self,
        left: ExpressionStatement,
        answer: Result<Step, VisitError>,
    ) -> bool {
        false
    }

    /// Called for each [`ExpressionStatement`] that the walk reaches.
    fn visit_expression_statement(
        &mut self,
        node: &mut ExpressionStatement,
    ) -> (r: Result<Step, VisitError>)
        ensures
            final(node).depth() <= old(node).depth(),
            final(self).shared() == old(self).shared(),
            old(self).inert() ==> untouched(r, *old(self), *final(self), *old(node), *final(node)),
            untouched(r, *old(self), *final(self), *old(node), *final(node))
                || Self::on_expression_statement(
                    *old(self),
                    *old(node),
                    *final(self),
                    *final(node),
                    r,
                ),
        default_ensures
            untouched(r, *old(self), *final(self), *old(node), *final(node)),
    {
        Ok(Step::Descend)
    }

    /// What the callback for [`EmitStatement`] does where it does something else than
    /// the default: how the visitor `before` and the node `node` can turn into `after`
    /// and `left`, and with which answer. A visitor that puts a callback of its own in
    /// place of the default says here what that callback does, be it that anything can
    /// happen.
    open spec fn on_emit_statement(
        before: Self,
        node: EmitStatement,
        after: Self,
        left: EmitStatement,
        answer: Result<Step, VisitError>,
    ) -> bool {
        false
    }

    /// Called for each [`EmitStatement`] that the walk reaches.
    fn visit_emit_statement(&mut self, node: &mut EmitStatement) -> (r: Result<Step, VisitError>)
        ensures
            final(node).depth() <= old(node).depth(),
            final(self).shared() == old(self).shared(),
            old(self).inert() ==> untouched(r, *old(self), *final(self), *old(node), *final(node)),
            untouched(r, *old(self), *final(self), *old(node), *final(node))
                || Self::on_emit_statement(*old(self), *old(node), *final(self), *final(node), r),
        default_ensures
            untouched(r, *old(self), *final(self), *old(node), *final(node)),
    {
        Ok(Step::Descend)
    }

    /// What the callback for [`DoWhileStatement`] does where it does something else
    /// than the default: how the visitor `before` and the node `node` can turn into
    /// `after` and `left`, and with which answer. A visitor that puts a callback of its
    /// own in place of the default says here what that callback does, be it that
    /// anything can happen.
    open spec fn on_do_while_statement(
        before: Self,
        node: DoWhileStatement,
        after: Self,
        left: DoWhileStatement,
        answer: Result<Step, VisitError>,
    ) -> bool {
        false
    }

    /// Called for each [`DoWhileStatement`] that the walk reaches.
    fn visit_do_while_statement(
        &mut self,
        node: &mut DoWhileStatement,
    ) -> (r: Result<Step, VisitError>)
        ensures
            final(node).depth() <= old(node).depth(),
            final(self).shared() == old(self).shared(),
            old(self).inert() ==> untouched(r, *old(self), *final(self), *old(node), *final(node)),
            untouched(r, *old(self), *final(self), *old(node), *final(node))
                || Self::on_do_while_statement(
                    *old(self),
                    *old(node),
                    *final(self),
                    *final(node),
                    r,
                ),
        default_ensures
            untouched(r, *old(self), *final(self), *old(node), *final(node)),
    {
        Ok(Step::Descend)
    }

    /// What the callback for [`Continue`] does where it does something else than the
    /// default: how the visitor `before` and the node `node` can turn into `after` and
    /// `left`, and with which answer. A visitor that puts a callback of its own in
    /// place of the default says here what that callback does, be it that anything can
    /// happen.
    open spec fn on_continue(
        before: Self,
        node: Continue,
        after: Self,
        left: Continue,
        answer: Result<Step, VisitError>,
    ) -> bool {
        false
    }

    /// Called for each [`Continue`] that the walk reaches.
    fn visit_continue(&mut self, node: &mut Continue) -> (r: Result<Step, VisitError>)
        ensures
            final(self).shared() == old(self).shared(),
            old(self).inert() ==> untouched(r, *old(self), *final(self), *old(node), *final(node)),
            untouched(r, *old(self), *final(self), *old(node), *final(node))
                || Self::on_continue(*old(self), *old(node), *final(self), *final(node), r),
        default_ensures
            untouched(r, *old(self), *final(self), *old(node), *final(node)),
    {
        Ok(Step::Descend)
    }

    /// What the callback for [`Break`] does where it does something else than the
    /// default: how the visitor `before` and the node `node` can turn into `after` and
    /// `left`, and with which answer. A visitor that puts a callback of its own in
    /// place of the default says here what that callback does, be it that anything can
    /// happen.
    open spec fn on_break(
        before: Self,
        node: Break,
        after: Self,
        left: Break,
        answer: Result<Step, VisitError>,
    ) -> bool {
        false
    }

    /// Called for each [`Break`] that the walk reaches.
    fn visit_break(&mut self, node: &mut Break) -> (r: Result<Step, VisitError>)
        ensures
            final(self).shared() == old(self).shared(),
            old(self).inert() ==> untouched(r, *old(self), *final(self), *old(node), *final(node)),
            untouched(r, *old(self), *final(self), *old(node), *final(node))
                || Self::on_break(*old(self), *old(node), *final(self), *final(node), r),
        default_ensures
            untouched(r, *old(self), *final(self), *old(node), *final(node)),
    {
        Ok(Step::Descend)
    }

    /// What the callback for [`Block`] does where it does something else than the
    /// default: how the visitor `before` and the node `node` can turn into `after` and
    /// `left`, and with which answer. A visitor that puts a callback of its own in
    /// place of the default says here what that callback does, be it that anything can
    /// happen.
    open spec fn on_block(
        before: Self,
        node: Block,
        after: Self,
        left: Block,
        answer: Result<Step, VisitError>,
    ) -> bool {
        false
    }

    /// Called for each [`Block`] that the walk reaches.
    fn visit_block(&mut self, node: &mut Block) -> (r: Result<Step, VisitError>)
        ensures
            final(node).depth() <= old(node).depth(),
            final(self).shared() == old(self).shared(),
            old(self).inert() ==> untouched(r, *old(self), *final(self), *old(node), *final(node)),
            untouched(r, *old(self), *final(self), *old(node), *final(node))
                || Self::on_block(*old(self), *old(node), *final(self), *final(node), r),
        default_ensures
            untouched(r, *old(self), *final(self), *old(node), *final(node)),
    {
        Ok(Step::Descend)
    }

    /// What the callback for [`Return`] does where it does something else than the
    /// default: how the visitor `before` and the node `node` can turn into `after` and
    /// `left`, and with which answer. A visitor that puts a callback of its own in
    /// place of the default says here what that callback does, be it that anything can
    /// happen.
    open spec fn on_return(
        before: Self,
        node: Return,
        after: Self,
        left: Return,
        answer: Result<Step, VisitError>,
    ) -> bool {
        false
    }

    /// Called for each [`Return`] that the walk reaches.
    fn visit_return(&mut self, node: &mut Return) -> (r: Result<Step, VisitError>)
        ensures
            final(node).depth() <= old(node).depth(),
            final(self).shared() == old(self).shared(),
            old(self).inert() ==> untouched(r, *old(self), *final(self), *old(node), *final(node)),
            untouched(r, *old(self), *final(self), *old(node), *final(node))
                || Self::on_return(*old(self), *old(node), *final(self), *final(node), r),
        default_ensures
            untouched(r, *old(self), *final(self), *old(node), *final(node)),
    {
        Ok(Step::Descend)
    }

    /// What the callback for [`RevertStatement`] does where it does something else than
    /// the default: how the visitor `before` and the node `node` can turn into `after`
    /// and `left`, and with which answer. A visitor that puts a callback of its own in
    /// place of the default says here what that callback does, be it that anything can
    /// happen.
    open spec fn on_revert_statement(
        before: Self,
        node: RevertStatement,
        after: Self,
        left: RevertStatement,
        answer: Result<Step, VisitError>,
    ) -> bool {
        false
    }

    /// Called for each [`RevertStatement`] that the walk reaches.
    fn visit_revert_statement(
        &mut self,
        node: &mut RevertStatement,
    ) -> (r: Result<Step, VisitError>)
        ensures
            final(node).depth() <= old(node).depth(),
            final(self).shared() == old(self).shared(),
            old(self).inert() ==> untouched(r, *old(self), *final(self), *old(node), *final(node)),
            untouched(r, *old(self), *final(self), *old(node), *final(node))
                || Self::on_revert_statement(*old(self), *old(node), *final(self), *final(node), r),
        default_ensures
            untouched(r, *old(self), *final(self), *old(node), *final(node)),
    {
        Ok(Step::Descend)
    }

    /// What the callback for [`TryStatement`] does where it does something else than
    /// the default: how the visitor `before` and the node `node` can turn into `after`
    /// and `left`, and with which answer. A visitor that puts a callback of its own in
    /// place of the default says here what that callback does, be it that anything can
    /// happen.
    open spec fn on_try_statement(
        before: Self,
        node: TryStatement,
        after: Self,
        left: TryStatement,
        answer: Result<Step, VisitError>,
    ) -> bool {
        false
    }

    /// Called for each [`TryStatement`] that the walk reaches.
    fn visit_try_statement(&mut self, node: &mut TryStatement) -> (r: Result<Step, VisitError>)
        ensures
            final(node).depth() <= old(node).depth(),
            final(self).shared() == old(self).shared(),
            old(self).inert() ==> untouched(r, *old(self), *final(self), *old(node), *final(node)),
            untouched(r, *old(self), *final(self), *old(node), *final(node))
                || Self::on_try_statement(*old(self), *old(node), *final(self), *final(node), r),
        default_ensures
            untouched(r, *old(self), *final(self), *old(node), *final(node)),
    {
        Ok(Step::Descend)
    }

    /// What the callback for [`UncheckedBlock`] does where it does something else than
    /// the default: how the visitor `before` and the node `node` can turn into `after`
    /// and `left`, and with which answer. A visitor that puts a callback of its own in
    /// place of the default says here what that callback does, be it that anything can
    /// happen.
    open spec fn on_unchecked_block(
        before: Self,
        node: UncheckedBlock,
        after: Self,
        left: UncheckedBlock,
        answer: Result<Step, VisitError>,
    ) -> bool {
        false
    }

    /// Called for each [`UncheckedBlock`] that the walk reaches.
    fn visit_unchecked_block(&mut self, node: &mut UncheckedBlock) -> (r: Result<Step, VisitError>)
        ensures
            final(node).depth() <= old(node).depth(),
            final(self).shared() == old(self).shared(),
            old(self).inert() ==> untouched(r, *old(self), *final(self), *old(node), *final(node)),
            untouched(r, *old(self), *final(self), *old(node), *final(node))
                || Self::on_unchecked_block(*old(self), *old(node), *final(self), *final(node), r),
        default_ensures
            untouched(r, *old(self), *final(self), *old(node), *final(node)),
    {
        Ok(Step::Descend)
    }

    /// What the callback for [`VariableDeclarationStatement`] does where it does
    /// something else than the default: how the visitor `before` and the node `node`
    /// can turn into `after` and `left`, and with which answer. A visitor that puts a
    /// callback of its own in place of the default says here what that callback does,
    /// be it that anything can happen.
    open spec fn on_variable_declaration_statement(
        before: Self,
        node: VariableDeclarationStatement,
        after: Self,
        left: VariableDeclarationStatement,
        answer: Result<Step, VisitError>,
    ) -> bool {
        false
    }

    /// Called for each [`VariableDeclarationStatement`] that the walk reaches.
    fn visit_variable_declaration_statement(
        &mut self,
        node: &mut VariableDeclarationStatement,
    ) -> (r: Result<Step, VisitError>)
        ensures
            final(node).depth() <= old(node).depth(),
            final(self).shared() == old(self).shared(),
            old(self).inert() ==> untouched(r, *old(self), *final(self), *old(node), *final(node)),
            untouched(r, *old(self), *final(self), *old(node), *final(node))
                || Self::on_variable_declaration_statement(
                    *old(self),
                    *old(node),
                    *final(self),
                    *final(node),
                    r,
                ),
        default_ensures
            untouched(r, *old(self), *final(self), *old(node), *final(node)),
    {
        Ok(Step::Descend)
    }

    /// What the callback for [`WhileStatement`] does where it does something else than
    /// the default: how the visitor `before` and the node `node` can turn into `after`
    /// and `left`, and with which answer. A visitor that puts a callback of its own in
    /// place of the default says here what that callback does, be it that anything can
    /// happen.
    open spec fn on_while_statement(
        before: Self,
        node: WhileStatement,
        after: Self,
        left: WhileStatement,
        answer: Result<Step, VisitError>,
    ) -> bool {
        false
    }

    /// Called for each [`WhileStatement`] that the walk reaches.
    fn visit_while_statement(&mut self, node: &mut WhileStatement) -> (r: Result<Step, VisitError>)
        ensures
            final(node).depth() <= old(node).depth(),
            final(self).shared() == old(self).shared(),
            old(self).inert() ==> untouched(r, *old(self), *final(self), *old(node), *final(node)),
            untouched(r, *old(self), *final(self), *old(node), *final(node))
                || Self::on_while_statement(*old(self), *old(node), *final(self), *final(node), r),
        default_ensures
            untouched(r, *old(self), *final(self), *old(node), *final(node)),
    {
        Ok(Step::Descend)
    }

    /// What the callback for [`IdentifierPath`] does where it does something else than
    /// the default: how the visitor `before` and the node `node` can turn into `after`
    /// and `left`, and with which answer. A visitor that puts a callback of its own in
    /// place of the default says here what that callback does, be it that anything can
    /// happen.
    open spec fn on_identifier_path(
        before: Self,
        node: IdentifierPath,
        after: Self,
        left: IdentifierPath,
        answer: Result<Step, VisitError>,
    ) -> bool {
        false
    }

    /// Called for each [`IdentifierPath`] that the walk reaches.
    fn visit_identifier_path(&mut self, node: &mut IdentifierPath) -> (r: Result<Step, VisitError>)
        ensures
            final(self).shared() == old(self).shared(),
            old(self).inert() ==> untouched(r, *old(self), *final(self), *old(node), *final(node)),
            untouched(r, *old(self), *final(self), *old(node), *final(node))
                || Self::on_identifier_path(*old(self), *old(node), *final(self), *final(node), r),
        default_ensures
            untouched(r, *old(self), *final(self), *old(node), *final(node)),
    {
        Ok(Step::Descend)
    }

    /// What the callback for [`YulAssignment`] does where it does something else than
    /// the default: how the visitor `before` and the node `node` can turn into `after`
    /// and `left`, and with which answer. A visitor that puts a callback of its own in
    /// place of the default says here what that callback does, be it that anything can
    /// happen.
    open spec fn on_yul_assignment(
        before: Self,
        node: YulAssignment,
        after: Self,
        left: YulAssignment,
        answer: Result<Step, VisitError>,
    ) -> bool {
        false
    }

    /// Called for each [`YulAssignment`] that the walk reaches.
    fn visit_yul_assignment(&mut self, node: &mut YulAssignment) -> (r: Result<Step, VisitError>)
        ensures
            final(node).depth() <= old(node).depth(),
            final(self).shared() == old(self).shared(),
            old(self).inert() ==> untouched(r, *old(self), *final(self), *old(node), *final(node)),
            untouched(r, *old(self), *final(self), *old(node), *final(node))
                || Self::on_yul_assignment(*old(self), *old(node), *final(self), *final(node), r),
        default_ensures
            untouched(r, *old(self), *final(self), *old(node), *final(node)),
    {
        Ok(Step::Descend)
    }

    /// What the callback for [`YulBlock`] does where it does something else than the
    /// default: how the visitor `before` and the node `node` can turn into `after` and
    /// `left`, and with which answer. A visitor that puts a callback of its own in
    /// place of the default says here what that callback does, be it that anything can
    /// happen.
    open spec fn on_yul_block(
        before: Self,
        node: YulBlock,
        after: Self,
        left: YulBlock,
        answer: Result<Step, VisitError>,
    ) -> bool {
        false
    }

    /// Called for each [`YulBlock`] that the walk reaches.
    fn visit_yul_block(&mut self, node: &mut YulBlock) -> (r: Result<Step, VisitError>)
        ensures
            final(node).depth() <= old(node).depth(),
            final(self).shared() == old(self).shared(),
            old(self).inert() ==> untouched(r, *old(self), *final(self), *old(node), *final(node)),
            untouched(r, *old(self), *final(self), *old(node), *final(node))
                || Self::on_yul_block(*old(self), *old(node), *final(self), *final(node), r),
        default_ensures
            untouched(r, *old(self), *final(self), *old(node), *final(node)),
    {
        Ok(Step::Descend)
    }

    /// What the callback for [`YulBreak`] does where it does something else than the
    /// default: how the visitor `before` and the node `node` can turn into `after` and
    /// `left`, and with which answer. A visitor that puts a callback of its own in
    /// place of the default says here what that callback does, be it that anything can
    /// happen.
    open spec fn on_yul_break(
        before: Self,
        node: YulBreak,
        after: Self,
        left: YulBreak,
        answer: Result<Step, VisitError>,
    ) -> bool {
        false
    }

    /// Called for each [`YulBreak`] that the walk reaches.
    fn visit_yul_break(&mut self, node: &mut YulBreak) -> (r: Result<Step, VisitError>)
        ensures
            final(self).shared() == old(self).shared(),
            old(self).inert() ==> untouched(r, *old(self), *final(self), *old(node), *final(node)),
            untouched(r, *old(self), *final(self), *old(node), *final(node))
                || Self::on_yul_break(*old(self), *old(node), *final(self), *final(node), r),
        default_ensures
            untouched(r, *old(self), *final(self), *old(node), *final(node)),
    {
        Ok(Step::Descend)
    }

    /// What the callback for [`YulContinue`] does where it does something else than the
    /// default: how the visitor `before` and the node `node` can turn into `after` and
    /// `left`, and with which answer. A visitor that puts a callback of its own in
    /// place of the default says here what that callback does, be it that anything can
    /// happen.
    open spec fn on_yul_continue(
        before: Self,
        node: YulContinue,
        after: Self,
        left: YulContinue,
        answer: Result<Step, VisitError>,
    ) -> bool {
        false
    }

    /// Called for each [`YulContinue`] that the walk reaches.
    fn visit_yul_continue(&mut self, node: &mut YulContinue) -> (r: Result<Step, VisitError>)
        ensures
            final(self).shared() == old(self).shared(),
            old(self).inert() ==> untouched(r, *old(self), *final(self), *old(node), *final(node)),
            untouched(r, *old(self), *final(self), *old(node), *final(node))
                || Self::on_yul_continue(*old(self), *old(node), *final(self), *final(node), r),
        default_ensures
            untouched(r, *old(self), *final(self), *old(node), *final(node)),
    {
        Ok(Step::Descend)
    }

    /// What the callback for [`YulExpressionStatement`] does where it does something
    /// else than the default: how the visitor `before` and the node `node` can turn
    /// into `after` and `left`, and with which answer. A visitor that puts a callback
    /// of its own in place of the default says here what that callback does, be it that
    /// anything can happen.
    open spec fn on_yul_expression_statement(
        before: Self,
        node: YulExpressionStatement,
        after: Self,
        left: YulExpressionStatement,
        answer: Result<Step, VisitError>,
    ) -> bool {
        false
    }

    /// Called for each [`YulExpressionStatement`] that the walk reaches.
    fn visit_yul_expression_statement(
        &mut self,
        node: &mut YulExpressionStatement,
    ) -> (r: Result<Step, VisitError>)
        ensures
            final(self).shared() == old(self).shared(),
            old(self).inert() ==> untouched(r, *old(self), *final(self), *old(node), *final(node)),
            untouched(r, *old(self), *final(self), *old(node), *final(node))
                || Self::on_yul_expression_statement(
                    *old(self),
                    *old(node),
                    *final(self),
                    *final(node),
                    r,
                ),
        default_ensures
            untouched(r, *old(self), *final(self), *old(node), *final(node)),
    {
        Ok(Step::Descend)
    }

    /// What the callback for [`YulFunctionDefinition`] does where it does something
    /// else than the default: how the visitor `before` and the node `node` can turn
    /// into `after` and `left`, and with which answer. A visitor that puts a callback
    /// of its own in place of the default says here what that callback does, be it that
    /// anything can happen.
    open spec fn on_yul_function_definition(
        before: Self,
        node: YulFunctionDefinition,
        after: Self,
        left: YulFunctionDefinition,
        answer: Result<Step, VisitError>,
    ) -> bool {
        false
    }

    /// Called for each [`YulFunctionDefinition`] that the walk reaches.
    fn visit_yul_function_definition(
        &mut self,
        node: &mut YulFunctionDefinition,
    ) -> (r: Result<Step, VisitError>)
        ensures
            final(self).shared() == old(self).shared(),
            old(self).inert() ==> untouched(r, *old(self), *final(self), *old(node), *final(node)),
            untouched(r, *old(self), *final(self), *old(node), *final(node))
                || Self::on_yul_function_definition(
                    *old(self),
                    *old(node),
                    *final(self),
                    *final(node),
                    r,
                ),
        default_ensures
            untouched(r, *old(self), *final(self), *old(node), *final(node)),
    {
        Ok(Step::Descend)
    }

    /// What the callback for [`YulForLoop`] does where it does something else than the
    /// default: how the visitor `before` and the node `node` can turn into `after` and
    /// `left`, and with which answer. A visitor that puts a callback of its own in
    /// place of the default says here what that callback does, be it that anything can
    /// happen.
    open spec fn on_yul_for_loop(
        before: Self,
        node: YulForLoop,
        after: Self,
        left: YulForLoop,
        answer: Result<Step, VisitError>,
    ) -> bool {
        false
    }

    /// Called for each [`YulForLoop`] that the walk reaches.
    fn visit_yul_for_loop(&mut self, node: &mut YulForLoop) -> (r: Result<Step, VisitError>)
        ensures
            final(node).depth() <= old(node).depth(),
            final(self).shared() == old(self).shared(),
            old(self).inert() ==> untouched(r, *old(self), *final(self), *old(node), *final(node)),
            untouched(r, *old(self), *final(self), *old(node), *final(node))
                || Self::on_yul_for_loop(*old(self), *old(node), *final(self), *final(node), r),
        default_ensures
            untouched(r, *old(self), *final(self), *old(node), *final(node)),
    {
        Ok(Step::Descend)
    }

    /// What the callback for [`YulIf`] does where it does something else than the
    /// default: how the visitor `before` and the node `node` can turn into `after` and
    /// `left`, and with which answer. A visitor that puts a callback of its own in
    /// place of the default says here what that callback does, be it that anything can
    /// happen.
    open spec fn on_yul_if(
        before: Self,
        node: YulIf,
        after: Self,
        left: YulIf,
        answer: Result<Step, VisitError>,
    ) -> bool {
        false
    }

    /// Called for each [`YulIf`] that the walk reaches.
    fn visit_yul_if(&mut self, node: &mut YulIf) -> (r: Result<Step, VisitError>)
        ensures
            final(self).shared() == old(self).shared(),
            old(self).inert() ==> untouched(r, *old(self), *final(self), *old(node), *final(node)),
            untouched(r, *old(self), *final(self), *old(node), *final(node))
                || Self::on_yul_if(*old(self), *old(node), *final(self), *final(node), r),
        default_ensures
            untouched(r, *old(self), *final(self), *old(node), *final(node)),
    {
        Ok(Step::Descend)
    }

    /// What the callback for [`YulSwitch`] does where it does something else than the
    /// default: how the visitor `before` and the node `node` can turn into `after` and
    /// `left`, and with which answer. A visitor that puts a callback of its own in
    /// place of the default says here what that callback does, be it that anything can
    /// happen.
    open spec fn on_yul_switch(
        before: Self,
        node: YulSwitch,
        after: Self,
        left: YulSwitch,
        answer: Result<Step, VisitError>,
    ) -> bool {
        false
    }

    /// Called for each [`YulSwitch`] that the walk reaches.
    fn visit_yul_switch(&mut self, node: &mut YulSwitch) -> (r: Result<Step, VisitError>)
        ensures
            final(self).shared() == old(self).shared(),
            old(self).inert() ==> untouched(r, *old(self), *final(self), *old(node), *final(node)),
            untouched(r, *old(self), *final(self), *old(node), *final(node))
                || Self::on_yul_switch(*old(self), *old(node), *final(self), *final(node), r),
        default_ensures
            untouched(r, *old(self), *final(self), *old(node), *final(node)),
    {
        Ok(Step::Descend)
    }

    /// What the callback for [`YulVariableDeclaration`] does where it does something
    /// else than the default: how the visitor `before` and the node `node` can turn
    /// into `after` and `left`, and with which answer. A visitor that puts a callback
    /// of its own in place of the default says here what that callback does, be it that
    /// anything can happen.
    open spec fn on_yul_variable_declaration(
        before: Self,
        node: YulVariableDeclaration,
        after: Self,
        left: YulVariableDeclaration,
        answer: Result<Step, VisitError>,
    ) -> bool {
        false
    }

    /// Called for each [`YulVariableDeclaration`] that the walk reaches.
    fn visit_yul_variable_declaration(
        &mut self,
        node: &mut YulVariableDeclaration,
    ) -> (r: Result<Step, VisitError>)
        ensures
            final(self).shared() == old(self).shared(),
            old(self).inert() ==> untouched(r, *old(self), *final(self), *old(node), *final(node)),
            untouched(r, *old(self), *final(self), *old(node), *final(node))
                || Self::on_yul_variable_declaration(
                    *old(self),
                    *old(node),
                    *final(self),
                    *final(node),
                    r,
                ),
        default_ensures
            untouched(r, *old(self), *final(self), *old(node), *final(node)),
    {
        Ok(Step::Descend)
    }

    /// What the callback for [`YulFunctionCall`] does where it does something else than
    /// the default: how the visitor `before` and the node `node` can turn into `after`
    /// and `left`, and with which answer. A visitor that puts a callback of its own in
    /// place of the default says here what that callback does, be it that anything can
    /// happen.
    open spec fn on_yul_function_call(
        before: Self,
        node: YulFunctionCall,
        after: Self,
        left: YulFunctionCall,
        answer: Result<Step, VisitError>,
    ) -> bool {
        false
    }

    /// Called for each [`YulFunctionCall`] that the walk reaches.
    fn visit_yul_function_call(
        &mut self,
        node: &mut YulFunctionCall,
    ) -> (r: Result<Step, VisitError>)
        ensures
            final(node).depth() <= old(node).depth(),
            final(self).shared() == old(self).shared(),
            old(self).inert() ==> untouched(r, *old(self), *final(self), *old(node), *final(node)),
            untouched(r, *old(self), *final(self), *old(node), *final(node))
                || Self::on_yul_function_call(
                    *old(self),
                    *old(node),
                    *final(self),
                    *final(node),
                    r,
                ),
        default_ensures
            untouched(r, *old(self), *final(self), *old(node), *final(node)),
    {
        Ok(Step::Descend)
    }

    /// What the callback for [`YulIdentifier`] does where it does something else than
    /// the default: how the visitor `before` and the node `node` can turn into `after`
    /// and `left`, and with which answer. A visitor that puts a callback of its own in
    /// place of the default says here what that callback does, be it that anything can
    /// happen.
    open spec fn on_yul_identifier(
        before: Self,
        node: YulIdentifier,
        after: Self,
        left: YulIdentifier,
        answer: Result<Step, VisitError>,
    ) -> bool {
        false
    }

    /// Called for each [`YulIdentifier`] that the walk reaches.
    fn visit_yul_identifier(&mut self, node: &mut YulIdentifier) -> (r: Result<Step, VisitError>)
        ensures
            final(self).shared() == old(self).shared(),
            old(self).inert() ==> untouched(r, *old(self), *final(self), *old(node), *final(node)),
            untouched(r, *old(self), *final(self), *old(node), *final(node))
                || Self::on_yul_identifier(*old(self), *old(node), *final(self), *final(node), r),
        default_ensures
            untouched(r, *old(self), *final(self), *old(node), *final(node)),
    {
        Ok(Step::Descend)
    }

    /// What the callback for [`YulLiteral`] does where it does something else than the
    /// default: how the visitor `before` and the node `node` can turn into `after` and
    /// `left`, and with which answer. A visitor that puts a callback of its own in
    /// place of the default says here what that callback does, be it that anything can
    /// happen.
    open spec fn on_yul_literal(
        before: Self,
        node: YulLiteral,
        after: Self,
        left: YulLiteral,
        answer: Result<Step, VisitError>,
    ) -> bool {
        false
    }

    /// Called for each [`YulLiteral`] that the walk reaches.
    fn visit_yul_literal(&mut self, node: &mut YulLiteral) -> (r: Result<Step, VisitError>)
        ensures
            final(self).shared() == old(self).shared(),
            old(self).inert() ==> untouched(r, *old(self), *final(self), *old(node), *final(node)),
            untouched(r, *old(self), *final(self), *old(node), *final(node))
                || Self::on_yul_literal(*old(self), *old(node), *final(self), *final(node), r),
        default_ensures
            untouched(r, *old(self), *final(self), *old(node), *final(node)),
    {
        Ok(Step::Descend)
    }

    /// What the callback for [`YulLeave`] does where it does something else than the
    /// default: how the visitor `before` and the node `node` can turn into `after` and
    /// `left`, and with which answer. A visitor that puts a callback of its own in
    /// place of the default says here what that callback does, be it that anything can
    /// happen.
    open spec fn on_yul_leave(
        before: Self,
        node: YulLeave,
        after: Self,
        left: YulLeave,
        answer: Result<Step, VisitError>,
    ) -> bool {
        false
    }

    /// Called for each [`YulLeave`] that the walk reaches.
    fn visit_yul_leave(&mut self, node: &mut YulLeave) -> (r: Result<Step, VisitError>)
        ensures
            final(self).shared() == old(self).shared(),
            old(self).inert() ==> untouched(r, *old(self), *final(self), *old(node), *final(node)),
            untouched(r, *old(self), *final(self), *old(node), *final(node))
                || Self::on_yul_leave(*old(self), *old(node), *final(self), *final(node), r),
        default_ensures
            untouched(r, *old(self), *final(self), *old(node), *final(node)),
    {
        Ok(Step::Descend)
    }
}

/// A node of one of the kinds that the walk hands to a callback, as the callback gets
/// it.
pub enum Node {
    SourceUnit(SourceUnit),
    PragmaDirective(PragmaDirective),
    ImportDirective(ImportDirective),
    UsingForDirective(UsingForDirective),
    VariableDeclaration(VariableDeclaration),
    BinaryOperation(BinaryOperation),
    Conditional(Conditional),
    ElementaryTypeName(ElementaryTypeName),
    ElementaryTypeNameExpression(ElementaryTypeNameExpression),
    FunctionCall(FunctionCall),
    UnaryOperation(UnaryOperation),
    TupleExpression(TupleExpression),
    NewExpression(NewExpression),
    MemberAccess(MemberAccess),
    Literal(Literal),
    IndexRangeAccess(IndexRangeAccess),
    IndexAccess(IndexAccess),
    Identifier(Identifier),
    FunctionCallOptions(FunctionCallOptions),
    EnumDefinition(EnumDefinition),
    EventDefinition(EventDefinition),
    ModifierDefinition(ModifierDefinition),
    ErrorDefinition(ErrorDefinition),
    FunctionDefinition(FunctionDefinition),
    StructDefinition(StructDefinition),
    ContractDefinition(ContractDefinition),
    UserDefinedValueTypeDefinition(UserDefinedValueTypeDefinition),
    UserDefinedTypeName(UserDefinedTypeName),
    Mapping(Mapping),
    FunctionTypeName(FunctionTypeName),
    ArrayTypeName(ArrayTypeName),
    Assignment(Assignment),
    PlaceholderStatement(PlaceholderStatement),
    InlineAssembly(InlineAssembly),
    IfStatement(IfStatement),
    ForStatement(ForStatement),
    ExpressionStatement(ExpressionStatement),
    EmitStatement(EmitStatement),
    DoWhileStatement(DoWhileStatement),
    Continue(Continue),
    Break(Break),
    Block(Block),
    Return(Return),
    RevertStatement(RevertStatement),
    TryStatement(TryStatement),
    UncheckedBlock(UncheckedBlock),
    VariableDeclarationStatement(VariableDeclarationStatement),
    WhileStatement(WhileStatement),
    IdentifierPath(IdentifierPath),
    YulAssignment(YulAssignment),
    YulBlock(YulBlock),
    YulBreak(YulBreak),
    YulContinue(YulContinue),
    YulExpressionStatement(YulExpressionStatement),
    YulFunctionDefinition(YulFunctionDefinition),
    YulForLoop(YulForLoop),
    YulIf(YulIf),
    YulSwitch(YulSwitch),
    YulVariableDeclaration(YulVariableDeclaration),
    YulFunctionCall(YulFunctionCall),
    YulIdentifier(YulIdentifier),
    YulLiteral(YulLiteral),
    YulLeave(YulLeave),
}

/// The callback for the kind of `node` can be called with the visitor behind `mv` and
/// with `node`, and can then give `answer`: this is `call_ensures` of that callback.
/// What the callback leaves behind `mv` comes with `mv`.
pub open spec fn called<V: Visitor<D>, D>(
    node: Node,
    mv: &mut V,
    answer: Result<Step, VisitError>,
) -> bool {
    match node {
        Node::SourceUnit(n) => exists|mn: &mut SourceUnit|
            *mn == n && #[trigger] call_ensures(V::visit_source_unit, (mv, mn), answer),
        Node::PragmaDirective(n) => exists|mn: &mut PragmaDirective|
            *mn == n && #[trigger] call_ensures(V::visit_pragma_directive, (mv, mn), answer),
        Node::ImportDirective(n) => exists|mn: &mut ImportDirective|
            *mn == n && #[trigger] call_ensures(V::visit_import_directive, (mv, mn), answer),
        Node::UsingForDirective(n) => exists|mn: &mut UsingForDirective|
            *mn == n && #[trigger] call_ensures(V::visit_using_for_directive, (mv, mn), answer),
        Node::VariableDeclaration(n) => exists|mn: &mut VariableDeclaration|
            *mn == n && #[trigger] call_ensures(V::visit_variable_declaration, (mv, mn), answer),
        Node::BinaryOperation(n) => exists|mn: &mut BinaryOperation|
            *mn == n && #[trigger] call_ensures(V::visit_binary_operation, (mv, mn), answer),
        Node::Conditional(n) => exists|mn: &mut Conditional|
            *mn == n && #[trigger] call_ensures(V::visit_conditional, (mv, mn), answer),
        Node::ElementaryTypeName(n) => exists|mn: &mut ElementaryTypeName|
            *mn == n && #[trigger] call_ensures(V::visit_elementary_type_name, (mv, mn), answer),
        Node::ElementaryTypeNameExpression(n) => exists|mn: &mut ElementaryTypeNameExpression|
            *mn == n && #[trigger] call_ensures(
                V::visit_elementary_type_name_expression,
                (mv, mn),
                answer,
            ),
        Node::FunctionCall(n) => exists|mn: &mut FunctionCall|
            *mn == n && #[trigger] call_ensures(V::visit_function_call, (mv, mn), answer),
        Node::UnaryOperation(n) => exists|mn: &mut UnaryOperation|
            *mn == n && #[trigger] call_ensures(V::visit_unary_operation, (mv, mn), answer),
        Node::TupleExpression(n) => exists|mn: &mut TupleExpression|
            *mn == n && #[trigger] call_ensures(V::visit_tuple_expression, (mv, mn), answer),
        Node::NewExpression(n) => exists|mn: &mut NewExpression|
            *mn == n && #[trigger] call_ensures(V::visit_new_expression, (mv, mn), answer),
        Node::MemberAccess(n) => exists|mn: &mut MemberAccess|
            *mn == n && #[trigger] call_ensures(V::visit_member_access, (mv, mn), answer),
        Node::Literal(n) => exists|mn: &mut Literal|
            *mn == n && #[trigger] call_ensures(V::visit_literal, (mv, mn), answer),
        Node::IndexRangeAccess(n) => exists|mn: &mut IndexRangeAccess|
            *mn == n && #[trigger] call_ensures(V::visit_index_range_access, (mv, mn), answer),
        Node::IndexAccess(n) => exists|mn: &mut IndexAccess|
            *mn == n && #[trigger] call_ensures(V::visit_index_access, (mv, mn), answer),
        Node::Identifier(n) => exists|mn: &mut Identifier|
            *mn == n && #[trigger] call_ensures(V::visit_identifier, (mv, mn), answer),
        Node::FunctionCallOptions(n) => exists|mn: &mut FunctionCallOptions|
            *mn == n && #[trigger] call_ensures(V::visit_function_call_options, (mv, mn), answer),
        Node::EnumDefinition(n) => exists|mn: &mut EnumDefinition|
            *mn == n && #[trigger] call_ensures(V::visit_enum_definition, (mv, mn), answer),
        Node::EventDefinition(n) => exists|mn: &mut EventDefinition|
            *mn == n && #[trigger] call_ensures(V::visit_event_definition, (mv, mn), answer),
        Node::ModifierDefinition(n) => exists|mn: &mut ModifierDefinition|
            *mn == n && #[trigger] call_ensures(V::visit_modifier_definition, (mv, mn), answer),
        Node::ErrorDefinition(n) => exists|mn: &mut ErrorDefinition|
            *mn == n && #[trigger] call_ensures(V::visit_error_definition, (mv, mn), answer),
        Node::FunctionDefinition(n) => exists|mn: &mut FunctionDefinition|
            *mn == n && #[trigger] call_ensures(V::visit_function_definition, (mv, mn), answer),
        Node::StructDefinition(n) => exists|mn: &mut StructDefinition|
            *mn == n && #[trigger] call_ensures(V::visit_struct_definition, (mv, mn), answer),
        Node::ContractDefinition(n) => exists|mn: &mut ContractDefinition|
            *mn == n && #[trigger] call_ensures(V::visit_contract_definition, (mv, mn), answer),
        Node::UserDefinedValueTypeDefinition(n) => exists|mn: &mut UserDefinedValueTypeDefinition|
            *mn == n && #[trigger] call_ensures(
                V::visit_user_defined_value_type_definition,
                (mv, mn),
                answer,
            ),
        Node::UserDefinedTypeName(n) => exists|mn: &mut UserDefinedTypeName|
            *mn == n && #[trigger] call_ensures(V::visit_user_defined_type_name, (mv, mn), answer),
        Node::Mapping(n) => exists|mn: &mut Mapping|
            *mn == n && #[trigger] call_ensures(V::visit_mapping, (mv, mn), answer),
        Node::FunctionTypeName(n) => exists|mn: &mut FunctionTypeName|
            *mn == n && #[trigger] call_ensures(V::visit_function_type_name, (mv, mn), answer),
        Node::ArrayTypeName(n) => exists|mn: &mut ArrayTypeName|
            *mn == n && #[trigger] call_ensures(V::visit_array_type_name, (mv, mn), answer),
        Node::Assignment(n) => exists|mn: &mut Assignment|
            *mn == n && #[trigger] call_ensures(V::visit_assignment, (mv, mn), answer),
        Node::PlaceholderStatement(n) => exists|mn: &mut PlaceholderStatement|
            *mn == n && #[trigger] call_ensures(V::visit_placeholder_statement, (mv, mn), answer),
        Node::InlineAssembly(n) => exists|mn: &mut InlineAssembly|
            *mn == n && #[trigger] call_ensures(V::visit_inline_assembly, (mv, mn), answer),
        Node::IfStatement(n) => exists|mn: &mut IfStatement|
            *mn == n && #[trigger] call_ensures(V::visit_if_statement, (mv, mn), answer),
        Node::ForStatement(n) => exists|mn: &mut ForStatement|
            *mn == n && #[trigger] call_ensures(V::visit_for_statement, (mv, mn), answer),
        Node::ExpressionStatement(n) => exists|mn: &mut ExpressionStatement|
            *mn == n && #[trigger] call_ensures(V::visit_expression_statement, (mv, mn), answer),
        Node::EmitStatement(n) => exists|mn: &mut EmitStatement|
            *mn == n && #[trigger] call_ensures(V::visit_emit_statement, (mv, mn), answer),
        Node::DoWhileStatement(n) => exists|mn: &mut DoWhileStatement|
            *mn == n && #[trigger] call_ensures(V::visit_do_while_statement, (mv, mn), answer),
        Node::Continue(n) => exists|mn: &mut Continue|
            *mn == n && #[trigger] call_ensures(V::visit_continue, (mv, mn), answer),
        Node::Break(n) => exists|mn: &mut Break|
            *mn == n && #[trigger] call_ensures(V::visit_break, (mv, mn), answer),
        Node::Block(n) => exists|mn: &mut Block|
            *mn == n && #[trigger] call_ensures(V::visit_block, (mv, mn), answer),
        Node::Return(n) => exists|mn: &mut Return|
            *mn == n && #[trigger] call_ensures(V::visit_return, (mv, mn), answer),
        Node::RevertStatement(n) => exists|mn: &mut RevertStatement|
            *mn == n && #[trigger] call_ensures(V::visit_revert_statement, (mv, mn), answer),
        Node::TryStatement(n) => exists|mn: &mut TryStatement|
            *mn == n && #[trigger] call_ensures(V::visit_try_statement, (mv, mn), answer),
        Node::UncheckedBlock(n) => exists|mn: &mut UncheckedBlock|
            *mn == n && #[trigger] call_ensures(V::visit_unchecked_block, (mv, mn), answer),
        Node::VariableDeclarationStatement(n) => exists|mn: &mut VariableDeclarationStatement|
            *mn == n && #[trigger] call_ensures(
                V::visit_variable_declaration_statement,
                (mv, mn),
                answer,
            ),
        Node::WhileStatement(n) => exists|mn: &mut WhileStatement|
            *mn == n && #[trigger] call_ensures(V::visit_while_statement, (mv, mn), answer),
        Node::IdentifierPath(n) => exists|mn: &mut IdentifierPath|
            *mn == n && #[trigger] call_ensures(V::visit_identifier_path, (mv, mn), answer),
        Node::YulAssignment(n) => exists|mn: &mut YulAssignment|
            *mn == n && #[trigger] call_ensures(V::visit_yul_assignment, (mv, mn), answer),
        Node::YulBlock(n) => exists|mn: &mut YulBlock|
            *mn == n && #[trigger] call_ensures(V::visit_yul_block, (mv, mn), answer),
        Node::YulBreak(n) => exists|mn: &mut YulBreak|
            *mn == n && #[trigger] call_ensures(V::visit_yul_break, (mv, mn), answer),
        Node::YulContinue(n) => exists|mn: &mut YulContinue|
            *mn == n && #[trigger] call_ensures(V::visit_yul_continue, (mv, mn), answer),
        Node::YulExpressionStatement(n) => exists|mn: &mut YulExpressionStatement|
            *mn == n && #[trigger] call_ensures(
                V::visit_yul_expression_statement,
                (mv, mn),
                answer,
            ),
        Node::YulFunctionDefinition(n) => exists|mn: &mut YulFunctionDefinition|
            *mn == n && #[trigger] call_ensures(V::visit_yul_function_definition, (mv, mn), answer),
        Node::YulForLoop(n) => exists|mn: &mut YulForLoop|
            *mn == n && #[trigger] call_ensures(V::visit_yul_for_loop, (mv, mn), answer),
        Node::YulIf(n) => exists|mn: &mut YulIf|
            *mn == n && #[trigger] call_ensures(V::visit_yul_if, (mv, mn), answer),
        Node::YulSwitch(n) => exists|mn: &mut YulSwitch|
            *mn == n && #[trigger] call_ensures(V::visit_yul_switch, (mv, mn), answer),
        Node::YulVariableDeclaration(n) => exists|mn: &mut YulVariableDeclaration|
            *mn == n && #[trigger] call_ensures(
                V::visit_yul_variable_declaration,
                (mv, mn),
                answer,
            ),
        Node::YulFunctionCall(n) => exists|mn: &mut YulFunctionCall|
            *mn == n && #[trigger] call_ensures(V::visit_yul_function_call, (mv, mn), answer),
        Node::YulIdentifier(n) => exists|mn: &mut YulIdentifier|
            *mn == n && #[trigger] call_ensures(V::visit_yul_identifier, (mv, mn), answer),
        Node::YulLiteral(n) => exists|mn: &mut YulLiteral|
            *mn == n && #[trigger] call_ensures(V::visit_yul_literal, (mv, mn), answer),
        Node::YulLeave(n) => exists|mn: &mut YulLeave|
            *mn == n && #[trigger] call_ensures(V::visit_yul_leave, (mv, mn), answer),
    }
}

/// One call of a callback: the node it got, the visitor before and after it, and
/// its answer.
pub struct Call<V> {
    pub node: Node,
    pub before: V,
    pub after: V,
    pub answer: Result<Step, VisitError>,
}

/// Holds of everything: as [`between`], for the calls that a contract speaks of.
pub open spec fn picked<V>(made: spec_fn(Call<V>) -> bool) -> bool {
    true
}

/// An error that a walk returns is the answer of a callback: one of the calls in
/// `made` has answered with it.
pub open spec fn failure_was_answered<V>(
    made: spec_fn(Call<V>) -> bool,
    r: Result<(), VisitError>,
) -> bool {
    r matches Err(e) ==> exists|c: Call<V>|
        #[trigger] made(c) && c.answer == Err::<Step, VisitError>(e)
}

/// What the callback for [`SourceUnit`] can do: what the default does, or what the
/// visitor says of it in [`Visitor::on_source_unit`].
pub open spec fn source_unit_answered<V: Visitor<D>, D>(
    before: V,
    node: SourceUnit,
    after: V,
    left: SourceUnit,
    answer: Result<Step, VisitError>,
) -> bool {
    untouched(answer, before, after, node, left) || V::on_source_unit(
        before,
        node,
        after,
        left,
        answer,
    )
}

/// What the callback for [`PragmaDirective`] can do: what the default does, or what the
/// visitor says of it in [`Visitor::on_pragma_directive`].
pub open spec fn pragma_directive_answered<V: Visitor<D>, D>(
    before: V,
    node: PragmaDirective,
    after: V,
    left: PragmaDirective,
    answer: Result<Step, VisitError>,
) -> bool {
    untouched(answer, before, after, node, left) || V::on_pragma_directive(
        before,
        node,
        after,
        left,
        answer,
    )
}

/// What the callback for [`ImportDirective`] can do: what the default does, or what the
/// visitor says of it in [`Visitor::on_import_directive`].
pub open spec fn import_directive_answered<V: Visitor<D>, D>(
    before: V,
    node: ImportDirective,
    after: V,
    left: ImportDirective,
    answer: Result<Step, VisitError>,
) -> bool {
    untouched(answer, before, after, node, left) || V::on_import_directive(
        before,
        node,
        after,
        left,
        answer,
    )
}

/// What the callback for [`UsingForDirective`] can do: what the default does, or what
/// the visitor says of it in [`Visitor::on_using_for_directive`].
pub open spec fn using_for_directive_answered<V: Visitor<D>, D>(
    before: V,
    node: UsingForDirective,
    after: V,
    left: UsingForDirective,
    answer: Result<Step, VisitError>,
) -> bool {
    untouched(answer, before, after, node, left) || V::on_using_for_directive(
        before,
        node,
        after,
        left,
        answer,
    )
}

/// What the callback for [`VariableDeclaration`] can do: what the default does, or what
/// the visitor says of it in [`Visitor::on_variable_declaration`].
pub open spec fn variable_declaration_answered<V: Visitor<D>, D>(
    before: V,
    node: VariableDeclaration,
    after: V,
    left: VariableDeclaration,
    answer: Result<Step, VisitError>,
) -> bool {
    untouched(answer, before, after, node, left) || V::on_variable_declaration(
        before,
        node,
        after,
        left,
        answer,
    )
}

/// What the callback for [`BinaryOperation`] can do: what the default does, or what the
/// visitor says of it in [`Visitor::on_binary_operation`].
pub open spec fn binary_operation_answered<V: Visitor<D>, D>(
    before: V,
    node: BinaryOperation,
    after: V,
    left: BinaryOperation,
    answer: Result<Step, VisitError>,
) -> bool {
    untouched(answer, before, after, node, left) || V::on_binary_operation(
        before,
        node,
        after,
        left,
        answer,
    )
}

/// What the callback for [`Conditional`] can do: what the default does, or what the
/// visitor says of it in [`Visitor::on_conditional`].
pub open spec fn conditional_answered<V: Visitor<D>, D>(
    before: V,
    node: Conditional,
    after: V,
    left: Conditional,
    answer: Result<Step, VisitError>,
) -> bool {
    untouched(answer, before, after, node, left) || V::on_conditional(
        before,
        node,
        after,
        left,
        answer,
    )
}

/// What the callback for [`ElementaryTypeName`] can do: what the default does, or what
/// the visitor says of it in [`Visitor::on_elementary_type_name`].
pub open spec fn elementary_type_name_answered<V: Visitor<D>, D>(
    before: V,
    node: ElementaryTypeName,
    after: V,
    left: ElementaryTypeName,
    answer: Result<Step, VisitError>,
) -> bool {
    untouched(answer, before, after, node, left) || V::on_elementary_type_name(
        before,
        node,
        after,
        left,
        answer,
    )
}

/// What the callback for [`ElementaryTypeNameExpression`] can do: what the default
/// does, or what the visitor says of it in
/// [`Visitor::on_elementary_type_name_expression`].
pub open spec fn elementary_type_name_expression_answered<V: Visitor<D>, D>(
    before: V,
    node: ElementaryTypeNameExpression,
    after: V,
    left: ElementaryTypeNameExpression,
    answer: Result<Step, VisitError>,
) -> bool {
    untouched(answer, before, after, node, left) || V::on_elementary_type_name_expression(
        before,
        node,
        after,
        left,
        answer,
    )
}

/// What the callback for [`FunctionCall`] can do: what the default does, or what the
/// visitor says of it in [`Visitor::on_function_call`].
pub open spec fn function_call_answered<V: Visitor<D>, D>(
    before: V,
    node: FunctionCall,
    after: V,
    left: FunctionCall,
    answer: Result<Step, VisitError>,
) -> bool {
    untouched(answer, before, after, node, left) || V::on_function_call(
        before,
        node,
        after,
        left,
        answer,
    )
}

/// What the callback for [`UnaryOperation`] can do: what the default does, or what the
/// visitor says of it in [`Visitor::on_unary_operation`].
pub open spec fn unary_operation_answered<V: Visitor<D>, D>(
    before: V,
    node: UnaryOperation,
    after: V,
    left: UnaryOperation,
    answer: Result<Step, VisitError>,
) -> bool {
    untouched(answer, before, after, node, left) || V::on_unary_operation(
        before,
        node,
        after,
        left,
        answer,
    )
}

/// What the callback for [`TupleExpression`] can do: what the default does, or what the
/// visitor says of it in [`Visitor::on_tuple_expression`].
pub open spec fn tuple_expression_answered<V: Visitor<D>, D>(
    before: V,
    node: TupleExpression,
    after: V,
    left: TupleExpression,
    answer: Result<Step, VisitError>,
) -> bool {
    untouched(answer, before, after, node, left) || V::on_tuple_expression(
        before,
        node,
        after,
        left,
        answer,
    )
}

/// What the callback for [`NewExpression`] can do: what the default does, or what the
/// visitor says of it in [`Visitor::on_new_expression`].
pub open spec fn new_expression_answered<V: Visitor<D>, D>(
    before: V,
    node: NewExpression,
    after: V,
    left: NewExpression,
    answer: Result<Step, VisitError>,
) -> bool {
    untouched(answer, before, after, node, left) || V::on_new_expression(
        before,
        node,
        after,
        left,
        answer,
    )
}

/// What the callback for [`MemberAccess`] can do: what the default does, or what the
/// visitor says of it in [`Visitor::on_member_access`].
pub open spec fn member_access_answered<V: Visitor<D>, D>(
    before: V,
    node: MemberAccess,
    after: V,
    left: MemberAccess,
    answer: Result<Step, VisitError>,
) -> bool {
    untouched(answer, before, after, node, left) || V::on_member_access(
        before,
        node,
        after,
        left,
        answer,
    )
}

/// What the callback for [`Literal`] can do: what the default does, or what the visitor
/// says of it in [`Visitor::on_literal`].
pub open spec fn literal_answered<V: Visitor<D>, D>(
    before: V,
    node: Literal,
    after: V,
    left: Literal,
    answer: Result<Step, VisitError>,
) -> bool {
    untouched(answer, before, after, node, left) || V::on_literal(before, node, after, left, answer)
}

/// What the callback for [`IndexRangeAccess`] can do: what the default does, or what
/// the visitor says of it in [`Visitor::on_index_range_access`].
pub open spec fn index_range_access_answered<V: Visitor<D>, D>(
    before: V,
    node: IndexRangeAccess,
    after: V,
    left: IndexRangeAccess,
    answer: Result<Step, VisitError>,
) -> bool {
    untouched(answer, before, after, node, left) || V::on_index_range_access(
        before,
        node,
        after,
        left,
        answer,
    )
}

/// What the callback for [`IndexAccess`] can do: what the default does, or what the
/// visitor says of it in [`Visitor::on_index_access`].
pub open spec fn index_access_answered<V: Visitor<D>, D>(
    before: V,
    node: IndexAccess,
    after: V,
    left: IndexAccess,
    answer: Result<Step, VisitError>,
) -> bool {
    untouched(answer, before, after, node, left) || V::on_index_access(
        before,
        node,
        after,
        left,
        answer,
    )
}

/// What the callback for [`Identifier`] can do: what the default does, or what the
/// visitor says of it in [`Visitor::on_identifier`].
pub open spec fn identifier_answered<V: Visitor<D>, D>(
    before: V,
    node: Identifier,
    after: V,
    left: Identifier,
    answer: Result<Step, VisitError>,
) -> bool {
    untouched(answer, before, after, node, left) || V::on_identifier(
        before,
        node,
        after,
        left,
        answer,
    )
}

/// What the callback for [`FunctionCallOptions`] can do: what the default does, or what
/// the visitor says of it in [`Visitor::on_function_call_options`].
pub open spec fn function_call_options_answered<V: Visitor<D>, D>(
    before: V,
    node: FunctionCallOptions,
    after: V,
    left: FunctionCallOptions,
    answer: Result<Step, VisitError>,
) -> bool {
    untouched(answer, before, after, node, left) || V::on_function_call_options(
        before,
        node,
        after,
        left,
        answer,
    )
}

/// What the callback for [`EnumDefinition`] can do: what the default does, or what the
/// visitor says of it in [`Visitor::on_enum_definition`].
pub open spec fn enum_definition_answered<V: Visitor<D>, D>(
    before: V,
    node: EnumDefinition,
    after: V,
    left: EnumDefinition,
    answer: Result<Step, VisitError>,
) -> bool {
    untouched(answer, before, after, node, left) || V::on_enum_definition(
        before,
        node,
        after,
        left,
        answer,
    )
}

/// What the callback for [`EventDefinition`] can do: what the default does, or what the
/// visitor says of it in [`Visitor::on_event_definition`].
pub open spec fn event_definition_answered<V: Visitor<D>, D>(
    before: V,
    node: EventDefinition,
    after: V,
    left: EventDefinition,
    answer: Result<Step, VisitError>,
) -> bool {
    untouched(answer, before, after, node, left) || V::on_event_definition(
        before,
        node,
        after,
        left,
        answer,
    )
}

/// What the callback for [`ModifierDefinition`] can do: what the default does, or what
/// the visitor says of it in [`Visitor::on_modifier_definition`].
pub open spec fn modifier_definition_answered<V: Visitor<D>, D>(
    before: V,
    node: ModifierDefinition,
    after: V,
    left: ModifierDefinition,
    answer: Result<Step, VisitError>,
) -> bool {
    untouched(answer, before, after, node, left) || V::on_modifier_definition(
        before,
        node,
        after,
        left,
        answer,
    )
}

/// What the callback for [`ErrorDefinition`] can do: what the default does, or what the
/// visitor says of it in [`Visitor::on_error_definition`].
pub open spec fn error_definition_answered<V: Visitor<D>, D>(
    before: V,
    node: ErrorDefinition,
    after: V,
    left: ErrorDefinition,
    answer: Result<Step, VisitError>,
) -> bool {
    untouched(answer, before, after, node, left) || V::on_error_definition(
        before,
        node,
        after,
        left,
        answer,
    )
}

/// What the callback for [`FunctionDefinition`] can do: what the default does, or what
/// the visitor says of it in [`Visitor::on_function_definition`].
pub open spec fn function_definition_answered<V: Visitor<D>, D>(
    before: V,
    node: FunctionDefinition,
    after: V,
    left: FunctionDefinition,
    answer: Result<Step, VisitError>,
) -> bool {
    untouched(answer, before, after, node, left) || V::on_function_definition(
        before,
        node,
        after,
        left,
        answer,
    )
}

/// What the callback for [`StructDefinition`] can do: what the default does, or what
/// the visitor says of it in [`Visitor::on_struct_definition`].
pub open spec fn struct_definition_answered<V: Visitor<D>, D>(
    before: V,
    node: StructDefinition,
    after: V,
    left: StructDefinition,
    answer: Result<Step, VisitError>,
) -> bool {
    untouched(answer, before, after, node, left) || V::on_struct_definition(
        before,
        node,
        after,
        left,
        answer,
    )
}

/// What the callback for [`ContractDefinition`] can do: what the default does, or what
/// the visitor says of it in [`Visitor::on_contract_definition`].
pub open spec fn contract_definition_answered<V: Visitor<D>, D>(
    before: V,
    node: ContractDefinition,
    after: V,
    left: ContractDefinition,
    answer: Result<Step, VisitError>,
) -> bool {
    untouched(answer, before, after, node, left) || V::on_contract_definition(
        before,
        node,
        after,
        left,
        answer,
    )
}

/// What the callback for [`UserDefinedValueTypeDefinition`] can do: what the default
/// does, or what the visitor says of it in
/// [`Visitor::on_user_defined_value_type_definition`].
pub open spec fn user_defined_value_type_definition_answered<V: Visitor<D>, D>(
    before: V,
    node: UserDefinedValueTypeDefinition,
    after: V,
    left: UserDefinedValueTypeDefinition,
    answer: Result<Step, VisitError>,
) -> bool {
    untouched(answer, before, after, node, left) || V::on_user_defined_value_type_definition(
        before,
        node,
        after,
        left,
        answer,
    )
}

/// What the callback for [`UserDefinedTypeName`] can do: what the default does, or what
/// the visitor says of it in [`Visitor::on_user_defined_type_name`].
pub open spec fn user_defined_type_name_answered<V: Visitor<D>, D>(
    before: V,
    node: UserDefinedTypeName,
    after: V,
    left: UserDefinedTypeName,
    answer: Result<Step, VisitError>,
) -> bool {
    untouched(answer, before, after, node, left) || V::on_user_defined_type_name(
        before,
        node,
        after,
        left,
        answer,
    )
}

/// What the callback for [`Mapping`] can do: what the default does, or what the visitor
/// says of it in [`Visitor::on_mapping`].
pub open spec fn mapping_answered<V: Visitor<D>, D>(
    before: V,
    node: Mapping,
    after: V,
    left: Mapping,
    answer: Result<Step, VisitError>,
) -> bool {
    untouched(answer, before, after, node, left) || V::on_mapping(before, node, after, left, answer)
}

/// What the callback for [`FunctionTypeName`] can do: what the default does, or what
/// the visitor says of it in [`Visitor::on_function_type_name`].
pub open spec fn function_type_name_answered<V: Visitor<D>, D>(
    before: V,
    node: FunctionTypeName,
    after: V,
    left: FunctionTypeName,
    answer: Result<Step, VisitError>,
) -> bool {
    untouched(answer, before, after, node, left) || V::on_function_type_name(
        before,
        node,
        after,
        left,
        answer,
    )
}

/// What the callback for [`ArrayTypeName`] can do: what the default does, or what the
/// visitor says of it in [`Visitor::on_array_type_name`].
pub open spec fn array_type_name_answered<V: Visitor<D>, D>(
    before: V,
    node: ArrayTypeName,
    after: V,
    left: ArrayTypeName,
    answer: Result<Step, VisitError>,
) -> bool {
    untouched(answer, before, after, node, left) || V::on_array_type_name(
        before,
        node,
        after,
        left,
        answer,
    )
}

/// What the callback for [`Assignment`] can do: what the default does, or what the
/// visitor says of it in [`Visitor::on_assignment`].
pub open spec fn assignment_answered<V: Visitor<D>, D>(
    before: V,
    node: Assignment,
    after: V,
    left: Assignment,
    answer: Result<Step, VisitError>,
) -> bool {
    untouched(answer, before, after, node, left) || V::on_assignment(
        before,
        node,
        after,
        left,
        answer,
    )
}

/// What the callback for [`PlaceholderStatement`] can do: what the default does, or
/// what the visitor says of it in [`Visitor::on_placeholder_statement`].
pub open spec fn placeholder_statement_answered<V: Visitor<D>, D>(
    before: V,
    node: PlaceholderStatement,
    after: V,
    left: PlaceholderStatement,
    answer: Result<Step, VisitError>,
) -> bool {
    untouched(answer, before, after, node, left) || V::on_placeholder_statement(
        before,
        node,
        after,
        left,
        answer,
    )
}

/// What the callback for [`InlineAssembly`] can do: what the default does, or what the
/// visitor says of it in [`Visitor::on_inline_assembly`].
pub open spec fn inline_assembly_answered<V: Visitor<D>, D>(
    before: V,
    node: InlineAssembly,
    after: V,
    left: InlineAssembly,
    answer: Result<Step, VisitError>,
) -> bool {
    untouched(answer, before, after, node, left) || V::on_inline_assembly(
        before,
        node,
        after,
        left,
        answer,
    )
}

/// What the callback for [`IfStatement`] can do: what the default does, or what the
/// visitor says of it in [`Visitor::on_if_statement`].
pub open spec fn if_statement_answered<V: Visitor<D>, D>(
    before: V,
    node: IfStatement,
    after: V,
    left: IfStatement,
    answer: Result<Step, VisitError>,
) -> bool {
    untouched(answer, before, after, node, left) || V::on_if_statement(
        before,
        node,
        after,
        left,
        answer,
    )
}

/// What the callback for [`ForStatement`] can do: what the default does, or what the
/// visitor says of it in [`Visitor::on_for_statement`].
pub open spec fn for_statement_answered<V: Visitor<D>, D>(
    before: V,
    node: ForStatement,
    after: V,
    left: ForStatement,
    answer: Result<Step, VisitError>,
) -> bool {
    untouched(answer, before, after, node, left) || V::on_for_statement(
        before,
        node,
        after,
        left,
        answer,
    )
}

/// What the callback for [`ExpressionStatement`] can do: what the default does, or what
/// the visitor says of it in [`Visitor::on_expression_statement`].
pub open spec fn expression_statement_answered<V: Visitor<D>, D>(
    before: V,
    node: ExpressionStatement,
    after: V,
    left: ExpressionStatement,
    answer: Result<Step, VisitError>,
) -> bool {
    untouched(answer, before, after, node, left) || V::on_expression_statement(
        before,
        node,
        after,
        left,
        answer,
    )
}

/// What the callback for [`EmitStatement`] can do: what the default does, or what the
/// visitor says of it in [`Visitor::on_emit_statement`].
pub open spec fn emit_statement_answered<V: Visitor<D>, D>(
    before: V,
    node: EmitStatement,
    after: V,
    left: EmitStatement,
    answer: Result<Step, VisitError>,
) -> bool {
    untouched(answer, before, after, node, left) || V::on_emit_statement(
        before,
        node,
        after,
        left,
        answer,
    )
}

/// What the callback for [`DoWhileStatement`] can do: what the default does, or what
/// the visitor says of it in [`Visitor::on_do_while_statement`].
pub open spec fn do_while_statement_answered<V: Visitor<D>, D>(
    before: V,
    node: DoWhileStatement,
    after: V,
    left: DoWhileStatement,
    answer: Result<Step, VisitError>,
) -> bool {
    untouched(answer, before, after, node, left) || V::on_do_while_statement(
        before,
        node,
        after,
        left,
        answer,
    )
}

/// What the callback for [`Continue`] can do: what the default does, or what the
/// visitor says of it in [`Visitor::on_continue`].
pub open spec fn continue_answered<V: Visitor<D>, D>(
    before: V,
    node: Continue,
    after: V,
    left: Continue,
    answer: Result<Step, VisitError>,
) -> bool {
    untouched(answer, before, after, node, left) || V::on_continue(
        before,
        node,
        after,
        left,
        answer,
    )
}

/// What the callback for [`Break`] can do: what the default does, or what the visitor
/// says of it in [`Visitor::on_break`].
pub open spec fn break_answered<V: Visitor<D>, D>(
    before: V,
    node: Break,
    after: V,
    left: Break,
    answer: Result<Step, VisitError>,
) -> bool {
    untouched(answer, before, after, node, left) || V::on_break(before, node, after, left, answer)
}

/// What the callback for [`Block`] can do: what the default does, or what the visitor
/// says of it in [`Visitor::on_block`].
pub open spec fn block_answered<V: Visitor<D>, D>(
    before: V,
    node: Block,
    after: V,
    left: Block,
    answer: Result<Step, VisitError>,
) -> bool {
    untouched(answer, before, after, node, left) || V::on_block(before, node, after, left, answer)
}

/// What the callback for [`Return`] can do: what the default does, or what the visitor
/// says of it in [`Visitor::on_return`].
pub open spec fn return_answered<V: Visitor<D>, D>(
    before: V,
    node: Return,
    after: V,
    left: Return,
    answer: Result<Step, VisitError>,
) -> bool {
    untouched(answer, before, after, node, left) || V::on_return(before, node, after, left, answer)
}

/// What the callback for [`RevertStatement`] can do: what the default does, or what the
/// visitor says of it in [`Visitor::on_revert_statement`].
pub open spec fn revert_statement_answered<V: Visitor<D>, D>(
    before: V,
    node: RevertStatement,
    after: V,
    left: RevertStatement,
    answer: Result<Step, VisitError>,
) -> bool {
    untouched(answer, before, after, node, left) || V::on_revert_statement(
        before,
        node,
        after,
        left,
        answer,
    )
}

/// What the callback for [`TryStatement`] can do: what the default does, or what the
/// visitor says of it in [`Visitor::on_try_statement`].
pub open spec fn try_statement_answered<V: Visitor<D>, D>(
    before: V,
    node: TryStatement,
    after: V,
    left: TryStatement,
    answer: Result<Step, VisitError>,
) -> bool {
    untouched(answer, before, after, node, left) || V::on_try_statement(
        before,
        node,
        after,
        left,
        answer,
    )
}

/// What the callback for [`UncheckedBlock`] can do: what the default does, or what the
/// visitor says of it in [`Visitor::on_unchecked_block`].
pub open spec fn unchecked_block_answered<V: Visitor<D>, D>(
    before: V,
    node: UncheckedBlock,
    after: V,
    left: UncheckedBlock,
    answer: Result<Step, VisitError>,
) -> bool {
    untouched(answer, before, after, node, left) || V::on_unchecked_block(
        before,
        node,
        after,
        left,
        answer,
    )
}

/// What the callback for [`VariableDeclarationStatement`] can do: what the default
/// does, or what the visitor says of it in
/// [`Visitor::on_variable_declaration_statement`].
pub open spec fn variable_declaration_statement_answered<V: Visitor<D>, D>(
    before: V,
    node: VariableDeclarationStatement,
    after: V,
    left: VariableDeclarationStatement,
    answer: Result<Step, VisitError>,
) -> bool {
    untouched(answer, before, after, node, left) || V::on_variable_declaration_statement(
        before,
        node,
        after,
        left,
        answer,
    )
}

/// What the callback for [`WhileStatement`] can do: what the default does, or what the
/// visitor says of it in [`Visitor::on_while_statement`].
pub open spec fn while_statement_answered<V: Visitor<D>, D>(
    before: V,
    node: WhileStatement,
    after: V,
    left: WhileStatement,
    answer: Result<Step, VisitError>,
) -> bool {
    untouched(answer, before, after, node, left) || V::on_while_statement(
        before,
        node,
        after,
        left,
        answer,
    )
}

/// What the callback for [`IdentifierPath`] can do: what the default does, or what the
/// visitor says of it in [`Visitor::on_identifier_path`].
pub open spec fn identifier_path_answered<V: Visitor<D>, D>(
    before: V,
    node: IdentifierPath,
    after: V,
    left: IdentifierPath,
    answer: Result<Step, VisitError>,
) -> bool {
    untouched(answer, before, after, node, left) || V::on_identifier_path(
        before,
        node,
        after,
        left,
        answer,
    )
}

/// What the callback for [`YulAssignment`] can do: what the default does, or what the
/// visitor says of it in [`Visitor::on_yul_assignment`].
pub open spec fn yul_assignment_answered<V: Visitor<D>, D>(
    before: V,
    node: YulAssignment,
    after: V,
    left: YulAssignment,
    answer: Result<Step, VisitError>,
) -> bool {
    untouched(answer, before, after, node, left) || V::on_yul_assignment(
        before,
        node,
        after,
        left,
        answer,
    )
}

/// What the callback for [`YulBlock`] can do: what the default does, or what the
/// visitor says of it in [`Visitor::on_yul_block`].
pub open spec fn yul_block_answered<V: Visitor<D>, D>(
    before: V,
    node: YulBlock,
    after: V,
    left: YulBlock,
    answer: Result<Step, VisitError>,
) -> bool {
    untouched(answer, before, after, node, left) || V::on_yul_block(
        before,
        node,
        after,
        left,
        answer,
    )
}

/// What the callback for [`YulBreak`] can do: what the default does, or what the
/// visitor says of it in [`Visitor::on_yul_break`].
pub open spec fn yul_break_answered<V: Visitor<D>, D>(
    before: V,
    node: YulBreak,
    after: V,
    left: YulBreak,
    answer: Result<Step, VisitError>,
) -> bool {
    untouched(answer, before, after, node, left) || V::on_yul_break(
        before,
        node,
        after,
        left,
        answer,
    )
}

/// What the callback for [`YulContinue`] can do: what the default does, or what the
/// visitor says of it in [`Visitor::on_yul_continue`].
pub open spec fn yul_continue_answered<V: Visitor<D>, D>(
    before: V,
    node: YulContinue,
    after: V,
    left: YulContinue,
    answer: Result<Step, VisitError>,
) -> bool {
    untouched(answer, before, after, node, left) || V::on_yul_continue(
        before,
        node,
        after,
        left,
        answer,
    )
}

/// What the callback for [`YulExpressionStatement`] can do: what the default does, or
/// what the visitor says of it in [`Visitor::on_yul_expression_statement`].
pub open spec fn yul_expression_statement_answered<V: Visitor<D>, D>(
    before: V,
    node: YulExpressionStatement,
    after: V,
    left: YulExpressionStatement,
    answer: Result<Step, VisitError>,
) -> bool {
    untouched(answer, before, after, node, left) || V::on_yul_expression_statement(
        before,
        node,
        after,
        left,
        answer,
    )
}

/// What the callback for [`YulFunctionDefinition`] can do: what the default does, or
/// what the visitor says of it in [`Visitor::on_yul_function_definition`].
pub open spec fn yul_function_definition_answered<V: Visitor<D>, D>(
    before: V,
    node: YulFunctionDefinition,
    after: V,
    left: YulFunctionDefinition,
    answer: Result<Step, VisitError>,
) -> bool {
    untouched(answer, before, after, node, left) || V::on_yul_function_definition(
        before,
        node,
        after,
        left,
        answer,
    )
}

/// What the callback for [`YulForLoop`] can do: what the default does, or what the
/// visitor says of it in [`Visitor::on_yul_for_loop`].
pub open spec fn yul_for_loop_answered<V: Visitor<D>, D>(
    before: V,
    node: YulForLoop,
    after: V,
    left: YulForLoop,
    answer: Result<Step, VisitError>,
) -> bool {
    untouched(answer, before, after, node, left) || V::on_yul_for_loop(
        before,
        node,
        after,
        left,
        answer,
    )
}

/// What the callback for [`YulIf`] can do: what the default does, or what the visitor
/// says of it in [`Visitor::on_yul_if`].
pub open spec fn yul_if_answered<V: Visitor<D>, D>(
    before: V,
    node: YulIf,
    after: V,
    left: YulIf,
    answer: Result<Step, VisitError>,
) -> bool {
    untouched(answer, before, after, node, left) || V::on_yul_if(before, node, after, left, answer)
}

/// What the callback for [`YulSwitch`] can do: what the default does, or what the
/// visitor says of it in [`Visitor::on_yul_switch`].
pub open spec fn yul_switch_answered<V: Visitor<D>, D>(
    before: V,
    node: YulSwitch,
    after: V,
    left: YulSwitch,
    answer: Result<Step, VisitError>,
) -> bool {
    untouched(answer, before, after, node, left) || V::on_yul_switch(
        before,
        node,
        after,
        left,
        answer,
    )
}

/// What the callback for [`YulVariableDeclaration`] can do: what the default does, or
/// what the visitor says of it in [`Visitor::on_yul_variable_declaration`].
pub open spec fn yul_variable_declaration_answered<V: Visitor<D>, D>(
    before: V,
    node: YulVariableDeclaration,
    after: V,
    left: YulVariableDeclaration,
    answer: Result<Step, VisitError>,
) -> bool {
    untouched(answer, before, after, node, left) || V::on_yul_variable_declaration(
        before,
        node,
        after,
        left,
        answer,
    )
}

/// What the callback for [`YulFunctionCall`] can do: what the default does, or what the
/// visitor says of it in [`Visitor::on_yul_function_call`].
pub open spec fn yul_function_call_answered<V: Visitor<D>, D>(
    before: V,
    node: YulFunctionCall,
    after: V,
    left: YulFunctionCall,
    answer: Result<Step, VisitError>,
) -> bool {
    untouched(answer, before, after, node, left) || V::on_yul_function_call(
        before,
        node,
        after,
        left,
        answer,
    )
}

/// What the callback for [`YulIdentifier`] can do: what the default does, or what the
/// visitor says of it in [`Visitor::on_yul_identifier`].
pub open spec fn yul_identifier_answered<V: Visitor<D>, D>(
    before: V,
    node: YulIdentifier,
    after: V,
    left: YulIdentifier,
    answer: Result<Step, VisitError>,
) -> bool {
    untouched(answer, before, after, node, left) || V::on_yul_identifier(
        before,
        node,
        after,
        left,
        answer,
    )
}

/// What the callback for [`YulLiteral`] can do: what the default does, or what the
/// visitor says of it in [`Visitor::on_yul_literal`].
pub open spec fn yul_literal_answered<V: Visitor<D>, D>(
    before: V,
    node: YulLiteral,
    after: V,
    left: YulLiteral,
    answer: Result<Step, VisitError>,
) -> bool {
    untouched(answer, before, after, node, left) || V::on_yul_literal(
        before,
        node,
        after,
        left,
        answer,
    )
}

/// What the callback for [`YulLeave`] can do: what the default does, or what the
/// visitor says of it in [`Visitor::on_yul_leave`].
pub open spec fn yul_leave_answered<V: Visitor<D>, D>(
    before: V,
    node: YulLeave,
    after: V,
    left: YulLeave,
    answer: Result<Step, VisitError>,
) -> bool {
    untouched(answer, before, after, node, left) || V::on_yul_leave(
        before,
        node,
        after,
        left,
        answer,
    )
}

/// No callback of `V` ever fails: whatever a callback can answer is `Ok`. This is said
/// of the callbacks by their contracts, so a visitor type whose callbacks promise
/// nothing is not known to be unfailing.
pub open spec fn unfailing<V: Visitor<D>, D>() -> bool {
    &&& forall|mv: &mut V, mn: &mut SourceUnit, answer: Result<Step, VisitError>|
        #[trigger] call_ensures(V::visit_source_unit, (mv, mn), answer) ==> answer is Ok
    &&& forall|mv: &mut V, mn: &mut PragmaDirective, answer: Result<Step, VisitError>|
        #[trigger] call_ensures(V::visit_pragma_directive, (mv, mn), answer) ==> answer is Ok
    &&& forall|mv: &mut V, mn: &mut ImportDirective, answer: Result<Step, VisitError>|
        #[trigger] call_ensures(V::visit_import_directive, (mv, mn), answer) ==> answer is Ok
    &&& forall|mv: &mut V, mn: &mut UsingForDirective, answer: Result<Step, VisitError>|
        #[trigger] call_ensures(V::visit_using_for_directive, (mv, mn), answer) ==> answer is Ok
    &&& forall|mv: &mut V, mn: &mut VariableDeclaration, answer: Result<Step, VisitError>|
        #[trigger] call_ensures(V::visit_variable_declaration, (mv, mn), answer) ==> answer is Ok
    &&& forall|mv: &mut V, mn: &mut BinaryOperation, answer: Result<Step, VisitError>|
        #[trigger] call_ensures(V::visit_binary_operation, (mv, mn), answer) ==> answer is Ok
    &&& forall|mv: &mut V, mn: &mut Conditional, answer: Result<Step, VisitError>|
        #[trigger] call_ensures(V::visit_conditional, (mv, mn), answer) ==> answer is Ok
    &&& forall|mv: &mut V, mn: &mut ElementaryTypeName, answer: Result<Step, VisitError>|
        #[trigger] call_ensures(V::visit_elementary_type_name, (mv, mn), answer) ==> answer is Ok
    &&& forall|mv: &mut V, mn: &mut ElementaryTypeNameExpression, answer: Result<Step, VisitError>|
        #[trigger] call_ensures(V::visit_elementary_type_name_expression, (mv, mn), answer)
            ==> answer is Ok
    &&& forall|mv: &mut V, mn: &mut FunctionCall, answer: Result<Step, VisitError>|
        #[trigger] call_ensures(V::visit_function_call, (mv, mn), answer) ==> answer is Ok
    &&& forall|mv: &mut V, mn: &mut UnaryOperation, answer: Result<Step, VisitError>|
        #[trigger] call_ensures(V::visit_unary_operation, (mv, mn), answer) ==> answer is Ok
    &&& forall|mv: &mut V, mn: &mut TupleExpression, answer: Result<Step, VisitError>|
        #[trigger] call_ensures(V::visit_tuple_expression, (mv, mn), answer) ==> answer is Ok
    &&& forall|mv: &mut V, mn: &mut NewExpression, answer: Result<Step, VisitError>|
        #[trigger] call_ensures(V::visit_new_expression, (mv, mn), answer) ==> answer is Ok
    &&& forall|mv: &mut V, mn: &mut MemberAccess, answer: Result<Step, VisitError>|
        #[trigger] call_ensures(V::visit_member_access, (mv, mn), answer) ==> answer is Ok
    &&& forall|mv: &mut V, mn: &mut Literal, answer: Result<Step, VisitError>|
        #[trigger] call_ensures(V::visit_literal, (mv, mn), answer) ==> answer is Ok
    &&& forall|mv: &mut V, mn: &mut IndexRangeAccess, answer: Result<Step, VisitError>|
        #[trigger] call_ensures(V::visit_index_range_access, (mv, mn), answer) ==> answer is Ok
    &&& forall|mv: &mut V, mn: &mut IndexAccess, answer: Result<Step, VisitError>|
        #[trigger] call_ensures(V::visit_index_access, (mv, mn), answer) ==> answer is Ok
    &&& forall|mv: &mut V, mn: &mut Identifier, answer: Result<Step, VisitError>|
        #[trigger] call_ensures(V::visit_identifier, (mv, mn), answer) ==> answer is Ok
    &&& forall|mv: &mut V, mn: &mut FunctionCallOptions, answer: Result<Step, VisitError>|
        #[trigger] call_ensures(V::visit_function_call_options, (mv, mn), answer) ==> answer is Ok
    &&& forall|mv: &mut V, mn: &mut EnumDefinition, answer: Result<Step, VisitError>|
        #[trigger] call_ensures(V::visit_enum_definition, (mv, mn), answer) ==> answer is Ok
    &&& forall|mv: &mut V, mn: &mut EventDefinition, answer: Result<Step, VisitError>|
        #[trigger] call_ensures(V::visit_event_definition, (mv, mn), answer) ==> answer is Ok
    &&& forall|mv: &mut V, mn: &mut ModifierDefinition, answer: Result<Step, VisitError>|
        #[trigger] call_ensures(V::visit_modifier_definition, (mv, mn), answer) ==> answer is Ok
    &&& forall|mv: &mut V, mn: &mut ErrorDefinition, answer: Result<Step, VisitError>|
        #[trigger] call_ensures(V::visit_error_definition, (mv, mn), answer) ==> answer is Ok
    &&& forall|mv: &mut V, mn: &mut FunctionDefinition, answer: Result<Step, VisitError>|
        #[trigger] call_ensures(V::visit_function_definition, (mv, mn), answer) ==> answer is Ok
    &&& forall|mv: &mut V, mn: &mut StructDefinition, answer: Result<Step, VisitError>|
        #[trigger] call_ensures(V::visit_struct_definition, (mv, mn), answer) ==> answer is Ok
    &&& forall|mv: &mut V, mn: &mut ContractDefinition, answer: Result<Step, VisitError>|
        #[trigger] call_ensures(V::visit_contract_definition, (mv, mn), answer) ==> answer is Ok
    &&& forall|mv: &mut V, mn: &mut UserDefinedValueTypeDefinition, answer: Result<Step, VisitError>|
        #[trigger] call_ensures(V::visit_user_defined_value_type_definition, (mv, mn), answer)
            ==> answer is Ok
    &&& forall|mv: &mut V, mn: &mut UserDefinedTypeName, answer: Result<Step, VisitError>|
        #[trigger] call_ensures(V::visit_user_defined_type_name, (mv, mn), answer) ==> answer is Ok
    &&& forall|mv: &mut V, mn: &mut Mapping, answer: Result<Step, VisitError>|
        #[trigger] call_ensures(V::visit_mapping, (mv, mn), answer) ==> answer is Ok
    &&& forall|mv: &mut V, mn: &mut FunctionTypeName, answer: Result<Step, VisitError>|
        #[trigger] call_ensures(V::visit_function_type_name, (mv, mn), answer) ==> answer is Ok
    &&& forall|mv: &mut V, mn: &mut ArrayTypeName, answer: Result<Step, VisitError>|
        #[trigger] call_ensures(V::visit_array_type_name, (mv, mn), answer) ==> answer is Ok
    &&& forall|mv: &mut V, mn: &mut Assignment, answer: Result<Step, VisitError>|
        #[trigger] call_ensures(V::visit_assignment, (mv, mn), answer) ==> answer is Ok
    &&& forall|mv: &mut V, mn: &mut PlaceholderStatement, answer: Result<Step, VisitError>|
        #[trigger] call_ensures(V::visit_placeholder_statement, (mv, mn), answer) ==> answer is Ok
    &&& forall|mv: &mut V, mn: &mut InlineAssembly, answer: Result<Step, VisitError>|
        #[trigger] call_ensures(V::visit_inline_assembly, (mv, mn), answer) ==> answer is Ok
    &&& forall|mv: &mut V, mn: &mut IfStatement, answer: Result<Step, VisitError>|
        #[trigger] call_ensures(V::visit_if_statement, (mv, mn), answer) ==> answer is Ok
    &&& forall|mv: &mut V, mn: &mut ForStatement, answer: Result<Step, VisitError>|
        #[trigger] call_ensures(V::visit_for_statement, (mv, mn), answer) ==> answer is Ok
    &&& forall|mv: &mut V, mn: &mut ExpressionStatement, answer: Result<Step, VisitError>|
        #[trigger] call_ensures(V::visit_expression_statement, (mv, mn), answer) ==> answer is Ok
    &&& forall|mv: &mut V, mn: &mut EmitStatement, answer: Result<Step, VisitError>|
        #[trigger] call_ensures(V::visit_emit_statement, (mv, mn), answer) ==> answer is Ok
    &&& forall|mv: &mut V, mn: &mut DoWhileStatement, answer: Result<Step, VisitError>|
        #[trigger] call_ensures(V::visit_do_while_statement, (mv, mn), answer) ==> answer is Ok
    &&& forall|mv: &mut V, mn: &mut Continue, answer: Result<Step, VisitError>|
        #[trigger] call_ensures(V::visit_continue, (mv, mn), answer) ==> answer is Ok
    &&& forall|mv: &mut V, mn: &mut Break, answer: Result<Step, VisitError>|
        #[trigger] call_ensures(V::visit_break, (mv, mn), answer) ==> answer is Ok
    &&& forall|mv: &mut V, mn: &mut Block, answer: Result<Step, VisitError>|
        #[trigger] call_ensures(V::visit_block, (mv, mn), answer) ==> answer is Ok
    &&& forall|mv: &mut V, mn: &mut Return, answer: Result<Step, VisitError>|
        #[trigger] call_ensures(V::visit_return, (mv, mn), answer) ==> answer is Ok
    &&& forall|mv: &mut V, mn: &mut RevertStatement, answer: Result<Step, VisitError>|
        #[trigger] call_ensures(V::visit_revert_statement, (mv, mn), answer) ==> answer is Ok
    &&& forall|mv: &mut V, mn: &mut TryStatement, answer: Result<Step, VisitError>|
        #[trigger] call_ensures(V::visit_try_statement, (mv, mn), answer) ==> answer is Ok
    &&& forall|mv: &mut V, mn: &mut UncheckedBlock, answer: Result<Step, VisitError>|
        #[trigger] call_ensures(V::visit_unchecked_block, (mv, mn), answer) ==> answer is Ok
    &&& forall|mv: &mut V, mn: &mut VariableDeclarationStatement, answer: Result<Step, VisitError>|
        #[trigger] call_ensures(V::visit_variable_declaration_statement, (mv, mn), answer)
            ==> answer is Ok
    &&& forall|mv: &mut V, mn: &mut WhileStatement, answer: Result<Step, VisitError>|
        #[trigger] call_ensures(V::visit_while_statement, (mv, mn), answer) ==> answer is Ok
    &&& forall|mv: &mut V, mn: &mut IdentifierPath, answer: Result<Step, VisitError>|
        #[trigger] call_ensures(V::visit_identifier_path, (mv, mn), answer) ==> answer is Ok
    &&& forall|mv: &mut V, mn: &mut YulAssignment, answer: Result<Step, VisitError>|
        #[trigger] call_ensures(V::visit_yul_assignment, (mv, mn), answer) ==> answer is Ok
    &&& forall|mv: &mut V, mn: &mut YulBlock, answer: Result<Step, VisitError>|
        #[trigger] call_ensures(V::visit_yul_block, (mv, mn), answer) ==> answer is Ok
    &&& forall|mv: &mut V, mn: &mut YulBreak, answer: Result<Step, VisitError>|
        #[trigger] call_ensures(V::visit_yul_break, (mv, mn), answer) ==> answer is Ok
    &&& forall|mv: &mut V, mn: &mut YulContinue, answer: Result<Step, VisitError>|
        #[trigger] call_ensures(V::visit_yul_continue, (mv, mn), answer) ==> answer is Ok
    &&& forall|mv: &mut V, mn: &mut YulExpressionStatement, answer: Result<Step, VisitError>|
        #[trigger] call_ensures(V::visit_yul_expression_statement, (mv, mn), answer)
            ==> answer is Ok
    &&& forall|mv: &mut V, mn: &mut YulFunctionDefinition, answer: Result<Step, VisitError>|
        #[trigger] call_ensures(V::visit_yul_function_definition, (mv, mn), answer) ==> answer is Ok
    &&& forall|mv: &mut V, mn: &mut YulForLoop, answer: Result<Step, VisitError>|
        #[trigger] call_ensures(V::visit_yul_for_loop, (mv, mn), answer) ==> answer is Ok
    &&& forall|mv: &mut V, mn: &mut YulIf, answer: Result<Step, VisitError>|
        #[trigger] call_ensures(V::visit_yul_if, (mv, mn), answer) ==> answer is Ok
    &&& forall|mv: &mut V, mn: &mut YulSwitch, answer: Result<Step, VisitError>|
        #[trigger] call_ensures(V::visit_yul_switch, (mv, mn), answer) ==> answer is Ok
    &&& forall|mv: &mut V, mn: &mut YulVariableDeclaration, answer: Result<Step, VisitError>|
        #[trigger] call_ensures(V::visit_yul_variable_declaration, (mv, mn), answer)
            ==> answer is Ok
    &&& forall|mv: &mut V, mn: &mut YulFunctionCall, answer: Result<Step, VisitError>|
        #[trigger] call_ensures(V::visit_yul_function_call, (mv, mn), answer) ==> answer is Ok
    &&& forall|mv: &mut V, mn: &mut YulIdentifier, answer: Result<Step, VisitError>|
        #[trigger] call_ensures(V::visit_yul_identifier, (mv, mn), answer) ==> answer is Ok
    &&& forall|mv: &mut V, mn: &mut YulLiteral, answer: Result<Step, VisitError>|
        #[trigger] call_ensures(V::visit_yul_literal, (mv, mn), answer) ==> answer is Ok
    &&& forall|mv: &mut V, mn: &mut YulLeave, answer: Result<Step, VisitError>|
        #[trigger] call_ensures(V::visit_yul_leave, (mv, mn), answer) ==> answer is Ok
}

/// A node that can be walked.
pub trait Visitable: Shape {
    /// Walks the children of this node, handing each node that has a callback to
    /// that callback. The node itself is not handed to its callback: that is done
    /// by whoever walks into it (`accept` on the node types that have one).
    ///
    /// The walk never makes a node deeper, and the shared data of the visitor
    /// stay what they were. It fails only where a callback fails. With an inert
    /// visitor the walk succeeds, and the visitor and every node are afterwards
    /// what they were.
    ///
    /// Each node type says by `walked` how its own walk goes from child to child.
    fn visit<V: Visitor<D>, D>(&mut self, v: &mut V) -> (r: Result<(), VisitError>)
        ensures
            final(self).depth() <= old(self).depth(),
            final(v).shared() == old(v).shared(),
            unfailing::<V, D>() ==> r is Ok,
            old(v).inert() ==> r is Ok && *final(v) == *old(v) && final(self).same_as(old(self)),
    ;
}

impl Visitable for TypeDescriptions {
    /// Does nothing: a type description has no children.
    fn visit<V: Visitor<D>, D>(&mut self, v: &mut V) -> (r: Result<(), VisitError>)
        ensures
            r is Ok,
            *final(self) == *old(self),
            *final(v) == *old(v),
    {
        Ok(())
    }
}

/// A visitor that keeps every default: it looks at nothing and changes nothing.
pub struct Bystander<D> {
    /// The shared data, which it only carries.
    pub data: D,
}

impl<D> Visitor<D> for Bystander<D> {
    open spec fn inert(&self) -> bool {
        true
    }

    open spec fn shared(&self) -> D {
        self.data
    }

    fn shared_data(&mut self) -> (data: &D) {
        &self.data
    }
}

/// Walks a whole tree. The root is handed to [`Visitor::visit_source_unit`];
/// unless that callback prunes or fails, the top-level parts are walked in order,
/// each node being handed to the callback of its kind before its children are
/// walked. Returns `Ok` if every callback that was called has succeeded, and else
/// the first error, as the callback gave it.
pub fn walk<V: Visitor<D>, D>(unit: &mut SourceUnit, v: &mut V) -> (r: Result<(), VisitError>)
    ensures
        final(unit).depth() <= old(unit).depth(),
        final(v).shared() == old(v).shared(),
        unfailing::<V, D>() ==> r is Ok,
        old(v).inert() ==> r is Ok && *final(v) == *old(v) && final(unit).same_as(old(unit)),
        forall|made: spec_fn(Call<V>) -> bool|
            #![trigger picked(made)]
            picked(made)
                && (forall|mv: &mut V, node: Node, answer: Result<Step, VisitError>|
                    #[trigger] called::<V, D>(node, mv, answer) ==> made(
                        (Call { node, before: *mv, after: *final(mv), answer }),
                    ))
                ==> old(unit).accepted::<V, D>(made, *old(v), *final(v), *final(unit), r),
        forall|made: spec_fn(Call<V>) -> bool|
            #![trigger picked(made)]
            picked(made)
                && (forall|mv: &mut V, node: Node, answer: Result<Step, VisitError>|
                    #[trigger] called::<V, D>(node, mv, answer) ==> made(
                        (Call { node, before: *mv, after: *final(mv), answer }),
                    ))
                ==> failure_was_answered(made, r),
        exists|mv: &mut V, mn: &mut SourceUnit, answer: Result<Step, VisitError>|
            *mv == *old(v) && *mn == *old(unit)
                && #[trigger] call_ensures(V::visit_source_unit, (mv, mn), answer)
                && settled::<V, D, SourceUnit>(
                answer,
                r,
                *final(mv),
                *final(v),
                *final(mn),
                *final(unit),
            ),
{
    unit.accept(v)
}

} // verus!
