//! The walk of statements.

use vstd::prelude::*;
use crate::ast::statement::{
    Block, BlockOrStatement, Break, Continue, DoWhileStatement, EmitStatement,
    ExpressionOrVariableDeclarationStatement, ExpressionStatement, ForStatement, IfStatement,
    InlineAssembly, PlaceholderStatement, Return, RevertStatement, Statement, TryCatchClause,
    TryStatement, UncheckedBlock, VariableDeclarationStatement, WhileStatement,
    lemma_statements_depth_bound, lemma_statements_depth_mono, lemma_try_catch_clauses_depth_bound,
    lemma_try_catch_clauses_depth_mono, statements_depth, statements_depths, statements_same,
    try_catch_clauses_depth, try_catch_clauses_depths, try_catch_clauses_same,
};
use crate::shape::{Shape, depths_of};
use crate::visitor::{
    Call, Node, Step, VisitError, Visitable, Visitor, between, block_answered, break_answered,
    called, continue_answered, do_while_statement_answered, emit_statement_answered,
    expression_statement_answered, failure_was_answered, for_statement_answered,
    if_statement_answered, inline_assembly_answered, picked, placeholder_statement_answered,
    reached, return_answered, revert_statement_answered, settled, try_statement_answered,
    unchecked_block_answered, unfailing, variable_declaration_statement_answered,
    while_statement_answered,
};
use crate::visitor::definition::{
    maybe_parameter_list_walked, optional_variable_declarations_walked, visit_maybe_parameter_list,
    visit_optional_variable_declarations,
};
use crate::visitor::expression::{maybe_expression_walked, visit_maybe_expression};

verus! {

impl Statement {
    /// How `visit` takes this node and the visitor `pre_v` to `post` and `post_v`, with
    /// the result `r`, the calls of callbacks being among `made`: as `accept` does on
    /// the node inside, which keeps its kind.
    pub open spec fn walked<V: Visitor<D>, D>(
        &self,
        made: spec_fn(Call<V>) -> bool,
        pre_v: V,
        post_v: V,
        post: Statement,
        r: Result<(), VisitError>,
    ) -> bool
        decreases self.depth(), 0int, 0int,
    {
        match (self, post) {
            (
                Statement::Block(a),
                Statement::Block(b),
            ) => a.accepted::<V, D>(made, pre_v, post_v, b, r),
            (
                Statement::Break(a),
                Statement::Break(b),
            ) => a.accepted::<V, D>(made, pre_v, post_v, b, r),
            (
                Statement::Continue(a),
                Statement::Continue(b),
            ) => a.accepted::<V, D>(made, pre_v, post_v, b, r),
            (
                Statement::DoWhileStatement(a),
                Statement::DoWhileStatement(b),
            ) => a.accepted::<V, D>(made, pre_v, post_v, b, r),
            (
                Statement::EmitStatement(a),
                Statement::EmitStatement(b),
            ) => a.accepted::<V, D>(made, pre_v, post_v, b, r),
            (
                Statement::ExpressionStatement(a),
                Statement::ExpressionStatement(b),
            ) => a.accepted::<V, D>(made, pre_v, post_v, b, r),
            (
                Statement::ForStatement(a),
                Statement::ForStatement(b),
            ) => a.accepted::<V, D>(made, pre_v, post_v, b, r),
            (
                Statement::IfStatement(a),
                Statement::IfStatement(b),
            ) => a.accepted::<V, D>(made, pre_v, post_v, b, r),
            (
                Statement::InlineAssembly(a),
                Statement::InlineAssembly(b),
            ) => a.accepted::<V, D>(made, pre_v, post_v, b, r),
            (
                Statement::PlaceholderStatement(a),
                Statement::PlaceholderStatement(b),
            ) => a.accepted::<V, D>(made, pre_v, post_v, b, r),
            (
                Statement::Return(a),
                Statement::Return(b),
            ) => a.accepted::<V, D>(made, pre_v, post_v, b, r),
            (
                Statement::RevertStatement(a),
                Statement::RevertStatement(b),
            ) => a.accepted::<V, D>(made, pre_v, post_v, b, r),
            (
                Statement::TryStatement(a),
                Statement::TryStatement(b),
            ) => a.accepted::<V, D>(made, pre_v, post_v, b, r),
            (
                Statement::UncheckedBlock(a),
                Statement::UncheckedBlock(b),
            ) => a.accepted::<V, D>(made, pre_v, post_v, b, r),
            (
                Statement::VariableDeclarationStatement(a),
                Statement::VariableDeclarationStatement(b),
            ) => a.accepted::<V, D>(made, pre_v, post_v, b, r),
            (
                Statement::WhileStatement(a),
                Statement::WhileStatement(b),
            ) => a.accepted::<V, D>(made, pre_v, post_v, b, r),
            _ => false,
        }
    }
}

impl Visitable for Statement {
    /// Hands the node inside to the callback of its kind, and to no other, as `accept`
    /// on that kind does.
    fn visit<V: Visitor<D>, D>(&mut self, v: &mut V) -> (r: Result<(), VisitError>)
        ensures
            forall|made: spec_fn(Call<V>) -> bool|
                #![trigger picked(made)]
                picked(made)
                    && (forall|mv: &mut V, node: Node, answer: Result<Step, VisitError>|
                        #[trigger] called::<V, D>(node, mv, answer) ==> made(
                            (Call { node, before: *mv, after: *final(mv), answer }),
                        ))
                    ==> old(self).walked::<V, D>(made, *old(v), *final(v), *final(self), r),
            forall|made: spec_fn(Call<V>) -> bool|
                #![trigger picked(made)]
                picked(made)
                    && (forall|mv: &mut V, node: Node, answer: Result<Step, VisitError>|
                        #[trigger] called::<V, D>(node, mv, answer) ==> made(
                            (Call { node, before: *mv, after: *final(mv), answer }),
                        ))
                    ==> failure_was_answered(made, r),
            between(*final(v), r),
            *old(self) matches Statement::Block(n) ==> ((*final(self)) is Block
                && exists|mv: &mut V, mn: &mut Block, answer: Result<Step, VisitError>|
                    *mv == *old(v) && *mn == n
                        && #[trigger] call_ensures(V::visit_block, (mv, mn), answer)
                        && settled::<V, D, Block>(
                            answer,
                            r,
                            *final(mv),
                            *final(v),
                            *final(mn),
                            (*final(self))->Block_0,
                        )),
            *old(self) matches Statement::Break(n) ==> ((*final(self)) is Break
                && exists|mv: &mut V, mn: &mut Break, answer: Result<Step, VisitError>|
                    *mv == *old(v) && *mn == n
                        && #[trigger] call_ensures(V::visit_break, (mv, mn), answer)
                        && settled::<V, D, Break>(
                            answer,
                            r,
                            *final(mv),
                            *final(v),
                            *final(mn),
                            (*final(self))->Break_0,
                        )),
            *old(self) matches Statement::Continue(n) ==> ((*final(self)) is Continue
                && exists|mv: &mut V, mn: &mut Continue, answer: Result<Step, VisitError>|
                    *mv == *old(v) && *mn == n
                        && #[trigger] call_ensures(V::visit_continue, (mv, mn), answer)
                        && settled::<V, D, Continue>(
                            answer,
                            r,
                            *final(mv),
                            *final(v),
                            *final(mn),
                            (*final(self))->Continue_0,
                        )),
            *old(self) matches Statement::DoWhileStatement(n)
                ==> ((*final(self)) is DoWhileStatement
                && exists|mv: &mut V, mn: &mut DoWhileStatement, answer: Result<Step, VisitError>|
                    *mv == *old(v) && *mn == n
                        && #[trigger] call_ensures(V::visit_do_while_statement, (mv, mn), answer)
                        && settled::<V, D, DoWhileStatement>(
                            answer,
                            r,
                            *final(mv),
                            *final(v),
                            *final(mn),
                            (*final(self))->DoWhileStatement_0,
                        )),
            *old(self) matches Statement::EmitStatement(n) ==> ((*final(self)) is EmitStatement
                && exists|mv: &mut V, mn: &mut EmitStatement, answer: Result<Step, VisitError>|
                    *mv == *old(v) && *mn == n
                        && #[trigger] call_ensures(V::visit_emit_statement, (mv, mn), answer)
                        && settled::<V, D, EmitStatement>(
                            answer,
                            r,
                            *final(mv),
                            *final(v),
                            *final(mn),
                            (*final(self))->EmitStatement_0,
                        )),
            *old(self) matches Statement::ExpressionStatement(n)
                ==> ((*final(self)) is ExpressionStatement
                && exists|
                    mv: &mut V,
                    mn: &mut ExpressionStatement,
                    answer: Result<Step, VisitError>,
                |
                    *mv == *old(v) && *mn == n
                        && #[trigger] call_ensures(V::visit_expression_statement, (mv, mn), answer)
                        && settled::<V, D, ExpressionStatement>(
                            answer,
                            r,
                            *final(mv),
                            *final(v),
                            *final(mn),
                            (*final(self))->ExpressionStatement_0,
                        )),
            *old(self) matches Statement::ForStatement(n) ==> ((*final(self)) is ForStatement
                && exists|mv: &mut V, mn: &mut ForStatement, answer: Result<Step, VisitError>|
                    *mv == *old(v) && *mn == n
                        && #[trigger] call_ensures(V::visit_for_statement, (mv, mn), answer)
                        && settled::<V, D, ForStatement>(
                            answer,
                            r,
                            *final(mv),
                            *final(v),
                            *final(mn),
                            (*final(self))->ForStatement_0,
                        )),
            *old(self) matches Statement::IfStatement(n) ==> ((*final(self)) is IfStatement
                && exists|mv: &mut V, mn: &mut IfStatement, answer: Result<Step, VisitError>|
                    *mv == *old(v) && *mn == n
                        && #[trigger] call_ensures(V::visit_if_statement, (mv, mn), answer)
                        && settled::<V, D, IfStatement>(
                            answer,
                            r,
                            *final(mv),
                            *final(v),
                            *final(mn),
                            (*final(self))->IfStatement_0,
                        )),
            *old(self) matches Statement::InlineAssembly(n) ==> ((*final(self)) is InlineAssembly
                && exists|mv: &mut V, mn: &mut InlineAssembly, answer: Result<Step, VisitError>|
                    *mv == *old(v) && *mn == n
                        && #[trigger] call_ensures(V::visit_inline_assembly, (mv, mn), answer)
                        && settled::<V, D, InlineAssembly>(
                            answer,
                            r,
                            *final(mv),
                            *final(v),
                            *final(mn),
                            (*final(self))->InlineAssembly_0,
                        )),
            *old(self) matches Statement::PlaceholderStatement(n)
                ==> ((*final(self)) is PlaceholderStatement
                && exists|
                    mv: &mut V,
                    mn: &mut PlaceholderStatement,
                    answer: Result<Step, VisitError>,
                |
                    *mv == *old(v) && *mn == n
                        && #[trigger] call_ensures(V::visit_placeholder_statement, (mv, mn), answer)
                        && settled::<V, D, PlaceholderStatement>(
                            answer,
                            r,
                            *final(mv),
                            *final(v),
                            *final(mn),
                            (*final(self))->PlaceholderStatement_0,
                        )),
            *old(self) matches Statement::Return(n) ==> ((*final(self)) is Return
                && exists|mv: &mut V, mn: &mut Return, answer: Result<Step, VisitError>|
                    *mv == *old(v) && *mn == n
                        && #[trigger] call_ensures(V::visit_return, (mv, mn), answer)
                        && settled::<V, D, Return>(
                            answer,
                            r,
                            *final(mv),
                            *final(v),
                            *final(mn),
                            (*final(self))->Return_0,
                        )),
            *old(self) matches Statement::RevertStatement(n) ==> ((*final(self)) is RevertStatement
                && exists|mv: &mut V, mn: &mut RevertStatement, answer: Result<Step, VisitError>|
                    *mv == *old(v) && *mn == n
                        && #[trigger] call_ensures(V::visit_revert_statement, (mv, mn), answer)
                        && settled::<V, D, RevertStatement>(
                            answer,
                            r,
                            *final(mv),
                            *final(v),
                            *final(mn),
                            (*final(self))->RevertStatement_0,
                        )),
            *old(self) matches Statement::TryStatement(n) ==> ((*final(self)) is TryStatement
                && exists|mv: &mut V, mn: &mut TryStatement, answer: Result<Step, VisitError>|
                    *mv == *old(v) && *mn == n
                        && #[trigger] call_ensures(V::visit_try_statement, (mv, mn), answer)
                        && settled::<V, D, TryStatement>(
                            answer,
                            r,
                            *final(mv),
                            *final(v),
                            *final(mn),
                            (*final(self))->TryStatement_0,
                        )),
            *old(self) matches Statement::UncheckedBlock(n) ==> ((*final(self)) is UncheckedBlock
                && exists|mv: &mut V, mn: &mut UncheckedBlock, answer: Result<Step, VisitError>|
                    *mv == *old(v) && *mn == n
                        && #[trigger] call_ensures(V::visit_unchecked_block, (mv, mn), answer)
                        && settled::<V, D, UncheckedBlock>(
                            answer,
                            r,
                            *final(mv),
                            *final(v),
                            *final(mn),
                            (*final(self))->UncheckedBlock_0,
                        )),
            *old(self) matches Statement::VariableDeclarationStatement(n)
                ==> ((*final(self)) is VariableDeclarationStatement
                && exists|
                    mv: &mut V,
                    mn: &mut VariableDeclarationStatement,
                    answer: Result<Step, VisitError>,
                |
                    *mv == *old(v) && *mn == n
                        && #[trigger] call_ensures(
                            V::visit_variable_declaration_statement,
                            (mv, mn),
                            answer,
                        )
                        && settled::<V, D, VariableDeclarationStatement>(
                            answer,
                            r,
                            *final(mv),
                            *final(v),
                            *final(mn),
                            (*final(self))->VariableDeclarationStatement_0,
                        )),
            *old(self) matches Statement::WhileStatement(n) ==> ((*final(self)) is WhileStatement
                && exists|mv: &mut V, mn: &mut WhileStatement, answer: Result<Step, VisitError>|
                    *mv == *old(v) && *mn == n
                        && #[trigger] call_ensures(V::visit_while_statement, (mv, mn), answer)
                        && settled::<V, D, WhileStatement>(
                            answer,
                            r,
                            *final(mv),
                            *final(v),
                            *final(mn),
                            (*final(self))->WhileStatement_0,
                        )),
        decreases old(self).depth(), 0int,
    {
        match self {
            Statement::Block(e) => e.accept(v),
            Statement::Break(e) => e.accept(v),
            Statement::Continue(e) => e.accept(v),
            Statement::DoWhileStatement(e) => e.accept(v),
            Statement::EmitStatement(e) => e.accept(v),
            Statement::ExpressionStatement(e) => e.accept(v),
            Statement::ForStatement(e) => e.accept(v),
            Statement::IfStatement(e) => e.accept(v),
            Statement::InlineAssembly(e) => e.accept(v),
            Statement::PlaceholderStatement(e) => e.accept(v),
            Statement::Return(e) => e.accept(v),
            Statement::RevertStatement(e) => e.accept(v),
            Statement::TryStatement(e) => e.accept(v),
            Statement::UncheckedBlock(e) => e.accept(v),
            Statement::VariableDeclarationStatement(e) => e.accept(v),
            Statement::WhileStatement(e) => e.accept(v),
        }
    }
}

/// The items of `pre` that stand where `done` has items have been walked with success,
/// in order and each once, the first from the visitor `pre_v` and each next one from
/// the visitor as the one before has left it; they are now what `done` holds, and the
/// visitor is `v`. (The clause on the depths holds of every sequence: it is what lets
/// this definition end.)
pub open spec fn statements_walked_to<V: Visitor<D>, D>(
    made: spec_fn(Call<V>) -> bool,
    pre: Seq<Statement>,
    done: Seq<Statement>,
    pre_v: V,
    v: V,
) -> bool
    decreases statements_depth(pre), 3int, done.len(),
{
    if done.len() == 0 {
        v == pre_v
    } else if done.len() > pre.len() {
        false
    } else {
        &&& statements_depths(pre)[done.len() - 1] <= statements_depth(pre)
        &&& exists|u: V, ok: Result<(), VisitError>|
            #[trigger] between(u, ok) && ok is Ok
                && statements_walked_to::<V, D>(made, pre, done.drop_last(), pre_v, u)
                && pre[done.len() - 1].walked::<V, D>(made, u, v, done.last(), ok)
    }
}

/// How the walk takes the items `pre` and the visitor `pre_v` to `post` and `post_v`,
/// with the result `r`: the items are walked in order, each once, each from the visitor
/// as the one before has left it, up to the first failure. That failure is the result,
/// and the items behind it are as they were. (The clause on the depths holds of every
/// sequence.)
pub open spec fn statements_walked<V: Visitor<D>, D>(
    made: spec_fn(Call<V>) -> bool,
    pre: Seq<Statement>,
    pre_v: V,
    post_v: V,
    post: Seq<Statement>,
    r: Result<(), VisitError>,
) -> bool
    decreases statements_depth(pre), 5int, 0int,
{
    &&& pre.len() == post.len()
    &&& match r {
        Ok(_) => statements_walked_to::<V, D>(made, pre, post, pre_v, post_v),
        Err(e) => exists|k: int, u: V|
            #[trigger] reached(k, u) && 0 <= k < pre.len()
                && statements_depths(pre)[k] <= statements_depth(pre)
                && statements_walked_to::<V, D>(made, pre, post.take(k), pre_v, u)
                && pre[k].walked::<V, D>(made, u, post_v, post[k], Err::<(), VisitError>(e))
                && forall|j: int| k < j < pre.len() ==> post[j] == pre[j],
    }
}

/// Walks `items` in order. The first failure ends the walk; the items after it are left
/// alone.
pub fn visit_statements<V: Visitor<D>, D>(
    items: &mut Vec<Statement>,
    v: &mut V,
) -> (r: Result<(), VisitError>)
    ensures
        forall|made: spec_fn(Call<V>) -> bool|
            #![trigger picked(made)]
            picked(made)
                && (forall|mv: &mut V, node: Node, answer: Result<Step, VisitError>|
                    #[trigger] called::<V, D>(node, mv, answer) ==> made(
                        (Call { node, before: *mv, after: *final(mv), answer }),
                    ))
                ==> statements_walked::<V, D>(
                    made,
                    old(items)@,
                    *old(v),
                    *final(v),
                    final(items)@,
                    r,
                ),
        forall|made: spec_fn(Call<V>) -> bool|
            #![trigger picked(made)]
            picked(made)
                && (forall|mv: &mut V, node: Node, answer: Result<Step, VisitError>|
                    #[trigger] called::<V, D>(node, mv, answer) ==> made(
                        (Call { node, before: *mv, after: *final(mv), answer }),
                    ))
                ==> failure_was_answered(made, r),
        between(*final(v), r),
        final(items)@.len() == old(items)@.len(),
        statements_depth(final(items)@) <= statements_depth(old(items)@),
        final(v).shared() == old(v).shared(),
        unfailing::<V, D>() ==> r is Ok,
        old(v).inert() ==> {
            &&& r is Ok
            &&& *final(v) == *old(v)
            &&& statements_same(final(items)@, old(items)@)
        },
    decreases statements_depth(old(items)@), 3int,
{
    let n = items.len();
    let mut i: usize = 0;
    while i < n
        invariant
            i <= n,
            n == items@.len(),
            n == old(items)@.len(),
            forall|j: int| i <= j < n ==> items@[j] == old(items)@[j],
            forall|j: int|
                0 <= j < n ==> statements_depths(items@)[j] <= statements_depths(old(items)@)[j],
            v.shared() == old(v).shared(),
            old(v).inert() ==> *v == *old(v),
            forall|made: spec_fn(Call<V>) -> bool|
                #![trigger picked(made)]
                picked(made)
                    && (forall|mv: &mut V, node: Node, answer: Result<Step, VisitError>|
                        #[trigger] called::<V, D>(node, mv, answer) ==> made(
                            (Call { node, before: *mv, after: *final(mv), answer }),
                        ))
                    ==> statements_walked_to::<V, D>(
                        made,
                        old(items)@,
                        items@.take(i as int),
                        *old(v),
                        *v,
                    ),
            old(v).inert() ==> forall|j: int|
                #![trigger items@[j]]
                0 <= j < i ==> items@[j].same_as(&old(items)@[j]),
        decreases n - i,
    {
        proof {
            lemma_statements_depth_bound(old(items)@, i as int);
        }
        let ghost done = items@.take(i as int);
        let ghost u = *v;
        let step = items[i].visit(v);
        proof {
            assert(between(u, step));
        }
        match step {
            Ok(_) => {
                proof {
                    let grown = items@.take(i + 1);
                    assert(grown.drop_last() =~= done);
                    assert(grown.last() == items@[i as int]);
                    assert forall|made: spec_fn(Call<V>) -> bool|
                        #![trigger picked(made)]
                        picked(made)
                            && (forall|mv: &mut V, node: Node, answer: Result<Step, VisitError>|
                                #[trigger] called::<V, D>(node, mv, answer) ==> made(
                                    (Call { node, before: *mv, after: *final(mv), answer }),
                                ))
                        implies statements_walked_to::<V, D>(
                            made,
                            old(items)@,
                            grown,
                            *old(v),
                            *v,
                        ) by {
                        assert(statements_walked_to::<V, D>(made, old(items)@, done, *old(v), u));
                    }
                }
            },
            Err(e) => {
                proof {
                    lemma_statements_depth_mono(items@, old(items)@);
                    assert(items@.take(i as int) =~= done);
                    assert(reached(i as int, u));
                    assert forall|made: spec_fn(Call<V>) -> bool|
                        #![trigger picked(made)]
                        picked(made)
                            && (forall|mv: &mut V, node: Node, answer: Result<Step, VisitError>|
                                #[trigger] called::<V, D>(node, mv, answer) ==> made(
                                    (Call { node, before: *mv, after: *final(mv), answer }),
                                ))
                        implies statements_walked::<V, D>(
                            made,
                            old(items)@,
                            *old(v),
                            *v,
                            items@,
                            Err::<(), VisitError>(e),
                        ) by {
                        assert(statements_walked_to::<V, D>(made, old(items)@, done, *old(v), u));
                    }
                }
                return Err(e);
            },
        }
        i += 1;
    }
    proof {
        lemma_statements_depth_mono(items@, old(items)@);
        assert(items@.take(n as int) =~= items@);
    }
    Ok(())
}

impl Visitable for Vec<Statement> {
    /// Walks the items in order, as [`visit_statements`] does.
    fn visit<V: Visitor<D>, D>(&mut self, v: &mut V) -> (r: Result<(), VisitError>)
        ensures
            forall|made: spec_fn(Call<V>) -> bool|
                #![trigger picked(made)]
                picked(made)
                    && (forall|mv: &mut V, node: Node, answer: Result<Step, VisitError>|
                        #[trigger] called::<V, D>(node, mv, answer) ==> made(
                            (Call { node, before: *mv, after: *final(mv), answer }),
                        ))
                    ==> statements_walked::<V, D>(
                        made,
                        old(self)@,
                        *old(v),
                        *final(v),
                        final(self)@,
                        r,
                    ),
            forall|made: spec_fn(Call<V>) -> bool|
                #![trigger picked(made)]
                picked(made)
                    && (forall|mv: &mut V, node: Node, answer: Result<Step, VisitError>|
                        #[trigger] called::<V, D>(node, mv, answer) ==> made(
                            (Call { node, before: *mv, after: *final(mv), answer }),
                        ))
                    ==> failure_was_answered(made, r),
            final(self)@.len() == old(self)@.len(),
    {
        let ghost before = self@;
        let r = visit_statements(self, v);
        proof {
            assert(depths_of(before) =~= statements_depths(before));
            assert(depths_of(self@) =~= statements_depths(self@));
        }
        r
    }
}

impl Block {
    /// How `visit` takes this node and the visitor `pre_v` to `post` and `post_v`, with
    /// the result `r`, the calls of callbacks being among `made`: the children are
    /// walked one after the other, each from the visitor as the one before has left it;
    /// the first failure is the result, and what stands behind it is as it was. What is
    /// no child is as it was.
    pub open spec fn walked<V: Visitor<D>, D>(
        &self,
        made: spec_fn(Call<V>) -> bool,
        pre_v: V,
        post_v: V,
        post: Block,
        r: Result<(), VisitError>,
    ) -> bool
        decreases self.depth(), 0int, 0int,
    {
        &&& post == (Block { statements: post.statements, ..*self })
        &&& (statements_walked::<V, D>(made, self.statements@, pre_v, post_v, post.statements@, r))
    }

    /// How `accept` takes this node and the visitor `pre_v` to `post` and `post_v`,
    /// with the result `r`, the calls of callbacks being among `made`: the callback for
    /// this kind is called with `pre_v` and this node, answers, and leaves `mid_v` and
    /// `mid`, which is no deeper; after [`Step::Descend`] the children of `mid` are
    /// walked from `mid_v`, after anything else nothing more happens, and an error is
    /// the result as it is.
    pub open spec fn accepted<V: Visitor<D>, D>(
        &self,
        made: spec_fn(Call<V>) -> bool,
        pre_v: V,
        post_v: V,
        post: Block,
        r: Result<(), VisitError>,
    ) -> bool
        decreases self.depth(), 1int, 0int,
    {
        exists|mid_v: V, mid: Block, answer: Result<Step, VisitError>|
            #[trigger] block_answered::<V, D>(pre_v, *self, mid_v, mid, answer)
                && made(
                    (Call { node: Node::Block(*self), before: pre_v, after: mid_v, answer }),
                )
                && mid.depth() <= self.depth() && match answer {
                    Ok(Step::Descend) => mid.walked::<V, D>(made, mid_v, post_v, post, r),
                    Ok(Step::Prune) => r is Ok && post_v == mid_v && post == mid,
                    Err(e) => r == Err::<(), VisitError>(e) && post_v == mid_v && post == mid,
                }
    }

    /// Hands this node to [`Visitor::visit_block`] and does what the callback answers:
    /// on [`Step::Descend`] it walks the children as [`Visitable::visit`] does, on
    /// [`Step::Prune`] it leaves them alone; an error is handed on.
    pub fn accept<V: Visitor<D>, D>(&mut self, v: &mut V) -> (r: Result<(), VisitError>)
        ensures
            final(self).depth() <= old(self).depth(),
            final(v).shared() == old(v).shared(),
            unfailing::<V, D>() ==> r is Ok,
            old(v).inert() ==> r is Ok && *final(v) == *old(v) && final(self).same_as(old(self)),
            forall|made: spec_fn(Call<V>) -> bool|
                #![trigger picked(made)]
                picked(made)
                    && (forall|mv: &mut V, node: Node, answer: Result<Step, VisitError>|
                        #[trigger] called::<V, D>(node, mv, answer) ==> made(
                            (Call { node, before: *mv, after: *final(mv), answer }),
                        ))
                    ==> old(self).accepted::<V, D>(made, *old(v), *final(v), *final(self), r),
            forall|made: spec_fn(Call<V>) -> bool|
                #![trigger picked(made)]
                picked(made)
                    && (forall|mv: &mut V, node: Node, answer: Result<Step, VisitError>|
                        #[trigger] called::<V, D>(node, mv, answer) ==> made(
                            (Call { node, before: *mv, after: *final(mv), answer }),
                        ))
                    ==> failure_was_answered(made, r),
            between(*final(v), r),
            exists|mv: &mut V, mn: &mut Block, answer: Result<Step, VisitError>|
                *mv == *old(v) && *mn == *old(self)
                    && #[trigger] call_ensures(V::visit_block, (mv, mn), answer)
                    && settled::<V, D, Block>(
                        answer,
                        r,
                        *final(mv),
                        *final(v),
                        *final(mn),
                        *final(self),
                    ),
        decreases old(self).depth(), 1int,
    {
        let ghost pre_v = *v;
        let ghost pre = *self;
        let answer = v.visit_block(self);
        let ghost mid_v = *v;
        proof {
            assert(block_answered::<V, D>(pre_v, pre, *v, *self, answer));
            let (mv0, mn0) = choose|mv: &mut V, mn: &mut Block|
                *mv == pre_v && *final(mv) == mid_v && *mn == pre
                    && #[trigger] call_ensures(V::visit_block, (mv, mn), answer);
            assert(called::<V, D>(Node::Block(pre), mv0, answer));
        }
        match answer {
            Ok(Step::Descend) => {
                let r = self.visit(v);
                proof {
                    assert forall|made: spec_fn(Call<V>) -> bool|
                        #![trigger picked(made)]
                        picked(made)
                            && (forall|mv: &mut V, node: Node, answer: Result<Step, VisitError>|
                                #[trigger] called::<V, D>(node, mv, answer) ==> made(
                                    (Call { node, before: *mv, after: *final(mv), answer }),
                                ))
                        implies pre.accepted::<V, D>(made, pre_v, *v, *self, r) by {
                    }
                }
                r
            },
            Ok(Step::Prune) => {
                proof {
                    assert forall|made: spec_fn(Call<V>) -> bool|
                        #![trigger picked(made)]
                        picked(made)
                            && (forall|mv: &mut V, node: Node, answer: Result<Step, VisitError>|
                                #[trigger] called::<V, D>(node, mv, answer) ==> made(
                                    (Call { node, before: *mv, after: *final(mv), answer }),
                                ))
                        implies pre.accepted::<V, D>(
                            made,
                            pre_v,
                            *v,
                            *self,
                            Ok::<(), VisitError>(()),
                        ) by {
                    }
                }
                Ok(())
            },
            Err(e) => {
                proof {
                    assert forall|made: spec_fn(Call<V>) -> bool|
                        #![trigger picked(made)]
                        picked(made)
                            && (forall|mv: &mut V, node: Node, answer: Result<Step, VisitError>|
                                #[trigger] called::<V, D>(node, mv, answer) ==> made(
                                    (Call { node, before: *mv, after: *final(mv), answer }),
                                ))
                        implies pre.accepted::<V, D>(
                            made,
                            pre_v,
                            *v,
                            *self,
                            Err::<(), VisitError>(e),
                        ) by {
                    }
                }
                Err(e)
            },
        }
    }
}

impl Visitable for Block {
    /// Walks `statements`.
    fn visit<V: Visitor<D>, D>(&mut self, v: &mut V) -> (r: Result<(), VisitError>)
        ensures
            forall|made: spec_fn(Call<V>) -> bool|
                #![trigger picked(made)]
                picked(made)
                    && (forall|mv: &mut V, node: Node, answer: Result<Step, VisitError>|
                        #[trigger] called::<V, D>(node, mv, answer) ==> made(
                            (Call { node, before: *mv, after: *final(mv), answer }),
                        ))
                    ==> old(self).walked::<V, D>(made, *old(v), *final(v), *final(self), r),
            forall|made: spec_fn(Call<V>) -> bool|
                #![trigger picked(made)]
                picked(made)
                    && (forall|mv: &mut V, node: Node, answer: Result<Step, VisitError>|
                        #[trigger] called::<V, D>(node, mv, answer) ==> made(
                            (Call { node, before: *mv, after: *final(mv), answer }),
                        ))
                    ==> failure_was_answered(made, r),
            between(*final(v), r),
            *final(self) == (Block { statements: final(self).statements, ..*old(self) }),
            final(self).statements@.len() == old(self).statements@.len(),
        decreases old(self).depth(), 0int,
    {
        visit_statements(&mut self.statements, v)
    }
}

/// How the walk takes an optional slot and the visitor `pre_v` to `post` and `post_v`,
/// with the result `r`, the calls of callbacks being among `made`: the node, if there
/// is one, is handed to its callback; an empty slot stays empty, and nothing is called.
pub open spec fn maybe_block_accepted<V: Visitor<D>, D>(
    made: spec_fn(Call<V>) -> bool,
    pre: Option<Block>,
    pre_v: V,
    post_v: V,
    post: Option<Block>,
    r: Result<(), VisitError>,
) -> bool
    decreases
        (match pre {
            Some(e) => e.depth(),
            None => 0,
        }),
        2int,
        0int,
{
    match (pre, post) {
        (Some(a), Some(b)) => a.accepted::<V, D>(made, pre_v, post_v, b, r),
        (None, None) => r is Ok && post_v == pre_v,
        _ => false,
    }
}

/// Walks what an optional slot holds, and does nothing if it is empty.
pub fn accept_maybe_block<V: Visitor<D>, D>(
    slot: &mut Option<Block>,
    v: &mut V,
) -> (r: Result<(), VisitError>)
    ensures
        forall|made: spec_fn(Call<V>) -> bool|
            #![trigger picked(made)]
            picked(made)
                && (forall|mv: &mut V, node: Node, answer: Result<Step, VisitError>|
                    #[trigger] called::<V, D>(node, mv, answer) ==> made(
                        (Call { node, before: *mv, after: *final(mv), answer }),
                    ))
                ==> maybe_block_accepted::<V, D>(
                    made,
                    *old(slot),
                    *old(v),
                    *final(v),
                    *final(slot),
                    r,
                ),
        forall|made: spec_fn(Call<V>) -> bool|
            #![trigger picked(made)]
            picked(made)
                && (forall|mv: &mut V, node: Node, answer: Result<Step, VisitError>|
                    #[trigger] called::<V, D>(node, mv, answer) ==> made(
                        (Call { node, before: *mv, after: *final(mv), answer }),
                    ))
                ==> failure_was_answered(made, r),
        between(*final(v), r),
        ((*final(slot)) is Some) == ((*old(slot)) is Some),
        (match *final(slot) {
            Some(e) => e.depth(),
            None => 0,
        })
        <= (match *old(slot) {
            Some(e) => e.depth(),
            None => 0,
        }),
        final(v).shared() == old(v).shared(),
        unfailing::<V, D>() ==> r is Ok,
        old(v).inert() ==> {
            &&& r is Ok
            &&& *final(v) == *old(v)
            &&& (match (*final(slot), *old(slot)) {
                (Some(a), Some(b)) => a.same_as(&b),
                (None, None) => true,
                _ => false,
            })
        },
    decreases
        (match *old(slot) {
            Some(e) => e.depth(),
            None => 0,
        }),
        2int,
{
    match slot {
        Some(e) => e.accept(v),
        None => Ok(()),
    }
}

impl BlockOrStatement {
    /// How `visit` takes this node and the visitor `pre_v` to `post` and `post_v`, with
    /// the result `r`, the calls of callbacks being among `made`: as `visit` does on
    /// the node inside, which keeps its kind.
    pub open spec fn walked<V: Visitor<D>, D>(
        &self,
        made: spec_fn(Call<V>) -> bool,
        pre_v: V,
        post_v: V,
        post: BlockOrStatement,
        r: Result<(), VisitError>,
    ) -> bool
        decreases self.depth(), 0int, 0int,
    {
        match (self, post) {
            (
                BlockOrStatement::Block(a),
                BlockOrStatement::Block(b),
            ) => a.walked::<V, D>(made, pre_v, post_v, b, r),
            (
                BlockOrStatement::Statement(a),
                BlockOrStatement::Statement(b),
            ) => a.walked::<V, D>(made, pre_v, post_v, *b, r),
            _ => false,
        }
    }
}

impl Visitable for BlockOrStatement {
    /// Walks the node inside. No callback is called for the node itself.
    fn visit<V: Visitor<D>, D>(&mut self, v: &mut V) -> (r: Result<(), VisitError>)
        ensures
            forall|made: spec_fn(Call<V>) -> bool|
                #![trigger picked(made)]
                picked(made)
                    && (forall|mv: &mut V, node: Node, answer: Result<Step, VisitError>|
                        #[trigger] called::<V, D>(node, mv, answer) ==> made(
                            (Call { node, before: *mv, after: *final(mv), answer }),
                        ))
                    ==> old(self).walked::<V, D>(made, *old(v), *final(v), *final(self), r),
            forall|made: spec_fn(Call<V>) -> bool|
                #![trigger picked(made)]
                picked(made)
                    && (forall|mv: &mut V, node: Node, answer: Result<Step, VisitError>|
                        #[trigger] called::<V, D>(node, mv, answer) ==> made(
                            (Call { node, before: *mv, after: *final(mv), answer }),
                        ))
                    ==> failure_was_answered(made, r),
            between(*final(v), r),
        decreases old(self).depth(), 0int,
    {
        match self {
            BlockOrStatement::Block(e) => e.visit(v),
            BlockOrStatement::Statement(e) => e.visit(v),
        }
    }
}

/// How the walk takes an optional slot and the visitor `pre_v` to `post` and `post_v`,
/// with the result `r`, the calls of callbacks being among `made`: the node, if there
/// is one, is walked; an empty slot stays empty, and nothing is called.
pub open spec fn maybe_block_or_statement_walked<V: Visitor<D>, D>(
    made: spec_fn(Call<V>) -> bool,
    pre: Option<BlockOrStatement>,
    pre_v: V,
    post_v: V,
    post: Option<BlockOrStatement>,
    r: Result<(), VisitError>,
) -> bool
    decreases
        (match pre {
            Some(e) => e.depth(),
            None => 0,
        }),
        2int,
        0int,
{
    match (pre, post) {
        (Some(a), Some(b)) => a.walked::<V, D>(made, pre_v, post_v, b, r),
        (None, None) => r is Ok && post_v == pre_v,
        _ => false,
    }
}

/// Walks what an optional slot holds, and does nothing if it is empty.
pub fn visit_maybe_block_or_statement<V: Visitor<D>, D>(
    slot: &mut Option<BlockOrStatement>,
    v: &mut V,
) -> (r: Result<(), VisitError>)
    ensures
        forall|made: spec_fn(Call<V>) -> bool|
            #![trigger picked(made)]
            picked(made)
                && (forall|mv: &mut V, node: Node, answer: Result<Step, VisitError>|
                    #[trigger] called::<V, D>(node, mv, answer) ==> made(
                        (Call { node, before: *mv, after: *final(mv), answer }),
                    ))
                ==> maybe_block_or_statement_walked::<V, D>(
                    made,
                    *old(slot),
                    *old(v),
                    *final(v),
                    *final(slot),
                    r,
                ),
        forall|made: spec_fn(Call<V>) -> bool|
            #![trigger picked(made)]
            picked(made)
                && (forall|mv: &mut V, node: Node, answer: Result<Step, VisitError>|
                    #[trigger] called::<V, D>(node, mv, answer) ==> made(
                        (Call { node, before: *mv, after: *final(mv), answer }),
                    ))
                ==> failure_was_answered(made, r),
        between(*final(v), r),
        ((*final(slot)) is Some) == ((*old(slot)) is Some),
        (match *final(slot) {
            Some(e) => e.depth(),
            None => 0,
        })
        <= (match *old(slot) {
            Some(e) => e.depth(),
            None => 0,
        }),
        final(v).shared() == old(v).shared(),
        unfailing::<V, D>() ==> r is Ok,
        old(v).inert() ==> {
            &&& r is Ok
            &&& *final(v) == *old(v)
            &&& (match (*final(slot), *old(slot)) {
                (Some(a), Some(b)) => a.same_as(&b),
                (None, None) => true,
                _ => false,
            })
        },
    decreases
        (match *old(slot) {
            Some(e) => e.depth(),
            None => 0,
        }),
        2int,
{
    match slot {
        Some(e) => e.visit(v),
        None => Ok(()),
    }
}

impl Visitable for Option<BlockOrStatement> {
    /// Walks the node if there is one, as [`visit_maybe_block_or_statement`] does.
    fn visit<V: Visitor<D>, D>(&mut self, v: &mut V) -> (r: Result<(), VisitError>)
        ensures
            forall|made: spec_fn(Call<V>) -> bool|
                #![trigger picked(made)]
                picked(made)
                    && (forall|mv: &mut V, node: Node, answer: Result<Step, VisitError>|
                        #[trigger] called::<V, D>(node, mv, answer) ==> made(
                            (Call { node, before: *mv, after: *final(mv), answer }),
                        ))
                    ==> maybe_block_or_statement_walked::<V, D>(
                        made,
                        *old(self),
                        *old(v),
                        *final(v),
                        *final(self),
                        r,
                    ),
            forall|made: spec_fn(Call<V>) -> bool|
                #![trigger picked(made)]
                picked(made)
                    && (forall|mv: &mut V, node: Node, answer: Result<Step, VisitError>|
                        #[trigger] called::<V, D>(node, mv, answer) ==> made(
                            (Call { node, before: *mv, after: *final(mv), answer }),
                        ))
                    ==> failure_was_answered(made, r),
            ((*final(self)) is Some) == ((*old(self)) is Some),
    {
        visit_maybe_block_or_statement(self, v)
    }
}

impl Break {
    /// How `accept` takes this node and the visitor `pre_v` to `post` and `post_v`,
    /// with the result `r`, the calls of callbacks being among `made`: the callback for
    /// this kind is called with `pre_v` and this node, answers, and leaves `mid_v` and
    /// `mid`, which is no deeper; after [`Step::Descend`] the children of `mid` are
    /// walked from `mid_v`, after anything else nothing more happens, and an error is
    /// the result as it is.
    pub open spec fn accepted<V: Visitor<D>, D>(
        &self,
        made: spec_fn(Call<V>) -> bool,
        pre_v: V,
        post_v: V,
        post: Break,
        r: Result<(), VisitError>,
    ) -> bool
    {
        exists|mid_v: V, mid: Break, answer: Result<Step, VisitError>|
            #[trigger] break_answered::<V, D>(pre_v, *self, mid_v, mid, answer)
                && made(
                    (Call { node: Node::Break(*self), before: pre_v, after: mid_v, answer }),
                )
                && post_v == mid_v && post == mid && match answer {
                    Ok(_) => r is Ok,
                    Err(e) => r == Err::<(), VisitError>(e),
                }
    }

    /// Hands this node to [`Visitor::visit_break`]. The node has no children that the
    /// walk enters, so nothing follows the callback; its error, if any, is handed on.
    pub fn accept<V: Visitor<D>, D>(&mut self, v: &mut V) -> (r: Result<(), VisitError>)
        ensures
            final(self).depth() <= old(self).depth(),
            final(v).shared() == old(v).shared(),
            unfailing::<V, D>() ==> r is Ok,
            old(v).inert() ==> r is Ok && *final(v) == *old(v) && final(self).same_as(old(self)),
            forall|made: spec_fn(Call<V>) -> bool|
                #![trigger picked(made)]
                picked(made)
                    && (forall|mv: &mut V, node: Node, answer: Result<Step, VisitError>|
                        #[trigger] called::<V, D>(node, mv, answer) ==> made(
                            (Call { node, before: *mv, after: *final(mv), answer }),
                        ))
                    ==> old(self).accepted::<V, D>(made, *old(v), *final(v), *final(self), r),
            forall|made: spec_fn(Call<V>) -> bool|
                #![trigger picked(made)]
                picked(made)
                    && (forall|mv: &mut V, node: Node, answer: Result<Step, VisitError>|
                        #[trigger] called::<V, D>(node, mv, answer) ==> made(
                            (Call { node, before: *mv, after: *final(mv), answer }),
                        ))
                    ==> failure_was_answered(made, r),
            between(*final(v), r),
            exists|mv: &mut V, mn: &mut Break, answer: Result<Step, VisitError>|
                *mv == *old(v) && *mn == *old(self)
                    && #[trigger] call_ensures(V::visit_break, (mv, mn), answer)
                    && settled::<V, D, Break>(
                        answer,
                        r,
                        *final(mv),
                        *final(v),
                        *final(mn),
                        *final(self),
                    ),
    {
        let ghost pre_v = *v;
        let ghost pre = *self;
        let answer = v.visit_break(self);
        let ghost mid_v = *v;
        proof {
            assert(break_answered::<V, D>(pre_v, pre, *v, *self, answer));
            let (mv0, mn0) = choose|mv: &mut V, mn: &mut Break|
                *mv == pre_v && *final(mv) == mid_v && *mn == pre
                    && #[trigger] call_ensures(V::visit_break, (mv, mn), answer);
            assert(called::<V, D>(Node::Break(pre), mv0, answer));
        }
        match answer {
            Ok(Step::Descend) => {
                let r = self.visit(v);
                proof {
                    assert forall|made: spec_fn(Call<V>) -> bool|
                        #![trigger picked(made)]
                        picked(made)
                            && (forall|mv: &mut V, node: Node, answer: Result<Step, VisitError>|
                                #[trigger] called::<V, D>(node, mv, answer) ==> made(
                                    (Call { node, before: *mv, after: *final(mv), answer }),
                                ))
                        implies pre.accepted::<V, D>(made, pre_v, *v, *self, r) by {
                    }
                }
                r
            },
            Ok(Step::Prune) => {
                proof {
                    assert forall|made: spec_fn(Call<V>) -> bool|
                        #![trigger picked(made)]
                        picked(made)
                            && (forall|mv: &mut V, node: Node, answer: Result<Step, VisitError>|
                                #[trigger] called::<V, D>(node, mv, answer) ==> made(
                                    (Call { node, before: *mv, after: *final(mv), answer }),
                                ))
                        implies pre.accepted::<V, D>(
                            made,
                            pre_v,
                            *v,
                            *self,
                            Ok::<(), VisitError>(()),
                        ) by {
                    }
                }
                Ok(())
            },
            Err(e) => {
                proof {
                    assert forall|made: spec_fn(Call<V>) -> bool|
                        #![trigger picked(made)]
                        picked(made)
                            && (forall|mv: &mut V, node: Node, answer: Result<Step, VisitError>|
                                #[trigger] called::<V, D>(node, mv, answer) ==> made(
                                    (Call { node, before: *mv, after: *final(mv), answer }),
                                ))
                        implies pre.accepted::<V, D>(
                            made,
                            pre_v,
                            *v,
                            *self,
                            Err::<(), VisitError>(e),
                        ) by {
                    }
                }
                Err(e)
            },
        }
    }
}

impl Visitable for Break {
    /// Does nothing: the walk does not enter a break.
    fn visit<V: Visitor<D>, D>(&mut self, v: &mut V) -> (r: Result<(), VisitError>)
        ensures
            r is Ok,
            *final(self) == *old(self),
            *final(v) == *old(v),
    {
        Ok(())
    }
}

impl Continue {
    /// How `accept` takes this node and the visitor `pre_v` to `post` and `post_v`,
    /// with the result `r`, the calls of callbacks being among `made`: the callback for
    /// this kind is called with `pre_v` and this node, answers, and leaves `mid_v` and
    /// `mid`, which is no deeper; after [`Step::Descend`] the children of `mid` are
    /// walked from `mid_v`, after anything else nothing more happens, and an error is
    /// the result as it is.
    pub open spec fn accepted<V: Visitor<D>, D>(
        &self,
        made: spec_fn(Call<V>) -> bool,
        pre_v: V,
        post_v: V,
        post: Continue,
        r: Result<(), VisitError>,
    ) -> bool
    {
        exists|mid_v: V, mid: Continue, answer: Result<Step, VisitError>|
            #[trigger] continue_answered::<V, D>(pre_v, *self, mid_v, mid, answer)
                && made(
                    (Call { node: Node::Continue(*self), before: pre_v, after: mid_v, answer }),
                )
                && post_v == mid_v && post == mid && match answer {
                    Ok(_) => r is Ok,
                    Err(e) => r == Err::<(), VisitError>(e),
                }
    }

    /// Hands this node to [`Visitor::visit_continue`]. The node has no children that
    /// the walk enters, so nothing follows the callback; its error, if any, is handed
    /// on.
    pub fn accept<V: Visitor<D>, D>(&mut self, v: &mut V) -> (r: Result<(), VisitError>)
        ensures
            final(self).depth() <= old(self).depth(),
            final(v).shared() == old(v).shared(),
            unfailing::<V, D>() ==> r is Ok,
            old(v).inert() ==> r is Ok && *final(v) == *old(v) && final(self).same_as(old(self)),
            forall|made: spec_fn(Call<V>) -> bool|
                #![trigger picked(made)]
                picked(made)
                    && (forall|mv: &mut V, node: Node, answer: Result<Step, VisitError>|
                        #[trigger] called::<V, D>(node, mv, answer) ==> made(
                            (Call { node, before: *mv, after: *final(mv), answer }),
                        ))
                    ==> old(self).accepted::<V, D>(made, *old(v), *final(v), *final(self), r),
            forall|made: spec_fn(Call<V>) -> bool|
                #![trigger picked(made)]
                picked(made)
                    && (forall|mv: &mut V, node: Node, answer: Result<Step, VisitError>|
                        #[trigger] called::<V, D>(node, mv, answer) ==> made(
                            (Call { node, before: *mv, after: *final(mv), answer }),
                        ))
                    ==> failure_was_answered(made, r),
            between(*final(v), r),
            exists|mv: &mut V, mn: &mut Continue, answer: Result<Step, VisitError>|
                *mv == *old(v) && *mn == *old(self)
                    && #[trigger] call_ensures(V::visit_continue, (mv, mn), answer)
                    && settled::<V, D, Continue>(
                        answer,
                        r,
                        *final(mv),
                        *final(v),
                        *final(mn),
                        *final(self),
                    ),
    {
        let ghost pre_v = *v;
        let ghost pre = *self;
        let answer = v.visit_continue(self);
        let ghost mid_v = *v;
        proof {
            assert(continue_answered::<V, D>(pre_v, pre, *v, *self, answer));
            let (mv0, mn0) = choose|mv: &mut V, mn: &mut Continue|
                *mv == pre_v && *final(mv) == mid_v && *mn == pre
                    && #[trigger] call_ensures(V::visit_continue, (mv, mn), answer);
            assert(called::<V, D>(Node::Continue(pre), mv0, answer));
        }
        match answer {
            Ok(Step::Descend) => {
                let r = self.visit(v);
                proof {
                    assert forall|made: spec_fn(Call<V>) -> bool|
                        #![trigger picked(made)]
                        picked(made)
                            && (forall|mv: &mut V, node: Node, answer: Result<Step, VisitError>|
                                #[trigger] called::<V, D>(node, mv, answer) ==> made(
                                    (Call { node, before: *mv, after: *final(mv), answer }),
                                ))
                        implies pre.accepted::<V, D>(made, pre_v, *v, *self, r) by {
                    }
                }
                r
            },
            Ok(Step::Prune) => {
                proof {
                    assert forall|made: spec_fn(Call<V>) -> bool|
                        #![trigger picked(made)]
                        picked(made)
                            && (forall|mv: &mut V, node: Node, answer: Result<Step, VisitError>|
                                #[trigger] called::<V, D>(node, mv, answer) ==> made(
                                    (Call { node, before: *mv, after: *final(mv), answer }),
                                ))
                        implies pre.accepted::<V, D>(
                            made,
                            pre_v,
                            *v,
                            *self,
                            Ok::<(), VisitError>(()),
                        ) by {
                    }
                }
                Ok(())
            },
            Err(e) => {
                proof {
                    assert forall|made: spec_fn(Call<V>) -> bool|
                        #![trigger picked(made)]
                        picked(made)
                            && (forall|mv: &mut V, node: Node, answer: Result<Step, VisitError>|
                                #[trigger] called::<V, D>(node, mv, answer) ==> made(
                                    (Call { node, before: *mv, after: *final(mv), answer }),
                                ))
                        implies pre.accepted::<V, D>(
                            made,
                            pre_v,
                            *v,
                            *self,
                            Err::<(), VisitError>(e),
                        ) by {
                    }
                }
                Err(e)
            },
        }
    }
}

impl Visitable for Continue {
    /// Does nothing: the walk does not enter a continue.
    fn visit<V: Visitor<D>, D>(&mut self, v: &mut V) -> (r: Result<(), VisitError>)
        ensures
            r is Ok,
            *final(self) == *old(self),
            *final(v) == *old(v),
    {
        Ok(())
    }
}

impl DoWhileStatement {
    /// How `visit` takes this node and the visitor `pre_v` to `post` and `post_v`, with
    /// the result `r`, the calls of callbacks being among `made`: the children are
    /// walked one after the other, each from the visitor as the one before has left it;
    /// the first failure is the result, and what stands behind it is as it was. What is
    /// no child is as it was.
    pub open spec fn walked<V: Visitor<D>, D>(
        &self,
        made: spec_fn(Call<V>) -> bool,
        pre_v: V,
        post_v: V,
        post: DoWhileStatement,
        r: Result<(), VisitError>,
    ) -> bool
        decreases self.depth(), 0int, 0int,
    {
        &&& post == (DoWhileStatement { block: post.block, condition: post.condition, ..*self })
        &&& (exists|v1: V, r1: Result<(), VisitError>|
                #[trigger] between(v1, r1)
                    && self.block.walked::<V, D>(made, pre_v, v1, post.block, r1)
                    && match r1 {
                        Ok(_) => {
                            self.condition.walked::<V, D>(made, v1, post_v, post.condition, r)
                        },
                        Err(e) => {
                            &&& r == Err::<(), VisitError>(e)
                            &&& post_v == v1
                            &&& post.condition == self.condition
                        },
                    })
    }

    /// How `accept` takes this node and the visitor `pre_v` to `post` and `post_v`,
    /// with the result `r`, the calls of callbacks being among `made`: the callback for
    /// this kind is called with `pre_v` and this node, answers, and leaves `mid_v` and
    /// `mid`, which is no deeper; after [`Step::Descend`] the children of `mid` are
    /// walked from `mid_v`, after anything else nothing more happens, and an error is
    /// the result as it is.
    pub open spec fn accepted<V: Visitor<D>, D>(
        &self,
        made: spec_fn(Call<V>) -> bool,
        pre_v: V,
        post_v: V,
        post: DoWhileStatement,
        r: Result<(), VisitError>,
    ) -> bool
        decreases self.depth(), 1int, 0int,
    {
        exists|mid_v: V, mid: DoWhileStatement, answer: Result<Step, VisitError>|
            #[trigger] do_while_statement_answered::<V, D>(pre_v, *self, mid_v, mid, answer)
                && made(
                    (Call {
                        node: Node::DoWhileStatement(*self),
                        before: pre_v,
                        after: mid_v,
                        answer,
                    }),
                )
                && mid.depth() <= self.depth() && match answer {
                    Ok(Step::Descend) => mid.walked::<V, D>(made, mid_v, post_v, post, r),
                    Ok(Step::Prune) => r is Ok && post_v == mid_v && post == mid,
                    Err(e) => r == Err::<(), VisitError>(e) && post_v == mid_v && post == mid,
                }
    }

    /// Hands this node to [`Visitor::visit_do_while_statement`] and does what the
    /// callback answers: on [`Step::Descend`] it walks the children as
    /// [`Visitable::visit`] does, on [`Step::Prune`] it leaves them alone; an error is
    /// handed on.
    pub fn accept<V: Visitor<D>, D>(&mut self, v: &mut V) -> (r: Result<(), VisitError>)
        ensures
            final(self).depth() <= old(self).depth(),
            final(v).shared() == old(v).shared(),
            unfailing::<V, D>() ==> r is Ok,
            old(v).inert() ==> r is Ok && *final(v) == *old(v) && final(self).same_as(old(self)),
            forall|made: spec_fn(Call<V>) -> bool|
                #![trigger picked(made)]
                picked(made)
                    && (forall|mv: &mut V, node: Node, answer: Result<Step, VisitError>|
                        #[trigger] called::<V, D>(node, mv, answer) ==> made(
                            (Call { node, before: *mv, after: *final(mv), answer }),
                        ))
                    ==> old(self).accepted::<V, D>(made, *old(v), *final(v), *final(self), r),
            forall|made: spec_fn(Call<V>) -> bool|
                #![trigger picked(made)]
                picked(made)
                    && (forall|mv: &mut V, node: Node, answer: Result<Step, VisitError>|
                        #[trigger] called::<V, D>(node, mv, answer) ==> made(
                            (Call { node, before: *mv, after: *final(mv), answer }),
                        ))
                    ==> failure_was_answered(made, r),
            between(*final(v), r),
            exists|mv: &mut V, mn: &mut DoWhileStatement, answer: Result<Step, VisitError>|
                *mv == *old(v) && *mn == *old(self)
                    && #[trigger] call_ensures(V::visit_do_while_statement, (mv, mn), answer)
                    && settled::<V, D, DoWhileStatement>(
                        answer,
                        r,
                        *final(mv),
                        *final(v),
                        *final(mn),
                        *final(self),
                    ),
        decreases old(self).depth(), 1int,
    {
        let ghost pre_v = *v;
        let ghost pre = *self;
        let answer = v.visit_do_while_statement(self);
        let ghost mid_v = *v;
        proof {
            assert(do_while_statement_answered::<V, D>(pre_v, pre, *v, *self, answer));
            let (mv0, mn0) = choose|mv: &mut V, mn: &mut DoWhileStatement|
                *mv == pre_v && *final(mv) == mid_v && *mn == pre
                    && #[trigger] call_ensures(V::visit_do_while_statement, (mv, mn), answer);
            assert(called::<V, D>(Node::DoWhileStatement(pre), mv0, answer));
        }
        match answer {
            Ok(Step::Descend) => {
                let r = self.visit(v);
                proof {
                    assert forall|made: spec_fn(Call<V>) -> bool|
                        #![trigger picked(made)]
                        picked(made)
                            && (forall|mv: &mut V, node: Node, answer: Result<Step, VisitError>|
                                #[trigger] called::<V, D>(node, mv, answer) ==> made(
                                    (Call { node, before: *mv, after: *final(mv), answer }),
                                ))
                        implies pre.accepted::<V, D>(made, pre_v, *v, *self, r) by {
                    }
                }
                r
            },
            Ok(Step::Prune) => {
                proof {
                    assert forall|made: spec_fn(Call<V>) -> bool|
                        #![trigger picked(made)]
                        picked(made)
                            && (forall|mv: &mut V, node: Node, answer: Result<Step, VisitError>|
                                #[trigger] called::<V, D>(node, mv, answer) ==> made(
                                    (Call { node, before: *mv, after: *final(mv), answer }),
                                ))
                        implies pre.accepted::<V, D>(
                            made,
                            pre_v,
                            *v,
                            *self,
                            Ok::<(), VisitError>(()),
                        ) by {
                    }
                }
                Ok(())
            },
            Err(e) => {
                proof {
                    assert forall|made: spec_fn(Call<V>) -> bool|
                        #![trigger picked(made)]
                        picked(made)
                            && (forall|mv: &mut V, node: Node, answer: Result<Step, VisitError>|
                                #[trigger] called::<V, D>(node, mv, answer) ==> made(
                                    (Call { node, before: *mv, after: *final(mv), answer }),
                                ))
                        implies pre.accepted::<V, D>(
                            made,
                            pre_v,
                            *v,
                            *self,
                            Err::<(), VisitError>(e),
                        ) by {
                    }
                }
                Err(e)
            },
        }
    }
}

impl Visitable for DoWhileStatement {
    /// Walks the children in this order: `block`, then `condition`. The first failure
    /// ends the walk; what stands after it is left alone.
    fn visit<V: Visitor<D>, D>(&mut self, v: &mut V) -> (r: Result<(), VisitError>)
        ensures
            forall|made: spec_fn(Call<V>) -> bool|
                #![trigger picked(made)]
                picked(made)
                    && (forall|mv: &mut V, node: Node, answer: Result<Step, VisitError>|
                        #[trigger] called::<V, D>(node, mv, answer) ==> made(
                            (Call { node, before: *mv, after: *final(mv), answer }),
                        ))
                    ==> old(self).walked::<V, D>(made, *old(v), *final(v), *final(self), r),
            forall|made: spec_fn(Call<V>) -> bool|
                #![trigger picked(made)]
                picked(made)
                    && (forall|mv: &mut V, node: Node, answer: Result<Step, VisitError>|
                        #[trigger] called::<V, D>(node, mv, answer) ==> made(
                            (Call { node, before: *mv, after: *final(mv), answer }),
                        ))
                    ==> failure_was_answered(made, r),
            between(*final(v), r),
            *final(self) == (DoWhileStatement {
                block: final(self).block,
                condition: final(self).condition,
                ..*old(self)
            }),
        decreases old(self).depth(), 0int,
    {
        self.block.visit(v)?;
        self.condition.visit(v)
    }
}

impl EmitStatement {
    /// How `visit` takes this node and the visitor `pre_v` to `post` and `post_v`, with
    /// the result `r`, the calls of callbacks being among `made`: the children are
    /// walked one after the other, each from the visitor as the one before has left it;
    /// the first failure is the result, and what stands behind it is as it was. What is
    /// no child is as it was.
    pub open spec fn walked<V: Visitor<D>, D>(
        &self,
        made: spec_fn(Call<V>) -> bool,
        pre_v: V,
        post_v: V,
        post: EmitStatement,
        r: Result<(), VisitError>,
    ) -> bool
        decreases self.depth(), 0int, 0int,
    {
        &&& post == (EmitStatement { event_call: post.event_call, ..*self })
        &&& (self.event_call.walked::<V, D>(made, pre_v, post_v, post.event_call, r))
    }

    /// How `accept` takes this node and the visitor `pre_v` to `post` and `post_v`,
    /// with the result `r`, the calls of callbacks being among `made`: the callback for
    /// this kind is called with `pre_v` and this node, answers, and leaves `mid_v` and
    /// `mid`, which is no deeper; after [`Step::Descend`] the children of `mid` are
    /// walked from `mid_v`, after anything else nothing more happens, and an error is
    /// the result as it is.
    pub open spec fn accepted<V: Visitor<D>, D>(
        &self,
        made: spec_fn(Call<V>) -> bool,
        pre_v: V,
        post_v: V,
        post: EmitStatement,
        r: Result<(), VisitError>,
    ) -> bool
        decreases self.depth(), 1int, 0int,
    {
        exists|mid_v: V, mid: EmitStatement, answer: Result<Step, VisitError>|
            #[trigger] emit_statement_answered::<V, D>(pre_v, *self, mid_v, mid, answer)
                && made(
                    (Call {
                        node: Node::EmitStatement(*self),
                        before: pre_v,
                        after: mid_v,
                        answer,
                    }),
                )
                && mid.depth() <= self.depth() && match answer {
                    Ok(Step::Descend) => mid.walked::<V, D>(made, mid_v, post_v, post, r),
                    Ok(Step::Prune) => r is Ok && post_v == mid_v && post == mid,
                    Err(e) => r == Err::<(), VisitError>(e) && post_v == mid_v && post == mid,
                }
    }

    /// Hands this node to [`Visitor::visit_emit_statement`] and does what the callback
    /// answers: on [`Step::Descend`] it walks the children as [`Visitable::visit`]
    /// does, on [`Step::Prune`] it leaves them alone; an error is handed on.
    pub fn accept<V: Visitor<D>, D>(&mut self, v: &mut V) -> (r: Result<(), VisitError>)
        ensures
            final(self).depth() <= old(self).depth(),
            final(v).shared() == old(v).shared(),
            unfailing::<V, D>() ==> r is Ok,
            old(v).inert() ==> r is Ok && *final(v) == *old(v) && final(self).same_as(old(self)),
            forall|made: spec_fn(Call<V>) -> bool|
                #![trigger picked(made)]
                picked(made)
                    && (forall|mv: &mut V, node: Node, answer: Result<Step, VisitError>|
                        #[trigger] called::<V, D>(node, mv, answer) ==> made(
                            (Call { node, before: *mv, after: *final(mv), answer }),
                        ))
                    ==> old(self).accepted::<V, D>(made, *old(v), *final(v), *final(self), r),
            forall|made: spec_fn(Call<V>) -> bool|
                #![trigger picked(made)]
                picked(made)
                    && (forall|mv: &mut V, node: Node, answer: Result<Step, VisitError>|
                        #[trigger] called::<V, D>(node, mv, answer) ==> made(
                            (Call { node, before: *mv, after: *final(mv), answer }),
                        ))
                    ==> failure_was_answered(made, r),
            between(*final(v), r),
            exists|mv: &mut V, mn: &mut EmitStatement, answer: Result<Step, VisitError>|
                *mv == *old(v) && *mn == *old(self)
                    && #[trigger] call_ensures(V::visit_emit_statement, (mv, mn), answer)
                    && settled::<V, D, EmitStatement>(
                        answer,
                        r,
                        *final(mv),
                        *final(v),
                        *final(mn),
                        *final(self),
                    ),
        decreases old(self).depth(), 1int,
    {
        let ghost pre_v = *v;
        let ghost pre = *self;
        let answer = v.visit_emit_statement(self);
        let ghost mid_v = *v;
        proof {
            assert(emit_statement_answered::<V, D>(pre_v, pre, *v, *self, answer));
            let (mv0, mn0) = choose|mv: &mut V, mn: &mut EmitStatement|
                *mv == pre_v && *final(mv) == mid_v && *mn == pre
                    && #[trigger] call_ensures(V::visit_emit_statement, (mv, mn), answer);
            assert(called::<V, D>(Node::EmitStatement(pre), mv0, answer));
        }
        match answer {
            Ok(Step::Descend) => {
                let r = self.visit(v);
                proof {
                    assert forall|made: spec_fn(Call<V>) -> bool|
                        #![trigger picked(made)]
                        picked(made)
                            && (forall|mv: &mut V, node: Node, answer: Result<Step, VisitError>|
                                #[trigger] called::<V, D>(node, mv, answer) ==> made(
                                    (Call { node, before: *mv, after: *final(mv), answer }),
                                ))
                        implies pre.accepted::<V, D>(made, pre_v, *v, *self, r) by {
                    }
                }
                r
            },
            Ok(Step::Prune) => {
                proof {
                    assert forall|made: spec_fn(Call<V>) -> bool|
                        #![trigger picked(made)]
                        picked(made)
                            && (forall|mv: &mut V, node: Node, answer: Result<Step, VisitError>|
                                #[trigger] called::<V, D>(node, mv, answer) ==> made(
                                    (Call { node, before: *mv, after: *final(mv), answer }),
                                ))
                        implies pre.accepted::<V, D>(
                            made,
                            pre_v,
                            *v,
                            *self,
                            Ok::<(), VisitError>(()),
                        ) by {
                    }
                }
                Ok(())
            },
            Err(e) => {
                proof {
                    assert forall|made: spec_fn(Call<V>) -> bool|
                        #![trigger picked(made)]
                        picked(made)
                            && (forall|mv: &mut V, node: Node, answer: Result<Step, VisitError>|
                                #[trigger] called::<V, D>(node, mv, answer) ==> made(
                                    (Call { node, before: *mv, after: *final(mv), answer }),
                                ))
                        implies pre.accepted::<V, D>(
                            made,
                            pre_v,
                            *v,
                            *self,
                            Err::<(), VisitError>(e),
                        ) by {
                    }
                }
                Err(e)
            },
        }
    }
}

impl Visitable for EmitStatement {
    /// Walks `event_call`.
    fn visit<V: Visitor<D>, D>(&mut self, v: &mut V) -> (r: Result<(), VisitError>)
        ensures
            forall|made: spec_fn(Call<V>) -> bool|
                #![trigger picked(made)]
                picked(made)
                    && (forall|mv: &mut V, node: Node, answer: Result<Step, VisitError>|
                        #[trigger] called::<V, D>(node, mv, answer) ==> made(
                            (Call { node, before: *mv, after: *final(mv), answer }),
                        ))
                    ==> old(self).walked::<V, D>(made, *old(v), *final(v), *final(self), r),
            forall|made: spec_fn(Call<V>) -> bool|
                #![trigger picked(made)]
                picked(made)
                    && (forall|mv: &mut V, node: Node, answer: Result<Step, VisitError>|
                        #[trigger] called::<V, D>(node, mv, answer) ==> made(
                            (Call { node, before: *mv, after: *final(mv), answer }),
                        ))
                    ==> failure_was_answered(made, r),
            between(*final(v), r),
            *final(self) == (EmitStatement { event_call: final(self).event_call, ..*old(self) }),
        decreases old(self).depth(), 0int,
    {
        self.event_call.visit(v)
    }
}

impl ExpressionStatement {
    /// How `visit` takes this node and the visitor `pre_v` to `post` and `post_v`, with
    /// the result `r`, the calls of callbacks being among `made`: the children are
    /// walked one after the other, each from the visitor as the one before has left it;
    /// the first failure is the result, and what stands behind it is as it was. What is
    /// no child is as it was.
    pub open spec fn walked<V: Visitor<D>, D>(
        &self,
        made: spec_fn(Call<V>) -> bool,
        pre_v: V,
        post_v: V,
        post: ExpressionStatement,
        r: Result<(), VisitError>,
    ) -> bool
        decreases self.depth(), 0int, 0int,
    {
        &&& post == (ExpressionStatement { expression: post.expression, ..*self })
        &&& (self.expression.walked::<V, D>(made, pre_v, post_v, post.expression, r))
    }

    /// How `accept` takes this node and the visitor `pre_v` to `post` and `post_v`,
    /// with the result `r`, the calls of callbacks being among `made`: the callback for
    /// this kind is called with `pre_v` and this node, answers, and leaves `mid_v` and
    /// `mid`, which is no deeper; after [`Step::Descend`] the children of `mid` are
    /// walked from `mid_v`, after anything else nothing more happens, and an error is
    /// the result as it is.
    pub open spec fn accepted<V: Visitor<D>, D>(
        &self,
        made: spec_fn(Call<V>) -> bool,
        pre_v: V,
        post_v: V,
        post: ExpressionStatement,
        r: Result<(), VisitError>,
    ) -> bool
        decreases self.depth(), 1int, 0int,
    {
        exists|mid_v: V, mid: ExpressionStatement, answer: Result<Step, VisitError>|
            #[trigger] expression_statement_answered::<V, D>(pre_v, *self, mid_v, mid, answer)
                && made(
                    (Call {
                        node: Node::ExpressionStatement(*self),
                        before: pre_v,
                        after: mid_v,
                        answer,
                    }),
                )
                && mid.depth() <= self.depth() && match answer {
                    Ok(Step::Descend) => mid.walked::<V, D>(made, mid_v, post_v, post, r),
                    Ok(Step::Prune) => r is Ok && post_v == mid_v && post == mid,
                    Err(e) => r == Err::<(), VisitError>(e) && post_v == mid_v && post == mid,
                }
    }

    /// Hands this node to [`Visitor::visit_expression_statement`] and does what the
    /// callback answers: on [`Step::Descend`] it walks the children as
    /// [`Visitable::visit`] does, on [`Step::Prune`] it leaves them alone; an error is
    /// handed on.
    pub fn accept<V: Visitor<D>, D>(&mut self, v: &mut V) -> (r: Result<(), VisitError>)
        ensures
            final(self).depth() <= old(self).depth(),
            final(v).shared() == old(v).shared(),
            unfailing::<V, D>() ==> r is Ok,
            old(v).inert() ==> r is Ok && *final(v) == *old(v) && final(self).same_as(old(self)),
            forall|made: spec_fn(Call<V>) -> bool|
                #![trigger picked(made)]
                picked(made)
                    && (forall|mv: &mut V, node: Node, answer: Result<Step, VisitError>|
                        #[trigger] called::<V, D>(node, mv, answer) ==> made(
                            (Call { node, before: *mv, after: *final(mv), answer }),
                        ))
                    ==> old(self).accepted::<V, D>(made, *old(v), *final(v), *final(self), r),
            forall|made: spec_fn(Call<V>) -> bool|
                #![trigger picked(made)]
                picked(made)
                    && (forall|mv: &mut V, node: Node, answer: Result<Step, VisitError>|
                        #[trigger] called::<V, D>(node, mv, answer) ==> made(
                            (Call { node, before: *mv, after: *final(mv), answer }),
                        ))
                    ==> failure_was_answered(made, r),
            between(*final(v), r),
            exists|mv: &mut V, mn: &mut ExpressionStatement, answer: Result<Step, VisitError>|
                *mv == *old(v) && *mn == *old(self)
                    && #[trigger] call_ensures(V::visit_expression_statement, (mv, mn), answer)
                    && settled::<V, D, ExpressionStatement>(
                        answer,
                        r,
                        *final(mv),
                        *final(v),
                        *final(mn),
                        *final(self),
                    ),
        decreases old(self).depth(), 1int,
    {
        let ghost pre_v = *v;
        let ghost pre = *self;
        let answer = v.visit_expression_statement(self);
        let ghost mid_v = *v;
        proof {
            assert(expression_statement_answered::<V, D>(pre_v, pre, *v, *self, answer));
            let (mv0, mn0) = choose|mv: &mut V, mn: &mut ExpressionStatement|
                *mv == pre_v && *final(mv) == mid_v && *mn == pre
                    && #[trigger] call_ensures(V::visit_expression_statement, (mv, mn), answer);
            assert(called::<V, D>(Node::ExpressionStatement(pre), mv0, answer));
        }
        match answer {
            Ok(Step::Descend) => {
                let r = self.visit(v);
                proof {
                    assert forall|made: spec_fn(Call<V>) -> bool|
                        #![trigger picked(made)]
                        picked(made)
                            && (forall|mv: &mut V, node: Node, answer: Result<Step, VisitError>|
                                #[trigger] called::<V, D>(node, mv, answer) ==> made(
                                    (Call { node, before: *mv, after: *final(mv), answer }),
                                ))
                        implies pre.accepted::<V, D>(made, pre_v, *v, *self, r) by {
                    }
                }
                r
            },
            Ok(Step::Prune) => {
                proof {
                    assert forall|made: spec_fn(Call<V>) -> bool|
                        #![trigger picked(made)]
                        picked(made)
                            && (forall|mv: &mut V, node: Node, answer: Result<Step, VisitError>|
                                #[trigger] called::<V, D>(node, mv, answer) ==> made(
                                    (Call { node, before: *mv, after: *final(mv), answer }),
                                ))
                        implies pre.accepted::<V, D>(
                            made,
                            pre_v,
                            *v,
                            *self,
                            Ok::<(), VisitError>(()),
                        ) by {
                    }
                }
                Ok(())
            },
            Err(e) => {
                proof {
                    assert forall|made: spec_fn(Call<V>) -> bool|
                        #![trigger picked(made)]
                        picked(made)
                            && (forall|mv: &mut V, node: Node, answer: Result<Step, VisitError>|
                                #[trigger] called::<V, D>(node, mv, answer) ==> made(
                                    (Call { node, before: *mv, after: *final(mv), answer }),
                                ))
                        implies pre.accepted::<V, D>(
                            made,
                            pre_v,
                            *v,
                            *self,
                            Err::<(), VisitError>(e),
                        ) by {
                    }
                }
                Err(e)
            },
        }
    }
}

impl Visitable for ExpressionStatement {
    /// Walks `expression`.
    fn visit<V: Visitor<D>, D>(&mut self, v: &mut V) -> (r: Result<(), VisitError>)
        ensures
            forall|made: spec_fn(Call<V>) -> bool|
                #![trigger picked(made)]
                picked(made)
                    && (forall|mv: &mut V, node: Node, answer: Result<Step, VisitError>|
                        #[trigger] called::<V, D>(node, mv, answer) ==> made(
                            (Call { node, before: *mv, after: *final(mv), answer }),
                        ))
                    ==> old(self).walked::<V, D>(made, *old(v), *final(v), *final(self), r),
            forall|made: spec_fn(Call<V>) -> bool|
                #![trigger picked(made)]
                picked(made)
                    && (forall|mv: &mut V, node: Node, answer: Result<Step, VisitError>|
                        #[trigger] called::<V, D>(node, mv, answer) ==> made(
                            (Call { node, before: *mv, after: *final(mv), answer }),
                        ))
                    ==> failure_was_answered(made, r),
            between(*final(v), r),
            *final(self) == (ExpressionStatement {
                expression: final(self).expression,
                ..*old(self)
            }),
        decreases old(self).depth(), 0int,
    {
        self.expression.visit(v)
    }
}

/// How the walk takes an optional slot and the visitor `pre_v` to `post` and `post_v`,
/// with the result `r`, the calls of callbacks being among `made`: the node, if there
/// is one, is walked; an empty slot stays empty, and nothing is called.
pub open spec fn maybe_expression_statement_walked<V: Visitor<D>, D>(
    made: spec_fn(Call<V>) -> bool,
    pre: Option<ExpressionStatement>,
    pre_v: V,
    post_v: V,
    post: Option<ExpressionStatement>,
    r: Result<(), VisitError>,
) -> bool
    decreases
        (match pre {
            Some(e) => e.depth(),
            None => 0,
        }),
        2int,
        0int,
{
    match (pre, post) {
        (Some(a), Some(b)) => a.walked::<V, D>(made, pre_v, post_v, b, r),
        (None, None) => r is Ok && post_v == pre_v,
        _ => false,
    }
}

/// Walks what an optional slot holds, and does nothing if it is empty.
pub fn visit_maybe_expression_statement<V: Visitor<D>, D>(
    slot: &mut Option<ExpressionStatement>,
    v: &mut V,
) -> (r: Result<(), VisitError>)
    ensures
        forall|made: spec_fn(Call<V>) -> bool|
            #![trigger picked(made)]
            picked(made)
                && (forall|mv: &mut V, node: Node, answer: Result<Step, VisitError>|
                    #[trigger] called::<V, D>(node, mv, answer) ==> made(
                        (Call { node, before: *mv, after: *final(mv), answer }),
                    ))
                ==> maybe_expression_statement_walked::<V, D>(
                    made,
                    *old(slot),
                    *old(v),
                    *final(v),
                    *final(slot),
                    r,
                ),
        forall|made: spec_fn(Call<V>) -> bool|
            #![trigger picked(made)]
            picked(made)
                && (forall|mv: &mut V, node: Node, answer: Result<Step, VisitError>|
                    #[trigger] called::<V, D>(node, mv, answer) ==> made(
                        (Call { node, before: *mv, after: *final(mv), answer }),
                    ))
                ==> failure_was_answered(made, r),
        between(*final(v), r),
        ((*final(slot)) is Some) == ((*old(slot)) is Some),
        (match *final(slot) {
            Some(e) => e.depth(),
            None => 0,
        })
        <= (match *old(slot) {
            Some(e) => e.depth(),
            None => 0,
        }),
        final(v).shared() == old(v).shared(),
        unfailing::<V, D>() ==> r is Ok,
        old(v).inert() ==> {
            &&& r is Ok
            &&& *final(v) == *old(v)
            &&& (match (*final(slot), *old(slot)) {
                (Some(a), Some(b)) => a.same_as(&b),
                (None, None) => true,
                _ => false,
            })
        },
    decreases
        (match *old(slot) {
            Some(e) => e.depth(),
            None => 0,
        }),
        2int,
{
    match slot {
        Some(e) => e.visit(v),
        None => Ok(()),
    }
}

impl Visitable for Option<ExpressionStatement> {
    /// Walks the node if there is one, as [`visit_maybe_expression_statement`] does.
    fn visit<V: Visitor<D>, D>(&mut self, v: &mut V) -> (r: Result<(), VisitError>)
        ensures
            forall|made: spec_fn(Call<V>) -> bool|
                #![trigger picked(made)]
                picked(made)
                    && (forall|mv: &mut V, node: Node, answer: Result<Step, VisitError>|
                        #[trigger] called::<V, D>(node, mv, answer) ==> made(
                            (Call { node, before: *mv, after: *final(mv), answer }),
                        ))
                    ==> maybe_expression_statement_walked::<V, D>(
                        made,
                        *old(self),
                        *old(v),
                        *final(v),
                        *final(self),
                        r,
                    ),
            forall|made: spec_fn(Call<V>) -> bool|
                #![trigger picked(made)]
                picked(made)
                    && (forall|mv: &mut V, node: Node, answer: Result<Step, VisitError>|
                        #[trigger] called::<V, D>(node, mv, answer) ==> made(
                            (Call { node, before: *mv, after: *final(mv), answer }),
                        ))
                    ==> failure_was_answered(made, r),
            ((*final(self)) is Some) == ((*old(self)) is Some),
    {
        visit_maybe_expression_statement(self, v)
    }
}

impl ExpressionOrVariableDeclarationStatement {
    /// How `visit` takes this node and the visitor `pre_v` to `post` and `post_v`, with
    /// the result `r`, the calls of callbacks being among `made`: as `accept` does on
    /// the node inside, which keeps its kind.
    pub open spec fn walked<V: Visitor<D>, D>(
        &self,
        made: spec_fn(Call<V>) -> bool,
        pre_v: V,
        post_v: V,
        post: ExpressionOrVariableDeclarationStatement,
        r: Result<(), VisitError>,
    ) -> bool
        decreases self.depth(), 0int, 0int,
    {
        match (self, post) {
            (
                ExpressionOrVariableDeclarationStatement::ExpressionStatement(a),
                ExpressionOrVariableDeclarationStatement::ExpressionStatement(b),
            ) => a.accepted::<V, D>(made, pre_v, post_v, b, r),
            (
                ExpressionOrVariableDeclarationStatement::VariableDeclarationStatement(a),
                ExpressionOrVariableDeclarationStatement::VariableDeclarationStatement(b),
            ) => a.accepted::<V, D>(made, pre_v, post_v, b, r),
            _ => false,
        }
    }
}

impl Visitable for ExpressionOrVariableDeclarationStatement {
    /// Hands the node inside to the callback of its kind, and to no other, as `accept`
    /// on that kind does.
    fn visit<V: Visitor<D>, D>(&mut self, v: &mut V) -> (r: Result<(), VisitError>)
        ensures
            forall|made: spec_fn(Call<V>) -> bool|
                #![trigger picked(made)]
                picked(made)
                    && (forall|mv: &mut V, node: Node, answer: Result<Step, VisitError>|
                        #[trigger] called::<V, D>(node, mv, answer) ==> made(
                            (Call { node, before: *mv, after: *final(mv), answer }),
                        ))
                    ==> old(self).walked::<V, D>(made, *old(v), *final(v), *final(self), r),
            forall|made: spec_fn(Call<V>) -> bool|
                #![trigger picked(made)]
                picked(made)
                    && (forall|mv: &mut V, node: Node, answer: Result<Step, VisitError>|
                        #[trigger] called::<V, D>(node, mv, answer) ==> made(
                            (Call { node, before: *mv, after: *final(mv), answer }),
                        ))
                    ==> failure_was_answered(made, r),
            between(*final(v), r),
            *old(self) matches ExpressionOrVariableDeclarationStatement::ExpressionStatement(n)
                ==> ((*final(self)) is ExpressionStatement
                && exists|
                    mv: &mut V,
                    mn: &mut ExpressionStatement,
                    answer: Result<Step, VisitError>,
                |
                    *mv == *old(v) && *mn == n
                        && #[trigger] call_ensures(V::visit_expression_statement, (mv, mn), answer)
                        && settled::<V, D, ExpressionStatement>(
                            answer,
                            r,
                            *final(mv),
                            *final(v),
                            *final(mn),
                            (*final(self))->ExpressionStatement_0,
                        )),
            *old(self) matches ExpressionOrVariableDeclarationStatement::VariableDeclarationStatement(n)
                ==> ((*final(self)) is VariableDeclarationStatement
                && exists|
                    mv: &mut V,
                    mn: &mut VariableDeclarationStatement,
                    answer: Result<Step, VisitError>,
                |
                    *mv == *old(v) && *mn == n
                        && #[trigger] call_ensures(
                            V::visit_variable_declaration_statement,
                            (mv, mn),
                            answer,
                        )
                        && settled::<V, D, VariableDeclarationStatement>(
                            answer,
                            r,
                            *final(mv),
                            *final(v),
                            *final(mn),
                            (*final(self))->VariableDeclarationStatement_0,
                        )),
        decreases old(self).depth(), 0int,
    {
        match self {
            ExpressionOrVariableDeclarationStatement::ExpressionStatement(e) => e.accept(v),
            ExpressionOrVariableDeclarationStatement::VariableDeclarationStatement(
                e,
            ) => e.accept(v),
        }
    }
}

/// How the walk takes an optional slot and the visitor `pre_v` to `post` and `post_v`,
/// with the result `r`, the calls of callbacks being among `made`: the node, if there
/// is one, is walked; an empty slot stays empty, and nothing is called.
pub open spec fn maybe_expression_or_variable_declaration_statement_walked<V: Visitor<D>, D>(
    made: spec_fn(Call<V>) -> bool,
    pre: Option<ExpressionOrVariableDeclarationStatement>,
    pre_v: V,
    post_v: V,
    post: Option<ExpressionOrVariableDeclarationStatement>,
    r: Result<(), VisitError>,
) -> bool
    decreases
        (match pre {
            Some(e) => e.depth(),
            None => 0,
        }),
        2int,
        0int,
{
    match (pre, post) {
        (Some(a), Some(b)) => a.walked::<V, D>(made, pre_v, post_v, b, r),
        (None, None) => r is Ok && post_v == pre_v,
        _ => false,
    }
}

/// Walks what an optional slot holds, and does nothing if it is empty.
pub fn visit_maybe_expression_or_variable_declaration_statement<V: Visitor<D>, D>(
    slot: &mut Option<ExpressionOrVariableDeclarationStatement>,
    v: &mut V,
) -> (r: Result<(), VisitError>)
    ensures
        forall|made: spec_fn(Call<V>) -> bool|
            #![trigger picked(made)]
            picked(made)
                && (forall|mv: &mut V, node: Node, answer: Result<Step, VisitError>|
                    #[trigger] called::<V, D>(node, mv, answer) ==> made(
                        (Call { node, before: *mv, after: *final(mv), answer }),
                    ))
                ==> maybe_expression_or_variable_declaration_statement_walked::<V, D>(
                    made,
                    *old(slot),
                    *old(v),
                    *final(v),
                    *final(slot),
                    r,
                ),
        forall|made: spec_fn(Call<V>) -> bool|
            #![trigger picked(made)]
            picked(made)
                && (forall|mv: &mut V, node: Node, answer: Result<Step, VisitError>|
                    #[trigger] called::<V, D>(node, mv, answer) ==> made(
                        (Call { node, before: *mv, after: *final(mv), answer }),
                    ))
                ==> failure_was_answered(made, r),
        between(*final(v), r),
        ((*final(slot)) is Some) == ((*old(slot)) is Some),
        (match *final(slot) {
            Some(e) => e.depth(),
            None => 0,
        })
        <= (match *old(slot) {
            Some(e) => e.depth(),
            None => 0,
        }),
        final(v).shared() == old(v).shared(),
        unfailing::<V, D>() ==> r is Ok,
        old(v).inert() ==> {
            &&& r is Ok
            &&& *final(v) == *old(v)
            &&& (match (*final(slot), *old(slot)) {
                (Some(a), Some(b)) => a.same_as(&b),
                (None, None) => true,
                _ => false,
            })
        },
    decreases
        (match *old(slot) {
            Some(e) => e.depth(),
            None => 0,
        }),
        2int,
{
    match slot {
        Some(e) => e.visit(v),
        None => Ok(()),
    }
}

impl Visitable for Option<ExpressionOrVariableDeclarationStatement> {
    /// Walks the node if there is one, as
    /// [`visit_maybe_expression_or_variable_declaration_statement`] does.
    fn visit<V: Visitor<D>, D>(&mut self, v: &mut V) -> (r: Result<(), VisitError>)
        ensures
            forall|made: spec_fn(Call<V>) -> bool|
                #![trigger picked(made)]
                picked(made)
                    && (forall|mv: &mut V, node: Node, answer: Result<Step, VisitError>|
                        #[trigger] called::<V, D>(node, mv, answer) ==> made(
                            (Call { node, before: *mv, after: *final(mv), answer }),
                        ))
                    ==> maybe_expression_or_variable_declaration_statement_walked::<V, D>(
                        made,
                        *old(self),
                        *old(v),
                        *final(v),
                        *final(self),
                        r,
                    ),
            forall|made: spec_fn(Call<V>) -> bool|
                #![trigger picked(made)]
                picked(made)
                    && (forall|mv: &mut V, node: Node, answer: Result<Step, VisitError>|
                        #[trigger] called::<V, D>(node, mv, answer) ==> made(
                            (Call { node, before: *mv, after: *final(mv), answer }),
                        ))
                    ==> failure_was_answered(made, r),
            ((*final(self)) is Some) == ((*old(self)) is Some),
    {
        visit_maybe_expression_or_variable_declaration_statement(self, v)
    }
}

impl ForStatement {
    /// How `visit` takes this node and the visitor `pre_v` to `post` and `post_v`, with
    /// the result `r`, the calls of callbacks being among `made`: the children are
    /// walked one after the other, each from the visitor as the one before has left it;
    /// the first failure is the result, and what stands behind it is as it was. What is
    /// no child is as it was.
    pub open spec fn walked<V: Visitor<D>, D>(
        &self,
        made: spec_fn(Call<V>) -> bool,
        pre_v: V,
        post_v: V,
        post: ForStatement,
        r: Result<(), VisitError>,
    ) -> bool
        decreases self.depth(), 0int, 0int,
    {
        &&& post == (ForStatement {
            body: post.body,
            condition: post.condition,
            initialization_expression: post.initialization_expression,
            loop_expression: post.loop_expression,
            ..*self
        })
        &&& (exists|v1: V, r1: Result<(), VisitError>|
                #[trigger] between(v1, r1)
                    && self.body.walked::<V, D>(made, pre_v, v1, post.body, r1)
                    && match r1 {
                        Ok(_) => {
                            exists|v2: V, r2: Result<(), VisitError>|
                                #[trigger] between(v2, r2)
                                    && maybe_expression_walked::<V, D>(
                                        made,
                                        self.condition,
                                        v1,
                                        v2,
                                        post.condition,
                                        r2,
                                    )
                                    && match r2 {
                                        Ok(_) => {
                                            exists|v3: V, r3: Result<(), VisitError>|
                                                #[trigger] between(v3, r3)
                                                    && maybe_expression_or_variable_declaration_statement_walked::<V, D>(made, self.initialization_expression, v2, v3, post.initialization_expression, r3)
                                                    && match r3 {
                                                        Ok(_) => {
                                                            maybe_expression_statement_walked::<V, D>(made, self.loop_expression, v3, post_v, post.loop_expression, r)
                                                        },
                                                        Err(e) => {
                                                            &&& r == Err::<(), VisitError>(e)
                                                            &&& post_v == v3
                                                            &&& post.loop_expression == self.loop_expression
                                                        },
                                                    }
                                        },
                                        Err(e) => {
                                            &&& r == Err::<(), VisitError>(e)
                                            &&& post_v == v2
                                            &&& post.initialization_expression == self.initialization_expression
                                            &&& post.loop_expression == self.loop_expression
                                        },
                                    }
                        },
                        Err(e) => {
                            &&& r == Err::<(), VisitError>(e)
                            &&& post_v == v1
                            &&& post.condition == self.condition
                            &&& post.initialization_expression == self.initialization_expression
                            &&& post.loop_expression == self.loop_expression
                        },
                    })
    }

    /// How `accept` takes this node and the visitor `pre_v` to `post` and `post_v`,
    /// with the result `r`, the calls of callbacks being among `made`: the callback for
    /// this kind is called with `pre_v` and this node, answers, and leaves `mid_v` and
    /// `mid`, which is no deeper; after [`Step::Descend`] the children of `mid` are
    /// walked from `mid_v`, after anything else nothing more happens, and an error is
    /// the result as it is.
    pub open spec fn accepted<V: Visitor<D>, D>(
        &self,
        made: spec_fn(Call<V>) -> bool,
        pre_v: V,
        post_v: V,
        post: ForStatement,
        r: Result<(), VisitError>,
    ) -> bool
        decreases self.depth(), 1int, 0int,
    {
        exists|mid_v: V, mid: ForStatement, answer: Result<Step, VisitError>|
            #[trigger] for_statement_answered::<V, D>(pre_v, *self, mid_v, mid, answer)
                && made(
                    (Call { node: Node::ForStatement(*self), before: pre_v, after: mid_v, answer }),
                )
                && mid.depth() <= self.depth() && match answer {
                    Ok(Step::Descend) => mid.walked::<V, D>(made, mid_v, post_v, post, r),
                    Ok(Step::Prune) => r is Ok && post_v == mid_v && post == mid,
                    Err(e) => r == Err::<(), VisitError>(e) && post_v == mid_v && post == mid,
                }
    }

    /// Hands this node to [`Visitor::visit_for_statement`] and does what the callback
    /// answers: on [`Step::Descend`] it walks the children as [`Visitable::visit`]
    /// does, on [`Step::Prune`] it leaves them alone; an error is handed on.
    pub fn accept<V: Visitor<D>, D>(&mut self, v: &mut V) -> (r: Result<(), VisitError>)
        ensures
            final(self).depth() <= old(self).depth(),
            final(v).shared() == old(v).shared(),
            unfailing::<V, D>() ==> r is Ok,
            old(v).inert() ==> r is Ok && *final(v) == *old(v) && final(self).same_as(old(self)),
            forall|made: spec_fn(Call<V>) -> bool|
                #![trigger picked(made)]
                picked(made)
                    && (forall|mv: &mut V, node: Node, answer: Result<Step, VisitError>|
                        #[trigger] called::<V, D>(node, mv, answer) ==> made(
                            (Call { node, before: *mv, after: *final(mv), answer }),
                        ))
                    ==> old(self).accepted::<V, D>(made, *old(v), *final(v), *final(self), r),
            forall|made: spec_fn(Call<V>) -> bool|
                #![trigger picked(made)]
                picked(made)
                    && (forall|mv: &mut V, node: Node, answer: Result<Step, VisitError>|
                        #[trigger] called::<V, D>(node, mv, answer) ==> made(
                            (Call { node, before: *mv, after: *final(mv), answer }),
                        ))
                    ==> failure_was_answered(made, r),
            between(*final(v), r),
            exists|mv: &mut V, mn: &mut ForStatement, answer: Result<Step, VisitError>|
                *mv == *old(v) && *mn == *old(self)
                    && #[trigger] call_ensures(V::visit_for_statement, (mv, mn), answer)
                    && settled::<V, D, ForStatement>(
                        answer,
                        r,
                        *final(mv),
                        *final(v),
                        *final(mn),
                        *final(self),
                    ),
        decreases old(self).depth(), 1int,
    {
        let ghost pre_v = *v;
        let ghost pre = *self;
        let answer = v.visit_for_statement(self);
        let ghost mid_v = *v;
        proof {
            assert(for_statement_answered::<V, D>(pre_v, pre, *v, *self, answer));
            let (mv0, mn0) = choose|mv: &mut V, mn: &mut ForStatement|
                *mv == pre_v && *final(mv) == mid_v && *mn == pre
                    && #[trigger] call_ensures(V::visit_for_statement, (mv, mn), answer);
            assert(called::<V, D>(Node::ForStatement(pre), mv0, answer));
        }
        match answer {
            Ok(Step::Descend) => {
                let r = self.visit(v);
                proof {
                    assert forall|made: spec_fn(Call<V>) -> bool|
                        #![trigger picked(made)]
                        picked(made)
                            && (forall|mv: &mut V, node: Node, answer: Result<Step, VisitError>|
                                #[trigger] called::<V, D>(node, mv, answer) ==> made(
                                    (Call { node, before: *mv, after: *final(mv), answer }),
                                ))
                        implies pre.accepted::<V, D>(made, pre_v, *v, *self, r) by {
                    }
                }
                r
            },
            Ok(Step::Prune) => {
                proof {
                    assert forall|made: spec_fn(Call<V>) -> bool|
                        #![trigger picked(made)]
                        picked(made)
                            && (forall|mv: &mut V, node: Node, answer: Result<Step, VisitError>|
                                #[trigger] called::<V, D>(node, mv, answer) ==> made(
                                    (Call { node, before: *mv, after: *final(mv), answer }),
                                ))
                        implies pre.accepted::<V, D>(
                            made,
                            pre_v,
                            *v,
                            *self,
                            Ok::<(), VisitError>(()),
                        ) by {
                    }
                }
                Ok(())
            },
            Err(e) => {
                proof {
                    assert forall|made: spec_fn(Call<V>) -> bool|
                        #![trigger picked(made)]
                        picked(made)
                            && (forall|mv: &mut V, node: Node, answer: Result<Step, VisitError>|
                                #[trigger] called::<V, D>(node, mv, answer) ==> made(
                                    (Call { node, before: *mv, after: *final(mv), answer }),
                                ))
                        implies pre.accepted::<V, D>(
                            made,
                            pre_v,
                            *v,
                            *self,
                            Err::<(), VisitError>(e),
                        ) by {
                    }
                }
                Err(e)
            },
        }
    }
}

impl Visitable for ForStatement {
    /// Walks the children in this order: `body`, then `condition`, then
    /// `initialization_expression`, then `loop_expression`. The first failure ends the
    /// walk; what stands after it is left alone.
    fn visit<V: Visitor<D>, D>(&mut self, v: &mut V) -> (r: Result<(), VisitError>)
        ensures
            forall|made: spec_fn(Call<V>) -> bool|
                #![trigger picked(made)]
                picked(made)
                    && (forall|mv: &mut V, node: Node, answer: Result<Step, VisitError>|
                        #[trigger] called::<V, D>(node, mv, answer) ==> made(
                            (Call { node, before: *mv, after: *final(mv), answer }),
                        ))
                    ==> old(self).walked::<V, D>(made, *old(v), *final(v), *final(self), r),
            forall|made: spec_fn(Call<V>) -> bool|
                #![trigger picked(made)]
                picked(made)
                    && (forall|mv: &mut V, node: Node, answer: Result<Step, VisitError>|
                        #[trigger] called::<V, D>(node, mv, answer) ==> made(
                            (Call { node, before: *mv, after: *final(mv), answer }),
                        ))
                    ==> failure_was_answered(made, r),
            between(*final(v), r),
            *final(self) == (ForStatement {
                body: final(self).body,
                condition: final(self).condition,
                initialization_expression: final(self).initialization_expression,
                loop_expression: final(self).loop_expression,
                ..*old(self)
            }),
            (final(self).condition is Some) == (old(self).condition is Some),
            (final(self).initialization_expression is Some)
                == (old(self).initialization_expression is Some),
            (final(self).loop_expression is Some) == (old(self).loop_expression is Some),
        decreases old(self).depth(), 0int,
    {
        self.body.visit(v)?;
        visit_maybe_expression(&mut self.condition, v)?;
        visit_maybe_expression_or_variable_declaration_statement(
            &mut self.initialization_expression,
            v,
        )?;
        visit_maybe_expression_statement(&mut self.loop_expression, v)
    }
}

impl IfStatement {
    /// How `visit` takes this node and the visitor `pre_v` to `post` and `post_v`, with
    /// the result `r`, the calls of callbacks being among `made`: the children are
    /// walked one after the other, each from the visitor as the one before has left it;
    /// the first failure is the result, and what stands behind it is as it was. What is
    /// no child is as it was.
    pub open spec fn walked<V: Visitor<D>, D>(
        &self,
        made: spec_fn(Call<V>) -> bool,
        pre_v: V,
        post_v: V,
        post: IfStatement,
        r: Result<(), VisitError>,
    ) -> bool
        decreases self.depth(), 0int, 0int,
    {
        &&& post == (IfStatement {
            condition: post.condition,
            false_body: post.false_body,
            true_body: post.true_body,
            ..*self
        })
        &&& (exists|v1: V, r1: Result<(), VisitError>|
                #[trigger] between(v1, r1)
                    && self.condition.walked::<V, D>(made, pre_v, v1, post.condition, r1)
                    && match r1 {
                        Ok(_) => {
                            exists|v2: V, r2: Result<(), VisitError>|
                                #[trigger] between(v2, r2)
                                    && maybe_block_or_statement_walked::<V, D>(
                                        made,
                                        self.false_body,
                                        v1,
                                        v2,
                                        post.false_body,
                                        r2,
                                    )
                                    && match r2 {
                                        Ok(_) => {
                                            self.true_body.walked::<V, D>(
                                                made,
                                                v2,
                                                post_v,
                                                post.true_body,
                                                r,
                                            )
                                        },
                                        Err(e) => {
                                            &&& r == Err::<(), VisitError>(e)
                                            &&& post_v == v2
                                            &&& post.true_body == self.true_body
                                        },
                                    }
                        },
                        Err(e) => {
                            &&& r == Err::<(), VisitError>(e)
                            &&& post_v == v1
                            &&& post.false_body == self.false_body
                            &&& post.true_body == self.true_body
                        },
                    })
    }

    /// How `accept` takes this node and the visitor `pre_v` to `post` and `post_v`,
    /// with the result `r`, the calls of callbacks being among `made`: the callback for
    /// this kind is called with `pre_v` and this node, answers, and leaves `mid_v` and
    /// `mid`, which is no deeper; after [`Step::Descend`] the children of `mid` are
    /// walked from `mid_v`, after anything else nothing more happens, and an error is
    /// the result as it is.
    pub open spec fn accepted<V: Visitor<D>, D>(
        &self,
        made: spec_fn(Call<V>) -> bool,
        pre_v: V,
        post_v: V,
        post: IfStatement,
        r: Result<(), VisitError>,
    ) -> bool
        decreases self.depth(), 1int, 0int,
    {
        exists|mid_v: V, mid: IfStatement, answer: Result<Step, VisitError>|
            #[trigger] if_statement_answered::<V, D>(pre_v, *self, mid_v, mid, answer)
                && made(
                    (Call { node: Node::IfStatement(*self), before: pre_v, after: mid_v, answer }),
                )
                && mid.depth() <= self.depth() && match answer {
                    Ok(Step::Descend) => mid.walked::<V, D>(made, mid_v, post_v, post, r),
                    Ok(Step::Prune) => r is Ok && post_v == mid_v && post == mid,
                    Err(e) => r == Err::<(), VisitError>(e) && post_v == mid_v && post == mid,
                }
    }

    /// Hands this node to [`Visitor::visit_if_statement`] and does what the callback
    /// answers: on [`Step::Descend`] it walks the children as [`Visitable::visit`]
    /// does, on [`Step::Prune`] it leaves them alone; an error is handed on.
    pub fn accept<V: Visitor<D>, D>(&mut self, v: &mut V) -> (r: Result<(), VisitError>)
        ensures
            final(self).depth() <= old(self).depth(),
            final(v).shared() == old(v).shared(),
            unfailing::<V, D>() ==> r is Ok,
            old(v).inert() ==> r is Ok && *final(v) == *old(v) && final(self).same_as(old(self)),
            forall|made: spec_fn(Call<V>) -> bool|
                #![trigger picked(made)]
                picked(made)
                    && (forall|mv: &mut V, node: Node, answer: Result<Step, VisitError>|
                        #[trigger] called::<V, D>(node, mv, answer) ==> made(
                            (Call { node, before: *mv, after: *final(mv), answer }),
                        ))
                    ==> old(self).accepted::<V, D>(made, *old(v), *final(v), *final(self), r),
            forall|made: spec_fn(Call<V>) -> bool|
                #![trigger picked(made)]
                picked(made)
                    && (forall|mv: &mut V, node: Node, answer: Result<Step, VisitError>|
                        #[trigger] called::<V, D>(node, mv, answer) ==> made(
                            (Call { node, before: *mv, after: *final(mv), answer }),
                        ))
                    ==> failure_was_answered(made, r),
            between(*final(v), r),
            exists|mv: &mut V, mn: &mut IfStatement, answer: Result<Step, VisitError>|
                *mv == *old(v) && *mn == *old(self)
                    && #[trigger] call_ensures(V::visit_if_statement, (mv, mn), answer)
                    && settled::<V, D, IfStatement>(
                        answer,
                        r,
                        *final(mv),
                        *final(v),
                        *final(mn),
                        *final(self),
                    ),
        decreases old(self).depth(), 1int,
    {
        let ghost pre_v = *v;
        let ghost pre = *self;
        let answer = v.visit_if_statement(self);
        let ghost mid_v = *v;
        proof {
            assert(if_statement_answered::<V, D>(pre_v, pre, *v, *self, answer));
            let (mv0, mn0) = choose|mv: &mut V, mn: &mut IfStatement|
                *mv == pre_v && *final(mv) == mid_v && *mn == pre
                    && #[trigger] call_ensures(V::visit_if_statement, (mv, mn), answer);
            assert(called::<V, D>(Node::IfStatement(pre), mv0, answer));
        }
        match answer {
            Ok(Step::Descend) => {
                let r = self.visit(v);
                proof {
                    assert forall|made: spec_fn(Call<V>) -> bool|
                        #![trigger picked(made)]
                        picked(made)
                            && (forall|mv: &mut V, node: Node, answer: Result<Step, VisitError>|
                                #[trigger] called::<V, D>(node, mv, answer) ==> made(
                                    (Call { node, before: *mv, after: *final(mv), answer }),
                                ))
                        implies pre.accepted::<V, D>(made, pre_v, *v, *self, r) by {
                    }
                }
                r
            },
            Ok(Step::Prune) => {
                proof {
                    assert forall|made: spec_fn(Call<V>) -> bool|
                        #![trigger picked(made)]
                        picked(made)
                            && (forall|mv: &mut V, node: Node, answer: Result<Step, VisitError>|
                                #[trigger] called::<V, D>(node, mv, answer) ==> made(
                                    (Call { node, before: *mv, after: *final(mv), answer }),
                                ))
                        implies pre.accepted::<V, D>(
                            made,
                            pre_v,
                            *v,
                            *self,
                            Ok::<(), VisitError>(()),
                        ) by {
                    }
                }
                Ok(())
            },
            Err(e) => {
                proof {
                    assert forall|made: spec_fn(Call<V>) -> bool|
                        #![trigger picked(made)]
                        picked(made)
                            && (forall|mv: &mut V, node: Node, answer: Result<Step, VisitError>|
                                #[trigger] called::<V, D>(node, mv, answer) ==> made(
                                    (Call { node, before: *mv, after: *final(mv), answer }),
                                ))
                        implies pre.accepted::<V, D>(
                            made,
                            pre_v,
                            *v,
                            *self,
                            Err::<(), VisitError>(e),
                        ) by {
                    }
                }
                Err(e)
            },
        }
    }
}

impl Visitable for IfStatement {
    /// Walks the children in this order: `condition`, then `false_body`, then
    /// `true_body`. The first failure ends the walk; what stands after it is left
    /// alone.
    ///
    /// The else branch, if there is one, comes before the then branch.
    fn visit<V: Visitor<D>, D>(&mut self, v: &mut V) -> (r: Result<(), VisitError>)
        ensures
            forall|made: spec_fn(Call<V>) -> bool|
                #![trigger picked(made)]
                picked(made)
                    && (forall|mv: &mut V, node: Node, answer: Result<Step, VisitError>|
                        #[trigger] called::<V, D>(node, mv, answer) ==> made(
                            (Call { node, before: *mv, after: *final(mv), answer }),
                        ))
                    ==> old(self).walked::<V, D>(made, *old(v), *final(v), *final(self), r),
            forall|made: spec_fn(Call<V>) -> bool|
                #![trigger picked(made)]
                picked(made)
                    && (forall|mv: &mut V, node: Node, answer: Result<Step, VisitError>|
                        #[trigger] called::<V, D>(node, mv, answer) ==> made(
                            (Call { node, before: *mv, after: *final(mv), answer }),
                        ))
                    ==> failure_was_answered(made, r),
            between(*final(v), r),
            *final(self) == (IfStatement {
                condition: final(self).condition,
                false_body: final(self).false_body,
                true_body: final(self).true_body,
                ..*old(self)
            }),
            (final(self).false_body is Some) == (old(self).false_body is Some),
        decreases old(self).depth(), 0int,
    {
        self.condition.visit(v)?;
        visit_maybe_block_or_statement(&mut self.false_body, v)?;
        self.true_body.visit(v)
    }
}

impl InlineAssembly {
    /// How `visit` takes this node and the visitor `pre_v` to `post` and `post_v`, with
    /// the result `r`, the calls of callbacks being among `made`: the children are
    /// walked one after the other, each from the visitor as the one before has left it;
    /// the first failure is the result, and what stands behind it is as it was. What is
    /// no child is as it was.
    pub open spec fn walked<V: Visitor<D>, D>(
        &self,
        made: spec_fn(Call<V>) -> bool,
        pre_v: V,
        post_v: V,
        post: InlineAssembly,
        r: Result<(), VisitError>,
    ) -> bool
        decreases self.depth(), 0int, 0int,
    {
        &&& post == (InlineAssembly { ast: post.ast, ..*self })
        &&& (self.ast.walked::<V, D>(made, pre_v, post_v, post.ast, r))
    }

    /// How `accept` takes this node and the visitor `pre_v` to `post` and `post_v`,
    /// with the result `r`, the calls of callbacks being among `made`: the callback for
    /// this kind is called with `pre_v` and this node, answers, and leaves `mid_v` and
    /// `mid`, which is no deeper; after [`Step::Descend`] the children of `mid` are
    /// walked from `mid_v`, after anything else nothing more happens, and an error is
    /// the result as it is.
    pub open spec fn accepted<V: Visitor<D>, D>(
        &self,
        made: spec_fn(Call<V>) -> bool,
        pre_v: V,
        post_v: V,
        post: InlineAssembly,
        r: Result<(), VisitError>,
    ) -> bool
        decreases self.depth(), 1int, 0int,
    {
        exists|mid_v: V, mid: InlineAssembly, answer: Result<Step, VisitError>|
            #[trigger] inline_assembly_answered::<V, D>(pre_v, *self, mid_v, mid, answer)
                && made(
                    (Call {
                        node: Node::InlineAssembly(*self),
                        before: pre_v,
                        after: mid_v,
                        answer,
                    }),
                )
                && mid.depth() <= self.depth() && match answer {
                    Ok(Step::Descend) => mid.walked::<V, D>(made, mid_v, post_v, post, r),
                    Ok(Step::Prune) => r is Ok && post_v == mid_v && post == mid,
                    Err(e) => r == Err::<(), VisitError>(e) && post_v == mid_v && post == mid,
                }
    }

    /// Hands this node to [`Visitor::visit_inline_assembly`] and does what the callback
    /// answers: on [`Step::Descend`] it walks the children as [`Visitable::visit`]
    /// does, on [`Step::Prune`] it leaves them alone; an error is handed on.
    pub fn accept<V: Visitor<D>, D>(&mut self, v: &mut V) -> (r: Result<(), VisitError>)
        ensures
            final(self).depth() <= old(self).depth(),
            final(v).shared() == old(v).shared(),
            unfailing::<V, D>() ==> r is Ok,
            old(v).inert() ==> r is Ok && *final(v) == *old(v) && final(self).same_as(old(self)),
            forall|made: spec_fn(Call<V>) -> bool|
                #![trigger picked(made)]
                picked(made)
                    && (forall|mv: &mut V, node: Node, answer: Result<Step, VisitError>|
                        #[trigger] called::<V, D>(node, mv, answer) ==> made(
                            (Call { node, before: *mv, after: *final(mv), answer }),
                        ))
                    ==> old(self).accepted::<V, D>(made, *old(v), *final(v), *final(self), r),
            forall|made: spec_fn(Call<V>) -> bool|
                #![trigger picked(made)]
                picked(made)
                    && (forall|mv: &mut V, node: Node, answer: Result<Step, VisitError>|
                        #[trigger] called::<V, D>(node, mv, answer) ==> made(
                            (Call { node, before: *mv, after: *final(mv), answer }),
                        ))
                    ==> failure_was_answered(made, r),
            between(*final(v), r),
            exists|mv: &mut V, mn: &mut InlineAssembly, answer: Result<Step, VisitError>|
                *mv == *old(v) && *mn == *old(self)
                    && #[trigger] call_ensures(V::visit_inline_assembly, (mv, mn), answer)
                    && settled::<V, D, InlineAssembly>(
                        answer,
                        r,
                        *final(mv),
                        *final(v),
                        *final(mn),
                        *final(self),
                    ),
        decreases old(self).depth(), 1int,
    {
        let ghost pre_v = *v;
        let ghost pre = *self;
        let answer = v.visit_inline_assembly(self);
        let ghost mid_v = *v;
        proof {
            assert(inline_assembly_answered::<V, D>(pre_v, pre, *v, *self, answer));
            let (mv0, mn0) = choose|mv: &mut V, mn: &mut InlineAssembly|
                *mv == pre_v && *final(mv) == mid_v && *mn == pre
                    && #[trigger] call_ensures(V::visit_inline_assembly, (mv, mn), answer);
            assert(called::<V, D>(Node::InlineAssembly(pre), mv0, answer));
        }
        match answer {
            Ok(Step::Descend) => {
                let r = self.visit(v);
                proof {
                    assert forall|made: spec_fn(Call<V>) -> bool|
                        #![trigger picked(made)]
                        picked(made)
                            && (forall|mv: &mut V, node: Node, answer: Result<Step, VisitError>|
                                #[trigger] called::<V, D>(node, mv, answer) ==> made(
                                    (Call { node, before: *mv, after: *final(mv), answer }),
                                ))
                        implies pre.accepted::<V, D>(made, pre_v, *v, *self, r) by {
                    }
                }
                r
            },
            Ok(Step::Prune) => {
                proof {
                    assert forall|made: spec_fn(Call<V>) -> bool|
                        #![trigger picked(made)]
                        picked(made)
                            && (forall|mv: &mut V, node: Node, answer: Result<Step, VisitError>|
                                #[trigger] called::<V, D>(node, mv, answer) ==> made(
                                    (Call { node, before: *mv, after: *final(mv), answer }),
                                ))
                        implies pre.accepted::<V, D>(
                            made,
                            pre_v,
                            *v,
                            *self,
                            Ok::<(), VisitError>(()),
                        ) by {
                    }
                }
                Ok(())
            },
            Err(e) => {
                proof {
                    assert forall|made: spec_fn(Call<V>) -> bool|
                        #![trigger picked(made)]
                        picked(made)
                            && (forall|mv: &mut V, node: Node, answer: Result<Step, VisitError>|
                                #[trigger] called::<V, D>(node, mv, answer) ==> made(
                                    (Call { node, before: *mv, after: *final(mv), answer }),
                                ))
                        implies pre.accepted::<V, D>(
                            made,
                            pre_v,
                            *v,
                            *self,
                            Err::<(), VisitError>(e),
                        ) by {
                    }
                }
                Err(e)
            },
        }
    }
}

impl Visitable for InlineAssembly {
    /// Walks `ast`.
    fn visit<V: Visitor<D>, D>(&mut self, v: &mut V) -> (r: Result<(), VisitError>)
        ensures
            forall|made: spec_fn(Call<V>) -> bool|
                #![trigger picked(made)]
                picked(made)
                    && (forall|mv: &mut V, node: Node, answer: Result<Step, VisitError>|
                        #[trigger] called::<V, D>(node, mv, answer) ==> made(
                            (Call { node, before: *mv, after: *final(mv), answer }),
                        ))
                    ==> old(self).walked::<V, D>(made, *old(v), *final(v), *final(self), r),
            forall|made: spec_fn(Call<V>) -> bool|
                #![trigger picked(made)]
                picked(made)
                    && (forall|mv: &mut V, node: Node, answer: Result<Step, VisitError>|
                        #[trigger] called::<V, D>(node, mv, answer) ==> made(
                            (Call { node, before: *mv, after: *final(mv), answer }),
                        ))
                    ==> failure_was_answered(made, r),
            between(*final(v), r),
            *final(self) == (InlineAssembly { ast: final(self).ast, ..*old(self) }),
        decreases old(self).depth(), 0int,
    {
        self.ast.visit(v)
    }
}

impl PlaceholderStatement {
    /// How `accept` takes this node and the visitor `pre_v` to `post` and `post_v`,
    /// with the result `r`, the calls of callbacks being among `made`: the callback for
    /// this kind is called with `pre_v` and this node, answers, and leaves `mid_v` and
    /// `mid`, which is no deeper; after [`Step::Descend`] the children of `mid` are
    /// walked from `mid_v`, after anything else nothing more happens, and an error is
    /// the result as it is.
    pub open spec fn accepted<V: Visitor<D>, D>(
        &self,
        made: spec_fn(Call<V>) -> bool,
        pre_v: V,
        post_v: V,
        post: PlaceholderStatement,
        r: Result<(), VisitError>,
    ) -> bool
    {
        exists|mid_v: V, mid: PlaceholderStatement, answer: Result<Step, VisitError>|
            #[trigger] placeholder_statement_answered::<V, D>(pre_v, *self, mid_v, mid, answer)
                && made(
                    (Call {
                        node: Node::PlaceholderStatement(*self),
                        before: pre_v,
                        after: mid_v,
                        answer,
                    }),
                )
                && post_v == mid_v && post == mid && match answer {
                    Ok(_) => r is Ok,
                    Err(e) => r == Err::<(), VisitError>(e),
                }
    }

    /// Hands this node to [`Visitor::visit_placeholder_statement`]. The node has no
    /// children that the walk enters, so nothing follows the callback; its error, if
    /// any, is handed on.
    pub fn accept<V: Visitor<D>, D>(&mut self, v: &mut V) -> (r: Result<(), VisitError>)
        ensures
            final(self).depth() <= old(self).depth(),
            final(v).shared() == old(v).shared(),
            unfailing::<V, D>() ==> r is Ok,
            old(v).inert() ==> r is Ok && *final(v) == *old(v) && final(self).same_as(old(self)),
            forall|made: spec_fn(Call<V>) -> bool|
                #![trigger picked(made)]
                picked(made)
                    && (forall|mv: &mut V, node: Node, answer: Result<Step, VisitError>|
                        #[trigger] called::<V, D>(node, mv, answer) ==> made(
                            (Call { node, before: *mv, after: *final(mv), answer }),
                        ))
                    ==> old(self).accepted::<V, D>(made, *old(v), *final(v), *final(self), r),
            forall|made: spec_fn(Call<V>) -> bool|
                #![trigger picked(made)]
                picked(made)
                    && (forall|mv: &mut V, node: Node, answer: Result<Step, VisitError>|
                        #[trigger] called::<V, D>(node, mv, answer) ==> made(
                            (Call { node, before: *mv, after: *final(mv), answer }),
                        ))
                    ==> failure_was_answered(made, r),
            between(*final(v), r),
            exists|mv: &mut V, mn: &mut PlaceholderStatement, answer: Result<Step, VisitError>|
                *mv == *old(v) && *mn == *old(self)
                    && #[trigger] call_ensures(V::visit_placeholder_statement, (mv, mn), answer)
                    && settled::<V, D, PlaceholderStatement>(
                        answer,
                        r,
                        *final(mv),
                        *final(v),
                        *final(mn),
                        *final(self),
                    ),
    {
        let ghost pre_v = *v;
        let ghost pre = *self;
        let answer = v.visit_placeholder_statement(self);
        let ghost mid_v = *v;
        proof {
            assert(placeholder_statement_answered::<V, D>(pre_v, pre, *v, *self, answer));
            let (mv0, mn0) = choose|mv: &mut V, mn: &mut PlaceholderStatement|
                *mv == pre_v && *final(mv) == mid_v && *mn == pre
                    && #[trigger] call_ensures(V::visit_placeholder_statement, (mv, mn), answer);
            assert(called::<V, D>(Node::PlaceholderStatement(pre), mv0, answer));
        }
        match answer {
            Ok(Step::Descend) => {
                let r = self.visit(v);
                proof {
                    assert forall|made: spec_fn(Call<V>) -> bool|
                        #![trigger picked(made)]
                        picked(made)
                            && (forall|mv: &mut V, node: Node, answer: Result<Step, VisitError>|
                                #[trigger] called::<V, D>(node, mv, answer) ==> made(
                                    (Call { node, before: *mv, after: *final(mv), answer }),
                                ))
                        implies pre.accepted::<V, D>(made, pre_v, *v, *self, r) by {
                    }
                }
                r
            },
            Ok(Step::Prune) => {
                proof {
                    assert forall|made: spec_fn(Call<V>) -> bool|
                        #![trigger picked(made)]
                        picked(made)
                            && (forall|mv: &mut V, node: Node, answer: Result<Step, VisitError>|
                                #[trigger] called::<V, D>(node, mv, answer) ==> made(
                                    (Call { node, before: *mv, after: *final(mv), answer }),
                                ))
                        implies pre.accepted::<V, D>(
                            made,
                            pre_v,
                            *v,
                            *self,
                            Ok::<(), VisitError>(()),
                        ) by {
                    }
                }
                Ok(())
            },
            Err(e) => {
                proof {
                    assert forall|made: spec_fn(Call<V>) -> bool|
                        #![trigger picked(made)]
                        picked(made)
                            && (forall|mv: &mut V, node: Node, answer: Result<Step, VisitError>|
                                #[trigger] called::<V, D>(node, mv, answer) ==> made(
                                    (Call { node, before: *mv, after: *final(mv), answer }),
                                ))
                        implies pre.accepted::<V, D>(
                            made,
                            pre_v,
                            *v,
                            *self,
                            Err::<(), VisitError>(e),
                        ) by {
                    }
                }
                Err(e)
            },
        }
    }
}

impl Visitable for PlaceholderStatement {
    /// Does nothing: the walk does not enter a placeholder statement.
    fn visit<V: Visitor<D>, D>(&mut self, v: &mut V) -> (r: Result<(), VisitError>)
        ensures
            r is Ok,
            *final(self) == *old(self),
            *final(v) == *old(v),
    {
        Ok(())
    }
}

impl Return {
    /// How `visit` takes this node and the visitor `pre_v` to `post` and `post_v`, with
    /// the result `r`, the calls of callbacks being among `made`: the children are
    /// walked one after the other, each from the visitor as the one before has left it;
    /// the first failure is the result, and what stands behind it is as it was. What is
    /// no child is as it was.
    pub open spec fn walked<V: Visitor<D>, D>(
        &self,
        made: spec_fn(Call<V>) -> bool,
        pre_v: V,
        post_v: V,
        post: Return,
        r: Result<(), VisitError>,
    ) -> bool
        decreases self.depth(), 0int, 0int,
    {
        &&& post == (Return { expression: post.expression, ..*self })
        &&& (maybe_expression_walked::<V, D>(
            made,
            self.expression,
            pre_v,
            post_v,
            post.expression,
            r,
        ))
    }

    /// How `accept` takes this node and the visitor `pre_v` to `post` and `post_v`,
    /// with the result `r`, the calls of callbacks being among `made`: the callback for
    /// this kind is called with `pre_v` and this node, answers, and leaves `mid_v` and
    /// `mid`, which is no deeper; after [`Step::Descend`] the children of `mid` are
    /// walked from `mid_v`, after anything else nothing more happens, and an error is
    /// the result as it is.
    pub open spec fn accepted<V: Visitor<D>, D>(
        &self,
        made: spec_fn(Call<V>) -> bool,
        pre_v: V,
        post_v: V,
        post: Return,
        r: Result<(), VisitError>,
    ) -> bool
        decreases self.depth(), 1int, 0int,
    {
        exists|mid_v: V, mid: Return, answer: Result<Step, VisitError>|
            #[trigger] return_answered::<V, D>(pre_v, *self, mid_v, mid, answer)
                && made(
                    (Call { node: Node::Return(*self), before: pre_v, after: mid_v, answer }),
                )
                && mid.depth() <= self.depth() && match answer {
                    Ok(Step::Descend) => mid.walked::<V, D>(made, mid_v, post_v, post, r),
                    Ok(Step::Prune) => r is Ok && post_v == mid_v && post == mid,
                    Err(e) => r == Err::<(), VisitError>(e) && post_v == mid_v && post == mid,
                }
    }

    /// Hands this node to [`Visitor::visit_return`] and does what the callback answers:
    /// on [`Step::Descend`] it walks the children as [`Visitable::visit`] does, on
    /// [`Step::Prune`] it leaves them alone; an error is handed on.
    pub fn accept<V: Visitor<D>, D>(&mut self, v: &mut V) -> (r: Result<(), VisitError>)
        ensures
            final(self).depth() <= old(self).depth(),
            final(v).shared() == old(v).shared(),
            unfailing::<V, D>() ==> r is Ok,
            old(v).inert() ==> r is Ok && *final(v) == *old(v) && final(self).same_as(old(self)),
            forall|made: spec_fn(Call<V>) -> bool|
                #![trigger picked(made)]
                picked(made)
                    && (forall|mv: &mut V, node: Node, answer: Result<Step, VisitError>|
                        #[trigger] called::<V, D>(node, mv, answer) ==> made(
                            (Call { node, before: *mv, after: *final(mv), answer }),
                        ))
                    ==> old(self).accepted::<V, D>(made, *old(v), *final(v), *final(self), r),
            forall|made: spec_fn(Call<V>) -> bool|
                #![trigger picked(made)]
                picked(made)
                    && (forall|mv: &mut V, node: Node, answer: Result<Step, VisitError>|
                        #[trigger] called::<V, D>(node, mv, answer) ==> made(
                            (Call { node, before: *mv, after: *final(mv), answer }),
                        ))
                    ==> failure_was_answered(made, r),
            between(*final(v), r),
            exists|mv: &mut V, mn: &mut Return, answer: Result<Step, VisitError>|
                *mv == *old(v) && *mn == *old(self)
                    && #[trigger] call_ensures(V::visit_return, (mv, mn), answer)
                    && settled::<V, D, Return>(
                        answer,
                        r,
                        *final(mv),
                        *final(v),
                        *final(mn),
                        *final(self),
                    ),
        decreases old(self).depth(), 1int,
    {
        let ghost pre_v = *v;
        let ghost pre = *self;
        let answer = v.visit_return(self);
        let ghost mid_v = *v;
        proof {
            assert(return_answered::<V, D>(pre_v, pre, *v, *self, answer));
            let (mv0, mn0) = choose|mv: &mut V, mn: &mut Return|
                *mv == pre_v && *final(mv) == mid_v && *mn == pre
                    && #[trigger] call_ensures(V::visit_return, (mv, mn), answer);
            assert(called::<V, D>(Node::Return(pre), mv0, answer));
        }
        match answer {
            Ok(Step::Descend) => {
                let r = self.visit(v);
                proof {
                    assert forall|made: spec_fn(Call<V>) -> bool|
                        #![trigger picked(made)]
                        picked(made)
                            && (forall|mv: &mut V, node: Node, answer: Result<Step, VisitError>|
                                #[trigger] called::<V, D>(node, mv, answer) ==> made(
                                    (Call { node, before: *mv, after: *final(mv), answer }),
                                ))
                        implies pre.accepted::<V, D>(made, pre_v, *v, *self, r) by {
                    }
                }
                r
            },
            Ok(Step::Prune) => {
                proof {
                    assert forall|made: spec_fn(Call<V>) -> bool|
                        #![trigger picked(made)]
                        picked(made)
                            && (forall|mv: &mut V, node: Node, answer: Result<Step, VisitError>|
                                #[trigger] called::<V, D>(node, mv, answer) ==> made(
                                    (Call { node, before: *mv, after: *final(mv), answer }),
                                ))
                        implies pre.accepted::<V, D>(
                            made,
                            pre_v,
                            *v,
                            *self,
                            Ok::<(), VisitError>(()),
                        ) by {
                    }
                }
                Ok(())
            },
            Err(e) => {
                proof {
                    assert forall|made: spec_fn(Call<V>) -> bool|
                        #![trigger picked(made)]
                        picked(made)
                            && (forall|mv: &mut V, node: Node, answer: Result<Step, VisitError>|
                                #[trigger] called::<V, D>(node, mv, answer) ==> made(
                                    (Call { node, before: *mv, after: *final(mv), answer }),
                                ))
                        implies pre.accepted::<V, D>(
                            made,
                            pre_v,
                            *v,
                            *self,
                            Err::<(), VisitError>(e),
                        ) by {
                    }
                }
                Err(e)
            },
        }
    }
}

impl Visitable for Return {
    /// Walks `expression`.
    fn visit<V: Visitor<D>, D>(&mut self, v: &mut V) -> (r: Result<(), VisitError>)
        ensures
            forall|made: spec_fn(Call<V>) -> bool|
                #![trigger picked(made)]
                picked(made)
                    && (forall|mv: &mut V, node: Node, answer: Result<Step, VisitError>|
                        #[trigger] called::<V, D>(node, mv, answer) ==> made(
                            (Call { node, before: *mv, after: *final(mv), answer }),
                        ))
                    ==> old(self).walked::<V, D>(made, *old(v), *final(v), *final(self), r),
            forall|made: spec_fn(Call<V>) -> bool|
                #![trigger picked(made)]
                picked(made)
                    && (forall|mv: &mut V, node: Node, answer: Result<Step, VisitError>|
                        #[trigger] called::<V, D>(node, mv, answer) ==> made(
                            (Call { node, before: *mv, after: *final(mv), answer }),
                        ))
                    ==> failure_was_answered(made, r),
            between(*final(v), r),
            *final(self) == (Return { expression: final(self).expression, ..*old(self) }),
            (final(self).expression is Some) == (old(self).expression is Some),
        decreases old(self).depth(), 0int,
    {
        visit_maybe_expression(&mut self.expression, v)
    }
}

impl RevertStatement {
    /// How `visit` takes this node and the visitor `pre_v` to `post` and `post_v`, with
    /// the result `r`, the calls of callbacks being among `made`: the children are
    /// walked one after the other, each from the visitor as the one before has left it;
    /// the first failure is the result, and what stands behind it is as it was. What is
    /// no child is as it was.
    pub open spec fn walked<V: Visitor<D>, D>(
        &self,
        made: spec_fn(Call<V>) -> bool,
        pre_v: V,
        post_v: V,
        post: RevertStatement,
        r: Result<(), VisitError>,
    ) -> bool
        decreases self.depth(), 0int, 0int,
    {
        &&& post == (RevertStatement { error_call: post.error_call, ..*self })
        &&& (self.error_call.walked::<V, D>(made, pre_v, post_v, post.error_call, r))
    }

    /// How `accept` takes this node and the visitor `pre_v` to `post` and `post_v`,
    /// with the result `r`, the calls of callbacks being among `made`: the callback for
    /// this kind is called with `pre_v` and this node, answers, and leaves `mid_v` and
    /// `mid`, which is no deeper; after [`Step::Descend`] the children of `mid` are
    /// walked from `mid_v`, after anything else nothing more happens, and an error is
    /// the result as it is.
    pub open spec fn accepted<V: Visitor<D>, D>(
        &self,
        made: spec_fn(Call<V>) -> bool,
        pre_v: V,
        post_v: V,
        post: RevertStatement,
        r: Result<(), VisitError>,
    ) -> bool
        decreases self.depth(), 1int, 0int,
    {
        exists|mid_v: V, mid: RevertStatement, answer: Result<Step, VisitError>|
            #[trigger] revert_statement_answered::<V, D>(pre_v, *self, mid_v, mid, answer)
                && made(
                    (Call {
                        node: Node::RevertStatement(*self),
                        before: pre_v,
                        after: mid_v,
                        answer,
                    }),
                )
                && mid.depth() <= self.depth() && match answer {
                    Ok(Step::Descend) => mid.walked::<V, D>(made, mid_v, post_v, post, r),
                    Ok(Step::Prune) => r is Ok && post_v == mid_v && post == mid,
                    Err(e) => r == Err::<(), VisitError>(e) && post_v == mid_v && post == mid,
                }
    }

    /// Hands this node to [`Visitor::visit_revert_statement`] and does what the
    /// callback answers: on [`Step::Descend`] it walks the children as
    /// [`Visitable::visit`] does, on [`Step::Prune`] it leaves them alone; an error is
    /// handed on.
    pub fn accept<V: Visitor<D>, D>(&mut self, v: &mut V) -> (r: Result<(), VisitError>)
        ensures
            final(self).depth() <= old(self).depth(),
            final(v).shared() == old(v).shared(),
            unfailing::<V, D>() ==> r is Ok,
            old(v).inert() ==> r is Ok && *final(v) == *old(v) && final(self).same_as(old(self)),
            forall|made: spec_fn(Call<V>) -> bool|
                #![trigger picked(made)]
                picked(made)
                    && (forall|mv: &mut V, node: Node, answer: Result<Step, VisitError>|
                        #[trigger] called::<V, D>(node, mv, answer) ==> made(
                            (Call { node, before: *mv, after: *final(mv), answer }),
                        ))
                    ==> old(self).accepted::<V, D>(made, *old(v), *final(v), *final(self), r),
            forall|made: spec_fn(Call<V>) -> bool|
                #![trigger picked(made)]
                picked(made)
                    && (forall|mv: &mut V, node: Node, answer: Result<Step, VisitError>|
                        #[trigger] called::<V, D>(node, mv, answer) ==> made(
                            (Call { node, before: *mv, after: *final(mv), answer }),
                        ))
                    ==> failure_was_answered(made, r),
            between(*final(v), r),
            exists|mv: &mut V, mn: &mut RevertStatement, answer: Result<Step, VisitError>|
                *mv == *old(v) && *mn == *old(self)
                    && #[trigger] call_ensures(V::visit_revert_statement, (mv, mn), answer)
                    && settled::<V, D, RevertStatement>(
                        answer,
                        r,
                        *final(mv),
                        *final(v),
                        *final(mn),
                        *final(self),
                    ),
        decreases old(self).depth(), 1int,
    {
        let ghost pre_v = *v;
        let ghost pre = *self;
        let answer = v.visit_revert_statement(self);
        let ghost mid_v = *v;
        proof {
            assert(revert_statement_answered::<V, D>(pre_v, pre, *v, *self, answer));
            let (mv0, mn0) = choose|mv: &mut V, mn: &mut RevertStatement|
                *mv == pre_v && *final(mv) == mid_v && *mn == pre
                    && #[trigger] call_ensures(V::visit_revert_statement, (mv, mn), answer);
            assert(called::<V, D>(Node::RevertStatement(pre), mv0, answer));
        }
        match answer {
            Ok(Step::Descend) => {
                let r = self.visit(v);
                proof {
                    assert forall|made: spec_fn(Call<V>) -> bool|
                        #![trigger picked(made)]
                        picked(made)
                            && (forall|mv: &mut V, node: Node, answer: Result<Step, VisitError>|
                                #[trigger] called::<V, D>(node, mv, answer) ==> made(
                                    (Call { node, before: *mv, after: *final(mv), answer }),
                                ))
                        implies pre.accepted::<V, D>(made, pre_v, *v, *self, r) by {
                    }
                }
                r
            },
            Ok(Step::Prune) => {
                proof {
                    assert forall|made: spec_fn(Call<V>) -> bool|
                        #![trigger picked(made)]
                        picked(made)
                            && (forall|mv: &mut V, node: Node, answer: Result<Step, VisitError>|
                                #[trigger] called::<V, D>(node, mv, answer) ==> made(
                                    (Call { node, before: *mv, after: *final(mv), answer }),
                                ))
                        implies pre.accepted::<V, D>(
                            made,
                            pre_v,
                            *v,
                            *self,
                            Ok::<(), VisitError>(()),
                        ) by {
                    }
                }
                Ok(())
            },
            Err(e) => {
                proof {
                    assert forall|made: spec_fn(Call<V>) -> bool|
                        #![trigger picked(made)]
                        picked(made)
                            && (forall|mv: &mut V, node: Node, answer: Result<Step, VisitError>|
                                #[trigger] called::<V, D>(node, mv, answer) ==> made(
                                    (Call { node, before: *mv, after: *final(mv), answer }),
                                ))
                        implies pre.accepted::<V, D>(
                            made,
                            pre_v,
                            *v,
                            *self,
                            Err::<(), VisitError>(e),
                        ) by {
                    }
                }
                Err(e)
            },
        }
    }
}

impl Visitable for RevertStatement {
    /// Walks `error_call`.
    fn visit<V: Visitor<D>, D>(&mut self, v: &mut V) -> (r: Result<(), VisitError>)
        ensures
            forall|made: spec_fn(Call<V>) -> bool|
                #![trigger picked(made)]
                picked(made)
                    && (forall|mv: &mut V, node: Node, answer: Result<Step, VisitError>|
                        #[trigger] called::<V, D>(node, mv, answer) ==> made(
                            (Call { node, before: *mv, after: *final(mv), answer }),
                        ))
                    ==> old(self).walked::<V, D>(made, *old(v), *final(v), *final(self), r),
            forall|made: spec_fn(Call<V>) -> bool|
                #![trigger picked(made)]
                picked(made)
                    && (forall|mv: &mut V, node: Node, answer: Result<Step, VisitError>|
                        #[trigger] called::<V, D>(node, mv, answer) ==> made(
                            (Call { node, before: *mv, after: *final(mv), answer }),
                        ))
                    ==> failure_was_answered(made, r),
            between(*final(v), r),
            *final(self) == (RevertStatement { error_call: final(self).error_call, ..*old(self) }),
        decreases old(self).depth(), 0int,
    {
        self.error_call.visit(v)
    }
}

impl TryStatement {
    /// How `visit` takes this node and the visitor `pre_v` to `post` and `post_v`, with
    /// the result `r`, the calls of callbacks being among `made`: the children are
    /// walked one after the other, each from the visitor as the one before has left it;
    /// the first failure is the result, and what stands behind it is as it was. What is
    /// no child is as it was.
    pub open spec fn walked<V: Visitor<D>, D>(
        &self,
        made: spec_fn(Call<V>) -> bool,
        pre_v: V,
        post_v: V,
        post: TryStatement,
        r: Result<(), VisitError>,
    ) -> bool
        decreases self.depth(), 0int, 0int,
    {
        &&& post == (TryStatement {
            clauses: post.clauses,
            external_call: post.external_call,
            ..*self
        })
        &&& (exists|v1: V, r1: Result<(), VisitError>|
                #[trigger] between(v1, r1)
                    && try_catch_clauses_walked::<V, D>(
                        made,
                        self.clauses@,
                        pre_v,
                        v1,
                        post.clauses@,
                        r1,
                    )
                    && match r1 {
                        Ok(_) => {
                            self.external_call.walked::<V, D>(
                                made,
                                v1,
                                post_v,
                                post.external_call,
                                r,
                            )
                        },
                        Err(e) => {
                            &&& r == Err::<(), VisitError>(e)
                            &&& post_v == v1
                            &&& post.external_call == self.external_call
                        },
                    })
    }

    /// How `accept` takes this node and the visitor `pre_v` to `post` and `post_v`,
    /// with the result `r`, the calls of callbacks being among `made`: the callback for
    /// this kind is called with `pre_v` and this node, answers, and leaves `mid_v` and
    /// `mid`, which is no deeper; after [`Step::Descend`] the children of `mid` are
    /// walked from `mid_v`, after anything else nothing more happens, and an error is
    /// the result as it is.
    pub open spec fn accepted<V: Visitor<D>, D>(
        &self,
        made: spec_fn(Call<V>) -> bool,
        pre_v: V,
        post_v: V,
        post: TryStatement,
        r: Result<(), VisitError>,
    ) -> bool
        decreases self.depth(), 1int, 0int,
    {
        exists|mid_v: V, mid: TryStatement, answer: Result<Step, VisitError>|
            #[trigger] try_statement_answered::<V, D>(pre_v, *self, mid_v, mid, answer)
                && made(
                    (Call { node: Node::TryStatement(*self), before: pre_v, after: mid_v, answer }),
                )
                && mid.depth() <= self.depth() && match answer {
                    Ok(Step::Descend) => mid.walked::<V, D>(made, mid_v, post_v, post, r),
                    Ok(Step::Prune) => r is Ok && post_v == mid_v && post == mid,
                    Err(e) => r == Err::<(), VisitError>(e) && post_v == mid_v && post == mid,
                }
    }

    /// Hands this node to [`Visitor::visit_try_statement`] and does what the callback
    /// answers: on [`Step::Descend`] it walks the children as [`Visitable::visit`]
    /// does, on [`Step::Prune`] it leaves them alone; an error is handed on.
    pub fn accept<V: Visitor<D>, D>(&mut self, v: &mut V) -> (r: Result<(), VisitError>)
        ensures
            final(self).depth() <= old(self).depth(),
            final(v).shared() == old(v).shared(),
            unfailing::<V, D>() ==> r is Ok,
            old(v).inert() ==> r is Ok && *final(v) == *old(v) && final(self).same_as(old(self)),
            forall|made: spec_fn(Call<V>) -> bool|
                #![trigger picked(made)]
                picked(made)
                    && (forall|mv: &mut V, node: Node, answer: Result<Step, VisitError>|
                        #[trigger] called::<V, D>(node, mv, answer) ==> made(
                            (Call { node, before: *mv, after: *final(mv), answer }),
                        ))
                    ==> old(self).accepted::<V, D>(made, *old(v), *final(v), *final(self), r),
            forall|made: spec_fn(Call<V>) -> bool|
                #![trigger picked(made)]
                picked(made)
                    && (forall|mv: &mut V, node: Node, answer: Result<Step, VisitError>|
                        #[trigger] called::<V, D>(node, mv, answer) ==> made(
                            (Call { node, before: *mv, after: *final(mv), answer }),
                        ))
                    ==> failure_was_answered(made, r),
            between(*final(v), r),
            exists|mv: &mut V, mn: &mut TryStatement, answer: Result<Step, VisitError>|
                *mv == *old(v) && *mn == *old(self)
                    && #[trigger] call_ensures(V::visit_try_statement, (mv, mn), answer)
                    && settled::<V, D, TryStatement>(
                        answer,
                        r,
                        *final(mv),
                        *final(v),
                        *final(mn),
                        *final(self),
                    ),
        decreases old(self).depth(), 1int,
    {
        let ghost pre_v = *v;
        let ghost pre = *self;
        let answer = v.visit_try_statement(self);
        let ghost mid_v = *v;
        proof {
            assert(try_statement_answered::<V, D>(pre_v, pre, *v, *self, answer));
            let (mv0, mn0) = choose|mv: &mut V, mn: &mut TryStatement|
                *mv == pre_v && *final(mv) == mid_v && *mn == pre
                    && #[trigger] call_ensures(V::visit_try_statement, (mv, mn), answer);
            assert(called::<V, D>(Node::TryStatement(pre), mv0, answer));
        }
        match answer {
            Ok(Step::Descend) => {
                let r = self.visit(v);
                proof {
                    assert forall|made: spec_fn(Call<V>) -> bool|
                        #![trigger picked(made)]
                        picked(made)
                            && (forall|mv: &mut V, node: Node, answer: Result<Step, VisitError>|
                                #[trigger] called::<V, D>(node, mv, answer) ==> made(
                                    (Call { node, before: *mv, after: *final(mv), answer }),
                                ))
                        implies pre.accepted::<V, D>(made, pre_v, *v, *self, r) by {
                    }
                }
                r
            },
            Ok(Step::Prune) => {
                proof {
                    assert forall|made: spec_fn(Call<V>) -> bool|
                        #![trigger picked(made)]
                        picked(made)
                            && (forall|mv: &mut V, node: Node, answer: Result<Step, VisitError>|
                                #[trigger] called::<V, D>(node, mv, answer) ==> made(
                                    (Call { node, before: *mv, after: *final(mv), answer }),
                                ))
                        implies pre.accepted::<V, D>(
                            made,
                            pre_v,
                            *v,
                            *self,
                            Ok::<(), VisitError>(()),
                        ) by {
                    }
                }
                Ok(())
            },
            Err(e) => {
                proof {
                    assert forall|made: spec_fn(Call<V>) -> bool|
                        #![trigger picked(made)]
                        picked(made)
                            && (forall|mv: &mut V, node: Node, answer: Result<Step, VisitError>|
                                #[trigger] called::<V, D>(node, mv, answer) ==> made(
                                    (Call { node, before: *mv, after: *final(mv), answer }),
                                ))
                        implies pre.accepted::<V, D>(
                            made,
                            pre_v,
                            *v,
                            *self,
                            Err::<(), VisitError>(e),
                        ) by {
                    }
                }
                Err(e)
            },
        }
    }
}

impl Visitable for TryStatement {
    /// Walks the children in this order: `clauses`, then `external_call`. The first
    /// failure ends the walk; what stands after it is left alone.
    fn visit<V: Visitor<D>, D>(&mut self, v: &mut V) -> (r: Result<(), VisitError>)
        ensures
            forall|made: spec_fn(Call<V>) -> bool|
                #![trigger picked(made)]
                picked(made)
                    && (forall|mv: &mut V, node: Node, answer: Result<Step, VisitError>|
                        #[trigger] called::<V, D>(node, mv, answer) ==> made(
                            (Call { node, before: *mv, after: *final(mv), answer }),
                        ))
                    ==> old(self).walked::<V, D>(made, *old(v), *final(v), *final(self), r),
            forall|made: spec_fn(Call<V>) -> bool|
                #![trigger picked(made)]
                picked(made)
                    && (forall|mv: &mut V, node: Node, answer: Result<Step, VisitError>|
                        #[trigger] called::<V, D>(node, mv, answer) ==> made(
                            (Call { node, before: *mv, after: *final(mv), answer }),
                        ))
                    ==> failure_was_answered(made, r),
            between(*final(v), r),
            *final(self) == (TryStatement {
                clauses: final(self).clauses,
                external_call: final(self).external_call,
                ..*old(self)
            }),
            final(self).clauses@.len() == old(self).clauses@.len(),
        decreases old(self).depth(), 0int,
    {
        visit_try_catch_clauses(&mut self.clauses, v)?;
        self.external_call.visit(v)
    }
}

impl TryCatchClause {
    /// How `visit` takes this node and the visitor `pre_v` to `post` and `post_v`, with
    /// the result `r`, the calls of callbacks being among `made`: the children are
    /// walked one after the other, each from the visitor as the one before has left it;
    /// the first failure is the result, and what stands behind it is as it was. What is
    /// no child is as it was.
    pub open spec fn walked<V: Visitor<D>, D>(
        &self,
        made: spec_fn(Call<V>) -> bool,
        pre_v: V,
        post_v: V,
        post: TryCatchClause,
        r: Result<(), VisitError>,
    ) -> bool
        decreases self.depth(), 0int, 0int,
    {
        &&& post == (TryCatchClause { block: post.block, parameters: post.parameters, ..*self })
        &&& (exists|v1: V, r1: Result<(), VisitError>|
                #[trigger] between(v1, r1)
                    && self.block.walked::<V, D>(made, pre_v, v1, post.block, r1)
                    && match r1 {
                        Ok(_) => {
                            maybe_parameter_list_walked::<V, D>(
                                made,
                                self.parameters,
                                v1,
                                post_v,
                                post.parameters,
                                r,
                            )
                        },
                        Err(e) => {
                            &&& r == Err::<(), VisitError>(e)
                            &&& post_v == v1
                            &&& post.parameters == self.parameters
                        },
                    })
    }
}

impl Visitable for TryCatchClause {
    /// Walks the children in this order: `block`, then `parameters`. The first failure
    /// ends the walk; what stands after it is left alone.
    fn visit<V: Visitor<D>, D>(&mut self, v: &mut V) -> (r: Result<(), VisitError>)
        ensures
            forall|made: spec_fn(Call<V>) -> bool|
                #![trigger picked(made)]
                picked(made)
                    && (forall|mv: &mut V, node: Node, answer: Result<Step, VisitError>|
                        #[trigger] called::<V, D>(node, mv, answer) ==> made(
                            (Call { node, before: *mv, after: *final(mv), answer }),
                        ))
                    ==> old(self).walked::<V, D>(made, *old(v), *final(v), *final(self), r),
            forall|made: spec_fn(Call<V>) -> bool|
                #![trigger picked(made)]
                picked(made)
                    && (forall|mv: &mut V, node: Node, answer: Result<Step, VisitError>|
                        #[trigger] called::<V, D>(node, mv, answer) ==> made(
                            (Call { node, before: *mv, after: *final(mv), answer }),
                        ))
                    ==> failure_was_answered(made, r),
            between(*final(v), r),
            *final(self) == (TryCatchClause {
                block: final(self).block,
                parameters: final(self).parameters,
                ..*old(self)
            }),
            (final(self).parameters is Some) == (old(self).parameters is Some),
        decreases old(self).depth(), 0int,
    {
        self.block.visit(v)?;
        visit_maybe_parameter_list(&mut self.parameters, v)
    }
}

/// The items of `pre` that stand where `done` has items have been walked with success,
/// in order and each once, the first from the visitor `pre_v` and each next one from
/// the visitor as the one before has left it; they are now what `done` holds, and the
/// visitor is `v`. (The clause on the depths holds of every sequence: it is what lets
/// this definition end.)
pub open spec fn try_catch_clauses_walked_to<V: Visitor<D>, D>(
    made: spec_fn(Call<V>) -> bool,
    pre: Seq<TryCatchClause>,
    done: Seq<TryCatchClause>,
    pre_v: V,
    v: V,
) -> bool
    decreases try_catch_clauses_depth(pre), 3int, done.len(),
{
    if done.len() == 0 {
        v == pre_v
    } else if done.len() > pre.len() {
        false
    } else {
        &&& try_catch_clauses_depths(pre)[done.len() - 1] <= try_catch_clauses_depth(pre)
        &&& exists|u: V, ok: Result<(), VisitError>|
            #[trigger] between(u, ok) && ok is Ok
                && try_catch_clauses_walked_to::<V, D>(made, pre, done.drop_last(), pre_v, u)
                && pre[done.len() - 1].walked::<V, D>(made, u, v, done.last(), ok)
    }
}

/// How the walk takes the items `pre` and the visitor `pre_v` to `post` and `post_v`,
/// with the result `r`: the items are walked in order, each once, each from the visitor
/// as the one before has left it, up to the first failure. That failure is the result,
/// and the items behind it are as they were. (The clause on the depths holds of every
/// sequence.)
pub open spec fn try_catch_clauses_walked<V: Visitor<D>, D>(
    made: spec_fn(Call<V>) -> bool,
    pre: Seq<TryCatchClause>,
    pre_v: V,
    post_v: V,
    post: Seq<TryCatchClause>,
    r: Result<(), VisitError>,
) -> bool
    decreases try_catch_clauses_depth(pre), 5int, 0int,
{
    &&& pre.len() == post.len()
    &&& match r {
        Ok(_) => try_catch_clauses_walked_to::<V, D>(made, pre, post, pre_v, post_v),
        Err(e) => exists|k: int, u: V|
            #[trigger] reached(k, u) && 0 <= k < pre.len()
                && try_catch_clauses_depths(pre)[k] <= try_catch_clauses_depth(pre)
                && try_catch_clauses_walked_to::<V, D>(made, pre, post.take(k), pre_v, u)
                && pre[k].walked::<V, D>(made, u, post_v, post[k], Err::<(), VisitError>(e))
                && forall|j: int| k < j < pre.len() ==> post[j] == pre[j],
    }
}

/// Walks `items` in order. The first failure ends the walk; the items after it are left
/// alone.
pub fn visit_try_catch_clauses<V: Visitor<D>, D>(
    items: &mut Vec<TryCatchClause>,
    v: &mut V,
) -> (r: Result<(), VisitError>)
    ensures
        forall|made: spec_fn(Call<V>) -> bool|
            #![trigger picked(made)]
            picked(made)
                && (forall|mv: &mut V, node: Node, answer: Result<Step, VisitError>|
                    #[trigger] called::<V, D>(node, mv, answer) ==> made(
                        (Call { node, before: *mv, after: *final(mv), answer }),
                    ))
                ==> try_catch_clauses_walked::<V, D>(
                    made,
                    old(items)@,
                    *old(v),
                    *final(v),
                    final(items)@,
                    r,
                ),
        forall|made: spec_fn(Call<V>) -> bool|
            #![trigger picked(made)]
            picked(made)
                && (forall|mv: &mut V, node: Node, answer: Result<Step, VisitError>|
                    #[trigger] called::<V, D>(node, mv, answer) ==> made(
                        (Call { node, before: *mv, after: *final(mv), answer }),
                    ))
                ==> failure_was_answered(made, r),
        between(*final(v), r),
        final(items)@.len() == old(items)@.len(),
        try_catch_clauses_depth(final(items)@) <= try_catch_clauses_depth(old(items)@),
        final(v).shared() == old(v).shared(),
        unfailing::<V, D>() ==> r is Ok,
        old(v).inert() ==> {
            &&& r is Ok
            &&& *final(v) == *old(v)
            &&& try_catch_clauses_same(final(items)@, old(items)@)
        },
    decreases try_catch_clauses_depth(old(items)@), 3int,
{
    let n = items.len();
    let mut i: usize = 0;
    while i < n
        invariant
            i <= n,
            n == items@.len(),
            n == old(items)@.len(),
            forall|j: int| i <= j < n ==> items@[j] == old(items)@[j],
            forall|j: int|
                0 <= j < n ==> try_catch_clauses_depths(items@)[j]
                    <= try_catch_clauses_depths(old(items)@)[j],
            v.shared() == old(v).shared(),
            old(v).inert() ==> *v == *old(v),
            forall|made: spec_fn(Call<V>) -> bool|
                #![trigger picked(made)]
                picked(made)
                    && (forall|mv: &mut V, node: Node, answer: Result<Step, VisitError>|
                        #[trigger] called::<V, D>(node, mv, answer) ==> made(
                            (Call { node, before: *mv, after: *final(mv), answer }),
                        ))
                    ==> try_catch_clauses_walked_to::<V, D>(
                        made,
                        old(items)@,
                        items@.take(i as int),
                        *old(v),
                        *v,
                    ),
            old(v).inert() ==> forall|j: int|
                #![trigger items@[j]]
                0 <= j < i ==> items@[j].same_as(&old(items)@[j]),
        decreases n - i,
    {
        proof {
            lemma_try_catch_clauses_depth_bound(old(items)@, i as int);
        }
        let ghost done = items@.take(i as int);
        let ghost u = *v;
        let step = items[i].visit(v);
        proof {
            assert(between(u, step));
        }
        match step {
            Ok(_) => {
                proof {
                    let grown = items@.take(i + 1);
                    assert(grown.drop_last() =~= done);
                    assert(grown.last() == items@[i as int]);
                    assert forall|made: spec_fn(Call<V>) -> bool|
                        #![trigger picked(made)]
                        picked(made)
                            && (forall|mv: &mut V, node: Node, answer: Result<Step, VisitError>|
                                #[trigger] called::<V, D>(node, mv, answer) ==> made(
                                    (Call { node, before: *mv, after: *final(mv), answer }),
                                ))
                        implies try_catch_clauses_walked_to::<V, D>(
                            made,
                            old(items)@,
                            grown,
                            *old(v),
                            *v,
                        ) by {
                        assert(try_catch_clauses_walked_to::<V, D>(
                            made,
                            old(items)@,
                            done,
                            *old(v),
                            u,
                        ));
                    }
                }
            },
            Err(e) => {
                proof {
                    lemma_try_catch_clauses_depth_mono(items@, old(items)@);
                    assert(items@.take(i as int) =~= done);
                    assert(reached(i as int, u));
                    assert forall|made: spec_fn(Call<V>) -> bool|
                        #![trigger picked(made)]
                        picked(made)
                            && (forall|mv: &mut V, node: Node, answer: Result<Step, VisitError>|
                                #[trigger] called::<V, D>(node, mv, answer) ==> made(
                                    (Call { node, before: *mv, after: *final(mv), answer }),
                                ))
                        implies try_catch_clauses_walked::<V, D>(
                            made,
                            old(items)@,
                            *old(v),
                            *v,
                            items@,
                            Err::<(), VisitError>(e),
                        ) by {
                        assert(try_catch_clauses_walked_to::<V, D>(
                            made,
                            old(items)@,
                            done,
                            *old(v),
                            u,
                        ));
                    }
                }
                return Err(e);
            },
        }
        i += 1;
    }
    proof {
        lemma_try_catch_clauses_depth_mono(items@, old(items)@);
        assert(items@.take(n as int) =~= items@);
    }
    Ok(())
}

impl Visitable for Vec<TryCatchClause> {
    /// Walks the items in order, as [`visit_try_catch_clauses`] does.
    fn visit<V: Visitor<D>, D>(&mut self, v: &mut V) -> (r: Result<(), VisitError>)
        ensures
            forall|made: spec_fn(Call<V>) -> bool|
                #![trigger picked(made)]
                picked(made)
                    && (forall|mv: &mut V, node: Node, answer: Result<Step, VisitError>|
                        #[trigger] called::<V, D>(node, mv, answer) ==> made(
                            (Call { node, before: *mv, after: *final(mv), answer }),
                        ))
                    ==> try_catch_clauses_walked::<V, D>(
                        made,
                        old(self)@,
                        *old(v),
                        *final(v),
                        final(self)@,
                        r,
                    ),
            forall|made: spec_fn(Call<V>) -> bool|
                #![trigger picked(made)]
                picked(made)
                    && (forall|mv: &mut V, node: Node, answer: Result<Step, VisitError>|
                        #[trigger] called::<V, D>(node, mv, answer) ==> made(
                            (Call { node, before: *mv, after: *final(mv), answer }),
                        ))
                    ==> failure_was_answered(made, r),
            final(self)@.len() == old(self)@.len(),
    {
        let ghost before = self@;
        let r = visit_try_catch_clauses(self, v);
        proof {
            assert(depths_of(before) =~= try_catch_clauses_depths(before));
            assert(depths_of(self@) =~= try_catch_clauses_depths(self@));
        }
        r
    }
}

impl UncheckedBlock {
    /// How `visit` takes this node and the visitor `pre_v` to `post` and `post_v`, with
    /// the result `r`, the calls of callbacks being among `made`: the children are
    /// walked one after the other, each from the visitor as the one before has left it;
    /// the first failure is the result, and what stands behind it is as it was. What is
    /// no child is as it was.
    pub open spec fn walked<V: Visitor<D>, D>(
        &self,
        made: spec_fn(Call<V>) -> bool,
        pre_v: V,
        post_v: V,
        post: UncheckedBlock,
        r: Result<(), VisitError>,
    ) -> bool
        decreases self.depth(), 0int, 0int,
    {
        &&& post == (UncheckedBlock { statements: post.statements, ..*self })
        &&& (statements_walked::<V, D>(made, self.statements@, pre_v, post_v, post.statements@, r))
    }

    /// How `accept` takes this node and the visitor `pre_v` to `post` and `post_v`,
    /// with the result `r`, the calls of callbacks being among `made`: the callback for
    /// this kind is called with `pre_v` and this node, answers, and leaves `mid_v` and
    /// `mid`, which is no deeper; after [`Step::Descend`] the children of `mid` are
    /// walked from `mid_v`, after anything else nothing more happens, and an error is
    /// the result as it is.
    pub open spec fn accepted<V: Visitor<D>, D>(
        &self,
        made: spec_fn(Call<V>) -> bool,
        pre_v: V,
        post_v: V,
        post: UncheckedBlock,
        r: Result<(), VisitError>,
    ) -> bool
        decreases self.depth(), 1int, 0int,
    {
        exists|mid_v: V, mid: UncheckedBlock, answer: Result<Step, VisitError>|
            #[trigger] unchecked_block_answered::<V, D>(pre_v, *self, mid_v, mid, answer)
                && made(
                    (Call {
                        node: Node::UncheckedBlock(*self),
                        before: pre_v,
                        after: mid_v,
                        answer,
                    }),
                )
                && mid.depth() <= self.depth() && match answer {
                    Ok(Step::Descend) => mid.walked::<V, D>(made, mid_v, post_v, post, r),
                    Ok(Step::Prune) => r is Ok && post_v == mid_v && post == mid,
                    Err(e) => r == Err::<(), VisitError>(e) && post_v == mid_v && post == mid,
                }
    }

    /// Hands this node to [`Visitor::visit_unchecked_block`] and does what the callback
    /// answers: on [`Step::Descend`] it walks the children as [`Visitable::visit`]
    /// does, on [`Step::Prune`] it leaves them alone; an error is handed on.
    pub fn accept<V: Visitor<D>, D>(&mut self, v: &mut V) -> (r: Result<(), VisitError>)
        ensures
            final(self).depth() <= old(self).depth(),
            final(v).shared() == old(v).shared(),
            unfailing::<V, D>() ==> r is Ok,
            old(v).inert() ==> r is Ok && *final(v) == *old(v) && final(self).same_as(old(self)),
            forall|made: spec_fn(Call<V>) -> bool|
                #![trigger picked(made)]
                picked(made)
                    && (forall|mv: &mut V, node: Node, answer: Result<Step, VisitError>|
                        #[trigger] called::<V, D>(node, mv, answer) ==> made(
                            (Call { node, before: *mv, after: *final(mv), answer }),
                        ))
                    ==> old(self).accepted::<V, D>(made, *old(v), *final(v), *final(self), r),
            forall|made: spec_fn(Call<V>) -> bool|
                #![trigger picked(made)]
                picked(made)
                    && (forall|mv: &mut V, node: Node, answer: Result<Step, VisitError>|
                        #[trigger] called::<V, D>(node, mv, answer) ==> made(
                            (Call { node, before: *mv, after: *final(mv), answer }),
                        ))
                    ==> failure_was_answered(made, r),
            between(*final(v), r),
            exists|mv: &mut V, mn: &mut UncheckedBlock, answer: Result<Step, VisitError>|
                *mv == *old(v) && *mn == *old(self)
                    && #[trigger] call_ensures(V::visit_unchecked_block, (mv, mn), answer)
                    && settled::<V, D, UncheckedBlock>(
                        answer,
                        r,
                        *final(mv),
                        *final(v),
                        *final(mn),
                        *final(self),
                    ),
        decreases old(self).depth(), 1int,
    {
        let ghost pre_v = *v;
        let ghost pre = *self;
        let answer = v.visit_unchecked_block(self);
        let ghost mid_v = *v;
        proof {
            assert(unchecked_block_answered::<V, D>(pre_v, pre, *v, *self, answer));
            let (mv0, mn0) = choose|mv: &mut V, mn: &mut UncheckedBlock|
                *mv == pre_v && *final(mv) == mid_v && *mn == pre
                    && #[trigger] call_ensures(V::visit_unchecked_block, (mv, mn), answer);
            assert(called::<V, D>(Node::UncheckedBlock(pre), mv0, answer));
        }
        match answer {
            Ok(Step::Descend) => {
                let r = self.visit(v);
                proof {
                    assert forall|made: spec_fn(Call<V>) -> bool|
                        #![trigger picked(made)]
                        picked(made)
                            && (forall|mv: &mut V, node: Node, answer: Result<Step, VisitError>|
                                #[trigger] called::<V, D>(node, mv, answer) ==> made(
                                    (Call { node, before: *mv, after: *final(mv), answer }),
                                ))
                        implies pre.accepted::<V, D>(made, pre_v, *v, *self, r) by {
                    }
                }
                r
            },
            Ok(Step::Prune) => {
                proof {
                    assert forall|made: spec_fn(Call<V>) -> bool|
                        #![trigger picked(made)]
                        picked(made)
                            && (forall|mv: &mut V, node: Node, answer: Result<Step, VisitError>|
                                #[trigger] called::<V, D>(node, mv, answer) ==> made(
                                    (Call { node, before: *mv, after: *final(mv), answer }),
                                ))
                        implies pre.accepted::<V, D>(
                            made,
                            pre_v,
                            *v,
                            *self,
                            Ok::<(), VisitError>(()),
                        ) by {
                    }
                }
                Ok(())
            },
            Err(e) => {
                proof {
                    assert forall|made: spec_fn(Call<V>) -> bool|
                        #![trigger picked(made)]
                        picked(made)
                            && (forall|mv: &mut V, node: Node, answer: Result<Step, VisitError>|
                                #[trigger] called::<V, D>(node, mv, answer) ==> made(
                                    (Call { node, before: *mv, after: *final(mv), answer }),
                                ))
                        implies pre.accepted::<V, D>(
                            made,
                            pre_v,
                            *v,
                            *self,
                            Err::<(), VisitError>(e),
                        ) by {
                    }
                }
                Err(e)
            },
        }
    }
}

impl Visitable for UncheckedBlock {
    /// Walks `statements`.
    fn visit<V: Visitor<D>, D>(&mut self, v: &mut V) -> (r: Result<(), VisitError>)
        ensures
            forall|made: spec_fn(Call<V>) -> bool|
                #![trigger picked(made)]
                picked(made)
                    && (forall|mv: &mut V, node: Node, answer: Result<Step, VisitError>|
                        #[trigger] called::<V, D>(node, mv, answer) ==> made(
                            (Call { node, before: *mv, after: *final(mv), answer }),
                        ))
                    ==> old(self).walked::<V, D>(made, *old(v), *final(v), *final(self), r),
            forall|made: spec_fn(Call<V>) -> bool|
                #![trigger picked(made)]
                picked(made)
                    && (forall|mv: &mut V, node: Node, answer: Result<Step, VisitError>|
                        #[trigger] called::<V, D>(node, mv, answer) ==> made(
                            (Call { node, before: *mv, after: *final(mv), answer }),
                        ))
                    ==> failure_was_answered(made, r),
            between(*final(v), r),
            *final(self) == (UncheckedBlock { statements: final(self).statements, ..*old(self) }),
            final(self).statements@.len() == old(self).statements@.len(),
        decreases old(self).depth(), 0int,
    {
        visit_statements(&mut self.statements, v)
    }
}

impl VariableDeclarationStatement {
    /// How `visit` takes this node and the visitor `pre_v` to `post` and `post_v`, with
    /// the result `r`, the calls of callbacks being among `made`: the children are
    /// walked one after the other, each from the visitor as the one before has left it;
    /// the first failure is the result, and what stands behind it is as it was. What is
    /// no child is as it was.
    pub open spec fn walked<V: Visitor<D>, D>(
        &self,
        made: spec_fn(Call<V>) -> bool,
        pre_v: V,
        post_v: V,
        post: VariableDeclarationStatement,
        r: Result<(), VisitError>,
    ) -> bool
        decreases self.depth(), 0int, 0int,
    {
        &&& post == (VariableDeclarationStatement {
            declarations: post.declarations,
            initial_value: post.initial_value,
            ..*self
        })
        &&& (exists|v1: V, r1: Result<(), VisitError>|
                #[trigger] between(v1, r1)
                    && optional_variable_declarations_walked::<V, D>(
                        made,
                        self.declarations@,
                        pre_v,
                        v1,
                        post.declarations@,
                        r1,
                    )
                    && match r1 {
                        Ok(_) => {
                            maybe_expression_walked::<V, D>(
                                made,
                                self.initial_value,
                                v1,
                                post_v,
                                post.initial_value,
                                r,
                            )
                        },
                        Err(e) => {
                            &&& r == Err::<(), VisitError>(e)
                            &&& post_v == v1
                            &&& post.initial_value == self.initial_value
                        },
                    })
    }

    /// How `accept` takes this node and the visitor `pre_v` to `post` and `post_v`,
    /// with the result `r`, the calls of callbacks being among `made`: the callback for
    /// this kind is called with `pre_v` and this node, answers, and leaves `mid_v` and
    /// `mid`, which is no deeper; after [`Step::Descend`] the children of `mid` are
    /// walked from `mid_v`, after anything else nothing more happens, and an error is
    /// the result as it is.
    pub open spec fn accepted<V: Visitor<D>, D>(
        &self,
        made: spec_fn(Call<V>) -> bool,
        pre_v: V,
        post_v: V,
        post: VariableDeclarationStatement,
        r: Result<(), VisitError>,
    ) -> bool
        decreases self.depth(), 1int, 0int,
    {
        exists|mid_v: V, mid: VariableDeclarationStatement, answer: Result<Step, VisitError>|
            #[trigger] variable_declaration_statement_answered::<V, D>(
                pre_v,
                *self,
                mid_v,
                mid,
                answer,
            )
                && made(
                    (Call {
                        node: Node::VariableDeclarationStatement(*self),
                        before: pre_v,
                        after: mid_v,
                        answer,
                    }),
                )
                && mid.depth() <= self.depth() && match answer {
                    Ok(Step::Descend) => mid.walked::<V, D>(made, mid_v, post_v, post, r),
                    Ok(Step::Prune) => r is Ok && post_v == mid_v && post == mid,
                    Err(e) => r == Err::<(), VisitError>(e) && post_v == mid_v && post == mid,
                }
    }

    /// Hands this node to [`Visitor::visit_variable_declaration_statement`] and does
    /// what the callback answers: on [`Step::Descend`] it walks the children as
    /// [`Visitable::visit`] does, on [`Step::Prune`] it leaves them alone; an error is
    /// handed on.
    pub fn accept<V: Visitor<D>, D>(&mut self, v: &mut V) -> (r: Result<(), VisitError>)
        ensures
            final(self).depth() <= old(self).depth(),
            final(v).shared() == old(v).shared(),
            unfailing::<V, D>() ==> r is Ok,
            old(v).inert() ==> r is Ok && *final(v) == *old(v) && final(self).same_as(old(self)),
            forall|made: spec_fn(Call<V>) -> bool|
                #![trigger picked(made)]
                picked(made)
                    && (forall|mv: &mut V, node: Node, answer: Result<Step, VisitError>|
                        #[trigger] called::<V, D>(node, mv, answer) ==> made(
                            (Call { node, before: *mv, after: *final(mv), answer }),
                        ))
                    ==> old(self).accepted::<V, D>(made, *old(v), *final(v), *final(self), r),
            forall|made: spec_fn(Call<V>) -> bool|
                #![trigger picked(made)]
                picked(made)
                    && (forall|mv: &mut V, node: Node, answer: Result<Step, VisitError>|
                        #[trigger] called::<V, D>(node, mv, answer) ==> made(
                            (Call { node, before: *mv, after: *final(mv), answer }),
                        ))
                    ==> failure_was_answered(made, r),
            between(*final(v), r),
            exists|
                mv: &mut V,
                mn: &mut VariableDeclarationStatement,
                answer: Result<Step, VisitError>,
            |
                *mv == *old(v) && *mn == *old(self)
                    && #[trigger] call_ensures(
                        V::visit_variable_declaration_statement,
                        (mv, mn),
                        answer,
                    )
                    && settled::<V, D, VariableDeclarationStatement>(
                        answer,
                        r,
                        *final(mv),
                        *final(v),
                        *final(mn),
                        *final(self),
                    ),
        decreases old(self).depth(), 1int,
    {
        let ghost pre_v = *v;
        let ghost pre = *self;
        let answer = v.visit_variable_declaration_statement(self);
        let ghost mid_v = *v;
        proof {
            assert(variable_declaration_statement_answered::<V, D>(pre_v, pre, *v, *self, answer));
            let (mv0, mn0) = choose|mv: &mut V, mn: &mut VariableDeclarationStatement|
                *mv == pre_v && *final(mv) == mid_v && *mn == pre
                    && #[trigger] call_ensures(
                        V::visit_variable_declaration_statement,
                        (mv, mn),
                        answer,
                    );
            assert(called::<V, D>(Node::VariableDeclarationStatement(pre), mv0, answer));
        }
        match answer {
            Ok(Step::Descend) => {
                let r = self.visit(v);
                proof {
                    assert forall|made: spec_fn(Call<V>) -> bool|
                        #![trigger picked(made)]
                        picked(made)
                            && (forall|mv: &mut V, node: Node, answer: Result<Step, VisitError>|
                                #[trigger] called::<V, D>(node, mv, answer) ==> made(
                                    (Call { node, before: *mv, after: *final(mv), answer }),
                                ))
                        implies pre.accepted::<V, D>(made, pre_v, *v, *self, r) by {
                    }
                }
                r
            },
            Ok(Step::Prune) => {
                proof {
                    assert forall|made: spec_fn(Call<V>) -> bool|
                        #![trigger picked(made)]
                        picked(made)
                            && (forall|mv: &mut V, node: Node, answer: Result<Step, VisitError>|
                                #[trigger] called::<V, D>(node, mv, answer) ==> made(
                                    (Call { node, before: *mv, after: *final(mv), answer }),
                                ))
                        implies pre.accepted::<V, D>(
                            made,
                            pre_v,
                            *v,
                            *self,
                            Ok::<(), VisitError>(()),
                        ) by {
                    }
                }
                Ok(())
            },
            Err(e) => {
                proof {
                    assert forall|made: spec_fn(Call<V>) -> bool|
                        #![trigger picked(made)]
                        picked(made)
                            && (forall|mv: &mut V, node: Node, answer: Result<Step, VisitError>|
                                #[trigger] called::<V, D>(node, mv, answer) ==> made(
                                    (Call { node, before: *mv, after: *final(mv), answer }),
                                ))
                        implies pre.accepted::<V, D>(
                            made,
                            pre_v,
                            *v,
                            *self,
                            Err::<(), VisitError>(e),
                        ) by {
                    }
                }
                Err(e)
            },
        }
    }
}

impl Visitable for VariableDeclarationStatement {
    /// Walks the children in this order: `declarations`, then `initial_value`. The
    /// first failure ends the walk; what stands after it is left alone.
    fn visit<V: Visitor<D>, D>(&mut self, v: &mut V) -> (r: Result<(), VisitError>)
        ensures
            forall|made: spec_fn(Call<V>) -> bool|
                #![trigger picked(made)]
                picked(made)
                    && (forall|mv: &mut V, node: Node, answer: Result<Step, VisitError>|
                        #[trigger] called::<V, D>(node, mv, answer) ==> made(
                            (Call { node, before: *mv, after: *final(mv), answer }),
                        ))
                    ==> old(self).walked::<V, D>(made, *old(v), *final(v), *final(self), r),
            forall|made: spec_fn(Call<V>) -> bool|
                #![trigger picked(made)]
                picked(made)
                    && (forall|mv: &mut V, node: Node, answer: Result<Step, VisitError>|
                        #[trigger] called::<V, D>(node, mv, answer) ==> made(
                            (Call { node, before: *mv, after: *final(mv), answer }),
                        ))
                    ==> failure_was_answered(made, r),
            between(*final(v), r),
            *final(self) == (VariableDeclarationStatement {
                declarations: final(self).declarations,
                initial_value: final(self).initial_value,
                ..*old(self)
            }),
            final(self).declarations@.len() == old(self).declarations@.len(),
            (final(self).initial_value is Some) == (old(self).initial_value is Some),
        decreases old(self).depth(), 0int,
    {
        visit_optional_variable_declarations(&mut self.declarations, v)?;
        visit_maybe_expression(&mut self.initial_value, v)
    }
}

impl WhileStatement {
    /// How `visit` takes this node and the visitor `pre_v` to `post` and `post_v`, with
    /// the result `r`, the calls of callbacks being among `made`: the children are
    /// walked one after the other, each from the visitor as the one before has left it;
    /// the first failure is the result, and what stands behind it is as it was. What is
    /// no child is as it was.
    pub open spec fn walked<V: Visitor<D>, D>(
        &self,
        made: spec_fn(Call<V>) -> bool,
        pre_v: V,
        post_v: V,
        post: WhileStatement,
        r: Result<(), VisitError>,
    ) -> bool
        decreases self.depth(), 0int, 0int,
    {
        &&& post == (WhileStatement { body: post.body, condition: post.condition, ..*self })
        &&& (exists|v1: V, r1: Result<(), VisitError>|
                #[trigger] between(v1, r1)
                    && self.body.walked::<V, D>(made, pre_v, v1, post.body, r1)
                    && match r1 {
                        Ok(_) => {
                            self.condition.walked::<V, D>(made, v1, post_v, post.condition, r)
                        },
                        Err(e) => {
                            &&& r == Err::<(), VisitError>(e)
                            &&& post_v == v1
                            &&& post.condition == self.condition
                        },
                    })
    }

    /// How `accept` takes this node and the visitor `pre_v` to `post` and `post_v`,
    /// with the result `r`, the calls of callbacks being among `made`: the callback for
    /// this kind is called with `pre_v` and this node, answers, and leaves `mid_v` and
    /// `mid`, which is no deeper; after [`Step::Descend`] the children of `mid` are
    /// walked from `mid_v`, after anything else nothing more happens, and an error is
    /// the result as it is.
    pub open spec fn accepted<V: Visitor<D>, D>(
        &self,
        made: spec_fn(Call<V>) -> bool,
        pre_v: V,
        post_v: V,
        post: WhileStatement,
        r: Result<(), VisitError>,
    ) -> bool
        decreases self.depth(), 1int, 0int,
    {
        exists|mid_v: V, mid: WhileStatement, answer: Result<Step, VisitError>|
            #[trigger] while_statement_answered::<V, D>(pre_v, *self, mid_v, mid, answer)
                && made(
                    (Call {
                        node: Node::WhileStatement(*self),
                        before: pre_v,
                        after: mid_v,
                        answer,
                    }),
                )
                && mid.depth() <= self.depth() && match answer {
                    Ok(Step::Descend) => mid.walked::<V, D>(made, mid_v, post_v, post, r),
                    Ok(Step::Prune) => r is Ok && post_v == mid_v && post == mid,
                    Err(e) => r == Err::<(), VisitError>(e) && post_v == mid_v && post == mid,
                }
    }

    /// Hands this node to [`Visitor::visit_while_statement`] and does what the callback
    /// answers: on [`Step::Descend`] it walks the children as [`Visitable::visit`]
    /// does, on [`Step::Prune`] it leaves them alone; an error is handed on.
    pub fn accept<V: Visitor<D>, D>(&mut self, v: &mut V) -> (r: Result<(), VisitError>)
        ensures
            final(self).depth() <= old(self).depth(),
            final(v).shared() == old(v).shared(),
            unfailing::<V, D>() ==> r is Ok,
            old(v).inert() ==> r is Ok && *final(v) == *old(v) && final(self).same_as(old(self)),
            forall|made: spec_fn(Call<V>) -> bool|
                #![trigger picked(made)]
                picked(made)
                    && (forall|mv: &mut V, node: Node, answer: Result<Step, VisitError>|
                        #[trigger] called::<V, D>(node, mv, answer) ==> made(
                            (Call { node, before: *mv, after: *final(mv), answer }),
                        ))
                    ==> old(self).accepted::<V, D>(made, *old(v), *final(v), *final(self), r),
            forall|made: spec_fn(Call<V>) -> bool|
                #![trigger picked(made)]
                picked(made)
                    && (forall|mv: &mut V, node: Node, answer: Result<Step, VisitError>|
                        #[trigger] called::<V, D>(node, mv, answer) ==> made(
                            (Call { node, before: *mv, after: *final(mv), answer }),
                        ))
                    ==> failure_was_answered(made, r),
            between(*final(v), r),
            exists|mv: &mut V, mn: &mut WhileStatement, answer: Result<Step, VisitError>|
                *mv == *old(v) && *mn == *old(self)
                    && #[trigger] call_ensures(V::visit_while_statement, (mv, mn), answer)
                    && settled::<V, D, WhileStatement>(
                        answer,
                        r,
                        *final(mv),
                        *final(v),
                        *final(mn),
                        *final(self),
                    ),
        decreases old(self).depth(), 1int,
    {
        let ghost pre_v = *v;
        let ghost pre = *self;
        let answer = v.visit_while_statement(self);
        let ghost mid_v = *v;
        proof {
            assert(while_statement_answered::<V, D>(pre_v, pre, *v, *self, answer));
            let (mv0, mn0) = choose|mv: &mut V, mn: &mut WhileStatement|
                *mv == pre_v && *final(mv) == mid_v && *mn == pre
                    && #[trigger] call_ensures(V::visit_while_statement, (mv, mn), answer);
            assert(called::<V, D>(Node::WhileStatement(pre), mv0, answer));
        }
        match answer {
            Ok(Step::Descend) => {
                let r = self.visit(v);
                proof {
                    assert forall|made: spec_fn(Call<V>) -> bool|
                        #![trigger picked(made)]
                        picked(made)
                            && (forall|mv: &mut V, node: Node, answer: Result<Step, VisitError>|
                                #[trigger] called::<V, D>(node, mv, answer) ==> made(
                                    (Call { node, before: *mv, after: *final(mv), answer }),
                                ))
                        implies pre.accepted::<V, D>(made, pre_v, *v, *self, r) by {
                    }
                }
                r
            },
            Ok(Step::Prune) => {
                proof {
                    assert forall|made: spec_fn(Call<V>) -> bool|
                        #![trigger picked(made)]
                        picked(made)
                            && (forall|mv: &mut V, node: Node, answer: Result<Step, VisitError>|
                                #[trigger] called::<V, D>(node, mv, answer) ==> made(
                                    (Call { node, before: *mv, after: *final(mv), answer }),
                                ))
                        implies pre.accepted::<V, D>(
                            made,
                            pre_v,
                            *v,
                            *self,
                            Ok::<(), VisitError>(()),
                        ) by {
                    }
                }
                Ok(())
            },
            Err(e) => {
                proof {
                    assert forall|made: spec_fn(Call<V>) -> bool|
                        #![trigger picked(made)]
                        picked(made)
                            && (forall|mv: &mut V, node: Node, answer: Result<Step, VisitError>|
                                #[trigger] called::<V, D>(node, mv, answer) ==> made(
                                    (Call { node, before: *mv, after: *final(mv), answer }),
                                ))
                        implies pre.accepted::<V, D>(
                            made,
                            pre_v,
                            *v,
                            *self,
                            Err::<(), VisitError>(e),
                        ) by {
                    }
                }
                Err(e)
            },
        }
    }
}

impl Visitable for WhileStatement {
    /// Walks the children in this order: `body`, then `condition`. The first failure
    /// ends the walk; what stands after it is left alone.
    fn visit<V: Visitor<D>, D>(&mut self, v: &mut V) -> (r: Result<(), VisitError>)
        ensures
            forall|made: spec_fn(Call<V>) -> bool|
                #![trigger picked(made)]
                picked(made)
                    && (forall|mv: &mut V, node: Node, answer: Result<Step, VisitError>|
                        #[trigger] called::<V, D>(node, mv, answer) ==> made(
                            (Call { node, before: *mv, after: *final(mv), answer }),
                        ))
                    ==> old(self).walked::<V, D>(made, *old(v), *final(v), *final(self), r),
            forall|made: spec_fn(Call<V>) -> bool|
                #![trigger picked(made)]
                picked(made)
                    && (forall|mv: &mut V, node: Node, answer: Result<Step, VisitError>|
                        #[trigger] called::<V, D>(node, mv, answer) ==> made(
                            (Call { node, before: *mv, after: *final(mv), answer }),
                        ))
                    ==> failure_was_answered(made, r),
            between(*final(v), r),
            *final(self) == (WhileStatement {
                body: final(self).body,
                condition: final(self).condition,
                ..*old(self)
            }),
        decreases old(self).depth(), 0int,
    {
        self.body.visit(v)?;
        self.condition.visit(v)
    }
}

} // verus!
