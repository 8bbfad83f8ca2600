//! The walk of declarations.

use vstd::prelude::*;
use crate::ast::definition::{
    EnumDefinition, EnumValue, ErrorDefinition, EventDefinition, FunctionDefinition, Identifier,
    IdentifierOrIdentifierPath, IdentifierPath, ModifierDefinition, ModifierInvocation,
    OverrideSpecifier, ParameterList, StructDefinition, UserDefinedValueTypeDefinition,
    VariableDeclaration, lemma_modifier_invocations_depth_bound,
    lemma_modifier_invocations_depth_mono, lemma_optional_variable_declarations_depth_bound,
    lemma_optional_variable_declarations_depth_mono, lemma_variable_declarations_depth_bound,
    lemma_variable_declarations_depth_mono, modifier_invocations_depth, modifier_invocations_depths,
    modifier_invocations_same, optional_variable_declarations_depth,
    optional_variable_declarations_depths, optional_variable_declarations_same,
    variable_declarations_depth, variable_declarations_depths, variable_declarations_same,
};
use crate::shape::{Shape, depths_of};
use crate::visitor::{
    Call, Node, Step, VisitError, Visitable, Visitor, between, called, enum_definition_answered,
    error_definition_answered, event_definition_answered, failure_was_answered,
    function_definition_answered, identifier_answered, identifier_path_answered,
    modifier_definition_answered, picked, reached, settled, struct_definition_answered, unfailing,
    user_defined_value_type_definition_answered, variable_declaration_answered,
};
use crate::visitor::expression::{
    maybe_expression_walked, maybe_expressions_walked, visit_maybe_expression,
    visit_maybe_expressions,
};
use crate::visitor::statement::{accept_maybe_block, maybe_block_accepted};
use crate::visitor::types::{
    maybe_type_name_walked, user_defined_type_name_or_identifier_paths_walked,
    visit_maybe_type_name, visit_user_defined_type_name_or_identifier_paths,
};

verus! {

impl VariableDeclaration {
    /// How `visit` takes this node and the visitor `pre_v` to `post` and `post_v`, with
    /// the result `r`, the calls of callbacks being among `made`: the children are
    /// walked one after the other, each from the visitor as the one before has left it;
    /// the first failure is the result, and what stands behind it is as it was. What is
    /// no child is as it was.
    pub open spec fn walked<V: Visitor<D>, D>(
        &self,
        made: spec_fn(Call<V>) -> bool,
        pre_v: V,
        post_v: V,
        post: VariableDeclaration,
        r: Result<(), VisitError>,
    ) -> bool
        decreases self.depth(), 0int, 0int,
    {
        &&& post == (VariableDeclaration {
            overrides: post.overrides,
            declared_type: post.declared_type,
            value: post.value,
            ..*self
        })
        &&& (exists|v1: V, r1: Result<(), VisitError>|
                #[trigger] between(v1, r1)
                    && maybe_override_specifier_walked::<V, D>(
                        made,
                        self.overrides,
                        pre_v,
                        v1,
                        post.overrides,
                        r1,
                    )
                    && match r1 {
                        Ok(_) => {
                            exists|v2: V, r2: Result<(), VisitError>|
                                #[trigger] between(v2, r2)
                                    && maybe_type_name_walked::<V, D>(
                                        made,
                                        self.declared_type,
                                        v1,
                                        v2,
                                        post.declared_type,
                                        r2,
                                    )
                                    && match r2 {
                                        Ok(_) => {
                                            maybe_expression_walked::<V, D>(
                                                made,
                                                self.value,
                                                v2,
                                                post_v,
                                                post.value,
                                                r,
                                            )
                                        },
                                        Err(e) => {
                                            &&& r == Err::<(), VisitError>(e)
                                            &&& post_v == v2
                                            &&& post.value == self.value
                                        },
                                    }
                        },
                        Err(e) => {
                            &&& r == Err::<(), VisitError>(e)
                            &&& post_v == v1
                            &&& post.declared_type == self.declared_type
                            &&& post.value == self.value
                        },
                    })
    }

    /// How `accept` takes this node and the visitor `pre_v` to `post` and `post_v`,
    /// with the result `r`, the calls of callbacks being among `made`: the callback for
    /// this kind is called with `pre_v` and this node, answers, and leaves `mid_v` and
    /// `mid`, which is no deeper; after [`Step::Descend`] the children of `mid` are
    /// walked from `mid_v`, after anything else nothing more happens, and an error is
    /// the result as it is.
    pub open spec fn accepted<V: Visitor<D>, D>(
        &self,
        made: spec_fn(Call<V>) -> bool,
        pre_v: V,
        post_v: V,
        post: VariableDeclaration,
        r: Result<(), VisitError>,
    ) -> bool
        decreases self.depth(), 1int, 0int,
    {
        exists|mid_v: V, mid: VariableDeclaration, answer: Result<Step, VisitError>|
            #[trigger] variable_declaration_answered::<V, D>(pre_v, *self, mid_v, mid, answer)
                && made(
                    (Call {
                        node: Node::VariableDeclaration(*self),
                        before: pre_v,
                        after: mid_v,
                        answer,
                    }),
                )
                && mid.depth() <= self.depth() && match answer {
                    Ok(Step::Descend) => mid.walked::<V, D>(made, mid_v, post_v, post, r),
                    Ok(Step::Prune) => r is Ok && post_v == mid_v && post == mid,
                    Err(e) => r == Err::<(), VisitError>(e) && post_v == mid_v && post == mid,
                }
    }

    /// Hands this node to [`Visitor::visit_variable_declaration`] and does what the
    /// callback answers: on [`Step::Descend`] it walks the children as
    /// [`Visitable::visit`] does, on [`Step::Prune`] it leaves them alone; an error is
    /// handed on.
    pub fn accept<V: Visitor<D>, D>(&mut self, v: &mut V) -> (r: Result<(), VisitError>)
        ensures
            final(self).depth() <= old(self).depth(),
            final(v).shared() == old(v).shared(),
            unfailing::<V, D>() ==> r is Ok,
            old(v).inert() ==> r is Ok && *final(v) == *old(v) && final(self).same_as(old(self)),
            forall|made: spec_fn(Call<V>) -> bool|
                #![trigger picked(made)]
                picked(made)
                    && (forall|mv: &mut V, node: Node, answer: Result<Step, VisitError>|
                        #[trigger] called::<V, D>(node, mv, answer) ==> made(
                            (Call { node, before: *mv, after: *final(mv), answer }),
                        ))
                    ==> old(self).accepted::<V, D>(made, *old(v), *final(v), *final(self), r),
            forall|made: spec_fn(Call<V>) -> bool|
                #![trigger picked(made)]
                picked(made)
                    && (forall|mv: &mut V, node: Node, answer: Result<Step, VisitError>|
                        #[trigger] called::<V, D>(node, mv, answer) ==> made(
                            (Call { node, before: *mv, after: *final(mv), answer }),
                        ))
                    ==> failure_was_answered(made, r),
            between(*final(v), r),
            exists|mv: &mut V, mn: &mut VariableDeclaration, answer: Result<Step, VisitError>|
                *mv == *old(v) && *mn == *old(self)
                    && #[trigger] call_ensures(V::visit_variable_declaration, (mv, mn), answer)
                    && settled::<V, D, VariableDeclaration>(
                        answer,
                        r,
                        *final(mv),
                        *final(v),
                        *final(mn),
                        *final(self),
                    ),
        decreases old(self).depth(), 1int,
    {
        let ghost pre_v = *v;
        let ghost pre = *self;
        let answer = v.visit_variable_declaration(self);
        let ghost mid_v = *v;
        proof {
            assert(variable_declaration_answered::<V, D>(pre_v, pre, *v, *self, answer));
            let (mv0, mn0) = choose|mv: &mut V, mn: &mut VariableDeclaration|
                *mv == pre_v && *final(mv) == mid_v && *mn == pre
                    && #[trigger] call_ensures(V::visit_variable_declaration, (mv, mn), answer);
            assert(called::<V, D>(Node::VariableDeclaration(pre), mv0, answer));
        }
        match answer {
            Ok(Step::Descend) => {
                let r = self.visit(v);
                proof {
                    assert forall|made: spec_fn(Call<V>) -> bool|
                        #![trigger picked(made)]
                        picked(made)
                            && (forall|mv: &mut V, node: Node, answer: Result<Step, VisitError>|
                                #[trigger] called::<V, D>(node, mv, answer) ==> made(
                                    (Call { node, before: *mv, after: *final(mv), answer }),
                                ))
                        implies pre.accepted::<V, D>(made, pre_v, *v, *self, r) by {
                    }
                }
                r
            },
            Ok(Step::Prune) => {
                proof {
                    assert forall|made: spec_fn(Call<V>) -> bool|
                        #![trigger picked(made)]
                        picked(made)
                            && (forall|mv: &mut V, node: Node, answer: Result<Step, VisitError>|
                                #[trigger] called::<V, D>(node, mv, answer) ==> made(
                                    (Call { node, before: *mv, after: *final(mv), answer }),
                                ))
                        implies pre.accepted::<V, D>(
                            made,
                            pre_v,
                            *v,
                            *self,
                            Ok::<(), VisitError>(()),
                        ) by {
                    }
                }
                Ok(())
            },
            Err(e) => {
                proof {
                    assert forall|made: spec_fn(Call<V>) -> bool|
                        #![trigger picked(made)]
                        picked(made)
                            && (forall|mv: &mut V, node: Node, answer: Result<Step, VisitError>|
                                #[trigger] called::<V, D>(node, mv, answer) ==> made(
                                    (Call { node, before: *mv, after: *final(mv), answer }),
                                ))
                        implies pre.accepted::<V, D>(
                            made,
                            pre_v,
                            *v,
                            *self,
                            Err::<(), VisitError>(e),
                        ) by {
                    }
                }
                Err(e)
            },
        }
    }
}

impl Visitable for VariableDeclaration {
    /// Walks the children in this order: `overrides`, then `declared_type`, then
    /// `value`. The first failure ends the walk; what stands after it is left alone.
    fn visit<V: Visitor<D>, D>(&mut self, v: &mut V) -> (r: Result<(), VisitError>)
        ensures
            forall|made: spec_fn(Call<V>) -> bool|
                #![trigger picked(made)]
                picked(made)
                    && (forall|mv: &mut V, node: Node, answer: Result<Step, VisitError>|
                        #[trigger] called::<V, D>(node, mv, answer) ==> made(
                            (Call { node, before: *mv, after: *final(mv), answer }),
                        ))
                    ==> old(self).walked::<V, D>(made, *old(v), *final(v), *final(self), r),
            forall|made: spec_fn(Call<V>) -> bool|
                #![trigger picked(made)]
                picked(made)
                    && (forall|mv: &mut V, node: Node, answer: Result<Step, VisitError>|
                        #[trigger] called::<V, D>(node, mv, answer) ==> made(
                            (Call { node, before: *mv, after: *final(mv), answer }),
                        ))
                    ==> failure_was_answered(made, r),
            between(*final(v), r),
            *final(self) == (VariableDeclaration {
                overrides: final(self).overrides,
                declared_type: final(self).declared_type,
                value: final(self).value,
                ..*old(self)
            }),
            (final(self).overrides is Some) == (old(self).overrides is Some),
            (final(self).declared_type is Some) == (old(self).declared_type is Some),
            (final(self).value is Some) == (old(self).value is Some),
        decreases old(self).depth(), 0int,
    {
        visit_maybe_override_specifier(&mut self.overrides, v)?;
        visit_maybe_type_name(&mut self.declared_type, v)?;
        visit_maybe_expression(&mut self.value, v)
    }
}

/// How the walk takes an optional slot and the visitor `pre_v` to `post` and `post_v`,
/// with the result `r`, the calls of callbacks being among `made`: the node, if there
/// is one, is walked; an empty slot stays empty, and nothing is called.
pub open spec fn maybe_variable_declaration_walked<V: Visitor<D>, D>(
    made: spec_fn(Call<V>) -> bool,
    pre: Option<VariableDeclaration>,
    pre_v: V,
    post_v: V,
    post: Option<VariableDeclaration>,
    r: Result<(), VisitError>,
) -> bool
    decreases
        (match pre {
            Some(e) => e.depth(),
            None => 0,
        }),
        2int,
        0int,
{
    match (pre, post) {
        (Some(a), Some(b)) => a.walked::<V, D>(made, pre_v, post_v, b, r),
        (None, None) => r is Ok && post_v == pre_v,
        _ => false,
    }
}

/// Walks what an optional slot holds, and does nothing if it is empty.
pub fn visit_maybe_variable_declaration<V: Visitor<D>, D>(
    slot: &mut Option<VariableDeclaration>,
    v: &mut V,
) -> (r: Result<(), VisitError>)
    ensures
        forall|made: spec_fn(Call<V>) -> bool|
            #![trigger picked(made)]
            picked(made)
                && (forall|mv: &mut V, node: Node, answer: Result<Step, VisitError>|
                    #[trigger] called::<V, D>(node, mv, answer) ==> made(
                        (Call { node, before: *mv, after: *final(mv), answer }),
                    ))
                ==> maybe_variable_declaration_walked::<V, D>(
                    made,
                    *old(slot),
                    *old(v),
                    *final(v),
                    *final(slot),
                    r,
                ),
        forall|made: spec_fn(Call<V>) -> bool|
            #![trigger picked(made)]
            picked(made)
                && (forall|mv: &mut V, node: Node, answer: Result<Step, VisitError>|
                    #[trigger] called::<V, D>(node, mv, answer) ==> made(
                        (Call { node, before: *mv, after: *final(mv), answer }),
                    ))
                ==> failure_was_answered(made, r),
        between(*final(v), r),
        ((*final(slot)) is Some) == ((*old(slot)) is Some),
        (match *final(slot) {
            Some(e) => e.depth(),
            None => 0,
        })
        <= (match *old(slot) {
            Some(e) => e.depth(),
            None => 0,
        }),
        final(v).shared() == old(v).shared(),
        unfailing::<V, D>() ==> r is Ok,
        old(v).inert() ==> {
            &&& r is Ok
            &&& *final(v) == *old(v)
            &&& (match (*final(slot), *old(slot)) {
                (Some(a), Some(b)) => a.same_as(&b),
                (None, None) => true,
                _ => false,
            })
        },
    decreases
        (match *old(slot) {
            Some(e) => e.depth(),
            None => 0,
        }),
        2int,
{
    match slot {
        Some(e) => e.visit(v),
        None => Ok(()),
    }
}

impl Visitable for Option<VariableDeclaration> {
    /// Walks the node if there is one, as [`visit_maybe_variable_declaration`] does.
    fn visit<V: Visitor<D>, D>(&mut self, v: &mut V) -> (r: Result<(), VisitError>)
        ensures
            forall|made: spec_fn(Call<V>) -> bool|
                #![trigger picked(made)]
                picked(made)
                    && (forall|mv: &mut V, node: Node, answer: Result<Step, VisitError>|
                        #[trigger] called::<V, D>(node, mv, answer) ==> made(
                            (Call { node, before: *mv, after: *final(mv), answer }),
                        ))
                    ==> maybe_variable_declaration_walked::<V, D>(
                        made,
                        *old(self),
                        *old(v),
                        *final(v),
                        *final(self),
                        r,
                    ),
            forall|made: spec_fn(Call<V>) -> bool|
                #![trigger picked(made)]
                picked(made)
                    && (forall|mv: &mut V, node: Node, answer: Result<Step, VisitError>|
                        #[trigger] called::<V, D>(node, mv, answer) ==> made(
                            (Call { node, before: *mv, after: *final(mv), answer }),
                        ))
                    ==> failure_was_answered(made, r),
            ((*final(self)) is Some) == ((*old(self)) is Some),
    {
        visit_maybe_variable_declaration(self, v)
    }
}

/// The items of `pre` that stand where `done` has items have been walked with success,
/// in order and each once, the first from the visitor `pre_v` and each next one from
/// the visitor as the one before has left it; they are now what `done` holds, and the
/// visitor is `v`. (The clause on the depths holds of every sequence: it is what lets
/// this definition end.)
pub open spec fn variable_declarations_walked_to<V: Visitor<D>, D>(
    made: spec_fn(Call<V>) -> bool,
    pre: Seq<VariableDeclaration>,
    done: Seq<VariableDeclaration>,
    pre_v: V,
    v: V,
) -> bool
    decreases variable_declarations_depth(pre), 3int, done.len(),
{
    if done.len() == 0 {
        v == pre_v
    } else if done.len() > pre.len() {
        false
    } else {
        &&& variable_declarations_depths(pre)[done.len() - 1] <= variable_declarations_depth(pre)
        &&& exists|u: V, ok: Result<(), VisitError>|
            #[trigger] between(u, ok) && ok is Ok
                && variable_declarations_walked_to::<V, D>(made, pre, done.drop_last(), pre_v, u)
                && pre[done.len() - 1].walked::<V, D>(made, u, v, done.last(), ok)
    }
}

/// How the walk takes the items `pre` and the visitor `pre_v` to `post` and `post_v`,
/// with the result `r`: the items are walked in order, each once, each from the visitor
/// as the one before has left it, up to the first failure. That failure is the result,
/// and the items behind it are as they were. (The clause on the depths holds of every
/// sequence.)
pub open spec fn variable_declarations_walked<V: Visitor<D>, D>(
    made: spec_fn(Call<V>) -> bool,
    pre: Seq<VariableDeclaration>,
    pre_v: V,
    post_v: V,
    post: Seq<VariableDeclaration>,
    r: Result<(), VisitError>,
) -> bool
{
    &&& pre.len() == post.len()
    &&& match r {
        Ok(_) => variable_declarations_walked_to::<V, D>(made, pre, post, pre_v, post_v),
        Err(e) => exists|k: int, u: V|
            #[trigger] reached(k, u) && 0 <= k < pre.len()
                && variable_declarations_depths(pre)[k] <= variable_declarations_depth(pre)
                && variable_declarations_walked_to::<V, D>(made, pre, post.take(k), pre_v, u)
                && pre[k].walked::<V, D>(made, u, post_v, post[k], Err::<(), VisitError>(e))
                && forall|j: int| k < j < pre.len() ==> post[j] == pre[j],
    }
}

/// Walks `items` in order. The first failure ends the walk; the items after it are left
/// alone.
pub fn visit_variable_declarations<V: Visitor<D>, D>(
    items: &mut Vec<VariableDeclaration>,
    v: &mut V,
) -> (r: Result<(), VisitError>)
    ensures
        forall|made: spec_fn(Call<V>) -> bool|
            #![trigger picked(made)]
            picked(made)
                && (forall|mv: &mut V, node: Node, answer: Result<Step, VisitError>|
                    #[trigger] called::<V, D>(node, mv, answer) ==> made(
                        (Call { node, before: *mv, after: *final(mv), answer }),
                    ))
                ==> variable_declarations_walked::<V, D>(
                    made,
                    old(items)@,
                    *old(v),
                    *final(v),
                    final(items)@,
                    r,
                ),
        forall|made: spec_fn(Call<V>) -> bool|
            #![trigger picked(made)]
            picked(made)
                && (forall|mv: &mut V, node: Node, answer: Result<Step, VisitError>|
                    #[trigger] called::<V, D>(node, mv, answer) ==> made(
                        (Call { node, before: *mv, after: *final(mv), answer }),
                    ))
                ==> failure_was_answered(made, r),
        between(*final(v), r),
        final(items)@.len() == old(items)@.len(),
        variable_declarations_depth(final(items)@) <= variable_declarations_depth(old(items)@),
        final(v).shared() == old(v).shared(),
        unfailing::<V, D>() ==> r is Ok,
        old(v).inert() ==> {
            &&& r is Ok
            &&& *final(v) == *old(v)
            &&& variable_declarations_same(final(items)@, old(items)@)
        },
    decreases variable_declarations_depth(old(items)@), 3int,
{
    let n = items.len();
    let mut i: usize = 0;
    while i < n
        invariant
            i <= n,
            n == items@.len(),
            n == old(items)@.len(),
            forall|j: int| i <= j < n ==> items@[j] == old(items)@[j],
            forall|j: int|
                0 <= j < n ==> variable_declarations_depths(items@)[j]
                    <= variable_declarations_depths(old(items)@)[j],
            v.shared() == old(v).shared(),
            old(v).inert() ==> *v == *old(v),
            forall|made: spec_fn(Call<V>) -> bool|
                #![trigger picked(made)]
                picked(made)
                    && (forall|mv: &mut V, node: Node, answer: Result<Step, VisitError>|
                        #[trigger] called::<V, D>(node, mv, answer) ==> made(
                            (Call { node, before: *mv, after: *final(mv), answer }),
                        ))
                    ==> variable_declarations_walked_to::<V, D>(
                        made,
                        old(items)@,
                        items@.take(i as int),
                        *old(v),
                        *v,
                    ),
            old(v).inert() ==> forall|j: int|
                #![trigger items@[j]]
                0 <= j < i ==> items@[j].same_as(&old(items)@[j]),
        decreases n - i,
    {
        proof {
            lemma_variable_declarations_depth_bound(old(items)@, i as int);
        }
        let ghost done = items@.take(i as int);
        let ghost u = *v;
        let step = items[i].visit(v);
        proof {
            assert(between(u, step));
        }
        match step {
            Ok(_) => {
                proof {
                    let grown = items@.take(i + 1);
                    assert(grown.drop_last() =~= done);
                    assert(grown.last() == items@[i as int]);
                    assert forall|made: spec_fn(Call<V>) -> bool|
                        #![trigger picked(made)]
                        picked(made)
                            && (forall|mv: &mut V, node: Node, answer: Result<Step, VisitError>|
                                #[trigger] called::<V, D>(node, mv, answer) ==> made(
                                    (Call { node, before: *mv, after: *final(mv), answer }),
                                ))
                        implies variable_declarations_walked_to::<V, D>(
                            made,
                            old(items)@,
                            grown,
                            *old(v),
                            *v,
                        ) by {
                        assert(variable_declarations_walked_to::<V, D>(
                            made,
                            old(items)@,
                            done,
                            *old(v),
                            u,
                        ));
                    }
                }
            },
            Err(e) => {
                proof {
                    lemma_variable_declarations_depth_mono(items@, old(items)@);
                    assert(items@.take(i as int) =~= done);
                    assert(reached(i as int, u));
                    assert forall|made: spec_fn(Call<V>) -> bool|
                        #![trigger picked(made)]
                        picked(made)
                            && (forall|mv: &mut V, node: Node, answer: Result<Step, VisitError>|
                                #[trigger] called::<V, D>(node, mv, answer) ==> made(
                                    (Call { node, before: *mv, after: *final(mv), answer }),
                                ))
                        implies variable_declarations_walked::<V, D>(
                            made,
                            old(items)@,
                            *old(v),
                            *v,
                            items@,
                            Err::<(), VisitError>(e),
                        ) by {
                        assert(variable_declarations_walked_to::<V, D>(
                            made,
                            old(items)@,
                            done,
                            *old(v),
                            u,
                        ));
                    }
                }
                return Err(e);
            },
        }
        i += 1;
    }
    proof {
        lemma_variable_declarations_depth_mono(items@, old(items)@);
        assert(items@.take(n as int) =~= items@);
    }
    Ok(())
}

impl Visitable for Vec<VariableDeclaration> {
    /// Walks the items in order, as [`visit_variable_declarations`] does.
    fn visit<V: Visitor<D>, D>(&mut self, v: &mut V) -> (r: Result<(), VisitError>)
        ensures
            forall|made: spec_fn(Call<V>) -> bool|
                #![trigger picked(made)]
                picked(made)
                    && (forall|mv: &mut V, node: Node, answer: Result<Step, VisitError>|
                        #[trigger] called::<V, D>(node, mv, answer) ==> made(
                            (Call { node, before: *mv, after: *final(mv), answer }),
                        ))
                    ==> variable_declarations_walked::<V, D>(
                        made,
                        old(self)@,
                        *old(v),
                        *final(v),
                        final(self)@,
                        r,
                    ),
            forall|made: spec_fn(Call<V>) -> bool|
                #![trigger picked(made)]
                picked(made)
                    && (forall|mv: &mut V, node: Node, answer: Result<Step, VisitError>|
                        #[trigger] called::<V, D>(node, mv, answer) ==> made(
                            (Call { node, before: *mv, after: *final(mv), answer }),
                        ))
                    ==> failure_was_answered(made, r),
            final(self)@.len() == old(self)@.len(),
    {
        let ghost before = self@;
        let r = visit_variable_declarations(self, v);
        proof {
            assert(depths_of(before) =~= variable_declarations_depths(before));
            assert(depths_of(self@) =~= variable_declarations_depths(self@));
        }
        r
    }
}

/// The items of `pre` that stand where `done` has items have been walked with success,
/// in order and each once, the first from the visitor `pre_v` and each next one from
/// the visitor as the one before has left it; they are now what `done` holds, and the
/// visitor is `v`. (The clause on the depths holds of every sequence: it is what lets
/// this definition end.)
pub open spec fn optional_variable_declarations_walked_to<V: Visitor<D>, D>(
    made: spec_fn(Call<V>) -> bool,
    pre: Seq<Option<VariableDeclaration>>,
    done: Seq<Option<VariableDeclaration>>,
    pre_v: V,
    v: V,
) -> bool
    decreases optional_variable_declarations_depth(pre), 3int, done.len(),
{
    if done.len() == 0 {
        v == pre_v
    } else if done.len() > pre.len() {
        false
    } else {
        &&& optional_variable_declarations_depths(pre)[done.len() - 1] <= optional_variable_declarations_depth(pre)
        &&& exists|u: V, ok: Result<(), VisitError>|
            #[trigger] between(u, ok) && ok is Ok
                && optional_variable_declarations_walked_to::<V, D>(
                    made,
                    pre,
                    done.drop_last(),
                    pre_v,
                    u,
                )
                && maybe_variable_declaration_walked::<V, D>(
                    made,
                    pre[done.len() - 1],
                    u,
                    v,
                    done.last(),
                    ok,
                )
    }
}

/// How the walk takes the items `pre` and the visitor `pre_v` to `post` and `post_v`,
/// with the result `r`: the items are walked in order, each once, each from the visitor
/// as the one before has left it, up to the first failure. That failure is the result,
/// and the items behind it are as they were. (The clause on the depths holds of every
/// sequence.)
pub open spec fn optional_variable_declarations_walked<V: Visitor<D>, D>(
    made: spec_fn(Call<V>) -> bool,
    pre: Seq<Option<VariableDeclaration>>,
    pre_v: V,
    post_v: V,
    post: Seq<Option<VariableDeclaration>>,
    r: Result<(), VisitError>,
) -> bool
{
    &&& pre.len() == post.len()
    &&& match r {
        Ok(_) => optional_variable_declarations_walked_to::<V, D>(made, pre, post, pre_v, post_v),
        Err(e) => exists|k: int, u: V|
            #[trigger] reached(k, u) && 0 <= k < pre.len()
                && optional_variable_declarations_depths(pre)[k] <= optional_variable_declarations_depth(pre)
                && optional_variable_declarations_walked_to::<V, D>(
                    made,
                    pre,
                    post.take(k),
                    pre_v,
                    u,
                )
                && maybe_variable_declaration_walked::<V, D>(
                    made,
                    pre[k],
                    u,
                    post_v,
                    post[k],
                    Err::<(), VisitError>(e),
                )
                && forall|j: int| k < j < pre.len() ==> post[j] == pre[j],
    }
}

/// Walks the `VariableDeclaration` nodes that `items` holds, in order, passing over the
/// empty slots. The first failure ends the walk; the items after it are left alone.
pub fn visit_optional_variable_declarations<V: Visitor<D>, D>(
    items: &mut Vec<Option<VariableDeclaration>>,
    v: &mut V,
) -> (r: Result<(), VisitError>)
    ensures
        forall|made: spec_fn(Call<V>) -> bool|
            #![trigger picked(made)]
            picked(made)
                && (forall|mv: &mut V, node: Node, answer: Result<Step, VisitError>|
                    #[trigger] called::<V, D>(node, mv, answer) ==> made(
                        (Call { node, before: *mv, after: *final(mv), answer }),
                    ))
                ==> optional_variable_declarations_walked::<V, D>(
                    made,
                    old(items)@,
                    *old(v),
                    *final(v),
                    final(items)@,
                    r,
                ),
        forall|made: spec_fn(Call<V>) -> bool|
            #![trigger picked(made)]
            picked(made)
                && (forall|mv: &mut V, node: Node, answer: Result<Step, VisitError>|
                    #[trigger] called::<V, D>(node, mv, answer) ==> made(
                        (Call { node, before: *mv, after: *final(mv), answer }),
                    ))
                ==> failure_was_answered(made, r),
        between(*final(v), r),
        final(items)@.len() == old(items)@.len(),
        optional_variable_declarations_depth(final(items)@)
            <= optional_variable_declarations_depth(old(items)@),
        final(v).shared() == old(v).shared(),
        unfailing::<V, D>() ==> r is Ok,
        old(v).inert() ==> {
            &&& r is Ok
            &&& *final(v) == *old(v)
            &&& optional_variable_declarations_same(final(items)@, old(items)@)
        },
    decreases optional_variable_declarations_depth(old(items)@), 3int,
{
    let n = items.len();
    let mut i: usize = 0;
    while i < n
        invariant
            i <= n,
            n == items@.len(),
            n == old(items)@.len(),
            forall|j: int| i <= j < n ==> items@[j] == old(items)@[j],
            forall|j: int|
                0 <= j < n ==> optional_variable_declarations_depths(items@)[j]
                    <= optional_variable_declarations_depths(old(items)@)[j],
            v.shared() == old(v).shared(),
            old(v).inert() ==> *v == *old(v),
            forall|made: spec_fn(Call<V>) -> bool|
                #![trigger picked(made)]
                picked(made)
                    && (forall|mv: &mut V, node: Node, answer: Result<Step, VisitError>|
                        #[trigger] called::<V, D>(node, mv, answer) ==> made(
                            (Call { node, before: *mv, after: *final(mv), answer }),
                        ))
                    ==> optional_variable_declarations_walked_to::<V, D>(
                        made,
                        old(items)@,
                        items@.take(i as int),
                        *old(v),
                        *v,
                    ),
            old(v).inert() ==> forall|j: int|
                #![trigger items@[j]]
                0 <= j < i ==> (match (items@[j], old(items)@[j]) {
                    (Some(x), Some(y)) => x.same_as(&y),
                    (None, None) => true,
                    _ => false,
                }),
        decreases n - i,
    {
        proof {
            lemma_optional_variable_declarations_depth_bound(old(items)@, i as int);
        }
        let ghost done = items@.take(i as int);
        let ghost u = *v;
        let step = visit_maybe_variable_declaration(&mut items[i], v);
        proof {
            assert(between(u, step));
        }
        match step {
            Ok(_) => {
                proof {
                    let grown = items@.take(i + 1);
                    assert(grown.drop_last() =~= done);
                    assert(grown.last() == items@[i as int]);
                    assert forall|made: spec_fn(Call<V>) -> bool|
                        #![trigger picked(made)]
                        picked(made)
                            && (forall|mv: &mut V, node: Node, answer: Result<Step, VisitError>|
                                #[trigger] called::<V, D>(node, mv, answer) ==> made(
                                    (Call { node, before: *mv, after: *final(mv), answer }),
                                ))
                        implies optional_variable_declarations_walked_to::<V, D>(
                            made,
                            old(items)@,
                            grown,
                            *old(v),
                            *v,
                        ) by {
                        assert(optional_variable_declarations_walked_to::<V, D>(
                            made,
                            old(items)@,
                            done,
                            *old(v),
                            u,
                        ));
                    }
                }
            },
            Err(e) => {
                proof {
                    lemma_optional_variable_declarations_depth_mono(items@, old(items)@);
                    assert(items@.take(i as int) =~= done);
                    assert(reached(i as int, u));
                    assert forall|made: spec_fn(Call<V>) -> bool|
                        #![trigger picked(made)]
                        picked(made)
                            && (forall|mv: &mut V, node: Node, answer: Result<Step, VisitError>|
                                #[trigger] called::<V, D>(node, mv, answer) ==> made(
                                    (Call { node, before: *mv, after: *final(mv), answer }),
                                ))
                        implies optional_variable_declarations_walked::<V, D>(
                            made,
                            old(items)@,
                            *old(v),
                            *v,
                            items@,
                            Err::<(), VisitError>(e),
                        ) by {
                        assert(optional_variable_declarations_walked_to::<V, D>(
                            made,
                            old(items)@,
                            done,
                            *old(v),
                            u,
                        ));
                    }
                }
                return Err(e);
            },
        }
        i += 1;
    }
    proof {
        lemma_optional_variable_declarations_depth_mono(items@, old(items)@);
        assert(items@.take(n as int) =~= items@);
    }
    Ok(())
}

impl Visitable for Vec<Option<VariableDeclaration>> {
    /// Walks the items in order, as [`visit_optional_variable_declarations`] does.
    fn visit<V: Visitor<D>, D>(&mut self, v: &mut V) -> (r: Result<(), VisitError>)
        ensures
            forall|made: spec_fn(Call<V>) -> bool|
                #![trigger picked(made)]
                picked(made)
                    && (forall|mv: &mut V, node: Node, answer: Result<Step, VisitError>|
                        #[trigger] called::<V, D>(node, mv, answer) ==> made(
                            (Call { node, before: *mv, after: *final(mv), answer }),
                        ))
                    ==> optional_variable_declarations_walked::<V, D>(
                        made,
                        old(self)@,
                        *old(v),
                        *final(v),
                        final(self)@,
                        r,
                    ),
            forall|made: spec_fn(Call<V>) -> bool|
                #![trigger picked(made)]
                picked(made)
                    && (forall|mv: &mut V, node: Node, answer: Result<Step, VisitError>|
                        #[trigger] called::<V, D>(node, mv, answer) ==> made(
                            (Call { node, before: *mv, after: *final(mv), answer }),
                        ))
                    ==> failure_was_answered(made, r),
            final(self)@.len() == old(self)@.len(),
    {
        let ghost before = self@;
        let r = visit_optional_variable_declarations(self, v);
        proof {
            assert(depths_of(before) =~= optional_variable_declarations_depths(before));
            assert(depths_of(self@) =~= optional_variable_declarations_depths(self@));
        }
        r
    }
}

impl OverrideSpecifier {
    /// How `visit` takes this node and the visitor `pre_v` to `post` and `post_v`, with
    /// the result `r`, the calls of callbacks being among `made`: the children are
    /// walked one after the other, each from the visitor as the one before has left it;
    /// the first failure is the result, and what stands behind it is as it was. What is
    /// no child is as it was.
    pub open spec fn walked<V: Visitor<D>, D>(
        &self,
        made: spec_fn(Call<V>) -> bool,
        pre_v: V,
        post_v: V,
        post: OverrideSpecifier,
        r: Result<(), VisitError>,
    ) -> bool
        decreases self.depth(), 0int, 0int,
    {
        &&& post == (OverrideSpecifier { overrides: post.overrides, ..*self })
        &&& (user_defined_type_name_or_identifier_paths_walked::<V, D>(
            made,
            self.overrides@,
            pre_v,
            post_v,
            post.overrides@,
            r,
        ))
    }
}

impl Visitable for OverrideSpecifier {
    /// Walks `overrides`.
    fn visit<V: Visitor<D>, D>(&mut self, v: &mut V) -> (r: Result<(), VisitError>)
        ensures
            forall|made: spec_fn(Call<V>) -> bool|
                #![trigger picked(made)]
                picked(made)
                    && (forall|mv: &mut V, node: Node, answer: Result<Step, VisitError>|
                        #[trigger] called::<V, D>(node, mv, answer) ==> made(
                            (Call { node, before: *mv, after: *final(mv), answer }),
                        ))
                    ==> old(self).walked::<V, D>(made, *old(v), *final(v), *final(self), r),
            forall|made: spec_fn(Call<V>) -> bool|
                #![trigger picked(made)]
                picked(made)
                    && (forall|mv: &mut V, node: Node, answer: Result<Step, VisitError>|
                        #[trigger] called::<V, D>(node, mv, answer) ==> made(
                            (Call { node, before: *mv, after: *final(mv), answer }),
                        ))
                    ==> failure_was_answered(made, r),
            between(*final(v), r),
            *final(self) == (OverrideSpecifier { overrides: final(self).overrides, ..*old(self) }),
            final(self).overrides@.len() == old(self).overrides@.len(),
        decreases old(self).depth(), 0int,
    {
        visit_user_defined_type_name_or_identifier_paths(&mut self.overrides, v)
    }
}

/// How the walk takes an optional slot and the visitor `pre_v` to `post` and `post_v`,
/// with the result `r`, the calls of callbacks being among `made`: the node, if there
/// is one, is walked; an empty slot stays empty, and nothing is called.
pub open spec fn maybe_override_specifier_walked<V: Visitor<D>, D>(
    made: spec_fn(Call<V>) -> bool,
    pre: Option<OverrideSpecifier>,
    pre_v: V,
    post_v: V,
    post: Option<OverrideSpecifier>,
    r: Result<(), VisitError>,
) -> bool
    decreases
        (match pre {
            Some(e) => e.depth(),
            None => 0,
        }),
        2int,
        0int,
{
    match (pre, post) {
        (Some(a), Some(b)) => a.walked::<V, D>(made, pre_v, post_v, b, r),
        (None, None) => r is Ok && post_v == pre_v,
        _ => false,
    }
}

/// Walks what an optional slot holds, and does nothing if it is empty.
pub fn visit_maybe_override_specifier<V: Visitor<D>, D>(
    slot: &mut Option<OverrideSpecifier>,
    v: &mut V,
) -> (r: Result<(), VisitError>)
    ensures
        forall|made: spec_fn(Call<V>) -> bool|
            #![trigger picked(made)]
            picked(made)
                && (forall|mv: &mut V, node: Node, answer: Result<Step, VisitError>|
                    #[trigger] called::<V, D>(node, mv, answer) ==> made(
                        (Call { node, before: *mv, after: *final(mv), answer }),
                    ))
                ==> maybe_override_specifier_walked::<V, D>(
                    made,
                    *old(slot),
                    *old(v),
                    *final(v),
                    *final(slot),
                    r,
                ),
        forall|made: spec_fn(Call<V>) -> bool|
            #![trigger picked(made)]
            picked(made)
                && (forall|mv: &mut V, node: Node, answer: Result<Step, VisitError>|
                    #[trigger] called::<V, D>(node, mv, answer) ==> made(
                        (Call { node, before: *mv, after: *final(mv), answer }),
                    ))
                ==> failure_was_answered(made, r),
        between(*final(v), r),
        ((*final(slot)) is Some) == ((*old(slot)) is Some),
        (match *final(slot) {
            Some(e) => e.depth(),
            None => 0,
        })
        <= (match *old(slot) {
            Some(e) => e.depth(),
            None => 0,
        }),
        final(v).shared() == old(v).shared(),
        unfailing::<V, D>() ==> r is Ok,
        old(v).inert() ==> {
            &&& r is Ok
            &&& *final(v) == *old(v)
            &&& (match (*final(slot), *old(slot)) {
                (Some(a), Some(b)) => a.same_as(&b),
                (None, None) => true,
                _ => false,
            })
        },
    decreases
        (match *old(slot) {
            Some(e) => e.depth(),
            None => 0,
        }),
        2int,
{
    match slot {
        Some(e) => e.visit(v),
        None => Ok(()),
    }
}

impl Visitable for Option<OverrideSpecifier> {
    /// Walks the node if there is one, as [`visit_maybe_override_specifier`] does.
    fn visit<V: Visitor<D>, D>(&mut self, v: &mut V) -> (r: Result<(), VisitError>)
        ensures
            forall|made: spec_fn(Call<V>) -> bool|
                #![trigger picked(made)]
                picked(made)
                    && (forall|mv: &mut V, node: Node, answer: Result<Step, VisitError>|
                        #[trigger] called::<V, D>(node, mv, answer) ==> made(
                            (Call { node, before: *mv, after: *final(mv), answer }),
                        ))
                    ==> maybe_override_specifier_walked::<V, D>(
                        made,
                        *old(self),
                        *old(v),
                        *final(v),
                        *final(self),
                        r,
                    ),
            forall|made: spec_fn(Call<V>) -> bool|
                #![trigger picked(made)]
                picked(made)
                    && (forall|mv: &mut V, node: Node, answer: Result<Step, VisitError>|
                        #[trigger] called::<V, D>(node, mv, answer) ==> made(
                            (Call { node, before: *mv, after: *final(mv), answer }),
                        ))
                    ==> failure_was_answered(made, r),
            ((*final(self)) is Some) == ((*old(self)) is Some),
    {
        visit_maybe_override_specifier(self, v)
    }
}

impl ParameterList {
    /// How `visit` takes this node and the visitor `pre_v` to `post` and `post_v`, with
    /// the result `r`, the calls of callbacks being among `made`: the children are
    /// walked one after the other, each from the visitor as the one before has left it;
    /// the first failure is the result, and what stands behind it is as it was. What is
    /// no child is as it was.
    pub open spec fn walked<V: Visitor<D>, D>(
        &self,
        made: spec_fn(Call<V>) -> bool,
        pre_v: V,
        post_v: V,
        post: ParameterList,
        r: Result<(), VisitError>,
    ) -> bool
        decreases self.depth(), 0int, 0int,
    {
        &&& post == (ParameterList { parameters: post.parameters, ..*self })
        &&& (variable_declarations_walked::<V, D>(
            made,
            self.parameters@,
            pre_v,
            post_v,
            post.parameters@,
            r,
        ))
    }
}

impl Visitable for ParameterList {
    /// Walks `parameters`.
    fn visit<V: Visitor<D>, D>(&mut self, v: &mut V) -> (r: Result<(), VisitError>)
        ensures
            forall|made: spec_fn(Call<V>) -> bool|
                #![trigger picked(made)]
                picked(made)
                    && (forall|mv: &mut V, node: Node, answer: Result<Step, VisitError>|
                        #[trigger] called::<V, D>(node, mv, answer) ==> made(
                            (Call { node, before: *mv, after: *final(mv), answer }),
                        ))
                    ==> old(self).walked::<V, D>(made, *old(v), *final(v), *final(self), r),
            forall|made: spec_fn(Call<V>) -> bool|
                #![trigger picked(made)]
                picked(made)
                    && (forall|mv: &mut V, node: Node, answer: Result<Step, VisitError>|
                        #[trigger] called::<V, D>(node, mv, answer) ==> made(
                            (Call { node, before: *mv, after: *final(mv), answer }),
                        ))
                    ==> failure_was_answered(made, r),
            between(*final(v), r),
            *final(self) == (ParameterList { parameters: final(self).parameters, ..*old(self) }),
            final(self).parameters@.len() == old(self).parameters@.len(),
        decreases old(self).depth(), 0int,
    {
        visit_variable_declarations(&mut self.parameters, v)
    }
}

/// How the walk takes an optional slot and the visitor `pre_v` to `post` and `post_v`,
/// with the result `r`, the calls of callbacks being among `made`: the node, if there
/// is one, is walked; an empty slot stays empty, and nothing is called.
pub open spec fn maybe_parameter_list_walked<V: Visitor<D>, D>(
    made: spec_fn(Call<V>) -> bool,
    pre: Option<ParameterList>,
    pre_v: V,
    post_v: V,
    post: Option<ParameterList>,
    r: Result<(), VisitError>,
) -> bool
    decreases
        (match pre {
            Some(e) => e.depth(),
            None => 0,
        }),
        2int,
        0int,
{
    match (pre, post) {
        (Some(a), Some(b)) => a.walked::<V, D>(made, pre_v, post_v, b, r),
        (None, None) => r is Ok && post_v == pre_v,
        _ => false,
    }
}

/// Walks what an optional slot holds, and does nothing if it is empty.
pub fn visit_maybe_parameter_list<V: Visitor<D>, D>(
    slot: &mut Option<ParameterList>,
    v: &mut V,
) -> (r: Result<(), VisitError>)
    ensures
        forall|made: spec_fn(Call<V>) -> bool|
            #![trigger picked(made)]
            picked(made)
                && (forall|mv: &mut V, node: Node, answer: Result<Step, VisitError>|
                    #[trigger] called::<V, D>(node, mv, answer) ==> made(
                        (Call { node, before: *mv, after: *final(mv), answer }),
                    ))
                ==> maybe_parameter_list_walked::<V, D>(
                    made,
                    *old(slot),
                    *old(v),
                    *final(v),
                    *final(slot),
                    r,
                ),
        forall|made: spec_fn(Call<V>) -> bool|
            #![trigger picked(made)]
            picked(made)
                && (forall|mv: &mut V, node: Node, answer: Result<Step, VisitError>|
                    #[trigger] called::<V, D>(node, mv, answer) ==> made(
                        (Call { node, before: *mv, after: *final(mv), answer }),
                    ))
                ==> failure_was_answered(made, r),
        between(*final(v), r),
        ((*final(slot)) is Some) == ((*old(slot)) is Some),
        (match *final(slot) {
            Some(e) => e.depth(),
            None => 0,
        })
        <= (match *old(slot) {
            Some(e) => e.depth(),
            None => 0,
        }),
        final(v).shared() == old(v).shared(),
        unfailing::<V, D>() ==> r is Ok,
        old(v).inert() ==> {
            &&& r is Ok
            &&& *final(v) == *old(v)
            &&& (match (*final(slot), *old(slot)) {
                (Some(a), Some(b)) => a.same_as(&b),
                (None, None) => true,
                _ => false,
            })
        },
    decreases
        (match *old(slot) {
            Some(e) => e.depth(),
            None => 0,
        }),
        2int,
{
    match slot {
        Some(e) => e.visit(v),
        None => Ok(()),
    }
}

impl Visitable for Option<ParameterList> {
    /// Walks the node if there is one, as [`visit_maybe_parameter_list`] does.
    fn visit<V: Visitor<D>, D>(&mut self, v: &mut V) -> (r: Result<(), VisitError>)
        ensures
            forall|made: spec_fn(Call<V>) -> bool|
                #![trigger picked(made)]
                picked(made)
                    && (forall|mv: &mut V, node: Node, answer: Result<Step, VisitError>|
                        #[trigger] called::<V, D>(node, mv, answer) ==> made(
                            (Call { node, before: *mv, after: *final(mv), answer }),
                        ))
                    ==> maybe_parameter_list_walked::<V, D>(
                        made,
                        *old(self),
                        *old(v),
                        *final(v),
                        *final(self),
                        r,
                    ),
            forall|made: spec_fn(Call<V>) -> bool|
                #![trigger picked(made)]
                picked(made)
                    && (forall|mv: &mut V, node: Node, answer: Result<Step, VisitError>|
                        #[trigger] called::<V, D>(node, mv, answer) ==> made(
                            (Call { node, before: *mv, after: *final(mv), answer }),
                        ))
                    ==> failure_was_answered(made, r),
            ((*final(self)) is Some) == ((*old(self)) is Some),
    {
        visit_maybe_parameter_list(self, v)
    }
}

impl EnumDefinition {
    /// How `accept` takes this node and the visitor `pre_v` to `post` and `post_v`,
    /// with the result `r`, the calls of callbacks being among `made`: the callback for
    /// this kind is called with `pre_v` and this node, answers, and leaves `mid_v` and
    /// `mid`, which is no deeper; after [`Step::Descend`] the children of `mid` are
    /// walked from `mid_v`, after anything else nothing more happens, and an error is
    /// the result as it is.
    pub open spec fn accepted<V: Visitor<D>, D>(
        &self,
        made: spec_fn(Call<V>) -> bool,
        pre_v: V,
        post_v: V,
        post: EnumDefinition,
        r: Result<(), VisitError>,
    ) -> bool
    {
        exists|mid_v: V, mid: EnumDefinition, answer: Result<Step, VisitError>|
            #[trigger] enum_definition_answered::<V, D>(pre_v, *self, mid_v, mid, answer)
                && made(
                    (Call {
                        node: Node::EnumDefinition(*self),
                        before: pre_v,
                        after: mid_v,
                        answer,
                    }),
                )
                && post_v == mid_v && post == mid && match answer {
                    Ok(_) => r is Ok,
                    Err(e) => r == Err::<(), VisitError>(e),
                }
    }

    /// Hands this node to [`Visitor::visit_enum_definition`]. The node has no children
    /// that the walk enters, so nothing follows the callback; its error, if any, is
    /// handed on.
    pub fn accept<V: Visitor<D>, D>(&mut self, v: &mut V) -> (r: Result<(), VisitError>)
        ensures
            final(self).depth() <= old(self).depth(),
            final(v).shared() == old(v).shared(),
            unfailing::<V, D>() ==> r is Ok,
            old(v).inert() ==> r is Ok && *final(v) == *old(v) && final(self).same_as(old(self)),
            forall|made: spec_fn(Call<V>) -> bool|
                #![trigger picked(made)]
                picked(made)
                    && (forall|mv: &mut V, node: Node, answer: Result<Step, VisitError>|
                        #[trigger] called::<V, D>(node, mv, answer) ==> made(
                            (Call { node, before: *mv, after: *final(mv), answer }),
                        ))
                    ==> old(self).accepted::<V, D>(made, *old(v), *final(v), *final(self), r),
            forall|made: spec_fn(Call<V>) -> bool|
                #![trigger picked(made)]
                picked(made)
                    && (forall|mv: &mut V, node: Node, answer: Result<Step, VisitError>|
                        #[trigger] called::<V, D>(node, mv, answer) ==> made(
                            (Call { node, before: *mv, after: *final(mv), answer }),
                        ))
                    ==> failure_was_answered(made, r),
            between(*final(v), r),
            exists|mv: &mut V, mn: &mut EnumDefinition, answer: Result<Step, VisitError>|
                *mv == *old(v) && *mn == *old(self)
                    && #[trigger] call_ensures(V::visit_enum_definition, (mv, mn), answer)
                    && settled::<V, D, EnumDefinition>(
                        answer,
                        r,
                        *final(mv),
                        *final(v),
                        *final(mn),
                        *final(self),
                    ),
    {
        let ghost pre_v = *v;
        let ghost pre = *self;
        let answer = v.visit_enum_definition(self);
        let ghost mid_v = *v;
        proof {
            assert(enum_definition_answered::<V, D>(pre_v, pre, *v, *self, answer));
            let (mv0, mn0) = choose|mv: &mut V, mn: &mut EnumDefinition|
                *mv == pre_v && *final(mv) == mid_v && *mn == pre
                    && #[trigger] call_ensures(V::visit_enum_definition, (mv, mn), answer);
            assert(called::<V, D>(Node::EnumDefinition(pre), mv0, answer));
        }
        match answer {
            Ok(Step::Descend) => {
                let r = self.visit(v);
                proof {
                    assert forall|made: spec_fn(Call<V>) -> bool|
                        #![trigger picked(made)]
                        picked(made)
                            && (forall|mv: &mut V, node: Node, answer: Result<Step, VisitError>|
                                #[trigger] called::<V, D>(node, mv, answer) ==> made(
                                    (Call { node, before: *mv, after: *final(mv), answer }),
                                ))
                        implies pre.accepted::<V, D>(made, pre_v, *v, *self, r) by {
                    }
                }
                r
            },
            Ok(Step::Prune) => {
                proof {
                    assert forall|made: spec_fn(Call<V>) -> bool|
                        #![trigger picked(made)]
                        picked(made)
                            && (forall|mv: &mut V, node: Node, answer: Result<Step, VisitError>|
                                #[trigger] called::<V, D>(node, mv, answer) ==> made(
                                    (Call { node, before: *mv, after: *final(mv), answer }),
                                ))
                        implies pre.accepted::<V, D>(
                            made,
                            pre_v,
                            *v,
                            *self,
                            Ok::<(), VisitError>(()),
                        ) by {
                    }
                }
                Ok(())
            },
            Err(e) => {
                proof {
                    assert forall|made: spec_fn(Call<V>) -> bool|
                        #![trigger picked(made)]
                        picked(made)
                            && (forall|mv: &mut V, node: Node, answer: Result<Step, VisitError>|
                                #[trigger] called::<V, D>(node, mv, answer) ==> made(
                                    (Call { node, before: *mv, after: *final(mv), answer }),
                                ))
                        implies pre.accepted::<V, D>(
                            made,
                            pre_v,
                            *v,
                            *self,
                            Err::<(), VisitError>(e),
                        ) by {
                    }
                }
                Err(e)
            },
        }
    }
}

impl Visitable for EnumDefinition {
    /// Does nothing: the walk does not enter an enum definition.
    fn visit<V: Visitor<D>, D>(&mut self, v: &mut V) -> (r: Result<(), VisitError>)
        ensures
            r is Ok,
            *final(self) == *old(self),
            *final(v) == *old(v),
    {
        Ok(())
    }
}

impl Visitable for EnumValue {
    /// Does nothing: the walk does not enter an enum value.
    fn visit<V: Visitor<D>, D>(&mut self, v: &mut V) -> (r: Result<(), VisitError>)
        ensures
            r is Ok,
            *final(self) == *old(self),
            *final(v) == *old(v),
    {
        Ok(())
    }
}

impl ErrorDefinition {
    /// How `visit` takes this node and the visitor `pre_v` to `post` and `post_v`, with
    /// the result `r`, the calls of callbacks being among `made`: the children are
    /// walked one after the other, each from the visitor as the one before has left it;
    /// the first failure is the result, and what stands behind it is as it was. What is
    /// no child is as it was.
    pub open spec fn walked<V: Visitor<D>, D>(
        &self,
        made: spec_fn(Call<V>) -> bool,
        pre_v: V,
        post_v: V,
        post: ErrorDefinition,
        r: Result<(), VisitError>,
    ) -> bool
        decreases self.depth(), 0int, 0int,
    {
        &&& post == (ErrorDefinition { parameters: post.parameters, ..*self })
        &&& (self.parameters.walked::<V, D>(made, pre_v, post_v, post.parameters, r))
    }

    /// How `accept` takes this node and the visitor `pre_v` to `post` and `post_v`,
    /// with the result `r`, the calls of callbacks being among `made`: the callback for
    /// this kind is called with `pre_v` and this node, answers, and leaves `mid_v` and
    /// `mid`, which is no deeper; after [`Step::Descend`] the children of `mid` are
    /// walked from `mid_v`, after anything else nothing more happens, and an error is
    /// the result as it is.
    pub open spec fn accepted<V: Visitor<D>, D>(
        &self,
        made: spec_fn(Call<V>) -> bool,
        pre_v: V,
        post_v: V,
        post: ErrorDefinition,
        r: Result<(), VisitError>,
    ) -> bool
        decreases self.depth(), 1int, 0int,
    {
        exists|mid_v: V, mid: ErrorDefinition, answer: Result<Step, VisitError>|
            #[trigger] error_definition_answered::<V, D>(pre_v, *self, mid_v, mid, answer)
                && made(
                    (Call {
                        node: Node::ErrorDefinition(*self),
                        before: pre_v,
                        after: mid_v,
                        answer,
                    }),
                )
                && mid.depth() <= self.depth() && match answer {
                    Ok(Step::Descend) => mid.walked::<V, D>(made, mid_v, post_v, post, r),
                    Ok(Step::Prune) => r is Ok && post_v == mid_v && post == mid,
                    Err(e) => r == Err::<(), VisitError>(e) && post_v == mid_v && post == mid,
                }
    }

    /// Hands this node to [`Visitor::visit_error_definition`] and does what the
    /// callback answers: on [`Step::Descend`] it walks the children as
    /// [`Visitable::visit`] does, on [`Step::Prune`] it leaves them alone; an error is
    /// handed on.
    pub fn accept<V: Visitor<D>, D>(&mut self, v: &mut V) -> (r: Result<(), VisitError>)
        ensures
            final(self).depth() <= old(self).depth(),
            final(v).shared() == old(v).shared(),
            unfailing::<V, D>() ==> r is Ok,
            old(v).inert() ==> r is Ok && *final(v) == *old(v) && final(self).same_as(old(self)),
            forall|made: spec_fn(Call<V>) -> bool|
                #![trigger picked(made)]
                picked(made)
                    && (forall|mv: &mut V, node: Node, answer: Result<Step, VisitError>|
                        #[trigger] called::<V, D>(node, mv, answer) ==> made(
                            (Call { node, before: *mv, after: *final(mv), answer }),
                        ))
                    ==> old(self).accepted::<V, D>(made, *old(v), *final(v), *final(self), r),
            forall|made: spec_fn(Call<V>) -> bool|
                #![trigger picked(made)]
                picked(made)
                    && (forall|mv: &mut V, node: Node, answer: Result<Step, VisitError>|
                        #[trigger] called::<V, D>(node, mv, answer) ==> made(
                            (Call { node, before: *mv, after: *final(mv), answer }),
                        ))
                    ==> failure_was_answered(made, r),
            between(*final(v), r),
            exists|mv: &mut V, mn: &mut ErrorDefinition, answer: Result<Step, VisitError>|
                *mv == *old(v) && *mn == *old(self)
                    && #[trigger] call_ensures(V::visit_error_definition, (mv, mn), answer)
                    && settled::<V, D, ErrorDefinition>(
                        answer,
                        r,
                        *final(mv),
                        *final(v),
                        *final(mn),
                        *final(self),
                    ),
        decreases old(self).depth(), 1int,
    {
        let ghost pre_v = *v;
        let ghost pre = *self;
        let answer = v.visit_error_definition(self);
        let ghost mid_v = *v;
        proof {
            assert(error_definition_answered::<V, D>(pre_v, pre, *v, *self, answer));
            let (mv0, mn0) = choose|mv: &mut V, mn: &mut ErrorDefinition|
                *mv == pre_v && *final(mv) == mid_v && *mn == pre
                    && #[trigger] call_ensures(V::visit_error_definition, (mv, mn), answer);
            assert(called::<V, D>(Node::ErrorDefinition(pre), mv0, answer));
        }
        match answer {
            Ok(Step::Descend) => {
                let r = self.visit(v);
                proof {
                    assert forall|made: spec_fn(Call<V>) -> bool|
                        #![trigger picked(made)]
                        picked(made)
                            && (forall|mv: &mut V, node: Node, answer: Result<Step, VisitError>|
                                #[trigger] called::<V, D>(node, mv, answer) ==> made(
                                    (Call { node, before: *mv, after: *final(mv), answer }),
                                ))
                        implies pre.accepted::<V, D>(made, pre_v, *v, *self, r) by {
                    }
                }
                r
            },
            Ok(Step::Prune) => {
                proof {
                    assert forall|made: spec_fn(Call<V>) -> bool|
                        #![trigger picked(made)]
                        picked(made)
                            && (forall|mv: &mut V, node: Node, answer: Result<Step, VisitError>|
                                #[trigger] called::<V, D>(node, mv, answer) ==> made(
                                    (Call { node, before: *mv, after: *final(mv), answer }),
                                ))
                        implies pre.accepted::<V, D>(
                            made,
                            pre_v,
                            *v,
                            *self,
                            Ok::<(), VisitError>(()),
                        ) by {
                    }
                }
                Ok(())
            },
            Err(e) => {
                proof {
                    assert forall|made: spec_fn(Call<V>) -> bool|
                        #![trigger picked(made)]
                        picked(made)
                            && (forall|mv: &mut V, node: Node, answer: Result<Step, VisitError>|
                                #[trigger] called::<V, D>(node, mv, answer) ==> made(
                                    (Call { node, before: *mv, after: *final(mv), answer }),
                                ))
                        implies pre.accepted::<V, D>(
                            made,
                            pre_v,
                            *v,
                            *self,
                            Err::<(), VisitError>(e),
                        ) by {
                    }
                }
                Err(e)
            },
        }
    }
}

impl Visitable for ErrorDefinition {
    /// Walks `parameters`.
    fn visit<V: Visitor<D>, D>(&mut self, v: &mut V) -> (r: Result<(), VisitError>)
        ensures
            forall|made: spec_fn(Call<V>) -> bool|
                #![trigger picked(made)]
                picked(made)
                    && (forall|mv: &mut V, node: Node, answer: Result<Step, VisitError>|
                        #[trigger] called::<V, D>(node, mv, answer) ==> made(
                            (Call { node, before: *mv, after: *final(mv), answer }),
                        ))
                    ==> old(self).walked::<V, D>(made, *old(v), *final(v), *final(self), r),
            forall|made: spec_fn(Call<V>) -> bool|
                #![trigger picked(made)]
                picked(made)
                    && (forall|mv: &mut V, node: Node, answer: Result<Step, VisitError>|
                        #[trigger] called::<V, D>(node, mv, answer) ==> made(
                            (Call { node, before: *mv, after: *final(mv), answer }),
                        ))
                    ==> failure_was_answered(made, r),
            between(*final(v), r),
            *final(self) == (ErrorDefinition { parameters: final(self).parameters, ..*old(self) }),
        decreases old(self).depth(), 0int,
    {
        self.parameters.visit(v)
    }
}

impl EventDefinition {
    /// How `accept` takes this node and the visitor `pre_v` to `post` and `post_v`,
    /// with the result `r`, the calls of callbacks being among `made`: the callback for
    /// this kind is called with `pre_v` and this node, answers, and leaves `mid_v` and
    /// `mid`, which is no deeper; after [`Step::Descend`] the children of `mid` are
    /// walked from `mid_v`, after anything else nothing more happens, and an error is
    /// the result as it is.
    pub open spec fn accepted<V: Visitor<D>, D>(
        &self,
        made: spec_fn(Call<V>) -> bool,
        pre_v: V,
        post_v: V,
        post: EventDefinition,
        r: Result<(), VisitError>,
    ) -> bool
    {
        exists|mid_v: V, mid: EventDefinition, answer: Result<Step, VisitError>|
            #[trigger] event_definition_answered::<V, D>(pre_v, *self, mid_v, mid, answer)
                && made(
                    (Call {
                        node: Node::EventDefinition(*self),
                        before: pre_v,
                        after: mid_v,
                        answer,
                    }),
                )
                && post_v == mid_v && post == mid && match answer {
                    Ok(_) => r is Ok,
                    Err(e) => r == Err::<(), VisitError>(e),
                }
    }

    /// Hands this node to [`Visitor::visit_event_definition`]. The node has no children
    /// that the walk enters, so nothing follows the callback; its error, if any, is
    /// handed on.
    pub fn accept<V: Visitor<D>, D>(&mut self, v: &mut V) -> (r: Result<(), VisitError>)
        ensures
            final(self).depth() <= old(self).depth(),
            final(v).shared() == old(v).shared(),
            unfailing::<V, D>() ==> r is Ok,
            old(v).inert() ==> r is Ok && *final(v) == *old(v) && final(self).same_as(old(self)),
            forall|made: spec_fn(Call<V>) -> bool|
                #![trigger picked(made)]
                picked(made)
                    && (forall|mv: &mut V, node: Node, answer: Result<Step, VisitError>|
                        #[trigger] called::<V, D>(node, mv, answer) ==> made(
                            (Call { node, before: *mv, after: *final(mv), answer }),
                        ))
                    ==> old(self).accepted::<V, D>(made, *old(v), *final(v), *final(self), r),
            forall|made: spec_fn(Call<V>) -> bool|
                #![trigger picked(made)]
                picked(made)
                    && (forall|mv: &mut V, node: Node, answer: Result<Step, VisitError>|
                        #[trigger] called::<V, D>(node, mv, answer) ==> made(
                            (Call { node, before: *mv, after: *final(mv), answer }),
                        ))
                    ==> failure_was_answered(made, r),
            between(*final(v), r),
            exists|mv: &mut V, mn: &mut EventDefinition, answer: Result<Step, VisitError>|
                *mv == *old(v) && *mn == *old(self)
                    && #[trigger] call_ensures(V::visit_event_definition, (mv, mn), answer)
                    && settled::<V, D, EventDefinition>(
                        answer,
                        r,
                        *final(mv),
                        *final(v),
                        *final(mn),
                        *final(self),
                    ),
    {
        let ghost pre_v = *v;
        let ghost pre = *self;
        let answer = v.visit_event_definition(self);
        let ghost mid_v = *v;
        proof {
            assert(event_definition_answered::<V, D>(pre_v, pre, *v, *self, answer));
            let (mv0, mn0) = choose|mv: &mut V, mn: &mut EventDefinition|
                *mv == pre_v && *final(mv) == mid_v && *mn == pre
                    && #[trigger] call_ensures(V::visit_event_definition, (mv, mn), answer);
            assert(called::<V, D>(Node::EventDefinition(pre), mv0, answer));
        }
        match answer {
            Ok(Step::Descend) => {
                let r = self.visit(v);
                proof {
                    assert forall|made: spec_fn(Call<V>) -> bool|
                        #![trigger picked(made)]
                        picked(made)
                            && (forall|mv: &mut V, node: Node, answer: Result<Step, VisitError>|
                                #[trigger] called::<V, D>(node, mv, answer) ==> made(
                                    (Call { node, before: *mv, after: *final(mv), answer }),
                                ))
                        implies pre.accepted::<V, D>(made, pre_v, *v, *self, r) by {
                    }
                }
                r
            },
            Ok(Step::Prune) => {
                proof {
                    assert forall|made: spec_fn(Call<V>) -> bool|
                        #![trigger picked(made)]
                        picked(made)
                            && (forall|mv: &mut V, node: Node, answer: Result<Step, VisitError>|
                                #[trigger] called::<V, D>(node, mv, answer) ==> made(
                                    (Call { node, before: *mv, after: *final(mv), answer }),
                                ))
                        implies pre.accepted::<V, D>(
                            made,
                            pre_v,
                            *v,
                            *self,
                            Ok::<(), VisitError>(()),
                        ) by {
                    }
                }
                Ok(())
            },
            Err(e) => {
                proof {
                    assert forall|made: spec_fn(Call<V>) -> bool|
                        #![trigger picked(made)]
                        picked(made)
                            && (forall|mv: &mut V, node: Node, answer: Result<Step, VisitError>|
                                #[trigger] called::<V, D>(node, mv, answer) ==> made(
                                    (Call { node, before: *mv, after: *final(mv), answer }),
                                ))
                        implies pre.accepted::<V, D>(
                            made,
                            pre_v,
                            *v,
                            *self,
                            Err::<(), VisitError>(e),
                        ) by {
                    }
                }
                Err(e)
            },
        }
    }
}

impl Visitable for EventDefinition {
    /// Does nothing: the walk does not enter an event definition.
    fn visit<V: Visitor<D>, D>(&mut self, v: &mut V) -> (r: Result<(), VisitError>)
        ensures
            r is Ok,
            *final(self) == *old(self),
            *final(v) == *old(v),
    {
        Ok(())
    }
}

impl FunctionDefinition {
    /// How `visit` takes this node and the visitor `pre_v` to `post` and `post_v`, with
    /// the result `r`, the calls of callbacks being among `made`: the children are
    /// walked one after the other, each from the visitor as the one before has left it;
    /// the first failure is the result, and what stands behind it is as it was. What is
    /// no child is as it was.
    pub open spec fn walked<V: Visitor<D>, D>(
        &self,
        made: spec_fn(Call<V>) -> bool,
        pre_v: V,
        post_v: V,
        post: FunctionDefinition,
        r: Result<(), VisitError>,
    ) -> bool
        decreases self.depth(), 0int, 0int,
    {
        &&& post == (FunctionDefinition {
            body: post.body,
            modifiers: post.modifiers,
            overrides: post.overrides,
            parameters: post.parameters,
            return_parameters: post.return_parameters,
            ..*self
        })
        &&& (exists|v1: V, r1: Result<(), VisitError>|
                #[trigger] between(v1, r1)
                    && maybe_block_accepted::<V, D>(made, self.body, pre_v, v1, post.body, r1)
                    && match r1 {
                        Ok(_) => {
                            exists|v2: V, r2: Result<(), VisitError>|
                                #[trigger] between(v2, r2)
                                    && modifier_invocations_walked::<V, D>(
                                        made,
                                        self.modifiers@,
                                        v1,
                                        v2,
                                        post.modifiers@,
                                        r2,
                                    )
                                    && match r2 {
                                        Ok(_) => {
                                            exists|v3: V, r3: Result<(), VisitError>|
                                                #[trigger] between(v3, r3)
                                                    && maybe_override_specifier_walked::<V, D>(
                                                        made,
                                                        self.overrides,
                                                        v2,
                                                        v3,
                                                        post.overrides,
                                                        r3,
                                                    )
                                                    && match r3 {
                                                        Ok(_) => {
                                                            exists|v4: V, r4: Result<(), VisitError>|
                                                                #[trigger] between(v4, r4)
                                                                    && self.parameters.walked::<V, D>(made, v3, v4, post.parameters, r4)
                                                                    && match r4 {
                                                                        Ok(_) => {
                                                                            self.return_parameters.walked::<V, D>(made, v4, post_v, post.return_parameters, r)
                                                                        },
                                                                        Err(e) => {
                                                                            &&& r == Err::<(), VisitError>(e)
                                                                            &&& post_v == v4
                                                                            &&& post.return_parameters == self.return_parameters
                                                                        },
                                                                    }
                                                        },
                                                        Err(e) => {
                                                            &&& r == Err::<(), VisitError>(e)
                                                            &&& post_v == v3
                                                            &&& post.parameters == self.parameters
                                                            &&& post.return_parameters == self.return_parameters
                                                        },
                                                    }
                                        },
                                        Err(e) => {
                                            &&& r == Err::<(), VisitError>(e)
                                            &&& post_v == v2
                                            &&& post.overrides == self.overrides
                                            &&& post.parameters == self.parameters
                                            &&& post.return_parameters == self.return_parameters
                                        },
                                    }
                        },
                        Err(e) => {
                            &&& r == Err::<(), VisitError>(e)
                            &&& post_v == v1
                            &&& post.modifiers == self.modifiers
                            &&& post.overrides == self.overrides
                            &&& post.parameters == self.parameters
                            &&& post.return_parameters == self.return_parameters
                        },
                    })
    }

    /// How `accept` takes this node and the visitor `pre_v` to `post` and `post_v`,
    /// with the result `r`, the calls of callbacks being among `made`: the callback for
    /// this kind is called with `pre_v` and this node, answers, and leaves `mid_v` and
    /// `mid`, which is no deeper; after [`Step::Descend`] the children of `mid` are
    /// walked from `mid_v`, after anything else nothing more happens, and an error is
    /// the result as it is.
    pub open spec fn accepted<V: Visitor<D>, D>(
        &self,
        made: spec_fn(Call<V>) -> bool,
        pre_v: V,
        post_v: V,
        post: FunctionDefinition,
        r: Result<(), VisitError>,
    ) -> bool
        decreases self.depth(), 1int, 0int,
    {
        exists|mid_v: V, mid: FunctionDefinition, answer: Result<Step, VisitError>|
            #[trigger] function_definition_answered::<V, D>(pre_v, *self, mid_v, mid, answer)
                && made(
                    (Call {
                        node: Node::FunctionDefinition(*self),
                        before: pre_v,
                        after: mid_v,
                        answer,
                    }),
                )
                && mid.depth() <= self.depth() && match answer {
                    Ok(Step::Descend) => mid.walked::<V, D>(made, mid_v, post_v, post, r),
                    Ok(Step::Prune) => r is Ok && post_v == mid_v && post == mid,
                    Err(e) => r == Err::<(), VisitError>(e) && post_v == mid_v && post == mid,
                }
    }

    /// Hands this node to [`Visitor::visit_function_definition`] and does what the
    /// callback answers: on [`Step::Descend`] it walks the children as
    /// [`Visitable::visit`] does, on [`Step::Prune`] it leaves them alone; an error is
    /// handed on.
    pub fn accept<V: Visitor<D>, D>(&mut self, v: &mut V) -> (r: Result<(), VisitError>)
        ensures
            final(self).depth() <= old(self).depth(),
            final(v).shared() == old(v).shared(),
            unfailing::<V, D>() ==> r is Ok,
            old(v).inert() ==> r is Ok && *final(v) == *old(v) && final(self).same_as(old(self)),
            forall|made: spec_fn(Call<V>) -> bool|
                #![trigger picked(made)]
                picked(made)
                    && (forall|mv: &mut V, node: Node, answer: Result<Step, VisitError>|
                        #[trigger] called::<V, D>(node, mv, answer) ==> made(
                            (Call { node, before: *mv, after: *final(mv), answer }),
                        ))
                    ==> old(self).accepted::<V, D>(made, *old(v), *final(v), *final(self), r),
            forall|made: spec_fn(Call<V>) -> bool|
                #![trigger picked(made)]
                picked(made)
                    && (forall|mv: &mut V, node: Node, answer: Result<Step, VisitError>|
                        #[trigger] called::<V, D>(node, mv, answer) ==> made(
                            (Call { node, before: *mv, after: *final(mv), answer }),
                        ))
                    ==> failure_was_answered(made, r),
            between(*final(v), r),
            exists|mv: &mut V, mn: &mut FunctionDefinition, answer: Result<Step, VisitError>|
                *mv == *old(v) && *mn == *old(self)
                    && #[trigger] call_ensures(V::visit_function_definition, (mv, mn), answer)
                    && settled::<V, D, FunctionDefinition>(
                        answer,
                        r,
                        *final(mv),
                        *final(v),
                        *final(mn),
                        *final(self),
                    ),
        decreases old(self).depth(), 1int,
    {
        let ghost pre_v = *v;
        let ghost pre = *self;
        let answer = v.visit_function_definition(self);
        let ghost mid_v = *v;
        proof {
            assert(function_definition_answered::<V, D>(pre_v, pre, *v, *self, answer));
            let (mv0, mn0) = choose|mv: &mut V, mn: &mut FunctionDefinition|
                *mv == pre_v && *final(mv) == mid_v && *mn == pre
                    && #[trigger] call_ensures(V::visit_function_definition, (mv, mn), answer);
            assert(called::<V, D>(Node::FunctionDefinition(pre), mv0, answer));
        }
        match answer {
            Ok(Step::Descend) => {
                let r = self.visit(v);
                proof {
                    assert forall|made: spec_fn(Call<V>) -> bool|
                        #![trigger picked(made)]
                        picked(made)
                            && (forall|mv: &mut V, node: Node, answer: Result<Step, VisitError>|
                                #[trigger] called::<V, D>(node, mv, answer) ==> made(
                                    (Call { node, before: *mv, after: *final(mv), answer }),
                                ))
                        implies pre.accepted::<V, D>(made, pre_v, *v, *self, r) by {
                    }
                }
                r
            },
            Ok(Step::Prune) => {
                proof {
                    assert forall|made: spec_fn(Call<V>) -> bool|
                        #![trigger picked(made)]
                        picked(made)
                            && (forall|mv: &mut V, node: Node, answer: Result<Step, VisitError>|
                                #[trigger] called::<V, D>(node, mv, answer) ==> made(
                                    (Call { node, before: *mv, after: *final(mv), answer }),
                                ))
                        implies pre.accepted::<V, D>(
                            made,
                            pre_v,
                            *v,
                            *self,
                            Ok::<(), VisitError>(()),
                        ) by {
                    }
                }
                Ok(())
            },
            Err(e) => {
                proof {
                    assert forall|made: spec_fn(Call<V>) -> bool|
                        #![trigger picked(made)]
                        picked(made)
                            && (forall|mv: &mut V, node: Node, answer: Result<Step, VisitError>|
                                #[trigger] called::<V, D>(node, mv, answer) ==> made(
                                    (Call { node, before: *mv, after: *final(mv), answer }),
                                ))
                        implies pre.accepted::<V, D>(
                            made,
                            pre_v,
                            *v,
                            *self,
                            Err::<(), VisitError>(e),
                        ) by {
                    }
                }
                Err(e)
            },
        }
    }
}

impl Visitable for FunctionDefinition {
    /// Walks the children in this order: `body`, then `modifiers`, then `overrides`,
    /// then `parameters`, then `return_parameters`. The first failure ends the walk;
    /// what stands after it is left alone.
    ///
    /// The body is handed to the callback for blocks, as a block among statements is.
    /// The parameters are walked without a callback of their own.
    fn visit<V: Visitor<D>, D>(&mut self, v: &mut V) -> (r: Result<(), VisitError>)
        ensures
            forall|made: spec_fn(Call<V>) -> bool|
                #![trigger picked(made)]
                picked(made)
                    && (forall|mv: &mut V, node: Node, answer: Result<Step, VisitError>|
                        #[trigger] called::<V, D>(node, mv, answer) ==> made(
                            (Call { node, before: *mv, after: *final(mv), answer }),
                        ))
                    ==> old(self).walked::<V, D>(made, *old(v), *final(v), *final(self), r),
            forall|made: spec_fn(Call<V>) -> bool|
                #![trigger picked(made)]
                picked(made)
                    && (forall|mv: &mut V, node: Node, answer: Result<Step, VisitError>|
                        #[trigger] called::<V, D>(node, mv, answer) ==> made(
                            (Call { node, before: *mv, after: *final(mv), answer }),
                        ))
                    ==> failure_was_answered(made, r),
            between(*final(v), r),
            *final(self) == (FunctionDefinition {
                body: final(self).body,
                modifiers: final(self).modifiers,
                overrides: final(self).overrides,
                parameters: final(self).parameters,
                return_parameters: final(self).return_parameters,
                ..*old(self)
            }),
            (final(self).body is Some) == (old(self).body is Some),
            final(self).modifiers@.len() == old(self).modifiers@.len(),
            (final(self).overrides is Some) == (old(self).overrides is Some),
        decreases old(self).depth(), 0int,
    {
        accept_maybe_block(&mut self.body, v)?;
        visit_modifier_invocations(&mut self.modifiers, v)?;
        visit_maybe_override_specifier(&mut self.overrides, v)?;
        self.parameters.visit(v)?;
        self.return_parameters.visit(v)
    }
}

impl ModifierInvocation {
    /// How `visit` takes this node and the visitor `pre_v` to `post` and `post_v`, with
    /// the result `r`, the calls of callbacks being among `made`: the children are
    /// walked one after the other, each from the visitor as the one before has left it;
    /// the first failure is the result, and what stands behind it is as it was. What is
    /// no child is as it was.
    pub open spec fn walked<V: Visitor<D>, D>(
        &self,
        made: spec_fn(Call<V>) -> bool,
        pre_v: V,
        post_v: V,
        post: ModifierInvocation,
        r: Result<(), VisitError>,
    ) -> bool
        decreases self.depth(), 0int, 0int,
    {
        &&& post == (ModifierInvocation {
            arguments: post.arguments,
            modifier_name: post.modifier_name,
            ..*self
        })
        &&& (exists|v1: V, r1: Result<(), VisitError>|
                #[trigger] between(v1, r1)
                    && maybe_expressions_walked::<V, D>(
                        made,
                        self.arguments,
                        pre_v,
                        v1,
                        post.arguments,
                        r1,
                    )
                    && match r1 {
                        Ok(_) => {
                            self.modifier_name.walked::<V, D>(
                                made,
                                v1,
                                post_v,
                                post.modifier_name,
                                r,
                            )
                        },
                        Err(e) => {
                            &&& r == Err::<(), VisitError>(e)
                            &&& post_v == v1
                            &&& post.modifier_name == self.modifier_name
                        },
                    })
    }
}

impl Visitable for ModifierInvocation {
    /// Walks the children in this order: `arguments`, then `modifier_name`. The first
    /// failure ends the walk; what stands after it is left alone.
    fn visit<V: Visitor<D>, D>(&mut self, v: &mut V) -> (r: Result<(), VisitError>)
        ensures
            forall|made: spec_fn(Call<V>) -> bool|
                #![trigger picked(made)]
                picked(made)
                    && (forall|mv: &mut V, node: Node, answer: Result<Step, VisitError>|
                        #[trigger] called::<V, D>(node, mv, answer) ==> made(
                            (Call { node, before: *mv, after: *final(mv), answer }),
                        ))
                    ==> old(self).walked::<V, D>(made, *old(v), *final(v), *final(self), r),
            forall|made: spec_fn(Call<V>) -> bool|
                #![trigger picked(made)]
                picked(made)
                    && (forall|mv: &mut V, node: Node, answer: Result<Step, VisitError>|
                        #[trigger] called::<V, D>(node, mv, answer) ==> made(
                            (Call { node, before: *mv, after: *final(mv), answer }),
                        ))
                    ==> failure_was_answered(made, r),
            between(*final(v), r),
            *final(self) == (ModifierInvocation {
                arguments: final(self).arguments,
                modifier_name: final(self).modifier_name,
                ..*old(self)
            }),
            (final(self).arguments is Some) == (old(self).arguments is Some),
        decreases old(self).depth(), 0int,
    {
        visit_maybe_expressions(&mut self.arguments, v)?;
        self.modifier_name.visit(v)
    }
}

/// The items of `pre` that stand where `done` has items have been walked with success,
/// in order and each once, the first from the visitor `pre_v` and each next one from
/// the visitor as the one before has left it; they are now what `done` holds, and the
/// visitor is `v`. (The clause on the depths holds of every sequence: it is what lets
/// this definition end.)
pub open spec fn modifier_invocations_walked_to<V: Visitor<D>, D>(
    made: spec_fn(Call<V>) -> bool,
    pre: Seq<ModifierInvocation>,
    done: Seq<ModifierInvocation>,
    pre_v: V,
    v: V,
) -> bool
    decreases modifier_invocations_depth(pre), 3int, done.len(),
{
    if done.len() == 0 {
        v == pre_v
    } else if done.len() > pre.len() {
        false
    } else {
        &&& modifier_invocations_depths(pre)[done.len() - 1] <= modifier_invocations_depth(pre)
        &&& exists|u: V, ok: Result<(), VisitError>|
            #[trigger] between(u, ok) && ok is Ok
                && modifier_invocations_walked_to::<V, D>(made, pre, done.drop_last(), pre_v, u)
                && pre[done.len() - 1].walked::<V, D>(made, u, v, done.last(), ok)
    }
}

/// How the walk takes the items `pre` and the visitor `pre_v` to `post` and `post_v`,
/// with the result `r`: the items are walked in order, each once, each from the visitor
/// as the one before has left it, up to the first failure. That failure is the result,
/// and the items behind it are as they were. (The clause on the depths holds of every
/// sequence.)
pub open spec fn modifier_invocations_walked<V: Visitor<D>, D>(
    made: spec_fn(Call<V>) -> bool,
    pre: Seq<ModifierInvocation>,
    pre_v: V,
    post_v: V,
    post: Seq<ModifierInvocation>,
    r: Result<(), VisitError>,
) -> bool
{
    &&& pre.len() == post.len()
    &&& match r {
        Ok(_) => modifier_invocations_walked_to::<V, D>(made, pre, post, pre_v, post_v),
        Err(e) => exists|k: int, u: V|
            #[trigger] reached(k, u) && 0 <= k < pre.len()
                && modifier_invocations_depths(pre)[k] <= modifier_invocations_depth(pre)
                && modifier_invocations_walked_to::<V, D>(made, pre, post.take(k), pre_v, u)
                && pre[k].walked::<V, D>(made, u, post_v, post[k], Err::<(), VisitError>(e))
                && forall|j: int| k < j < pre.len() ==> post[j] == pre[j],
    }
}

/// Walks `items` in order. The first failure ends the walk; the items after it are left
/// alone.
pub fn visit_modifier_invocations<V: Visitor<D>, D>(
    items: &mut Vec<ModifierInvocation>,
    v: &mut V,
) -> (r: Result<(), VisitError>)
    ensures
        forall|made: spec_fn(Call<V>) -> bool|
            #![trigger picked(made)]
            picked(made)
                && (forall|mv: &mut V, node: Node, answer: Result<Step, VisitError>|
                    #[trigger] called::<V, D>(node, mv, answer) ==> made(
                        (Call { node, before: *mv, after: *final(mv), answer }),
                    ))
                ==> modifier_invocations_walked::<V, D>(
                    made,
                    old(items)@,
                    *old(v),
                    *final(v),
                    final(items)@,
                    r,
                ),
        forall|made: spec_fn(Call<V>) -> bool|
            #![trigger picked(made)]
            picked(made)
                && (forall|mv: &mut V, node: Node, answer: Result<Step, VisitError>|
                    #[trigger] called::<V, D>(node, mv, answer) ==> made(
                        (Call { node, before: *mv, after: *final(mv), answer }),
                    ))
                ==> failure_was_answered(made, r),
        between(*final(v), r),
        final(items)@.len() == old(items)@.len(),
        modifier_invocations_depth(final(items)@) <= modifier_invocations_depth(old(items)@),
        final(v).shared() == old(v).shared(),
        unfailing::<V, D>() ==> r is Ok,
        old(v).inert() ==> {
            &&& r is Ok
            &&& *final(v) == *old(v)
            &&& modifier_invocations_same(final(items)@, old(items)@)
        },
    decreases modifier_invocations_depth(old(items)@), 3int,
{
    let n = items.len();
    let mut i: usize = 0;
    while i < n
        invariant
            i <= n,
            n == items@.len(),
            n == old(items)@.len(),
            forall|j: int| i <= j < n ==> items@[j] == old(items)@[j],
            forall|j: int|
                0 <= j < n ==> modifier_invocations_depths(items@)[j]
                    <= modifier_invocations_depths(old(items)@)[j],
            v.shared() == old(v).shared(),
            old(v).inert() ==> *v == *old(v),
            forall|made: spec_fn(Call<V>) -> bool|
                #![trigger picked(made)]
                picked(made)
                    && (forall|mv: &mut V, node: Node, answer: Result<Step, VisitError>|
                        #[trigger] called::<V, D>(node, mv, answer) ==> made(
                            (Call { node, before: *mv, after: *final(mv), answer }),
                        ))
                    ==> modifier_invocations_walked_to::<V, D>(
                        made,
                        old(items)@,
                        items@.take(i as int),
                        *old(v),
                        *v,
                    ),
            old(v).inert() ==> forall|j: int|
                #![trigger items@[j]]
                0 <= j < i ==> items@[j].same_as(&old(items)@[j]),
        decreases n - i,
    {
        proof {
            lemma_modifier_invocations_depth_bound(old(items)@, i as int);
        }
        let ghost done = items@.take(i as int);
        let ghost u = *v;
        let step = items[i].visit(v);
        proof {
            assert(between(u, step));
        }
        match step {
            Ok(_) => {
                proof {
                    let grown = items@.take(i + 1);
                    assert(grown.drop_last() =~= done);
                    assert(grown.last() == items@[i as int]);
                    assert forall|made: spec_fn(Call<V>) -> bool|
                        #![trigger picked(made)]
                        picked(made)
                            && (forall|mv: &mut V, node: Node, answer: Result<Step, VisitError>|
                                #[trigger] called::<V, D>(node, mv, answer) ==> made(
                                    (Call { node, before: *mv, after: *final(mv), answer }),
                                ))
                        implies modifier_invocations_walked_to::<V, D>(
                            made,
                            old(items)@,
                            grown,
                            *old(v),
                            *v,
                        ) by {
                        assert(modifier_invocations_walked_to::<V, D>(
                            made,
                            old(items)@,
                            done,
                            *old(v),
                            u,
                        ));
                    }
                }
            },
            Err(e) => {
                proof {
                    lemma_modifier_invocations_depth_mono(items@, old(items)@);
                    assert(items@.take(i as int) =~= done);
                    assert(reached(i as int, u));
                    assert forall|made: spec_fn(Call<V>) -> bool|
                        #![trigger picked(made)]
                        picked(made)
                            && (forall|mv: &mut V, node: Node, answer: Result<Step, VisitError>|
                                #[trigger] called::<V, D>(node, mv, answer) ==> made(
                                    (Call { node, before: *mv, after: *final(mv), answer }),
                                ))
                        implies modifier_invocations_walked::<V, D>(
                            made,
                            old(items)@,
                            *old(v),
                            *v,
                            items@,
                            Err::<(), VisitError>(e),
                        ) by {
                        assert(modifier_invocations_walked_to::<V, D>(
                            made,
                            old(items)@,
                            done,
                            *old(v),
                            u,
                        ));
                    }
                }
                return Err(e);
            },
        }
        i += 1;
    }
    proof {
        lemma_modifier_invocations_depth_mono(items@, old(items)@);
        assert(items@.take(n as int) =~= items@);
    }
    Ok(())
}

impl Visitable for Vec<ModifierInvocation> {
    /// Walks the items in order, as [`visit_modifier_invocations`] does.
    fn visit<V: Visitor<D>, D>(&mut self, v: &mut V) -> (r: Result<(), VisitError>)
        ensures
            forall|made: spec_fn(Call<V>) -> bool|
                #![trigger picked(made)]
                picked(made)
                    && (forall|mv: &mut V, node: Node, answer: Result<Step, VisitError>|
                        #[trigger] called::<V, D>(node, mv, answer) ==> made(
                            (Call { node, before: *mv, after: *final(mv), answer }),
                        ))
                    ==> modifier_invocations_walked::<V, D>(
                        made,
                        old(self)@,
                        *old(v),
                        *final(v),
                        final(self)@,
                        r,
                    ),
            forall|made: spec_fn(Call<V>) -> bool|
                #![trigger picked(made)]
                picked(made)
                    && (forall|mv: &mut V, node: Node, answer: Result<Step, VisitError>|
                        #[trigger] called::<V, D>(node, mv, answer) ==> made(
                            (Call { node, before: *mv, after: *final(mv), answer }),
                        ))
                    ==> failure_was_answered(made, r),
            final(self)@.len() == old(self)@.len(),
    {
        let ghost before = self@;
        let r = visit_modifier_invocations(self, v);
        proof {
            assert(depths_of(before) =~= modifier_invocations_depths(before));
            assert(depths_of(self@) =~= modifier_invocations_depths(self@));
        }
        r
    }
}

impl ModifierDefinition {
    /// How `accept` takes this node and the visitor `pre_v` to `post` and `post_v`,
    /// with the result `r`, the calls of callbacks being among `made`: the callback for
    /// this kind is called with `pre_v` and this node, answers, and leaves `mid_v` and
    /// `mid`, which is no deeper; after [`Step::Descend`] the children of `mid` are
    /// walked from `mid_v`, after anything else nothing more happens, and an error is
    /// the result as it is.
    pub open spec fn accepted<V: Visitor<D>, D>(
        &self,
        made: spec_fn(Call<V>) -> bool,
        pre_v: V,
        post_v: V,
        post: ModifierDefinition,
        r: Result<(), VisitError>,
    ) -> bool
    {
        exists|mid_v: V, mid: ModifierDefinition, answer: Result<Step, VisitError>|
            #[trigger] modifier_definition_answered::<V, D>(pre_v, *self, mid_v, mid, answer)
                && made(
                    (Call {
                        node: Node::ModifierDefinition(*self),
                        before: pre_v,
                        after: mid_v,
                        answer,
                    }),
                )
                && post_v == mid_v && post == mid && match answer {
                    Ok(_) => r is Ok,
                    Err(e) => r == Err::<(), VisitError>(e),
                }
    }

    /// Hands this node to [`Visitor::visit_modifier_definition`]. The node has no
    /// children that the walk enters, so nothing follows the callback; its error, if
    /// any, is handed on.
    pub fn accept<V: Visitor<D>, D>(&mut self, v: &mut V) -> (r: Result<(), VisitError>)
        ensures
            final(self).depth() <= old(self).depth(),
            final(v).shared() == old(v).shared(),
            unfailing::<V, D>() ==> r is Ok,
            old(v).inert() ==> r is Ok && *final(v) == *old(v) && final(self).same_as(old(self)),
            forall|made: spec_fn(Call<V>) -> bool|
                #![trigger picked(made)]
                picked(made)
                    && (forall|mv: &mut V, node: Node, answer: Result<Step, VisitError>|
                        #[trigger] called::<V, D>(node, mv, answer) ==> made(
                            (Call { node, before: *mv, after: *final(mv), answer }),
                        ))
                    ==> old(self).accepted::<V, D>(made, *old(v), *final(v), *final(self), r),
            forall|made: spec_fn(Call<V>) -> bool|
                #![trigger picked(made)]
                picked(made)
                    && (forall|mv: &mut V, node: Node, answer: Result<Step, VisitError>|
                        #[trigger] called::<V, D>(node, mv, answer) ==> made(
                            (Call { node, before: *mv, after: *final(mv), answer }),
                        ))
                    ==> failure_was_answered(made, r),
            between(*final(v), r),
            exists|mv: &mut V, mn: &mut ModifierDefinition, answer: Result<Step, VisitError>|
                *mv == *old(v) && *mn == *old(self)
                    && #[trigger] call_ensures(V::visit_modifier_definition, (mv, mn), answer)
                    && settled::<V, D, ModifierDefinition>(
                        answer,
                        r,
                        *final(mv),
                        *final(v),
                        *final(mn),
                        *final(self),
                    ),
    {
        let ghost pre_v = *v;
        let ghost pre = *self;
        let answer = v.visit_modifier_definition(self);
        let ghost mid_v = *v;
        proof {
            assert(modifier_definition_answered::<V, D>(pre_v, pre, *v, *self, answer));
            let (mv0, mn0) = choose|mv: &mut V, mn: &mut ModifierDefinition|
                *mv == pre_v && *final(mv) == mid_v && *mn == pre
                    && #[trigger] call_ensures(V::visit_modifier_definition, (mv, mn), answer);
            assert(called::<V, D>(Node::ModifierDefinition(pre), mv0, answer));
        }
        match answer {
            Ok(Step::Descend) => {
                let r = self.visit(v);
                proof {
                    assert forall|made: spec_fn(Call<V>) -> bool|
                        #![trigger picked(made)]
                        picked(made)
                            && (forall|mv: &mut V, node: Node, answer: Result<Step, VisitError>|
                                #[trigger] called::<V, D>(node, mv, answer) ==> made(
                                    (Call { node, before: *mv, after: *final(mv), answer }),
                                ))
                        implies pre.accepted::<V, D>(made, pre_v, *v, *self, r) by {
                    }
                }
                r
            },
            Ok(Step::Prune) => {
                proof {
                    assert forall|made: spec_fn(Call<V>) -> bool|
                        #![trigger picked(made)]
                        picked(made)
                            && (forall|mv: &mut V, node: Node, answer: Result<Step, VisitError>|
                                #[trigger] called::<V, D>(node, mv, answer) ==> made(
                                    (Call { node, before: *mv, after: *final(mv), answer }),
                                ))
                        implies pre.accepted::<V, D>(
                            made,
                            pre_v,
                            *v,
                            *self,
                            Ok::<(), VisitError>(()),
                        ) by {
                    }
                }
                Ok(())
            },
            Err(e) => {
                proof {
                    assert forall|made: spec_fn(Call<V>) -> bool|
                        #![trigger picked(made)]
                        picked(made)
                            && (forall|mv: &mut V, node: Node, answer: Result<Step, VisitError>|
                                #[trigger] called::<V, D>(node, mv, answer) ==> made(
                                    (Call { node, before: *mv, after: *final(mv), answer }),
                                ))
                        implies pre.accepted::<V, D>(
                            made,
                            pre_v,
                            *v,
                            *self,
                            Err::<(), VisitError>(e),
                        ) by {
                    }
                }
                Err(e)
            },
        }
    }
}

impl Visitable for ModifierDefinition {
    /// Does nothing: the walk does not enter a modifier definition.
    fn visit<V: Visitor<D>, D>(&mut self, v: &mut V) -> (r: Result<(), VisitError>)
        ensures
            r is Ok,
            *final(self) == *old(self),
            *final(v) == *old(v),
    {
        Ok(())
    }
}

impl StructDefinition {
    /// How `visit` takes this node and the visitor `pre_v` to `post` and `post_v`, with
    /// the result `r`, the calls of callbacks being among `made`: the children are
    /// walked one after the other, each from the visitor as the one before has left it;
    /// the first failure is the result, and what stands behind it is as it was. What is
    /// no child is as it was.
    pub open spec fn walked<V: Visitor<D>, D>(
        &self,
        made: spec_fn(Call<V>) -> bool,
        pre_v: V,
        post_v: V,
        post: StructDefinition,
        r: Result<(), VisitError>,
    ) -> bool
        decreases self.depth(), 0int, 0int,
    {
        &&& post == (StructDefinition { members: post.members, ..*self })
        &&& (variable_declarations_walked::<V, D>(
            made,
            self.members@,
            pre_v,
            post_v,
            post.members@,
            r,
        ))
    }

    /// How `accept` takes this node and the visitor `pre_v` to `post` and `post_v`,
    /// with the result `r`, the calls of callbacks being among `made`: the callback for
    /// this kind is called with `pre_v` and this node, answers, and leaves `mid_v` and
    /// `mid`, which is no deeper; after [`Step::Descend`] the children of `mid` are
    /// walked from `mid_v`, after anything else nothing more happens, and an error is
    /// the result as it is.
    pub open spec fn accepted<V: Visitor<D>, D>(
        &self,
        made: spec_fn(Call<V>) -> bool,
        pre_v: V,
        post_v: V,
        post: StructDefinition,
        r: Result<(), VisitError>,
    ) -> bool
        decreases self.depth(), 1int, 0int,
    {
        exists|mid_v: V, mid: StructDefinition, answer: Result<Step, VisitError>|
            #[trigger] struct_definition_answered::<V, D>(pre_v, *self, mid_v, mid, answer)
                && made(
                    (Call {
                        node: Node::StructDefinition(*self),
                        before: pre_v,
                        after: mid_v,
                        answer,
                    }),
                )
                && mid.depth() <= self.depth() && match answer {
                    Ok(Step::Descend) => mid.walked::<V, D>(made, mid_v, post_v, post, r),
                    Ok(Step::Prune) => r is Ok && post_v == mid_v && post == mid,
                    Err(e) => r == Err::<(), VisitError>(e) && post_v == mid_v && post == mid,
                }
    }

    /// Hands this node to [`Visitor::visit_struct_definition`] and does what the
    /// callback answers: on [`Step::Descend`] it walks the children as
    /// [`Visitable::visit`] does, on [`Step::Prune`] it leaves them alone; an error is
    /// handed on.
    pub fn accept<V: Visitor<D>, D>(&mut self, v: &mut V) -> (r: Result<(), VisitError>)
        ensures
            final(self).depth() <= old(self).depth(),
            final(v).shared() == old(v).shared(),
            unfailing::<V, D>() ==> r is Ok,
            old(v).inert() ==> r is Ok && *final(v) == *old(v) && final(self).same_as(old(self)),
            forall|made: spec_fn(Call<V>) -> bool|
                #![trigger picked(made)]
                picked(made)
                    && (forall|mv: &mut V, node: Node, answer: Result<Step, VisitError>|
                        #[trigger] called::<V, D>(node, mv, answer) ==> made(
                            (Call { node, before: *mv, after: *final(mv), answer }),
                        ))
                    ==> old(self).accepted::<V, D>(made, *old(v), *final(v), *final(self), r),
            forall|made: spec_fn(Call<V>) -> bool|
                #![trigger picked(made)]
                picked(made)
                    && (forall|mv: &mut V, node: Node, answer: Result<Step, VisitError>|
                        #[trigger] called::<V, D>(node, mv, answer) ==> made(
                            (Call { node, before: *mv, after: *final(mv), answer }),
                        ))
                    ==> failure_was_answered(made, r),
            between(*final(v), r),
            exists|mv: &mut V, mn: &mut StructDefinition, answer: Result<Step, VisitError>|
                *mv == *old(v) && *mn == *old(self)
                    && #[trigger] call_ensures(V::visit_struct_definition, (mv, mn), answer)
                    && settled::<V, D, StructDefinition>(
                        answer,
                        r,
                        *final(mv),
                        *final(v),
                        *final(mn),
                        *final(self),
                    ),
        decreases old(self).depth(), 1int,
    {
        let ghost pre_v = *v;
        let ghost pre = *self;
        let answer = v.visit_struct_definition(self);
        let ghost mid_v = *v;
        proof {
            assert(struct_definition_answered::<V, D>(pre_v, pre, *v, *self, answer));
            let (mv0, mn0) = choose|mv: &mut V, mn: &mut StructDefinition|
                *mv == pre_v && *final(mv) == mid_v && *mn == pre
                    && #[trigger] call_ensures(V::visit_struct_definition, (mv, mn), answer);
            assert(called::<V, D>(Node::StructDefinition(pre), mv0, answer));
        }
        match answer {
            Ok(Step::Descend) => {
                let r = self.visit(v);
                proof {
                    assert forall|made: spec_fn(Call<V>) -> bool|
                        #![trigger picked(made)]
                        picked(made)
                            && (forall|mv: &mut V, node: Node, answer: Result<Step, VisitError>|
                                #[trigger] called::<V, D>(node, mv, answer) ==> made(
                                    (Call { node, before: *mv, after: *final(mv), answer }),
                                ))
                        implies pre.accepted::<V, D>(made, pre_v, *v, *self, r) by {
                    }
                }
                r
            },
            Ok(Step::Prune) => {
                proof {
                    assert forall|made: spec_fn(Call<V>) -> bool|
                        #![trigger picked(made)]
                        picked(made)
                            && (forall|mv: &mut V, node: Node, answer: Result<Step, VisitError>|
                                #[trigger] called::<V, D>(node, mv, answer) ==> made(
                                    (Call { node, before: *mv, after: *final(mv), answer }),
                                ))
                        implies pre.accepted::<V, D>(
                            made,
                            pre_v,
                            *v,
                            *self,
                            Ok::<(), VisitError>(()),
                        ) by {
                    }
                }
                Ok(())
            },
            Err(e) => {
                proof {
                    assert forall|made: spec_fn(Call<V>) -> bool|
                        #![trigger picked(made)]
                        picked(made)
                            && (forall|mv: &mut V, node: Node, answer: Result<Step, VisitError>|
                                #[trigger] called::<V, D>(node, mv, answer) ==> made(
                                    (Call { node, before: *mv, after: *final(mv), answer }),
                                ))
                        implies pre.accepted::<V, D>(
                            made,
                            pre_v,
                            *v,
                            *self,
                            Err::<(), VisitError>(e),
                        ) by {
                    }
                }
                Err(e)
            },
        }
    }
}

impl Visitable for StructDefinition {
    /// Walks `members`.
    fn visit<V: Visitor<D>, D>(&mut self, v: &mut V) -> (r: Result<(), VisitError>)
        ensures
            forall|made: spec_fn(Call<V>) -> bool|
                #![trigger picked(made)]
                picked(made)
                    && (forall|mv: &mut V, node: Node, answer: Result<Step, VisitError>|
                        #[trigger] called::<V, D>(node, mv, answer) ==> made(
                            (Call { node, before: *mv, after: *final(mv), answer }),
                        ))
                    ==> old(self).walked::<V, D>(made, *old(v), *final(v), *final(self), r),
            forall|made: spec_fn(Call<V>) -> bool|
                #![trigger picked(made)]
                picked(made)
                    && (forall|mv: &mut V, node: Node, answer: Result<Step, VisitError>|
                        #[trigger] called::<V, D>(node, mv, answer) ==> made(
                            (Call { node, before: *mv, after: *final(mv), answer }),
                        ))
                    ==> failure_was_answered(made, r),
            between(*final(v), r),
            *final(self) == (StructDefinition { members: final(self).members, ..*old(self) }),
            final(self).members@.len() == old(self).members@.len(),
        decreases old(self).depth(), 0int,
    {
        visit_variable_declarations(&mut self.members, v)
    }
}

impl UserDefinedValueTypeDefinition {
    /// How `visit` takes this node and the visitor `pre_v` to `post` and `post_v`, with
    /// the result `r`, the calls of callbacks being among `made`: the children are
    /// walked one after the other, each from the visitor as the one before has left it;
    /// the first failure is the result, and what stands behind it is as it was. What is
    /// no child is as it was.
    pub open spec fn walked<V: Visitor<D>, D>(
        &self,
        made: spec_fn(Call<V>) -> bool,
        pre_v: V,
        post_v: V,
        post: UserDefinedValueTypeDefinition,
        r: Result<(), VisitError>,
    ) -> bool
        decreases self.depth(), 0int, 0int,
    {
        &&& post == (UserDefinedValueTypeDefinition {
            underlying_type: post.underlying_type,
            ..*self
        })
        &&& (self.underlying_type.walked::<V, D>(made, pre_v, post_v, post.underlying_type, r))
    }

    /// How `accept` takes this node and the visitor `pre_v` to `post` and `post_v`,
    /// with the result `r`, the calls of callbacks being among `made`: the callback for
    /// this kind is called with `pre_v` and this node, answers, and leaves `mid_v` and
    /// `mid`, which is no deeper; after [`Step::Descend`] the children of `mid` are
    /// walked from `mid_v`, after anything else nothing more happens, and an error is
    /// the result as it is.
    pub open spec fn accepted<V: Visitor<D>, D>(
        &self,
        made: spec_fn(Call<V>) -> bool,
        pre_v: V,
        post_v: V,
        post: UserDefinedValueTypeDefinition,
        r: Result<(), VisitError>,
    ) -> bool
        decreases self.depth(), 1int, 0int,
    {
        exists|mid_v: V, mid: UserDefinedValueTypeDefinition, answer: Result<Step, VisitError>|
            #[trigger] user_defined_value_type_definition_answered::<V, D>(
                pre_v,
                *self,
                mid_v,
                mid,
                answer,
            )
                && made(
                    (Call {
                        node: Node::UserDefinedValueTypeDefinition(*self),
                        before: pre_v,
                        after: mid_v,
                        answer,
                    }),
                )
                && mid.depth() <= self.depth() && match answer {
                    Ok(Step::Descend) => mid.walked::<V, D>(made, mid_v, post_v, post, r),
                    Ok(Step::Prune) => r is Ok && post_v == mid_v && post == mid,
                    Err(e) => r == Err::<(), VisitError>(e) && post_v == mid_v && post == mid,
                }
    }

    /// Hands this node to [`Visitor::visit_user_defined_value_type_definition`] and
    /// does what the callback answers: on [`Step::Descend`] it walks the children as
    /// [`Visitable::visit`] does, on [`Step::Prune`] it leaves them alone; an error is
    /// handed on.
    pub fn accept<V: Visitor<D>, D>(&mut self, v: &mut V) -> (r: Result<(), VisitError>)
        ensures
            final(self).depth() <= old(self).depth(),
            final(v).shared() == old(v).shared(),
            unfailing::<V, D>() ==> r is Ok,
            old(v).inert() ==> r is Ok && *final(v) == *old(v) && final(self).same_as(old(self)),
            forall|made: spec_fn(Call<V>) -> bool|
                #![trigger picked(made)]
                picked(made)
                    && (forall|mv: &mut V, node: Node, answer: Result<Step, VisitError>|
                        #[trigger] called::<V, D>(node, mv, answer) ==> made(
                            (Call { node, before: *mv, after: *final(mv), answer }),
                        ))
                    ==> old(self).accepted::<V, D>(made, *old(v), *final(v), *final(self), r),
            forall|made: spec_fn(Call<V>) -> bool|
                #![trigger picked(made)]
                picked(made)
                    && (forall|mv: &mut V, node: Node, answer: Result<Step, VisitError>|
                        #[trigger] called::<V, D>(node, mv, answer) ==> made(
                            (Call { node, before: *mv, after: *final(mv), answer }),
                        ))
                    ==> failure_was_answered(made, r),
            between(*final(v), r),
            exists|
                mv: &mut V,
                mn: &mut UserDefinedValueTypeDefinition,
                answer: Result<Step, VisitError>,
            |
                *mv == *old(v) && *mn == *old(self)
                    && #[trigger] call_ensures(
                        V::visit_user_defined_value_type_definition,
                        (mv, mn),
                        answer,
                    )
                    && settled::<V, D, UserDefinedValueTypeDefinition>(
                        answer,
                        r,
                        *final(mv),
                        *final(v),
                        *final(mn),
                        *final(self),
                    ),
        decreases old(self).depth(), 1int,
    {
        let ghost pre_v = *v;
        let ghost pre = *self;
        let answer = v.visit_user_defined_value_type_definition(self);
        let ghost mid_v = *v;
        proof {
            assert(user_defined_value_type_definition_answered::<V, D>(
                pre_v,
                pre,
                *v,
                *self,
                answer,
            ));
            let (mv0, mn0) = choose|mv: &mut V, mn: &mut UserDefinedValueTypeDefinition|
                *mv == pre_v && *final(mv) == mid_v && *mn == pre
                    && #[trigger] call_ensures(
                        V::visit_user_defined_value_type_definition,
                        (mv, mn),
                        answer,
                    );
            assert(called::<V, D>(Node::UserDefinedValueTypeDefinition(pre), mv0, answer));
        }
        match answer {
            Ok(Step::Descend) => {
                let r = self.visit(v);
                proof {
                    assert forall|made: spec_fn(Call<V>) -> bool|
                        #![trigger picked(made)]
                        picked(made)
                            && (forall|mv: &mut V, node: Node, answer: Result<Step, VisitError>|
                                #[trigger] called::<V, D>(node, mv, answer) ==> made(
                                    (Call { node, before: *mv, after: *final(mv), answer }),
                                ))
                        implies pre.accepted::<V, D>(made, pre_v, *v, *self, r) by {
                    }
                }
                r
            },
            Ok(Step::Prune) => {
                proof {
                    assert forall|made: spec_fn(Call<V>) -> bool|
                        #![trigger picked(made)]
                        picked(made)
                            && (forall|mv: &mut V, node: Node, answer: Result<Step, VisitError>|
                                #[trigger] called::<V, D>(node, mv, answer) ==> made(
                                    (Call { node, before: *mv, after: *final(mv), answer }),
                                ))
                        implies pre.accepted::<V, D>(
                            made,
                            pre_v,
                            *v,
                            *self,
                            Ok::<(), VisitError>(()),
                        ) by {
                    }
                }
                Ok(())
            },
            Err(e) => {
                proof {
                    assert forall|made: spec_fn(Call<V>) -> bool|
                        #![trigger picked(made)]
                        picked(made)
                            && (forall|mv: &mut V, node: Node, answer: Result<Step, VisitError>|
                                #[trigger] called::<V, D>(node, mv, answer) ==> made(
                                    (Call { node, before: *mv, after: *final(mv), answer }),
                                ))
                        implies pre.accepted::<V, D>(
                            made,
                            pre_v,
                            *v,
                            *self,
                            Err::<(), VisitError>(e),
                        ) by {
                    }
                }
                Err(e)
            },
        }
    }
}

impl Visitable for UserDefinedValueTypeDefinition {
    /// Walks `underlying_type`.
    fn visit<V: Visitor<D>, D>(&mut self, v: &mut V) -> (r: Result<(), VisitError>)
        ensures
            forall|made: spec_fn(Call<V>) -> bool|
                #![trigger picked(made)]
                picked(made)
                    && (forall|mv: &mut V, node: Node, answer: Result<Step, VisitError>|
                        #[trigger] called::<V, D>(node, mv, answer) ==> made(
                            (Call { node, before: *mv, after: *final(mv), answer }),
                        ))
                    ==> old(self).walked::<V, D>(made, *old(v), *final(v), *final(self), r),
            forall|made: spec_fn(Call<V>) -> bool|
                #![trigger picked(made)]
                picked(made)
                    && (forall|mv: &mut V, node: Node, answer: Result<Step, VisitError>|
                        #[trigger] called::<V, D>(node, mv, answer) ==> made(
                            (Call { node, before: *mv, after: *final(mv), answer }),
                        ))
                    ==> failure_was_answered(made, r),
            between(*final(v), r),
            *final(self) == (UserDefinedValueTypeDefinition {
                underlying_type: final(self).underlying_type,
                ..*old(self)
            }),
        decreases old(self).depth(), 0int,
    {
        self.underlying_type.visit(v)
    }
}

impl Identifier {
    /// How `accept` takes this node and the visitor `pre_v` to `post` and `post_v`,
    /// with the result `r`, the calls of callbacks being among `made`: the callback for
    /// this kind is called with `pre_v` and this node, answers, and leaves `mid_v` and
    /// `mid`, which is no deeper; after [`Step::Descend`] the children of `mid` are
    /// walked from `mid_v`, after anything else nothing more happens, and an error is
    /// the result as it is.
    pub open spec fn accepted<V: Visitor<D>, D>(
        &self,
        made: spec_fn(Call<V>) -> bool,
        pre_v: V,
        post_v: V,
        post: Identifier,
        r: Result<(), VisitError>,
    ) -> bool
    {
        exists|mid_v: V, mid: Identifier, answer: Result<Step, VisitError>|
            #[trigger] identifier_answered::<V, D>(pre_v, *self, mid_v, mid, answer)
                && made(
                    (Call { node: Node::Identifier(*self), before: pre_v, after: mid_v, answer }),
                )
                && post_v == mid_v && post == mid && match answer {
                    Ok(_) => r is Ok,
                    Err(e) => r == Err::<(), VisitError>(e),
                }
    }

    /// Hands this node to [`Visitor::visit_identifier`]. The node has no children that
    /// the walk enters, so nothing follows the callback; its error, if any, is handed
    /// on.
    pub fn accept<V: Visitor<D>, D>(&mut self, v: &mut V) -> (r: Result<(), VisitError>)
        ensures
            final(self).depth() <= old(self).depth(),
            final(v).shared() == old(v).shared(),
            unfailing::<V, D>() ==> r is Ok,
            old(v).inert() ==> r is Ok && *final(v) == *old(v) && final(self).same_as(old(self)),
            forall|made: spec_fn(Call<V>) -> bool|
                #![trigger picked(made)]
                picked(made)
                    && (forall|mv: &mut V, node: Node, answer: Result<Step, VisitError>|
                        #[trigger] called::<V, D>(node, mv, answer) ==> made(
                            (Call { node, before: *mv, after: *final(mv), answer }),
                        ))
                    ==> old(self).accepted::<V, D>(made, *old(v), *final(v), *final(self), r),
            forall|made: spec_fn(Call<V>) -> bool|
                #![trigger picked(made)]
                picked(made)
                    && (forall|mv: &mut V, node: Node, answer: Result<Step, VisitError>|
                        #[trigger] called::<V, D>(node, mv, answer) ==> made(
                            (Call { node, before: *mv, after: *final(mv), answer }),
                        ))
                    ==> failure_was_answered(made, r),
            between(*final(v), r),
            exists|mv: &mut V, mn: &mut Identifier, answer: Result<Step, VisitError>|
                *mv == *old(v) && *mn == *old(self)
                    && #[trigger] call_ensures(V::visit_identifier, (mv, mn), answer)
                    && settled::<V, D, Identifier>(
                        answer,
                        r,
                        *final(mv),
                        *final(v),
                        *final(mn),
                        *final(self),
                    ),
    {
        let ghost pre_v = *v;
        let ghost pre = *self;
        let answer = v.visit_identifier(self);
        let ghost mid_v = *v;
        proof {
            assert(identifier_answered::<V, D>(pre_v, pre, *v, *self, answer));
            let (mv0, mn0) = choose|mv: &mut V, mn: &mut Identifier|
                *mv == pre_v && *final(mv) == mid_v && *mn == pre
                    && #[trigger] call_ensures(V::visit_identifier, (mv, mn), answer);
            assert(called::<V, D>(Node::Identifier(pre), mv0, answer));
        }
        match answer {
            Ok(Step::Descend) => {
                let r = self.visit(v);
                proof {
                    assert forall|made: spec_fn(Call<V>) -> bool|
                        #![trigger picked(made)]
                        picked(made)
                            && (forall|mv: &mut V, node: Node, answer: Result<Step, VisitError>|
                                #[trigger] called::<V, D>(node, mv, answer) ==> made(
                                    (Call { node, before: *mv, after: *final(mv), answer }),
                                ))
                        implies pre.accepted::<V, D>(made, pre_v, *v, *self, r) by {
                    }
                }
                r
            },
            Ok(Step::Prune) => {
                proof {
                    assert forall|made: spec_fn(Call<V>) -> bool|
                        #![trigger picked(made)]
                        picked(made)
                            && (forall|mv: &mut V, node: Node, answer: Result<Step, VisitError>|
                                #[trigger] called::<V, D>(node, mv, answer) ==> made(
                                    (Call { node, before: *mv, after: *final(mv), answer }),
                                ))
                        implies pre.accepted::<V, D>(
                            made,
                            pre_v,
                            *v,
                            *self,
                            Ok::<(), VisitError>(()),
                        ) by {
                    }
                }
                Ok(())
            },
            Err(e) => {
                proof {
                    assert forall|made: spec_fn(Call<V>) -> bool|
                        #![trigger picked(made)]
                        picked(made)
                            && (forall|mv: &mut V, node: Node, answer: Result<Step, VisitError>|
                                #[trigger] called::<V, D>(node, mv, answer) ==> made(
                                    (Call { node, before: *mv, after: *final(mv), answer }),
                                ))
                        implies pre.accepted::<V, D>(
                            made,
                            pre_v,
                            *v,
                            *self,
                            Err::<(), VisitError>(e),
                        ) by {
                    }
                }
                Err(e)
            },
        }
    }
}

impl Visitable for Identifier {
    /// Does nothing: the walk does not enter an identifier.
    fn visit<V: Visitor<D>, D>(&mut self, v: &mut V) -> (r: Result<(), VisitError>)
        ensures
            r is Ok,
            *final(self) == *old(self),
            *final(v) == *old(v),
    {
        Ok(())
    }
}

impl IdentifierPath {
    /// How `accept` takes this node and the visitor `pre_v` to `post` and `post_v`,
    /// with the result `r`, the calls of callbacks being among `made`: the callback for
    /// this kind is called with `pre_v` and this node, answers, and leaves `mid_v` and
    /// `mid`, which is no deeper; after [`Step::Descend`] the children of `mid` are
    /// walked from `mid_v`, after anything else nothing more happens, and an error is
    /// the result as it is.
    pub open spec fn accepted<V: Visitor<D>, D>(
        &self,
        made: spec_fn(Call<V>) -> bool,
        pre_v: V,
        post_v: V,
        post: IdentifierPath,
        r: Result<(), VisitError>,
    ) -> bool
    {
        exists|mid_v: V, mid: IdentifierPath, answer: Result<Step, VisitError>|
            #[trigger] identifier_path_answered::<V, D>(pre_v, *self, mid_v, mid, answer)
                && made(
                    (Call {
                        node: Node::IdentifierPath(*self),
                        before: pre_v,
                        after: mid_v,
                        answer,
                    }),
                )
                && post_v == mid_v && post == mid && match answer {
                    Ok(_) => r is Ok,
                    Err(e) => r == Err::<(), VisitError>(e),
                }
    }

    /// Hands this node to [`Visitor::visit_identifier_path`]. The node has no children
    /// that the walk enters, so nothing follows the callback; its error, if any, is
    /// handed on.
    pub fn accept<V: Visitor<D>, D>(&mut self, v: &mut V) -> (r: Result<(), VisitError>)
        ensures
            final(self).depth() <= old(self).depth(),
            final(v).shared() == old(v).shared(),
            unfailing::<V, D>() ==> r is Ok,
            old(v).inert() ==> r is Ok && *final(v) == *old(v) && final(self).same_as(old(self)),
            forall|made: spec_fn(Call<V>) -> bool|
                #![trigger picked(made)]
                picked(made)
                    && (forall|mv: &mut V, node: Node, answer: Result<Step, VisitError>|
                        #[trigger] called::<V, D>(node, mv, answer) ==> made(
                            (Call { node, before: *mv, after: *final(mv), answer }),
                        ))
                    ==> old(self).accepted::<V, D>(made, *old(v), *final(v), *final(self), r),
            forall|made: spec_fn(Call<V>) -> bool|
                #![trigger picked(made)]
                picked(made)
                    && (forall|mv: &mut V, node: Node, answer: Result<Step, VisitError>|
                        #[trigger] called::<V, D>(node, mv, answer) ==> made(
                            (Call { node, before: *mv, after: *final(mv), answer }),
                        ))
                    ==> failure_was_answered(made, r),
            between(*final(v), r),
            exists|mv: &mut V, mn: &mut IdentifierPath, answer: Result<Step, VisitError>|
                *mv == *old(v) && *mn == *old(self)
                    && #[trigger] call_ensures(V::visit_identifier_path, (mv, mn), answer)
                    && settled::<V, D, IdentifierPath>(
                        answer,
                        r,
                        *final(mv),
                        *final(v),
                        *final(mn),
                        *final(self),
                    ),
    {
        let ghost pre_v = *v;
        let ghost pre = *self;
        let answer = v.visit_identifier_path(self);
        let ghost mid_v = *v;
        proof {
            assert(identifier_path_answered::<V, D>(pre_v, pre, *v, *self, answer));
            let (mv0, mn0) = choose|mv: &mut V, mn: &mut IdentifierPath|
                *mv == pre_v && *final(mv) == mid_v && *mn == pre
                    && #[trigger] call_ensures(V::visit_identifier_path, (mv, mn), answer);
            assert(called::<V, D>(Node::IdentifierPath(pre), mv0, answer));
        }
        match answer {
            Ok(Step::Descend) => {
                let r = self.visit(v);
                proof {
                    assert forall|made: spec_fn(Call<V>) -> bool|
                        #![trigger picked(made)]
                        picked(made)
                            && (forall|mv: &mut V, node: Node, answer: Result<Step, VisitError>|
                                #[trigger] called::<V, D>(node, mv, answer) ==> made(
                                    (Call { node, before: *mv, after: *final(mv), answer }),
                                ))
                        implies pre.accepted::<V, D>(made, pre_v, *v, *self, r) by {
                    }
                }
                r
            },
            Ok(Step::Prune) => {
                proof {
                    assert forall|made: spec_fn(Call<V>) -> bool|
                        #![trigger picked(made)]
                        picked(made)
                            && (forall|mv: &mut V, node: Node, answer: Result<Step, VisitError>|
                                #[trigger] called::<V, D>(node, mv, answer) ==> made(
                                    (Call { node, before: *mv, after: *final(mv), answer }),
                                ))
                        implies pre.accepted::<V, D>(
                            made,
                            pre_v,
                            *v,
                            *self,
                            Ok::<(), VisitError>(()),
                        ) by {
                    }
                }
                Ok(())
            },
            Err(e) => {
                proof {
                    assert forall|made: spec_fn(Call<V>) -> bool|
                        #![trigger picked(made)]
                        picked(made)
                            && (forall|mv: &mut V, node: Node, answer: Result<Step, VisitError>|
                                #[trigger] called::<V, D>(node, mv, answer) ==> made(
                                    (Call { node, before: *mv, after: *final(mv), answer }),
                                ))
                        implies pre.accepted::<V, D>(
                            made,
                            pre_v,
                            *v,
                            *self,
                            Err::<(), VisitError>(e),
                        ) by {
                    }
                }
                Err(e)
            },
        }
    }
}

impl Visitable for IdentifierPath {
    /// Does nothing: the walk does not enter an identifier path.
    fn visit<V: Visitor<D>, D>(&mut self, v: &mut V) -> (r: Result<(), VisitError>)
        ensures
            r is Ok,
            *final(self) == *old(self),
            *final(v) == *old(v),
    {
        Ok(())
    }
}

impl IdentifierOrIdentifierPath {
    /// How `visit` takes this node and the visitor `pre_v` to `post` and `post_v`, with
    /// the result `r`, the calls of callbacks being among `made`: as `accept` does on
    /// the node inside, which keeps its kind.
    pub open spec fn walked<V: Visitor<D>, D>(
        &self,
        made: spec_fn(Call<V>) -> bool,
        pre_v: V,
        post_v: V,
        post: IdentifierOrIdentifierPath,
        r: Result<(), VisitError>,
    ) -> bool
        decreases self.depth(), 0int, 0int,
    {
        match (self, post) {
            (
                IdentifierOrIdentifierPath::Identifier(a),
                IdentifierOrIdentifierPath::Identifier(b),
            ) => a.accepted::<V, D>(made, pre_v, post_v, b, r),
            (
                IdentifierOrIdentifierPath::IdentifierPath(a),
                IdentifierOrIdentifierPath::IdentifierPath(b),
            ) => a.accepted::<V, D>(made, pre_v, post_v, b, r),
            _ => false,
        }
    }
}

impl Visitable for IdentifierOrIdentifierPath {
    /// Hands the node inside to the callback of its kind, and to no other, as `accept`
    /// on that kind does.
    fn visit<V: Visitor<D>, D>(&mut self, v: &mut V) -> (r: Result<(), VisitError>)
        ensures
            forall|made: spec_fn(Call<V>) -> bool|
                #![trigger picked(made)]
                picked(made)
                    && (forall|mv: &mut V, node: Node, answer: Result<Step, VisitError>|
                        #[trigger] called::<V, D>(node, mv, answer) ==> made(
                            (Call { node, before: *mv, after: *final(mv), answer }),
                        ))
                    ==> old(self).walked::<V, D>(made, *old(v), *final(v), *final(self), r),
            forall|made: spec_fn(Call<V>) -> bool|
                #![trigger picked(made)]
                picked(made)
                    && (forall|mv: &mut V, node: Node, answer: Result<Step, VisitError>|
                        #[trigger] called::<V, D>(node, mv, answer) ==> made(
                            (Call { node, before: *mv, after: *final(mv), answer }),
                        ))
                    ==> failure_was_answered(made, r),
            between(*final(v), r),
            *old(self) matches IdentifierOrIdentifierPath::Identifier(n)
                ==> ((*final(self)) is Identifier
                && exists|mv: &mut V, mn: &mut Identifier, answer: Result<Step, VisitError>|
                    *mv == *old(v) && *mn == n
                        && #[trigger] call_ensures(V::visit_identifier, (mv, mn), answer)
                        && settled::<V, D, Identifier>(
                            answer,
                            r,
                            *final(mv),
                            *final(v),
                            *final(mn),
                            (*final(self))->Identifier_0,
                        )),
            *old(self) matches IdentifierOrIdentifierPath::IdentifierPath(n)
                ==> ((*final(self)) is IdentifierPath
                && exists|mv: &mut V, mn: &mut IdentifierPath, answer: Result<Step, VisitError>|
                    *mv == *old(v) && *mn == n
                        && #[trigger] call_ensures(V::visit_identifier_path, (mv, mn), answer)
                        && settled::<V, D, IdentifierPath>(
                            answer,
                            r,
                            *final(mv),
                            *final(v),
                            *final(mn),
                            (*final(self))->IdentifierPath_0,
                        )),
        decreases old(self).depth(), 0int,
    {
        match self {
            IdentifierOrIdentifierPath::Identifier(e) => e.accept(v),
            IdentifierOrIdentifierPath::IdentifierPath(e) => e.accept(v),
        }
    }
}

} // verus!
