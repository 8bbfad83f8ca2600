//! The walk of a source file, of its top-level parts, and of contracts.

use vstd::prelude::*;
use crate::ast::definition::{
    EnumDefinition, ErrorDefinition, EventDefinition, FunctionDefinition, Identifier,
    ModifierDefinition, StructDefinition, UserDefinedValueTypeDefinition, VariableDeclaration,
};
use crate::ast::source_unit::{
    ContractDefinition, ContractDefinitionPart, FunctionIdentifierPath, ImportDirective,
    InheritanceSpecifier, PragmaDirective, SourceUnit, SourceUnitPart, SymbolAlias,
    UsingForDirective, contract_definition_parts_depth, contract_definition_parts_depths,
    contract_definition_parts_same, inheritance_specifiers_depth, inheritance_specifiers_depths,
    inheritance_specifiers_same, lemma_contract_definition_parts_depth_bound,
    lemma_contract_definition_parts_depth_mono, lemma_inheritance_specifiers_depth_bound,
    lemma_inheritance_specifiers_depth_mono, lemma_source_unit_parts_depth_bound,
    lemma_source_unit_parts_depth_mono, lemma_symbol_aliases_depth_bound,
    lemma_symbol_aliases_depth_mono, source_unit_parts_depth, source_unit_parts_depths,
    source_unit_parts_same, symbol_aliases_depth, symbol_aliases_depths, symbol_aliases_same,
};
use crate::shape::{Shape, depths_of};
use crate::visitor::{
    Call, Node, Step, VisitError, Visitable, Visitor, between, called, contract_definition_answered,
    failure_was_answered, import_directive_answered, picked, pragma_directive_answered, reached,
    settled, source_unit_answered, unfailing, using_for_directive_answered,
};
use crate::visitor::expression::{maybe_expressions_walked, visit_maybe_expressions};
use crate::visitor::types::{
    maybe_type_name_walked, maybe_user_defined_type_name_or_identifier_path_walked,
    visit_maybe_type_name, visit_maybe_user_defined_type_name_or_identifier_path,
};

verus! {

impl SourceUnit {
    /// How `visit` takes this node and the visitor `pre_v` to `post` and `post_v`, with
    /// the result `r`, the calls of callbacks being among `made`: the children are
    /// walked one after the other, each from the visitor as the one before has left it;
    /// the first failure is the result, and what stands behind it is as it was. What is
    /// no child is as it was.
    pub open spec fn walked<V: Visitor<D>, D>(
        &self,
        made: spec_fn(Call<V>) -> bool,
        pre_v: V,
        post_v: V,
        post: SourceUnit,
        r: Result<(), VisitError>,
    ) -> bool
        decreases self.depth(), 0int, 0int,
    {
        &&& post == (SourceUnit { nodes: post.nodes, ..*self })
        &&& (source_unit_parts_walked::<V, D>(made, self.nodes@, pre_v, post_v, post.nodes@, r))
    }

    /// How `accept` takes this node and the visitor `pre_v` to `post` and `post_v`,
    /// with the result `r`, the calls of callbacks being among `made`: the callback for
    /// this kind is called with `pre_v` and this node, answers, and leaves `mid_v` and
    /// `mid`, which is no deeper; after [`Step::Descend`] the children of `mid` are
    /// walked from `mid_v`, after anything else nothing more happens, and an error is
    /// the result as it is.
    pub open spec fn accepted<V: Visitor<D>, D>(
        &self,
        made: spec_fn(Call<V>) -> bool,
        pre_v: V,
        post_v: V,
        post: SourceUnit,
        r: Result<(), VisitError>,
    ) -> bool
        decreases self.depth(), 1int, 0int,
    {
        exists|mid_v: V, mid: SourceUnit, answer: Result<Step, VisitError>|
            #[trigger] source_unit_answered::<V, D>(pre_v, *self, mid_v, mid, answer)
                && made(
                    (Call { node: Node::SourceUnit(*self), before: pre_v, after: mid_v, answer }),
                )
                && mid.depth() <= self.depth() && match answer {
                    Ok(Step::Descend) => mid.walked::<V, D>(made, mid_v, post_v, post, r),
                    Ok(Step::Prune) => r is Ok && post_v == mid_v && post == mid,
                    Err(e) => r == Err::<(), VisitError>(e) && post_v == mid_v && post == mid,
                }
    }

    /// Hands this node to [`Visitor::visit_source_unit`] and does what the callback
    /// answers: on [`Step::Descend`] it walks the children as [`Visitable::visit`]
    /// does, on [`Step::Prune`] it leaves them alone; an error is handed on.
    pub fn accept<V: Visitor<D>, D>(&mut self, v: &mut V) -> (r: Result<(), VisitError>)
        ensures
            final(self).depth() <= old(self).depth(),
            final(v).shared() == old(v).shared(),
            unfailing::<V, D>() ==> r is Ok,
            old(v).inert() ==> r is Ok && *final(v) == *old(v) && final(self).same_as(old(self)),
            forall|made: spec_fn(Call<V>) -> bool|
                #![trigger picked(made)]
                picked(made)
                    && (forall|mv: &mut V, node: Node, answer: Result<Step, VisitError>|
                        #[trigger] called::<V, D>(node, mv, answer) ==> made(
                            (Call { node, before: *mv, after: *final(mv), answer }),
                        ))
                    ==> old(self).accepted::<V, D>(made, *old(v), *final(v), *final(self), r),
            forall|made: spec_fn(Call<V>) -> bool|
                #![trigger picked(made)]
                picked(made)
                    && (forall|mv: &mut V, node: Node, answer: Result<Step, VisitError>|
                        #[trigger] called::<V, D>(node, mv, answer) ==> made(
                            (Call { node, before: *mv, after: *final(mv), answer }),
                        ))
                    ==> failure_was_answered(made, r),
            between(*final(v), r),
            exists|mv: &mut V, mn: &mut SourceUnit, answer: Result<Step, VisitError>|
                *mv == *old(v) && *mn == *old(self)
                    && #[trigger] call_ensures(V::visit_source_unit, (mv, mn), answer)
                    && settled::<V, D, SourceUnit>(
                        answer,
                        r,
                        *final(mv),
                        *final(v),
                        *final(mn),
                        *final(self),
                    ),
        decreases old(self).depth(), 1int,
    {
        let ghost pre_v = *v;
        let ghost pre = *self;
        let answer = v.visit_source_unit(self);
        let ghost mid_v = *v;
        proof {
            assert(source_unit_answered::<V, D>(pre_v, pre, *v, *self, answer));
            let (mv0, mn0) = choose|mv: &mut V, mn: &mut SourceUnit|
                *mv == pre_v && *final(mv) == mid_v && *mn == pre
                    && #[trigger] call_ensures(V::visit_source_unit, (mv, mn), answer);
            assert(called::<V, D>(Node::SourceUnit(pre), mv0, answer));
        }
        match answer {
            Ok(Step::Descend) => {
                let r = self.visit(v);
                proof {
                    assert forall|made: spec_fn(Call<V>) -> bool|
                        #![trigger picked(made)]
                        picked(made)
                            && (forall|mv: &mut V, node: Node, answer: Result<Step, VisitError>|
                                #[trigger] called::<V, D>(node, mv, answer) ==> made(
                                    (Call { node, before: *mv, after: *final(mv), answer }),
                                ))
                        implies pre.accepted::<V, D>(made, pre_v, *v, *self, r) by {
                    }
                }
                r
            },
            Ok(Step::Prune) => {
                proof {
                    assert forall|made: spec_fn(Call<V>) -> bool|
                        #![trigger picked(made)]
                        picked(made)
                            && (forall|mv: &mut V, node: Node, answer: Result<Step, VisitError>|
                                #[trigger] called::<V, D>(node, mv, answer) ==> made(
                                    (Call { node, before: *mv, after: *final(mv), answer }),
                                ))
                        implies pre.accepted::<V, D>(
                            made,
                            pre_v,
                            *v,
                            *self,
                            Ok::<(), VisitError>(()),
                        ) by {
                    }
                }
                Ok(())
            },
            Err(e) => {
                proof {
                    assert forall|made: spec_fn(Call<V>) -> bool|
                        #![trigger picked(made)]
                        picked(made)
                            && (forall|mv: &mut V, node: Node, answer: Result<Step, VisitError>|
                                #[trigger] called::<V, D>(node, mv, answer) ==> made(
                                    (Call { node, before: *mv, after: *final(mv), answer }),
                                ))
                        implies pre.accepted::<V, D>(
                            made,
                            pre_v,
                            *v,
                            *self,
                            Err::<(), VisitError>(e),
                        ) by {
                    }
                }
                Err(e)
            },
        }
    }
}

impl Visitable for SourceUnit {
    /// Walks `nodes`.
    fn visit<V: Visitor<D>, D>(&mut self, v: &mut V) -> (r: Result<(), VisitError>)
        ensures
            forall|made: spec_fn(Call<V>) -> bool|
                #![trigger picked(made)]
                picked(made)
                    && (forall|mv: &mut V, node: Node, answer: Result<Step, VisitError>|
                        #[trigger] called::<V, D>(node, mv, answer) ==> made(
                            (Call { node, before: *mv, after: *final(mv), answer }),
                        ))
                    ==> old(self).walked::<V, D>(made, *old(v), *final(v), *final(self), r),
            forall|made: spec_fn(Call<V>) -> bool|
                #![trigger picked(made)]
                picked(made)
                    && (forall|mv: &mut V, node: Node, answer: Result<Step, VisitError>|
                        #[trigger] called::<V, D>(node, mv, answer) ==> made(
                            (Call { node, before: *mv, after: *final(mv), answer }),
                        ))
                    ==> failure_was_answered(made, r),
            between(*final(v), r),
            *final(self) == (SourceUnit { nodes: final(self).nodes, ..*old(self) }),
            final(self).nodes@.len() == old(self).nodes@.len(),
        decreases old(self).depth(), 0int,
    {
        visit_source_unit_parts(&mut self.nodes, v)
    }
}

impl SourceUnitPart {
    /// How `visit` takes this node and the visitor `pre_v` to `post` and `post_v`, with
    /// the result `r`, the calls of callbacks being among `made`: as `accept` does on
    /// the node inside, which keeps its kind.
    pub open spec fn walked<V: Visitor<D>, D>(
        &self,
        made: spec_fn(Call<V>) -> bool,
        pre_v: V,
        post_v: V,
        post: SourceUnitPart,
        r: Result<(), VisitError>,
    ) -> bool
        decreases self.depth(), 0int, 0int,
    {
        match (self, post) {
            (
                SourceUnitPart::PragmaDirective(a),
                SourceUnitPart::PragmaDirective(b),
            ) => a.accepted::<V, D>(made, pre_v, post_v, b, r),
            (
                SourceUnitPart::ImportDirective(a),
                SourceUnitPart::ImportDirective(b),
            ) => a.accepted::<V, D>(made, pre_v, post_v, b, r),
            (
                SourceUnitPart::UsingForDirective(a),
                SourceUnitPart::UsingForDirective(b),
            ) => a.accepted::<V, D>(made, pre_v, post_v, b, r),
            (
                SourceUnitPart::VariableDeclaration(a),
                SourceUnitPart::VariableDeclaration(b),
            ) => a.accepted::<V, D>(made, pre_v, post_v, b, r),
            (
                SourceUnitPart::EnumDefinition(a),
                SourceUnitPart::EnumDefinition(b),
            ) => a.accepted::<V, D>(made, pre_v, post_v, b, r),
            (
                SourceUnitPart::ErrorDefinition(a),
                SourceUnitPart::ErrorDefinition(b),
            ) => a.accepted::<V, D>(made, pre_v, post_v, b, r),
            (
                SourceUnitPart::FunctionDefinition(a),
                SourceUnitPart::FunctionDefinition(b),
            ) => a.accepted::<V, D>(made, pre_v, post_v, b, r),
            (
                SourceUnitPart::StructDefinition(a),
                SourceUnitPart::StructDefinition(b),
            ) => a.accepted::<V, D>(made, pre_v, post_v, b, r),
            (
                SourceUnitPart::UserDefinedValueTypeDefinition(a),
                SourceUnitPart::UserDefinedValueTypeDefinition(b),
            ) => a.accepted::<V, D>(made, pre_v, post_v, b, r),
            (
                SourceUnitPart::ContractDefinition(a),
                SourceUnitPart::ContractDefinition(b),
            ) => a.accepted::<V, D>(made, pre_v, post_v, b, r),
            _ => false,
        }
    }
}

impl Visitable for SourceUnitPart {
    /// Hands the node inside to the callback of its kind, and to no other, as `accept`
    /// on that kind does.
    fn visit<V: Visitor<D>, D>(&mut self, v: &mut V) -> (r: Result<(), VisitError>)
        ensures
            forall|made: spec_fn(Call<V>) -> bool|
                #![trigger picked(made)]
                picked(made)
                    && (forall|mv: &mut V, node: Node, answer: Result<Step, VisitError>|
                        #[trigger] called::<V, D>(node, mv, answer) ==> made(
                            (Call { node, before: *mv, after: *final(mv), answer }),
                        ))
                    ==> old(self).walked::<V, D>(made, *old(v), *final(v), *final(self), r),
            forall|made: spec_fn(Call<V>) -> bool|
                #![trigger picked(made)]
                picked(made)
                    && (forall|mv: &mut V, node: Node, answer: Result<Step, VisitError>|
                        #[trigger] called::<V, D>(node, mv, answer) ==> made(
                            (Call { node, before: *mv, after: *final(mv), answer }),
                        ))
                    ==> failure_was_answered(made, r),
            between(*final(v), r),
            *old(self) matches SourceUnitPart::PragmaDirective(n)
                ==> ((*final(self)) is PragmaDirective
                && exists|mv: &mut V, mn: &mut PragmaDirective, answer: Result<Step, VisitError>|
                    *mv == *old(v) && *mn == n
                        && #[trigger] call_ensures(V::visit_pragma_directive, (mv, mn), answer)
                        && settled::<V, D, PragmaDirective>(
                            answer,
                            r,
                            *final(mv),
                            *final(v),
                            *final(mn),
                            (*final(self))->PragmaDirective_0,
                        )),
            *old(self) matches SourceUnitPart::ImportDirective(n)
                ==> ((*final(self)) is ImportDirective
                && exists|mv: &mut V, mn: &mut ImportDirective, answer: Result<Step, VisitError>|
                    *mv == *old(v) && *mn == n
                        && #[trigger] call_ensures(V::visit_import_directive, (mv, mn), answer)
                        && settled::<V, D, ImportDirective>(
                            answer,
                            r,
                            *final(mv),
                            *final(v),
                            *final(mn),
                            (*final(self))->ImportDirective_0,
                        )),
            *old(self) matches SourceUnitPart::UsingForDirective(n)
                ==> ((*final(self)) is UsingForDirective
                && exists|mv: &mut V, mn: &mut UsingForDirective, answer: Result<Step, VisitError>|
                    *mv == *old(v) && *mn == n
                        && #[trigger] call_ensures(V::visit_using_for_directive, (mv, mn), answer)
                        && settled::<V, D, UsingForDirective>(
                            answer,
                            r,
                            *final(mv),
                            *final(v),
                            *final(mn),
                            (*final(self))->UsingForDirective_0,
                        )),
            *old(self) matches SourceUnitPart::VariableDeclaration(n)
                ==> ((*final(self)) is VariableDeclaration
                && exists|
                    mv: &mut V,
                    mn: &mut VariableDeclaration,
                    answer: Result<Step, VisitError>,
                |
                    *mv == *old(v) && *mn == n
                        && #[trigger] call_ensures(V::visit_variable_declaration, (mv, mn), answer)
                        && settled::<V, D, VariableDeclaration>(
                            answer,
                            r,
                            *final(mv),
                            *final(v),
                            *final(mn),
                            (*final(self))->VariableDeclaration_0,
                        )),
            *old(self) matches SourceUnitPart::EnumDefinition(n)
                ==> ((*final(self)) is EnumDefinition
                && exists|mv: &mut V, mn: &mut EnumDefinition, answer: Result<Step, VisitError>|
                    *mv == *old(v) && *mn == n
                        && #[trigger] call_ensures(V::visit_enum_definition, (mv, mn), answer)
                        && settled::<V, D, EnumDefinition>(
                            answer,
                            r,
                            *final(mv),
                            *final(v),
                            *final(mn),
                            (*final(self))->EnumDefinition_0,
                        )),
            *old(self) matches SourceUnitPart::ErrorDefinition(n)
                ==> ((*final(self)) is ErrorDefinition
                && exists|mv: &mut V, mn: &mut ErrorDefinition, answer: Result<Step, VisitError>|
                    *mv == *old(v) && *mn == n
                        && #[trigger] call_ensures(V::visit_error_definition, (mv, mn), answer)
                        && settled::<V, D, ErrorDefinition>(
                            answer,
                            r,
                            *final(mv),
                            *final(v),
                            *final(mn),
                            (*final(self))->ErrorDefinition_0,
                        )),
            *old(self) matches SourceUnitPart::FunctionDefinition(n)
                ==> ((*final(self)) is FunctionDefinition
                && exists|mv: &mut V, mn: &mut FunctionDefinition, answer: Result<Step, VisitError>|
                    *mv == *old(v) && *mn == n
                        && #[trigger] call_ensures(V::visit_function_definition, (mv, mn), answer)
                        && settled::<V, D, FunctionDefinition>(
                            answer,
                            r,
                            *final(mv),
                            *final(v),
                            *final(mn),
                            (*final(self))->FunctionDefinition_0,
                        )),
            *old(self) matches SourceUnitPart::StructDefinition(n)
                ==> ((*final(self)) is StructDefinition
                && exists|mv: &mut V, mn: &mut StructDefinition, answer: Result<Step, VisitError>|
                    *mv == *old(v) && *mn == n
                        && #[trigger] call_ensures(V::visit_struct_definition, (mv, mn), answer)
                        && settled::<V, D, StructDefinition>(
                            answer,
                            r,
                            *final(mv),
                            *final(v),
                            *final(mn),
                            (*final(self))->StructDefinition_0,
                        )),
            *old(self) matches SourceUnitPart::UserDefinedValueTypeDefinition(n)
                ==> ((*final(self)) is UserDefinedValueTypeDefinition
                && exists|
                    mv: &mut V,
                    mn: &mut UserDefinedValueTypeDefinition,
                    answer: Result<Step, VisitError>,
                |
                    *mv == *old(v) && *mn == n
                        && #[trigger] call_ensures(
                            V::visit_user_defined_value_type_definition,
                            (mv, mn),
                            answer,
                        )
                        && settled::<V, D, UserDefinedValueTypeDefinition>(
                            answer,
                            r,
                            *final(mv),
                            *final(v),
                            *final(mn),
                            (*final(self))->UserDefinedValueTypeDefinition_0,
                        )),
            *old(self) matches SourceUnitPart::ContractDefinition(n)
                ==> ((*final(self)) is ContractDefinition
                && exists|mv: &mut V, mn: &mut ContractDefinition, answer: Result<Step, VisitError>|
                    *mv == *old(v) && *mn == n
                        && #[trigger] call_ensures(V::visit_contract_definition, (mv, mn), answer)
                        && settled::<V, D, ContractDefinition>(
                            answer,
                            r,
                            *final(mv),
                            *final(v),
                            *final(mn),
                            (*final(self))->ContractDefinition_0,
                        )),
        decreases old(self).depth(), 0int,
    {
        match self {
            SourceUnitPart::PragmaDirective(e) => e.accept(v),
            SourceUnitPart::ImportDirective(e) => e.accept(v),
            SourceUnitPart::UsingForDirective(e) => e.accept(v),
            SourceUnitPart::VariableDeclaration(e) => e.accept(v),
            SourceUnitPart::EnumDefinition(e) => e.accept(v),
            SourceUnitPart::ErrorDefinition(e) => e.accept(v),
            SourceUnitPart::FunctionDefinition(e) => e.accept(v),
            SourceUnitPart::StructDefinition(e) => e.accept(v),
            SourceUnitPart::UserDefinedValueTypeDefinition(e) => e.accept(v),
            SourceUnitPart::ContractDefinition(e) => e.accept(v),
        }
    }
}

/// The items of `pre` that stand where `done` has items have been walked with success,
/// in order and each once, the first from the visitor `pre_v` and each next one from
/// the visitor as the one before has left it; they are now what `done` holds, and the
/// visitor is `v`. (The clause on the depths holds of every sequence: it is what lets
/// this definition end.)
pub open spec fn source_unit_parts_walked_to<V: Visitor<D>, D>(
    made: spec_fn(Call<V>) -> bool,
    pre: Seq<SourceUnitPart>,
    done: Seq<SourceUnitPart>,
    pre_v: V,
    v: V,
) -> bool
    decreases source_unit_parts_depth(pre), 3int, done.len(),
{
    if done.len() == 0 {
        v == pre_v
    } else if done.len() > pre.len() {
        false
    } else {
        &&& source_unit_parts_depths(pre)[done.len() - 1] <= source_unit_parts_depth(pre)
        &&& exists|u: V, ok: Result<(), VisitError>|
            #[trigger] between(u, ok) && ok is Ok
                && source_unit_parts_walked_to::<V, D>(made, pre, done.drop_last(), pre_v, u)
                && pre[done.len() - 1].walked::<V, D>(made, u, v, done.last(), ok)
    }
}

/// How the walk takes the items `pre` and the visitor `pre_v` to `post` and `post_v`,
/// with the result `r`: the items are walked in order, each once, each from the visitor
/// as the one before has left it, up to the first failure. That failure is the result,
/// and the items behind it are as they were. (The clause on the depths holds of every
/// sequence.)
pub open spec fn source_unit_parts_walked<V: Visitor<D>, D>(
    made: spec_fn(Call<V>) -> bool,
    pre: Seq<SourceUnitPart>,
    pre_v: V,
    post_v: V,
    post: Seq<SourceUnitPart>,
    r: Result<(), VisitError>,
) -> bool
{
    &&& pre.len() == post.len()
    &&& match r {
        Ok(_) => source_unit_parts_walked_to::<V, D>(made, pre, post, pre_v, post_v),
        Err(e) => exists|k: int, u: V|
            #[trigger] reached(k, u) && 0 <= k < pre.len()
                && source_unit_parts_depths(pre)[k] <= source_unit_parts_depth(pre)
                && source_unit_parts_walked_to::<V, D>(made, pre, post.take(k), pre_v, u)
                && pre[k].walked::<V, D>(made, u, post_v, post[k], Err::<(), VisitError>(e))
                && forall|j: int| k < j < pre.len() ==> post[j] == pre[j],
    }
}

/// Walks `items` in order. The first failure ends the walk; the items after it are left
/// alone.
pub fn visit_source_unit_parts<V: Visitor<D>, D>(
    items: &mut Vec<SourceUnitPart>,
    v: &mut V,
) -> (r: Result<(), VisitError>)
    ensures
        forall|made: spec_fn(Call<V>) -> bool|
            #![trigger picked(made)]
            picked(made)
                && (forall|mv: &mut V, node: Node, answer: Result<Step, VisitError>|
                    #[trigger] called::<V, D>(node, mv, answer) ==> made(
                        (Call { node, before: *mv, after: *final(mv), answer }),
                    ))
                ==> source_unit_parts_walked::<V, D>(
                    made,
                    old(items)@,
                    *old(v),
                    *final(v),
                    final(items)@,
                    r,
                ),
        forall|made: spec_fn(Call<V>) -> bool|
            #![trigger picked(made)]
            picked(made)
                && (forall|mv: &mut V, node: Node, answer: Result<Step, VisitError>|
                    #[trigger] called::<V, D>(node, mv, answer) ==> made(
                        (Call { node, before: *mv, after: *final(mv), answer }),
                    ))
                ==> failure_was_answered(made, r),
        between(*final(v), r),
        final(items)@.len() == old(items)@.len(),
        source_unit_parts_depth(final(items)@) <= source_unit_parts_depth(old(items)@),
        final(v).shared() == old(v).shared(),
        unfailing::<V, D>() ==> r is Ok,
        old(v).inert() ==> {
            &&& r is Ok
            &&& *final(v) == *old(v)
            &&& source_unit_parts_same(final(items)@, old(items)@)
        },
    decreases source_unit_parts_depth(old(items)@), 3int,
{
    let n = items.len();
    let mut i: usize = 0;
    while i < n
        invariant
            i <= n,
            n == items@.len(),
            n == old(items)@.len(),
            forall|j: int| i <= j < n ==> items@[j] == old(items)@[j],
            forall|j: int|
                0 <= j < n ==> source_unit_parts_depths(items@)[j]
                    <= source_unit_parts_depths(old(items)@)[j],
            v.shared() == old(v).shared(),
            old(v).inert() ==> *v == *old(v),
            forall|made: spec_fn(Call<V>) -> bool|
                #![trigger picked(made)]
                picked(made)
                    && (forall|mv: &mut V, node: Node, answer: Result<Step, VisitError>|
                        #[trigger] called::<V, D>(node, mv, answer) ==> made(
                            (Call { node, before: *mv, after: *final(mv), answer }),
                        ))
                    ==> source_unit_parts_walked_to::<V, D>(
                        made,
                        old(items)@,
                        items@.take(i as int),
                        *old(v),
                        *v,
                    ),
            old(v).inert() ==> forall|j: int|
                #![trigger items@[j]]
                0 <= j < i ==> items@[j].same_as(&old(items)@[j]),
        decreases n - i,
    {
        proof {
            lemma_source_unit_parts_depth_bound(old(items)@, i as int);
        }
        let ghost done = items@.take(i as int);
        let ghost u = *v;
        let step = items[i].visit(v);
        proof {
            assert(between(u, step));
        }
        match step {
            Ok(_) => {
                proof {
                    let grown = items@.take(i + 1);
                    assert(grown.drop_last() =~= done);
                    assert(grown.last() == items@[i as int]);
                    assert forall|made: spec_fn(Call<V>) -> bool|
                        #![trigger picked(made)]
                        picked(made)
                            && (forall|mv: &mut V, node: Node, answer: Result<Step, VisitError>|
                                #[trigger] called::<V, D>(node, mv, answer) ==> made(
                                    (Call { node, before: *mv, after: *final(mv), answer }),
                                ))
                        implies source_unit_parts_walked_to::<V, D>(
                            made,
                            old(items)@,
                            grown,
                            *old(v),
                            *v,
                        ) by {
                        assert(source_unit_parts_walked_to::<V, D>(
                            made,
                            old(items)@,
                            done,
                            *old(v),
                            u,
                        ));
                    }
                }
            },
            Err(e) => {
                proof {
                    lemma_source_unit_parts_depth_mono(items@, old(items)@);
                    assert(items@.take(i as int) =~= done);
                    assert(reached(i as int, u));
                    assert forall|made: spec_fn(Call<V>) -> bool|
                        #![trigger picked(made)]
                        picked(made)
                            && (forall|mv: &mut V, node: Node, answer: Result<Step, VisitError>|
                                #[trigger] called::<V, D>(node, mv, answer) ==> made(
                                    (Call { node, before: *mv, after: *final(mv), answer }),
                                ))
                        implies source_unit_parts_walked::<V, D>(
                            made,
                            old(items)@,
                            *old(v),
                            *v,
                            items@,
                            Err::<(), VisitError>(e),
                        ) by {
                        assert(source_unit_parts_walked_to::<V, D>(
                            made,
                            old(items)@,
                            done,
                            *old(v),
                            u,
                        ));
                    }
                }
                return Err(e);
            },
        }
        i += 1;
    }
    proof {
        lemma_source_unit_parts_depth_mono(items@, old(items)@);
        assert(items@.take(n as int) =~= items@);
    }
    Ok(())
}

impl Visitable for Vec<SourceUnitPart> {
    /// Walks the items in order, as [`visit_source_unit_parts`] does.
    fn visit<V: Visitor<D>, D>(&mut self, v: &mut V) -> (r: Result<(), VisitError>)
        ensures
            forall|made: spec_fn(Call<V>) -> bool|
                #![trigger picked(made)]
                picked(made)
                    && (forall|mv: &mut V, node: Node, answer: Result<Step, VisitError>|
                        #[trigger] called::<V, D>(node, mv, answer) ==> made(
                            (Call { node, before: *mv, after: *final(mv), answer }),
                        ))
                    ==> source_unit_parts_walked::<V, D>(
                        made,
                        old(self)@,
                        *old(v),
                        *final(v),
                        final(self)@,
                        r,
                    ),
            forall|made: spec_fn(Call<V>) -> bool|
                #![trigger picked(made)]
                picked(made)
                    && (forall|mv: &mut V, node: Node, answer: Result<Step, VisitError>|
                        #[trigger] called::<V, D>(node, mv, answer) ==> made(
                            (Call { node, before: *mv, after: *final(mv), answer }),
                        ))
                    ==> failure_was_answered(made, r),
            final(self)@.len() == old(self)@.len(),
    {
        let ghost before = self@;
        let r = visit_source_unit_parts(self, v);
        proof {
            assert(depths_of(before) =~= source_unit_parts_depths(before));
            assert(depths_of(self@) =~= source_unit_parts_depths(self@));
        }
        r
    }
}

impl PragmaDirective {
    /// How `accept` takes this node and the visitor `pre_v` to `post` and `post_v`,
    /// with the result `r`, the calls of callbacks being among `made`: the callback for
    /// this kind is called with `pre_v` and this node, answers, and leaves `mid_v` and
    /// `mid`, which is no deeper; after [`Step::Descend`] the children of `mid` are
    /// walked from `mid_v`, after anything else nothing more happens, and an error is
    /// the result as it is.
    pub open spec fn accepted<V: Visitor<D>, D>(
        &self,
        made: spec_fn(Call<V>) -> bool,
        pre_v: V,
        post_v: V,
        post: PragmaDirective,
        r: Result<(), VisitError>,
    ) -> bool
    {
        exists|mid_v: V, mid: PragmaDirective, answer: Result<Step, VisitError>|
            #[trigger] pragma_directive_answered::<V, D>(pre_v, *self, mid_v, mid, answer)
                && made(
                    (Call {
                        node: Node::PragmaDirective(*self),
                        before: pre_v,
                        after: mid_v,
                        answer,
                    }),
                )
                && post_v == mid_v && post == mid && match answer {
                    Ok(_) => r is Ok,
                    Err(e) => r == Err::<(), VisitError>(e),
                }
    }

    /// Hands this node to [`Visitor::visit_pragma_directive`]. The node has no children
    /// that the walk enters, so nothing follows the callback; its error, if any, is
    /// handed on.
    pub fn accept<V: Visitor<D>, D>(&mut self, v: &mut V) -> (r: Result<(), VisitError>)
        ensures
            final(self).depth() <= old(self).depth(),
            final(v).shared() == old(v).shared(),
            unfailing::<V, D>() ==> r is Ok,
            old(v).inert() ==> r is Ok && *final(v) == *old(v) && final(self).same_as(old(self)),
            forall|made: spec_fn(Call<V>) -> bool|
                #![trigger picked(made)]
                picked(made)
                    && (forall|mv: &mut V, node: Node, answer: Result<Step, VisitError>|
                        #[trigger] called::<V, D>(node, mv, answer) ==> made(
                            (Call { node, before: *mv, after: *final(mv), answer }),
                        ))
                    ==> old(self).accepted::<V, D>(made, *old(v), *final(v), *final(self), r),
            forall|made: spec_fn(Call<V>) -> bool|
                #![trigger picked(made)]
                picked(made)
                    && (forall|mv: &mut V, node: Node, answer: Result<Step, VisitError>|
                        #[trigger] called::<V, D>(node, mv, answer) ==> made(
                            (Call { node, before: *mv, after: *final(mv), answer }),
                        ))
                    ==> failure_was_answered(made, r),
            between(*final(v), r),
            exists|mv: &mut V, mn: &mut PragmaDirective, answer: Result<Step, VisitError>|
                *mv == *old(v) && *mn == *old(self)
                    && #[trigger] call_ensures(V::visit_pragma_directive, (mv, mn), answer)
                    && settled::<V, D, PragmaDirective>(
                        answer,
                        r,
                        *final(mv),
                        *final(v),
                        *final(mn),
                        *final(self),
                    ),
    {
        let ghost pre_v = *v;
        let ghost pre = *self;
        let answer = v.visit_pragma_directive(self);
        let ghost mid_v = *v;
        proof {
            assert(pragma_directive_answered::<V, D>(pre_v, pre, *v, *self, answer));
            let (mv0, mn0) = choose|mv: &mut V, mn: &mut PragmaDirective|
                *mv == pre_v && *final(mv) == mid_v && *mn == pre
                    && #[trigger] call_ensures(V::visit_pragma_directive, (mv, mn), answer);
            assert(called::<V, D>(Node::PragmaDirective(pre), mv0, answer));
        }
        match answer {
            Ok(Step::Descend) => {
                let r = self.visit(v);
                proof {
                    assert forall|made: spec_fn(Call<V>) -> bool|
                        #![trigger picked(made)]
                        picked(made)
                            && (forall|mv: &mut V, node: Node, answer: Result<Step, VisitError>|
                                #[trigger] called::<V, D>(node, mv, answer) ==> made(
                                    (Call { node, before: *mv, after: *final(mv), answer }),
                                ))
                        implies pre.accepted::<V, D>(made, pre_v, *v, *self, r) by {
                    }
                }
                r
            },
            Ok(Step::Prune) => {
                proof {
                    assert forall|made: spec_fn(Call<V>) -> bool|
                        #![trigger picked(made)]
                        picked(made)
                            && (forall|mv: &mut V, node: Node, answer: Result<Step, VisitError>|
                                #[trigger] called::<V, D>(node, mv, answer) ==> made(
                                    (Call { node, before: *mv, after: *final(mv), answer }),
                                ))
                        implies pre.accepted::<V, D>(
                            made,
                            pre_v,
                            *v,
                            *self,
                            Ok::<(), VisitError>(()),
                        ) by {
                    }
                }
                Ok(())
            },
            Err(e) => {
                proof {
                    assert forall|made: spec_fn(Call<V>) -> bool|
                        #![trigger picked(made)]
                        picked(made)
                            && (forall|mv: &mut V, node: Node, answer: Result<Step, VisitError>|
                                #[trigger] called::<V, D>(node, mv, answer) ==> made(
                                    (Call { node, before: *mv, after: *final(mv), answer }),
                                ))
                        implies pre.accepted::<V, D>(
                            made,
                            pre_v,
                            *v,
                            *self,
                            Err::<(), VisitError>(e),
                        ) by {
                    }
                }
                Err(e)
            },
        }
    }
}

impl Visitable for PragmaDirective {
    /// Does nothing: the walk does not enter a pragma directive.
    fn visit<V: Visitor<D>, D>(&mut self, v: &mut V) -> (r: Result<(), VisitError>)
        ensures
            r is Ok,
            *final(self) == *old(self),
            *final(v) == *old(v),
    {
        Ok(())
    }
}

impl ImportDirective {
    /// How `visit` takes this node and the visitor `pre_v` to `post` and `post_v`, with
    /// the result `r`, the calls of callbacks being among `made`: the children are
    /// walked one after the other, each from the visitor as the one before has left it;
    /// the first failure is the result, and what stands behind it is as it was. What is
    /// no child is as it was.
    pub open spec fn walked<V: Visitor<D>, D>(
        &self,
        made: spec_fn(Call<V>) -> bool,
        pre_v: V,
        post_v: V,
        post: ImportDirective,
        r: Result<(), VisitError>,
    ) -> bool
        decreases self.depth(), 0int, 0int,
    {
        &&& post == (ImportDirective { symbol_aliases: post.symbol_aliases, ..*self })
        &&& (symbol_aliases_walked::<V, D>(
            made,
            self.symbol_aliases@,
            pre_v,
            post_v,
            post.symbol_aliases@,
            r,
        ))
    }

    /// How `accept` takes this node and the visitor `pre_v` to `post` and `post_v`,
    /// with the result `r`, the calls of callbacks being among `made`: the callback for
    /// this kind is called with `pre_v` and this node, answers, and leaves `mid_v` and
    /// `mid`, which is no deeper; after [`Step::Descend`] the children of `mid` are
    /// walked from `mid_v`, after anything else nothing more happens, and an error is
    /// the result as it is.
    pub open spec fn accepted<V: Visitor<D>, D>(
        &self,
        made: spec_fn(Call<V>) -> bool,
        pre_v: V,
        post_v: V,
        post: ImportDirective,
        r: Result<(), VisitError>,
    ) -> bool
        decreases self.depth(), 1int, 0int,
    {
        exists|mid_v: V, mid: ImportDirective, answer: Result<Step, VisitError>|
            #[trigger] import_directive_answered::<V, D>(pre_v, *self, mid_v, mid, answer)
                && made(
                    (Call {
                        node: Node::ImportDirective(*self),
                        before: pre_v,
                        after: mid_v,
                        answer,
                    }),
                )
                && mid.depth() <= self.depth() && match answer {
                    Ok(Step::Descend) => mid.walked::<V, D>(made, mid_v, post_v, post, r),
                    Ok(Step::Prune) => r is Ok && post_v == mid_v && post == mid,
                    Err(e) => r == Err::<(), VisitError>(e) && post_v == mid_v && post == mid,
                }
    }

    /// Hands this node to [`Visitor::visit_import_directive`] and does what the
    /// callback answers: on [`Step::Descend`] it walks the children as
    /// [`Visitable::visit`] does, on [`Step::Prune`] it leaves them alone; an error is
    /// handed on.
    pub fn accept<V: Visitor<D>, D>(&mut self, v: &mut V) -> (r: Result<(), VisitError>)
        ensures
            final(self).depth() <= old(self).depth(),
            final(v).shared() == old(v).shared(),
            unfailing::<V, D>() ==> r is Ok,
            old(v).inert() ==> r is Ok && *final(v) == *old(v) && final(self).same_as(old(self)),
            forall|made: spec_fn(Call<V>) -> bool|
                #![trigger picked(made)]
                picked(made)
                    && (forall|mv: &mut V, node: Node, answer: Result<Step, VisitError>|
                        #[trigger] called::<V, D>(node, mv, answer) ==> made(
                            (Call { node, before: *mv, after: *final(mv), answer }),
                        ))
                    ==> old(self).accepted::<V, D>(made, *old(v), *final(v), *final(self), r),
            forall|made: spec_fn(Call<V>) -> bool|
                #![trigger picked(made)]
                picked(made)
                    && (forall|mv: &mut V, node: Node, answer: Result<Step, VisitError>|
                        #[trigger] called::<V, D>(node, mv, answer) ==> made(
                            (Call { node, before: *mv, after: *final(mv), answer }),
                        ))
                    ==> failure_was_answered(made, r),
            between(*final(v), r),
            exists|mv: &mut V, mn: &mut ImportDirective, answer: Result<Step, VisitError>|
                *mv == *old(v) && *mn == *old(self)
                    && #[trigger] call_ensures(V::visit_import_directive, (mv, mn), answer)
                    && settled::<V, D, ImportDirective>(
                        answer,
                        r,
                        *final(mv),
                        *final(v),
                        *final(mn),
                        *final(self),
                    ),
        decreases old(self).depth(), 1int,
    {
        let ghost pre_v = *v;
        let ghost pre = *self;
        let answer = v.visit_import_directive(self);
        let ghost mid_v = *v;
        proof {
            assert(import_directive_answered::<V, D>(pre_v, pre, *v, *self, answer));
            let (mv0, mn0) = choose|mv: &mut V, mn: &mut ImportDirective|
                *mv == pre_v && *final(mv) == mid_v && *mn == pre
                    && #[trigger] call_ensures(V::visit_import_directive, (mv, mn), answer);
            assert(called::<V, D>(Node::ImportDirective(pre), mv0, answer));
        }
        match answer {
            Ok(Step::Descend) => {
                let r = self.visit(v);
                proof {
                    assert forall|made: spec_fn(Call<V>) -> bool|
                        #![trigger picked(made)]
                        picked(made)
                            && (forall|mv: &mut V, node: Node, answer: Result<Step, VisitError>|
                                #[trigger] called::<V, D>(node, mv, answer) ==> made(
                                    (Call { node, before: *mv, after: *final(mv), answer }),
                                ))
                        implies pre.accepted::<V, D>(made, pre_v, *v, *self, r) by {
                    }
                }
                r
            },
            Ok(Step::Prune) => {
                proof {
                    assert forall|made: spec_fn(Call<V>) -> bool|
                        #![trigger picked(made)]
                        picked(made)
                            && (forall|mv: &mut V, node: Node, answer: Result<Step, VisitError>|
                                #[trigger] called::<V, D>(node, mv, answer) ==> made(
                                    (Call { node, before: *mv, after: *final(mv), answer }),
                                ))
                        implies pre.accepted::<V, D>(
                            made,
                            pre_v,
                            *v,
                            *self,
                            Ok::<(), VisitError>(()),
                        ) by {
                    }
                }
                Ok(())
            },
            Err(e) => {
                proof {
                    assert forall|made: spec_fn(Call<V>) -> bool|
                        #![trigger picked(made)]
                        picked(made)
                            && (forall|mv: &mut V, node: Node, answer: Result<Step, VisitError>|
                                #[trigger] called::<V, D>(node, mv, answer) ==> made(
                                    (Call { node, before: *mv, after: *final(mv), answer }),
                                ))
                        implies pre.accepted::<V, D>(
                            made,
                            pre_v,
                            *v,
                            *self,
                            Err::<(), VisitError>(e),
                        ) by {
                    }
                }
                Err(e)
            },
        }
    }
}

impl Visitable for ImportDirective {
    /// Walks `symbol_aliases`.
    fn visit<V: Visitor<D>, D>(&mut self, v: &mut V) -> (r: Result<(), VisitError>)
        ensures
            forall|made: spec_fn(Call<V>) -> bool|
                #![trigger picked(made)]
                picked(made)
                    && (forall|mv: &mut V, node: Node, answer: Result<Step, VisitError>|
                        #[trigger] called::<V, D>(node, mv, answer) ==> made(
                            (Call { node, before: *mv, after: *final(mv), answer }),
                        ))
                    ==> old(self).walked::<V, D>(made, *old(v), *final(v), *final(self), r),
            forall|made: spec_fn(Call<V>) -> bool|
                #![trigger picked(made)]
                picked(made)
                    && (forall|mv: &mut V, node: Node, answer: Result<Step, VisitError>|
                        #[trigger] called::<V, D>(node, mv, answer) ==> made(
                            (Call { node, before: *mv, after: *final(mv), answer }),
                        ))
                    ==> failure_was_answered(made, r),
            between(*final(v), r),
            *final(self) == (ImportDirective {
                symbol_aliases: final(self).symbol_aliases,
                ..*old(self)
            }),
            final(self).symbol_aliases@.len() == old(self).symbol_aliases@.len(),
        decreases old(self).depth(), 0int,
    {
        visit_symbol_aliases(&mut self.symbol_aliases, v)
    }
}

impl SymbolAlias {
    /// How `visit` takes this node and the visitor `pre_v` to `post` and `post_v`, with
    /// the result `r`, the calls of callbacks being among `made`: the children are
    /// walked one after the other, each from the visitor as the one before has left it;
    /// the first failure is the result, and what stands behind it is as it was. What is
    /// no child is as it was.
    pub open spec fn walked<V: Visitor<D>, D>(
        &self,
        made: spec_fn(Call<V>) -> bool,
        pre_v: V,
        post_v: V,
        post: SymbolAlias,
        r: Result<(), VisitError>,
    ) -> bool
        decreases self.depth(), 0int, 0int,
    {
        &&& post == (SymbolAlias { foreign: post.foreign, ..*self })
        &&& (self.foreign.accepted::<V, D>(made, pre_v, post_v, post.foreign, r))
    }
}

impl Visitable for SymbolAlias {
    /// Walks `foreign`.
    ///
    /// The imported name is handed to the callback for identifiers.
    fn visit<V: Visitor<D>, D>(&mut self, v: &mut V) -> (r: Result<(), VisitError>)
        ensures
            forall|made: spec_fn(Call<V>) -> bool|
                #![trigger picked(made)]
                picked(made)
                    && (forall|mv: &mut V, node: Node, answer: Result<Step, VisitError>|
                        #[trigger] called::<V, D>(node, mv, answer) ==> made(
                            (Call { node, before: *mv, after: *final(mv), answer }),
                        ))
                    ==> old(self).walked::<V, D>(made, *old(v), *final(v), *final(self), r),
            forall|made: spec_fn(Call<V>) -> bool|
                #![trigger picked(made)]
                picked(made)
                    && (forall|mv: &mut V, node: Node, answer: Result<Step, VisitError>|
                        #[trigger] called::<V, D>(node, mv, answer) ==> made(
                            (Call { node, before: *mv, after: *final(mv), answer }),
                        ))
                    ==> failure_was_answered(made, r),
            between(*final(v), r),
            exists|mv: &mut V, mn: &mut Identifier, answer: Result<Step, VisitError>|
                *mv == *old(v) && *mn == old(self).foreign
                    && #[trigger] call_ensures(V::visit_identifier, (mv, mn), answer)
                    && settled::<V, D, Identifier>(
                        answer,
                        r,
                        *final(mv),
                        *final(v),
                        *final(mn),
                        final(self).foreign,
                    ),
            *final(self) == (SymbolAlias { foreign: final(self).foreign, ..*old(self) }),
        decreases old(self).depth(), 0int,
    {
        self.foreign.accept(v)
    }
}

/// The items of `pre` that stand where `done` has items have been walked with success,
/// in order and each once, the first from the visitor `pre_v` and each next one from
/// the visitor as the one before has left it; they are now what `done` holds, and the
/// visitor is `v`. (The clause on the depths holds of every sequence: it is what lets
/// this definition end.)
pub open spec fn symbol_aliases_walked_to<V: Visitor<D>, D>(
    made: spec_fn(Call<V>) -> bool,
    pre: Seq<SymbolAlias>,
    done: Seq<SymbolAlias>,
    pre_v: V,
    v: V,
) -> bool
    decreases symbol_aliases_depth(pre), 3int, done.len(),
{
    if done.len() == 0 {
        v == pre_v
    } else if done.len() > pre.len() {
        false
    } else {
        &&& symbol_aliases_depths(pre)[done.len() - 1] <= symbol_aliases_depth(pre)
        &&& exists|u: V, ok: Result<(), VisitError>|
            #[trigger] between(u, ok) && ok is Ok
                && symbol_aliases_walked_to::<V, D>(made, pre, done.drop_last(), pre_v, u)
                && pre[done.len() - 1].walked::<V, D>(made, u, v, done.last(), ok)
    }
}

/// How the walk takes the items `pre` and the visitor `pre_v` to `post` and `post_v`,
/// with the result `r`: the items are walked in order, each once, each from the visitor
/// as the one before has left it, up to the first failure. That failure is the result,
/// and the items behind it are as they were. (The clause on the depths holds of every
/// sequence.)
pub open spec fn symbol_aliases_walked<V: Visitor<D>, D>(
    made: spec_fn(Call<V>) -> bool,
    pre: Seq<SymbolAlias>,
    pre_v: V,
    post_v: V,
    post: Seq<SymbolAlias>,
    r: Result<(), VisitError>,
) -> bool
{
    &&& pre.len() == post.len()
    &&& match r {
        Ok(_) => symbol_aliases_walked_to::<V, D>(made, pre, post, pre_v, post_v),
        Err(e) => exists|k: int, u: V|
            #[trigger] reached(k, u) && 0 <= k < pre.len()
                && symbol_aliases_depths(pre)[k] <= symbol_aliases_depth(pre)
                && symbol_aliases_walked_to::<V, D>(made, pre, post.take(k), pre_v, u)
                && pre[k].walked::<V, D>(made, u, post_v, post[k], Err::<(), VisitError>(e))
                && forall|j: int| k < j < pre.len() ==> post[j] == pre[j],
    }
}

/// Walks `items` in order. The first failure ends the walk; the items after it are left
/// alone.
pub fn visit_symbol_aliases<V: Visitor<D>, D>(
    items: &mut Vec<SymbolAlias>,
    v: &mut V,
) -> (r: Result<(), VisitError>)
    ensures
        forall|made: spec_fn(Call<V>) -> bool|
            #![trigger picked(made)]
            picked(made)
                && (forall|mv: &mut V, node: Node, answer: Result<Step, VisitError>|
                    #[trigger] called::<V, D>(node, mv, answer) ==> made(
                        (Call { node, before: *mv, after: *final(mv), answer }),
                    ))
                ==> symbol_aliases_walked::<V, D>(
                    made,
                    old(items)@,
                    *old(v),
                    *final(v),
                    final(items)@,
                    r,
                ),
        forall|made: spec_fn(Call<V>) -> bool|
            #![trigger picked(made)]
            picked(made)
                && (forall|mv: &mut V, node: Node, answer: Result<Step, VisitError>|
                    #[trigger] called::<V, D>(node, mv, answer) ==> made(
                        (Call { node, before: *mv, after: *final(mv), answer }),
                    ))
                ==> failure_was_answered(made, r),
        between(*final(v), r),
        final(items)@.len() == old(items)@.len(),
        symbol_aliases_depth(final(items)@) <= symbol_aliases_depth(old(items)@),
        final(v).shared() == old(v).shared(),
        unfailing::<V, D>() ==> r is Ok,
        old(v).inert() ==> {
            &&& r is Ok
            &&& *final(v) == *old(v)
            &&& symbol_aliases_same(final(items)@, old(items)@)
        },
    decreases symbol_aliases_depth(old(items)@), 3int,
{
    let n = items.len();
    let mut i: usize = 0;
    while i < n
        invariant
            i <= n,
            n == items@.len(),
            n == old(items)@.len(),
            forall|j: int| i <= j < n ==> items@[j] == old(items)@[j],
            forall|j: int|
                0 <= j < n ==> symbol_aliases_depths(items@)[j]
                    <= symbol_aliases_depths(old(items)@)[j],
            v.shared() == old(v).shared(),
            old(v).inert() ==> *v == *old(v),
            forall|made: spec_fn(Call<V>) -> bool|
                #![trigger picked(made)]
                picked(made)
                    && (forall|mv: &mut V, node: Node, answer: Result<Step, VisitError>|
                        #[trigger] called::<V, D>(node, mv, answer) ==> made(
                            (Call { node, before: *mv, after: *final(mv), answer }),
                        ))
                    ==> symbol_aliases_walked_to::<V, D>(
                        made,
                        old(items)@,
                        items@.take(i as int),
                        *old(v),
                        *v,
                    ),
            old(v).inert() ==> forall|j: int|
                #![trigger items@[j]]
                0 <= j < i ==> items@[j].same_as(&old(items)@[j]),
        decreases n - i,
    {
        proof {
            lemma_symbol_aliases_depth_bound(old(items)@, i as int);
        }
        let ghost done = items@.take(i as int);
        let ghost u = *v;
        let step = items[i].visit(v);
        proof {
            assert(between(u, step));
        }
        match step {
            Ok(_) => {
                proof {
                    let grown = items@.take(i + 1);
                    assert(grown.drop_last() =~= done);
                    assert(grown.last() == items@[i as int]);
                    assert forall|made: spec_fn(Call<V>) -> bool|
                        #![trigger picked(made)]
                        picked(made)
                            && (forall|mv: &mut V, node: Node, answer: Result<Step, VisitError>|
                                #[trigger] called::<V, D>(node, mv, answer) ==> made(
                                    (Call { node, before: *mv, after: *final(mv), answer }),
                                ))
                        implies symbol_aliases_walked_to::<V, D>(
                            made,
                            old(items)@,
                            grown,
                            *old(v),
                            *v,
                        ) by {
                        assert(symbol_aliases_walked_to::<V, D>(
                            made,
                            old(items)@,
                            done,
                            *old(v),
                            u,
                        ));
                    }
                }
            },
            Err(e) => {
                proof {
                    lemma_symbol_aliases_depth_mono(items@, old(items)@);
                    assert(items@.take(i as int) =~= done);
                    assert(reached(i as int, u));
                    assert forall|made: spec_fn(Call<V>) -> bool|
                        #![trigger picked(made)]
                        picked(made)
                            && (forall|mv: &mut V, node: Node, answer: Result<Step, VisitError>|
                                #[trigger] called::<V, D>(node, mv, answer) ==> made(
                                    (Call { node, before: *mv, after: *final(mv), answer }),
                                ))
                        implies symbol_aliases_walked::<V, D>(
                            made,
                            old(items)@,
                            *old(v),
                            *v,
                            items@,
                            Err::<(), VisitError>(e),
                        ) by {
                        assert(symbol_aliases_walked_to::<V, D>(
                            made,
                            old(items)@,
                            done,
                            *old(v),
                            u,
                        ));
                    }
                }
                return Err(e);
            },
        }
        i += 1;
    }
    proof {
        lemma_symbol_aliases_depth_mono(items@, old(items)@);
        assert(items@.take(n as int) =~= items@);
    }
    Ok(())
}

impl Visitable for Vec<SymbolAlias> {
    /// Walks the items in order, as [`visit_symbol_aliases`] does.
    fn visit<V: Visitor<D>, D>(&mut self, v: &mut V) -> (r: Result<(), VisitError>)
        ensures
            forall|made: spec_fn(Call<V>) -> bool|
                #![trigger picked(made)]
                picked(made)
                    && (forall|mv: &mut V, node: Node, answer: Result<Step, VisitError>|
                        #[trigger] called::<V, D>(node, mv, answer) ==> made(
                            (Call { node, before: *mv, after: *final(mv), answer }),
                        ))
                    ==> symbol_aliases_walked::<V, D>(
                        made,
                        old(self)@,
                        *old(v),
                        *final(v),
                        final(self)@,
                        r,
                    ),
            forall|made: spec_fn(Call<V>) -> bool|
                #![trigger picked(made)]
                picked(made)
                    && (forall|mv: &mut V, node: Node, answer: Result<Step, VisitError>|
                        #[trigger] called::<V, D>(node, mv, answer) ==> made(
                            (Call { node, before: *mv, after: *final(mv), answer }),
                        ))
                    ==> failure_was_answered(made, r),
            final(self)@.len() == old(self)@.len(),
    {
        let ghost before = self@;
        let r = visit_symbol_aliases(self, v);
        proof {
            assert(depths_of(before) =~= symbol_aliases_depths(before));
            assert(depths_of(self@) =~= symbol_aliases_depths(self@));
        }
        r
    }
}

impl UsingForDirective {
    /// How `visit` takes this node and the visitor `pre_v` to `post` and `post_v`, with
    /// the result `r`, the calls of callbacks being among `made`: the children are
    /// walked one after the other, each from the visitor as the one before has left it;
    /// the first failure is the result, and what stands behind it is as it was. What is
    /// no child is as it was.
    pub open spec fn walked<V: Visitor<D>, D>(
        &self,
        made: spec_fn(Call<V>) -> bool,
        pre_v: V,
        post_v: V,
        post: UsingForDirective,
        r: Result<(), VisitError>,
    ) -> bool
        decreases self.depth(), 0int, 0int,
    {
        &&& post == (UsingForDirective {
            library_name: post.library_name,
            target_type: post.target_type,
            ..*self
        })
        &&& (exists|v1: V, r1: Result<(), VisitError>|
                #[trigger] between(v1, r1)
                    && maybe_user_defined_type_name_or_identifier_path_walked::<V, D>(
                        made,
                        self.library_name,
                        pre_v,
                        v1,
                        post.library_name,
                        r1,
                    )
                    && match r1 {
                        Ok(_) => {
                            maybe_type_name_walked::<V, D>(
                                made,
                                self.target_type,
                                v1,
                                post_v,
                                post.target_type,
                                r,
                            )
                        },
                        Err(e) => {
                            &&& r == Err::<(), VisitError>(e)
                            &&& post_v == v1
                            &&& post.target_type == self.target_type
                        },
                    })
    }

    /// How `accept` takes this node and the visitor `pre_v` to `post` and `post_v`,
    /// with the result `r`, the calls of callbacks being among `made`: the callback for
    /// this kind is called with `pre_v` and this node, answers, and leaves `mid_v` and
    /// `mid`, which is no deeper; after [`Step::Descend`] the children of `mid` are
    /// walked from `mid_v`, after anything else nothing more happens, and an error is
    /// the result as it is.
    pub open spec fn accepted<V: Visitor<D>, D>(
        &self,
        made: spec_fn(Call<V>) -> bool,
        pre_v: V,
        post_v: V,
        post: UsingForDirective,
        r: Result<(), VisitError>,
    ) -> bool
        decreases self.depth(), 1int, 0int,
    {
        exists|mid_v: V, mid: UsingForDirective, answer: Result<Step, VisitError>|
            #[trigger] using_for_directive_answered::<V, D>(pre_v, *self, mid_v, mid, answer)
                && made(
                    (Call {
                        node: Node::UsingForDirective(*self),
                        before: pre_v,
                        after: mid_v,
                        answer,
                    }),
                )
                && mid.depth() <= self.depth() && match answer {
                    Ok(Step::Descend) => mid.walked::<V, D>(made, mid_v, post_v, post, r),
                    Ok(Step::Prune) => r is Ok && post_v == mid_v && post == mid,
                    Err(e) => r == Err::<(), VisitError>(e) && post_v == mid_v && post == mid,
                }
    }

    /// Hands this node to [`Visitor::visit_using_for_directive`] and does what the
    /// callback answers: on [`Step::Descend`] it walks the children as
    /// [`Visitable::visit`] does, on [`Step::Prune`] it leaves them alone; an error is
    /// handed on.
    pub fn accept<V: Visitor<D>, D>(&mut self, v: &mut V) -> (r: Result<(), VisitError>)
        ensures
            final(self).depth() <= old(self).depth(),
            final(v).shared() == old(v).shared(),
            unfailing::<V, D>() ==> r is Ok,
            old(v).inert() ==> r is Ok && *final(v) == *old(v) && final(self).same_as(old(self)),
            forall|made: spec_fn(Call<V>) -> bool|
                #![trigger picked(made)]
                picked(made)
                    && (forall|mv: &mut V, node: Node, answer: Result<Step, VisitError>|
                        #[trigger] called::<V, D>(node, mv, answer) ==> made(
                            (Call { node, before: *mv, after: *final(mv), answer }),
                        ))
                    ==> old(self).accepted::<V, D>(made, *old(v), *final(v), *final(self), r),
            forall|made: spec_fn(Call<V>) -> bool|
                #![trigger picked(made)]
                picked(made)
                    && (forall|mv: &mut V, node: Node, answer: Result<Step, VisitError>|
                        #[trigger] called::<V, D>(node, mv, answer) ==> made(
                            (Call { node, before: *mv, after: *final(mv), answer }),
                        ))
                    ==> failure_was_answered(made, r),
            between(*final(v), r),
            exists|mv: &mut V, mn: &mut UsingForDirective, answer: Result<Step, VisitError>|
                *mv == *old(v) && *mn == *old(self)
                    && #[trigger] call_ensures(V::visit_using_for_directive, (mv, mn), answer)
                    && settled::<V, D, UsingForDirective>(
                        answer,
                        r,
                        *final(mv),
                        *final(v),
                        *final(mn),
                        *final(self),
                    ),
        decreases old(self).depth(), 1int,
    {
        let ghost pre_v = *v;
        let ghost pre = *self;
        let answer = v.visit_using_for_directive(self);
        let ghost mid_v = *v;
        proof {
            assert(using_for_directive_answered::<V, D>(pre_v, pre, *v, *self, answer));
            let (mv0, mn0) = choose|mv: &mut V, mn: &mut UsingForDirective|
                *mv == pre_v && *final(mv) == mid_v && *mn == pre
                    && #[trigger] call_ensures(V::visit_using_for_directive, (mv, mn), answer);
            assert(called::<V, D>(Node::UsingForDirective(pre), mv0, answer));
        }
        match answer {
            Ok(Step::Descend) => {
                let r = self.visit(v);
                proof {
                    assert forall|made: spec_fn(Call<V>) -> bool|
                        #![trigger picked(made)]
                        picked(made)
                            && (forall|mv: &mut V, node: Node, answer: Result<Step, VisitError>|
                                #[trigger] called::<V, D>(node, mv, answer) ==> made(
                                    (Call { node, before: *mv, after: *final(mv), answer }),
                                ))
                        implies pre.accepted::<V, D>(made, pre_v, *v, *self, r) by {
                    }
                }
                r
            },
            Ok(Step::Prune) => {
                proof {
                    assert forall|made: spec_fn(Call<V>) -> bool|
                        #![trigger picked(made)]
                        picked(made)
                            && (forall|mv: &mut V, node: Node, answer: Result<Step, VisitError>|
                                #[trigger] called::<V, D>(node, mv, answer) ==> made(
                                    (Call { node, before: *mv, after: *final(mv), answer }),
                                ))
                        implies pre.accepted::<V, D>(
                            made,
                            pre_v,
                            *v,
                            *self,
                            Ok::<(), VisitError>(()),
                        ) by {
                    }
                }
                Ok(())
            },
            Err(e) => {
                proof {
                    assert forall|made: spec_fn(Call<V>) -> bool|
                        #![trigger picked(made)]
                        picked(made)
                            && (forall|mv: &mut V, node: Node, answer: Result<Step, VisitError>|
                                #[trigger] called::<V, D>(node, mv, answer) ==> made(
                                    (Call { node, before: *mv, after: *final(mv), answer }),
                                ))
                        implies pre.accepted::<V, D>(
                            made,
                            pre_v,
                            *v,
                            *self,
                            Err::<(), VisitError>(e),
                        ) by {
                    }
                }
                Err(e)
            },
        }
    }
}

impl Visitable for UsingForDirective {
    /// Walks the children in this order: `library_name`, then `target_type`. The first
    /// failure ends the walk; what stands after it is left alone.
    fn visit<V: Visitor<D>, D>(&mut self, v: &mut V) -> (r: Result<(), VisitError>)
        ensures
            forall|made: spec_fn(Call<V>) -> bool|
                #![trigger picked(made)]
                picked(made)
                    && (forall|mv: &mut V, node: Node, answer: Result<Step, VisitError>|
                        #[trigger] called::<V, D>(node, mv, answer) ==> made(
                            (Call { node, before: *mv, after: *final(mv), answer }),
                        ))
                    ==> old(self).walked::<V, D>(made, *old(v), *final(v), *final(self), r),
            forall|made: spec_fn(Call<V>) -> bool|
                #![trigger picked(made)]
                picked(made)
                    && (forall|mv: &mut V, node: Node, answer: Result<Step, VisitError>|
                        #[trigger] called::<V, D>(node, mv, answer) ==> made(
                            (Call { node, before: *mv, after: *final(mv), answer }),
                        ))
                    ==> failure_was_answered(made, r),
            between(*final(v), r),
            *final(self) == (UsingForDirective {
                library_name: final(self).library_name,
                target_type: final(self).target_type,
                ..*old(self)
            }),
            (final(self).library_name is Some) == (old(self).library_name is Some),
            (final(self).target_type is Some) == (old(self).target_type is Some),
        decreases old(self).depth(), 0int,
    {
        visit_maybe_user_defined_type_name_or_identifier_path(&mut self.library_name, v)?;
        visit_maybe_type_name(&mut self.target_type, v)
    }
}

impl Visitable for FunctionIdentifierPath {
    /// Does nothing: the walk does not enter a function identifier path.
    fn visit<V: Visitor<D>, D>(&mut self, v: &mut V) -> (r: Result<(), VisitError>)
        ensures
            r is Ok,
            *final(self) == *old(self),
            *final(v) == *old(v),
    {
        Ok(())
    }
}

impl ContractDefinition {
    /// How `visit` takes this node and the visitor `pre_v` to `post` and `post_v`, with
    /// the result `r`, the calls of callbacks being among `made`: the children are
    /// walked one after the other, each from the visitor as the one before has left it;
    /// the first failure is the result, and what stands behind it is as it was. What is
    /// no child is as it was.
    pub open spec fn walked<V: Visitor<D>, D>(
        &self,
        made: spec_fn(Call<V>) -> bool,
        pre_v: V,
        post_v: V,
        post: ContractDefinition,
        r: Result<(), VisitError>,
    ) -> bool
        decreases self.depth(), 0int, 0int,
    {
        &&& post == (ContractDefinition {
            base_contracts: post.base_contracts,
            nodes: post.nodes,
            ..*self
        })
        &&& (exists|v1: V, r1: Result<(), VisitError>|
                #[trigger] between(v1, r1)
                    && inheritance_specifiers_walked::<V, D>(
                        made,
                        self.base_contracts@,
                        pre_v,
                        v1,
                        post.base_contracts@,
                        r1,
                    )
                    && match r1 {
                        Ok(_) => {
                            contract_definition_parts_walked::<V, D>(
                                made,
                                self.nodes@,
                                v1,
                                post_v,
                                post.nodes@,
                                r,
                            )
                        },
                        Err(e) => {
                            &&& r == Err::<(), VisitError>(e)
                            &&& post_v == v1
                            &&& post.nodes == self.nodes
                        },
                    })
    }

    /// How `accept` takes this node and the visitor `pre_v` to `post` and `post_v`,
    /// with the result `r`, the calls of callbacks being among `made`: the callback for
    /// this kind is called with `pre_v` and this node, answers, and leaves `mid_v` and
    /// `mid`, which is no deeper; after [`Step::Descend`] the children of `mid` are
    /// walked from `mid_v`, after anything else nothing more happens, and an error is
    /// the result as it is.
    pub open spec fn accepted<V: Visitor<D>, D>(
        &self,
        made: spec_fn(Call<V>) -> bool,
        pre_v: V,
        post_v: V,
        post: ContractDefinition,
        r: Result<(), VisitError>,
    ) -> bool
        decreases self.depth(), 1int, 0int,
    {
        exists|mid_v: V, mid: ContractDefinition, answer: Result<Step, VisitError>|
            #[trigger] contract_definition_answered::<V, D>(pre_v, *self, mid_v, mid, answer)
                && made(
                    (Call {
                        node: Node::ContractDefinition(*self),
                        before: pre_v,
                        after: mid_v,
                        answer,
                    }),
                )
                && mid.depth() <= self.depth() && match answer {
                    Ok(Step::Descend) => mid.walked::<V, D>(made, mid_v, post_v, post, r),
                    Ok(Step::Prune) => r is Ok && post_v == mid_v && post == mid,
                    Err(e) => r == Err::<(), VisitError>(e) && post_v == mid_v && post == mid,
                }
    }

    /// Hands this node to [`Visitor::visit_contract_definition`] and does what the
    /// callback answers: on [`Step::Descend`] it walks the children as
    /// [`Visitable::visit`] does, on [`Step::Prune`] it leaves them alone; an error is
    /// handed on.
    pub fn accept<V: Visitor<D>, D>(&mut self, v: &mut V) -> (r: Result<(), VisitError>)
        ensures
            final(self).depth() <= old(self).depth(),
            final(v).shared() == old(v).shared(),
            unfailing::<V, D>() ==> r is Ok,
            old(v).inert() ==> r is Ok && *final(v) == *old(v) && final(self).same_as(old(self)),
            forall|made: spec_fn(Call<V>) -> bool|
                #![trigger picked(made)]
                picked(made)
                    && (forall|mv: &mut V, node: Node, answer: Result<Step, VisitError>|
                        #[trigger] called::<V, D>(node, mv, answer) ==> made(
                            (Call { node, before: *mv, after: *final(mv), answer }),
                        ))
                    ==> old(self).accepted::<V, D>(made, *old(v), *final(v), *final(self), r),
            forall|made: spec_fn(Call<V>) -> bool|
                #![trigger picked(made)]
                picked(made)
                    && (forall|mv: &mut V, node: Node, answer: Result<Step, VisitError>|
                        #[trigger] called::<V, D>(node, mv, answer) ==> made(
                            (Call { node, before: *mv, after: *final(mv), answer }),
                        ))
                    ==> failure_was_answered(made, r),
            between(*final(v), r),
            exists|mv: &mut V, mn: &mut ContractDefinition, answer: Result<Step, VisitError>|
                *mv == *old(v) && *mn == *old(self)
                    && #[trigger] call_ensures(V::visit_contract_definition, (mv, mn), answer)
                    && settled::<V, D, ContractDefinition>(
                        answer,
                        r,
                        *final(mv),
                        *final(v),
                        *final(mn),
                        *final(self),
                    ),
        decreases old(self).depth(), 1int,
    {
        let ghost pre_v = *v;
        let ghost pre = *self;
        let answer = v.visit_contract_definition(self);
        let ghost mid_v = *v;
        proof {
            assert(contract_definition_answered::<V, D>(pre_v, pre, *v, *self, answer));
            let (mv0, mn0) = choose|mv: &mut V, mn: &mut ContractDefinition|
                *mv == pre_v && *final(mv) == mid_v && *mn == pre
                    && #[trigger] call_ensures(V::visit_contract_definition, (mv, mn), answer);
            assert(called::<V, D>(Node::ContractDefinition(pre), mv0, answer));
        }
        match answer {
            Ok(Step::Descend) => {
                let r = self.visit(v);
                proof {
                    assert forall|made: spec_fn(Call<V>) -> bool|
                        #![trigger picked(made)]
                        picked(made)
                            && (forall|mv: &mut V, node: Node, answer: Result<Step, VisitError>|
                                #[trigger] called::<V, D>(node, mv, answer) ==> made(
                                    (Call { node, before: *mv, after: *final(mv), answer }),
                                ))
                        implies pre.accepted::<V, D>(made, pre_v, *v, *self, r) by {
                    }
                }
                r
            },
            Ok(Step::Prune) => {
                proof {
                    assert forall|made: spec_fn(Call<V>) -> bool|
                        #![trigger picked(made)]
                        picked(made)
                            && (forall|mv: &mut V, node: Node, answer: Result<Step, VisitError>|
                                #[trigger] called::<V, D>(node, mv, answer) ==> made(
                                    (Call { node, before: *mv, after: *final(mv), answer }),
                                ))
                        implies pre.accepted::<V, D>(
                            made,
                            pre_v,
                            *v,
                            *self,
                            Ok::<(), VisitError>(()),
                        ) by {
                    }
                }
                Ok(())
            },
            Err(e) => {
                proof {
                    assert forall|made: spec_fn(Call<V>) -> bool|
                        #![trigger picked(made)]
                        picked(made)
                            && (forall|mv: &mut V, node: Node, answer: Result<Step, VisitError>|
                                #[trigger] called::<V, D>(node, mv, answer) ==> made(
                                    (Call { node, before: *mv, after: *final(mv), answer }),
                                ))
                        implies pre.accepted::<V, D>(
                            made,
                            pre_v,
                            *v,
                            *self,
                            Err::<(), VisitError>(e),
                        ) by {
                    }
                }
                Err(e)
            },
        }
    }
}

impl Visitable for ContractDefinition {
    /// Walks the children in this order: `base_contracts`, then `nodes`. The first
    /// failure ends the walk; what stands after it is left alone.
    fn visit<V: Visitor<D>, D>(&mut self, v: &mut V) -> (r: Result<(), VisitError>)
        ensures
            forall|made: spec_fn(Call<V>) -> bool|
                #![trigger picked(made)]
                picked(made)
                    && (forall|mv: &mut V, node: Node, answer: Result<Step, VisitError>|
                        #[trigger] called::<V, D>(node, mv, answer) ==> made(
                            (Call { node, before: *mv, after: *final(mv), answer }),
                        ))
                    ==> old(self).walked::<V, D>(made, *old(v), *final(v), *final(self), r),
            forall|made: spec_fn(Call<V>) -> bool|
                #![trigger picked(made)]
                picked(made)
                    && (forall|mv: &mut V, node: Node, answer: Result<Step, VisitError>|
                        #[trigger] called::<V, D>(node, mv, answer) ==> made(
                            (Call { node, before: *mv, after: *final(mv), answer }),
                        ))
                    ==> failure_was_answered(made, r),
            between(*final(v), r),
            *final(self) == (ContractDefinition {
                base_contracts: final(self).base_contracts,
                nodes: final(self).nodes,
                ..*old(self)
            }),
            final(self).base_contracts@.len() == old(self).base_contracts@.len(),
            final(self).nodes@.len() == old(self).nodes@.len(),
        decreases old(self).depth(), 0int,
    {
        visit_inheritance_specifiers(&mut self.base_contracts, v)?;
        visit_contract_definition_parts(&mut self.nodes, v)
    }
}

impl InheritanceSpecifier {
    /// How `visit` takes this node and the visitor `pre_v` to `post` and `post_v`, with
    /// the result `r`, the calls of callbacks being among `made`: the children are
    /// walked one after the other, each from the visitor as the one before has left it;
    /// the first failure is the result, and what stands behind it is as it was. What is
    /// no child is as it was.
    pub open spec fn walked<V: Visitor<D>, D>(
        &self,
        made: spec_fn(Call<V>) -> bool,
        pre_v: V,
        post_v: V,
        post: InheritanceSpecifier,
        r: Result<(), VisitError>,
    ) -> bool
        decreases self.depth(), 0int, 0int,
    {
        &&& post == (InheritanceSpecifier {
            arguments: post.arguments,
            base_name: post.base_name,
            ..*self
        })
        &&& (exists|v1: V, r1: Result<(), VisitError>|
                #[trigger] between(v1, r1)
                    && maybe_expressions_walked::<V, D>(
                        made,
                        self.arguments,
                        pre_v,
                        v1,
                        post.arguments,
                        r1,
                    )
                    && match r1 {
                        Ok(_) => {
                            self.base_name.walked::<V, D>(made, v1, post_v, post.base_name, r)
                        },
                        Err(e) => {
                            &&& r == Err::<(), VisitError>(e)
                            &&& post_v == v1
                            &&& post.base_name == self.base_name
                        },
                    })
    }
}

impl Visitable for InheritanceSpecifier {
    /// Walks the children in this order: `arguments`, then `base_name`. The first
    /// failure ends the walk; what stands after it is left alone.
    fn visit<V: Visitor<D>, D>(&mut self, v: &mut V) -> (r: Result<(), VisitError>)
        ensures
            forall|made: spec_fn(Call<V>) -> bool|
                #![trigger picked(made)]
                picked(made)
                    && (forall|mv: &mut V, node: Node, answer: Result<Step, VisitError>|
                        #[trigger] called::<V, D>(node, mv, answer) ==> made(
                            (Call { node, before: *mv, after: *final(mv), answer }),
                        ))
                    ==> old(self).walked::<V, D>(made, *old(v), *final(v), *final(self), r),
            forall|made: spec_fn(Call<V>) -> bool|
                #![trigger picked(made)]
                picked(made)
                    && (forall|mv: &mut V, node: Node, answer: Result<Step, VisitError>|
                        #[trigger] called::<V, D>(node, mv, answer) ==> made(
                            (Call { node, before: *mv, after: *final(mv), answer }),
                        ))
                    ==> failure_was_answered(made, r),
            between(*final(v), r),
            *final(self) == (InheritanceSpecifier {
                arguments: final(self).arguments,
                base_name: final(self).base_name,
                ..*old(self)
            }),
            (final(self).arguments is Some) == (old(self).arguments is Some),
        decreases old(self).depth(), 0int,
    {
        visit_maybe_expressions(&mut self.arguments, v)?;
        self.base_name.visit(v)
    }
}

/// The items of `pre` that stand where `done` has items have been walked with success,
/// in order and each once, the first from the visitor `pre_v` and each next one from
/// the visitor as the one before has left it; they are now what `done` holds, and the
/// visitor is `v`. (The clause on the depths holds of every sequence: it is what lets
/// this definition end.)
pub open spec fn inheritance_specifiers_walked_to<V: Visitor<D>, D>(
    made: spec_fn(Call<V>) -> bool,
    pre: Seq<InheritanceSpecifier>,
    done: Seq<InheritanceSpecifier>,
    pre_v: V,
    v: V,
) -> bool
    decreases inheritance_specifiers_depth(pre), 3int, done.len(),
{
    if done.len() == 0 {
        v == pre_v
    } else if done.len() > pre.len() {
        false
    } else {
        &&& inheritance_specifiers_depths(pre)[done.len() - 1] <= inheritance_specifiers_depth(pre)
        &&& exists|u: V, ok: Result<(), VisitError>|
            #[trigger] between(u, ok) && ok is Ok
                && inheritance_specifiers_walked_to::<V, D>(made, pre, done.drop_last(), pre_v, u)
                && pre[done.len() - 1].walked::<V, D>(made, u, v, done.last(), ok)
    }
}

/// How the walk takes the items `pre` and the visitor `pre_v` to `post` and `post_v`,
/// with the result `r`: the items are walked in order, each once, each from the visitor
/// as the one before has left it, up to the first failure. That failure is the result,
/// and the items behind it are as they were. (The clause on the depths holds of every
/// sequence.)
pub open spec fn inheritance_specifiers_walked<V: Visitor<D>, D>(
    made: spec_fn(Call<V>) -> bool,
    pre: Seq<InheritanceSpecifier>,
    pre_v: V,
    post_v: V,
    post: Seq<InheritanceSpecifier>,
    r: Result<(), VisitError>,
) -> bool
{
    &&& pre.len() == post.len()
    &&& match r {
        Ok(_) => inheritance_specifiers_walked_to::<V, D>(made, pre, post, pre_v, post_v),
        Err(e) => exists|k: int, u: V|
            #[trigger] reached(k, u) && 0 <= k < pre.len()
                && inheritance_specifiers_depths(pre)[k] <= inheritance_specifiers_depth(pre)
                && inheritance_specifiers_walked_to::<V, D>(made, pre, post.take(k), pre_v, u)
                && pre[k].walked::<V, D>(made, u, post_v, post[k], Err::<(), VisitError>(e))
                && forall|j: int| k < j < pre.len() ==> post[j] == pre[j],
    }
}

/// Walks `items` in order. The first failure ends the walk; the items after it are left
/// alone.
pub fn visit_inheritance_specifiers<V: Visitor<D>, D>(
    items: &mut Vec<InheritanceSpecifier>,
    v: &mut V,
) -> (r: Result<(), VisitError>)
    ensures
        forall|made: spec_fn(Call<V>) -> bool|
            #![trigger picked(made)]
            picked(made)
                && (forall|mv: &mut V, node: Node, answer: Result<Step, VisitError>|
                    #[trigger] called::<V, D>(node, mv, answer) ==> made(
                        (Call { node, before: *mv, after: *final(mv), answer }),
                    ))
                ==> inheritance_specifiers_walked::<V, D>(
                    made,
                    old(items)@,
                    *old(v),
                    *final(v),
                    final(items)@,
                    r,
                ),
        forall|made: spec_fn(Call<V>) -> bool|
            #![trigger picked(made)]
            picked(made)
                && (forall|mv: &mut V, node: Node, answer: Result<Step, VisitError>|
                    #[trigger] called::<V, D>(node, mv, answer) ==> made(
                        (Call { node, before: *mv, after: *final(mv), answer }),
                    ))
                ==> failure_was_answered(made, r),
        between(*final(v), r),
        final(items)@.len() == old(items)@.len(),
        inheritance_specifiers_depth(final(items)@) <= inheritance_specifiers_depth(old(items)@),
        final(v).shared() == old(v).shared(),
        unfailing::<V, D>() ==> r is Ok,
        old(v).inert() ==> {
            &&& r is Ok
            &&& *final(v) == *old(v)
            &&& inheritance_specifiers_same(final(items)@, old(items)@)
        },
    decreases inheritance_specifiers_depth(old(items)@), 3int,
{
    let n = items.len();
    let mut i: usize = 0;
    while i < n
        invariant
            i <= n,
            n == items@.len(),
            n == old(items)@.len(),
            forall|j: int| i <= j < n ==> items@[j] == old(items)@[j],
            forall|j: int|
                0 <= j < n ==> inheritance_specifiers_depths(items@)[j]
                    <= inheritance_specifiers_depths(old(items)@)[j],
            v.shared() == old(v).shared(),
            old(v).inert() ==> *v == *old(v),
            forall|made: spec_fn(Call<V>) -> bool|
                #![trigger picked(made)]
                picked(made)
                    && (forall|mv: &mut V, node: Node, answer: Result<Step, VisitError>|
                        #[trigger] called::<V, D>(node, mv, answer) ==> made(
                            (Call { node, before: *mv, after: *final(mv), answer }),
                        ))
                    ==> inheritance_specifiers_walked_to::<V, D>(
                        made,
                        old(items)@,
                        items@.take(i as int),
                        *old(v),
                        *v,
                    ),
            old(v).inert() ==> forall|j: int|
                #![trigger items@[j]]
                0 <= j < i ==> items@[j].same_as(&old(items)@[j]),
        decreases n - i,
    {
        proof {
            lemma_inheritance_specifiers_depth_bound(old(items)@, i as int);
        }
        let ghost done = items@.take(i as int);
        let ghost u = *v;
        let step = items[i].visit(v);
        proof {
            assert(between(u, step));
        }
        match step {
            Ok(_) => {
                proof {
                    let grown = items@.take(i + 1);
                    assert(grown.drop_last() =~= done);
                    assert(grown.last() == items@[i as int]);
                    assert forall|made: spec_fn(Call<V>) -> bool|
                        #![trigger picked(made)]
                        picked(made)
                            && (forall|mv: &mut V, node: Node, answer: Result<Step, VisitError>|
                                #[trigger] called::<V, D>(node, mv, answer) ==> made(
                                    (Call { node, before: *mv, after: *final(mv), answer }),
                                ))
                        implies inheritance_specifiers_walked_to::<V, D>(
                            made,
                            old(items)@,
                            grown,
                            *old(v),
                            *v,
                        ) by {
                        assert(inheritance_specifiers_walked_to::<V, D>(
                            made,
                            old(items)@,
                            done,
                            *old(v),
                            u,
                        ));
                    }
                }
            },
            Err(e) => {
                proof {
                    lemma_inheritance_specifiers_depth_mono(items@, old(items)@);
                    assert(items@.take(i as int) =~= done);
                    assert(reached(i as int, u));
                    assert forall|made: spec_fn(Call<V>) -> bool|
                        #![trigger picked(made)]
                        picked(made)
                            && (forall|mv: &mut V, node: Node, answer: Result<Step, VisitError>|
                                #[trigger] called::<V, D>(node, mv, answer) ==> made(
                                    (Call { node, before: *mv, after: *final(mv), answer }),
                                ))
                        implies inheritance_specifiers_walked::<V, D>(
                            made,
                            old(items)@,
                            *old(v),
                            *v,
                            items@,
                            Err::<(), VisitError>(e),
                        ) by {
                        assert(inheritance_specifiers_walked_to::<V, D>(
                            made,
                            old(items)@,
                            done,
                            *old(v),
                            u,
                        ));
                    }
                }
                return Err(e);
            },
        }
        i += 1;
    }
    proof {
        lemma_inheritance_specifiers_depth_mono(items@, old(items)@);
        assert(items@.take(n as int) =~= items@);
    }
    Ok(())
}

impl Visitable for Vec<InheritanceSpecifier> {
    /// Walks the items in order, as [`visit_inheritance_specifiers`] does.
    fn visit<V: Visitor<D>, D>(&mut self, v: &mut V) -> (r: Result<(), VisitError>)
        ensures
            forall|made: spec_fn(Call<V>) -> bool|
                #![trigger picked(made)]
                picked(made)
                    && (forall|mv: &mut V, node: Node, answer: Result<Step, VisitError>|
                        #[trigger] called::<V, D>(node, mv, answer) ==> made(
                            (Call { node, before: *mv, after: *final(mv), answer }),
                        ))
                    ==> inheritance_specifiers_walked::<V, D>(
                        made,
                        old(self)@,
                        *old(v),
                        *final(v),
                        final(self)@,
                        r,
                    ),
            forall|made: spec_fn(Call<V>) -> bool|
                #![trigger picked(made)]
                picked(made)
                    && (forall|mv: &mut V, node: Node, answer: Result<Step, VisitError>|
                        #[trigger] called::<V, D>(node, mv, answer) ==> made(
                            (Call { node, before: *mv, after: *final(mv), answer }),
                        ))
                    ==> failure_was_answered(made, r),
            final(self)@.len() == old(self)@.len(),
    {
        let ghost before = self@;
        let r = visit_inheritance_specifiers(self, v);
        proof {
            assert(depths_of(before) =~= inheritance_specifiers_depths(before));
            assert(depths_of(self@) =~= inheritance_specifiers_depths(self@));
        }
        r
    }
}

impl ContractDefinitionPart {
    /// How `visit` takes this node and the visitor `pre_v` to `post` and `post_v`, with
    /// the result `r`, the calls of callbacks being among `made`: as `accept` does on
    /// the node inside, which keeps its kind.
    pub open spec fn walked<V: Visitor<D>, D>(
        &self,
        made: spec_fn(Call<V>) -> bool,
        pre_v: V,
        post_v: V,
        post: ContractDefinitionPart,
        r: Result<(), VisitError>,
    ) -> bool
        decreases self.depth(), 0int, 0int,
    {
        match (self, post) {
            (
                ContractDefinitionPart::EnumDefinition(a),
                ContractDefinitionPart::EnumDefinition(b),
            ) => a.accepted::<V, D>(made, pre_v, post_v, b, r),
            (
                ContractDefinitionPart::ErrorDefinition(a),
                ContractDefinitionPart::ErrorDefinition(b),
            ) => a.accepted::<V, D>(made, pre_v, post_v, b, r),
            (
                ContractDefinitionPart::EventDefinition(a),
                ContractDefinitionPart::EventDefinition(b),
            ) => a.accepted::<V, D>(made, pre_v, post_v, b, r),
            (
                ContractDefinitionPart::FunctionDefinition(a),
                ContractDefinitionPart::FunctionDefinition(b),
            ) => a.accepted::<V, D>(made, pre_v, post_v, b, r),
            (
                ContractDefinitionPart::ModifierDefinition(a),
                ContractDefinitionPart::ModifierDefinition(b),
            ) => a.accepted::<V, D>(made, pre_v, post_v, b, r),
            (
                ContractDefinitionPart::StructDefinition(a),
                ContractDefinitionPart::StructDefinition(b),
            ) => a.accepted::<V, D>(made, pre_v, post_v, b, r),
            (
                ContractDefinitionPart::UserDefinedValueTypeDefinition(a),
                ContractDefinitionPart::UserDefinedValueTypeDefinition(b),
            ) => a.accepted::<V, D>(made, pre_v, post_v, b, r),
            (
                ContractDefinitionPart::UsingForDirective(a),
                ContractDefinitionPart::UsingForDirective(b),
            ) => a.accepted::<V, D>(made, pre_v, post_v, b, r),
            (
                ContractDefinitionPart::VariableDeclaration(a),
                ContractDefinitionPart::VariableDeclaration(b),
            ) => a.accepted::<V, D>(made, pre_v, post_v, b, r),
            _ => false,
        }
    }
}

impl Visitable for ContractDefinitionPart {
    /// Hands the node inside to the callback of its kind, and to no other, as `accept`
    /// on that kind does.
    fn visit<V: Visitor<D>, D>(&mut self, v: &mut V) -> (r: Result<(), VisitError>)
        ensures
            forall|made: spec_fn(Call<V>) -> bool|
                #![trigger picked(made)]
                picked(made)
                    && (forall|mv: &mut V, node: Node, answer: Result<Step, VisitError>|
                        #[trigger] called::<V, D>(node, mv, answer) ==> made(
                            (Call { node, before: *mv, after: *final(mv), answer }),
                        ))
                    ==> old(self).walked::<V, D>(made, *old(v), *final(v), *final(self), r),
            forall|made: spec_fn(Call<V>) -> bool|
                #![trigger picked(made)]
                picked(made)
                    && (forall|mv: &mut V, node: Node, answer: Result<Step, VisitError>|
                        #[trigger] called::<V, D>(node, mv, answer) ==> made(
                            (Call { node, before: *mv, after: *final(mv), answer }),
                        ))
                    ==> failure_was_answered(made, r),
            between(*final(v), r),
            *old(self) matches ContractDefinitionPart::EnumDefinition(n)
                ==> ((*final(self)) is EnumDefinition
                && exists|mv: &mut V, mn: &mut EnumDefinition, answer: Result<Step, VisitError>|
                    *mv == *old(v) && *mn == n
                        && #[trigger] call_ensures(V::visit_enum_definition, (mv, mn), answer)
                        && settled::<V, D, EnumDefinition>(
                            answer,
                            r,
                            *final(mv),
                            *final(v),
                            *final(mn),
                            (*final(self))->EnumDefinition_0,
                        )),
            *old(self) matches ContractDefinitionPart::ErrorDefinition(n)
                ==> ((*final(self)) is ErrorDefinition
                && exists|mv: &mut V, mn: &mut ErrorDefinition, answer: Result<Step, VisitError>|
                    *mv == *old(v) && *mn == n
                        && #[trigger] call_ensures(V::visit_error_definition, (mv, mn), answer)
                        && settled::<V, D, ErrorDefinition>(
                            answer,
                            r,
                            *final(mv),
                            *final(v),
                            *final(mn),
                            (*final(self))->ErrorDefinition_0,
                        )),
            *old(self) matches ContractDefinitionPart::EventDefinition(n)
                ==> ((*final(self)) is EventDefinition
                && exists|mv: &mut V, mn: &mut EventDefinition, answer: Result<Step, VisitError>|
                    *mv == *old(v) && *mn == n
                        && #[trigger] call_ensures(V::visit_event_definition, (mv, mn), answer)
                        && settled::<V, D, EventDefinition>(
                            answer,
                            r,
                            *final(mv),
                            *final(v),
                            *final(mn),
                            (*final(self))->EventDefinition_0,
                        )),
            *old(self) matches ContractDefinitionPart::FunctionDefinition(n)
                ==> ((*final(self)) is FunctionDefinition
                && exists|mv: &mut V, mn: &mut FunctionDefinition, answer: Result<Step, VisitError>|
                    *mv == *old(v) && *mn == n
                        && #[trigger] call_ensures(V::visit_function_definition, (mv, mn), answer)
                        && settled::<V, D, FunctionDefinition>(
                            answer,
                            r,
                            *final(mv),
                            *final(v),
                            *final(mn),
                            (*final(self))->FunctionDefinition_0,
                        )),
            *old(self) matches ContractDefinitionPart::ModifierDefinition(n)
                ==> ((*final(self)) is ModifierDefinition
                && exists|mv: &mut V, mn: &mut ModifierDefinition, answer: Result<Step, VisitError>|
                    *mv == *old(v) && *mn == n
                        && #[trigger] call_ensures(V::visit_modifier_definition, (mv, mn), answer)
                        && settled::<V, D, ModifierDefinition>(
                            answer,
                            r,
                            *final(mv),
                            *final(v),
                            *final(mn),
                            (*final(self))->ModifierDefinition_0,
                        )),
            *old(self) matches ContractDefinitionPart::StructDefinition(n)
                ==> ((*final(self)) is StructDefinition
                && exists|mv: &mut V, mn: &mut StructDefinition, answer: Result<Step, VisitError>|
                    *mv == *old(v) && *mn == n
                        && #[trigger] call_ensures(V::visit_struct_definition, (mv, mn), answer)
                        && settled::<V, D, StructDefinition>(
                            answer,
                            r,
                            *final(mv),
                            *final(v),
                            *final(mn),
                            (*final(self))->StructDefinition_0,
                        )),
            *old(self) matches ContractDefinitionPart::UserDefinedValueTypeDefinition(n)
                ==> ((*final(self)) is UserDefinedValueTypeDefinition
                && exists|
                    mv: &mut V,
                    mn: &mut UserDefinedValueTypeDefinition,
                    answer: Result<Step, VisitError>,
                |
                    *mv == *old(v) && *mn == n
                        && #[trigger] call_ensures(
                            V::visit_user_defined_value_type_definition,
                            (mv, mn),
                            answer,
                        )
                        && settled::<V, D, UserDefinedValueTypeDefinition>(
                            answer,
                            r,
                            *final(mv),
                            *final(v),
                            *final(mn),
                            (*final(self))->UserDefinedValueTypeDefinition_0,
                        )),
            *old(self) matches ContractDefinitionPart::UsingForDirective(n)
                ==> ((*final(self)) is UsingForDirective
                && exists|mv: &mut V, mn: &mut UsingForDirective, answer: Result<Step, VisitError>|
                    *mv == *old(v) && *mn == n
                        && #[trigger] call_ensures(V::visit_using_for_directive, (mv, mn), answer)
                        && settled::<V, D, UsingForDirective>(
                            answer,
                            r,
                            *final(mv),
                            *final(v),
                            *final(mn),
                            (*final(self))->UsingForDirective_0,
                        )),
            *old(self) matches ContractDefinitionPart::VariableDeclaration(n)
                ==> ((*final(self)) is VariableDeclaration
                && exists|
                    mv: &mut V,
                    mn: &mut VariableDeclaration,
                    answer: Result<Step, VisitError>,
                |
                    *mv == *old(v) && *mn == n
                        && #[trigger] call_ensures(V::visit_variable_declaration, (mv, mn), answer)
                        && settled::<V, D, VariableDeclaration>(
                            answer,
                            r,
                            *final(mv),
                            *final(v),
                            *final(mn),
                            (*final(self))->VariableDeclaration_0,
                        )),
        decreases old(self).depth(), 0int,
    {
        match self {
            ContractDefinitionPart::EnumDefinition(e) => e.accept(v),
            ContractDefinitionPart::ErrorDefinition(e) => e.accept(v),
            ContractDefinitionPart::EventDefinition(e) => e.accept(v),
            ContractDefinitionPart::FunctionDefinition(e) => e.accept(v),
            ContractDefinitionPart::ModifierDefinition(e) => e.accept(v),
            ContractDefinitionPart::StructDefinition(e) => e.accept(v),
            ContractDefinitionPart::UserDefinedValueTypeDefinition(e) => e.accept(v),
            ContractDefinitionPart::UsingForDirective(e) => e.accept(v),
            ContractDefinitionPart::VariableDeclaration(e) => e.accept(v),
        }
    }
}

/// The items of `pre` that stand where `done` has items have been walked with success,
/// in order and each once, the first from the visitor `pre_v` and each next one from
/// the visitor as the one before has left it; they are now what `done` holds, and the
/// visitor is `v`. (The clause on the depths holds of every sequence: it is what lets
/// this definition end.)
pub open spec fn contract_definition_parts_walked_to<V: Visitor<D>, D>(
    made: spec_fn(Call<V>) -> bool,
    pre: Seq<ContractDefinitionPart>,
    done: Seq<ContractDefinitionPart>,
    pre_v: V,
    v: V,
) -> bool
    decreases contract_definition_parts_depth(pre), 3int, done.len(),
{
    if done.len() == 0 {
        v == pre_v
    } else if done.len() > pre.len() {
        false
    } else {
        &&& contract_definition_parts_depths(pre)[done.len() - 1] <= contract_definition_parts_depth(pre)
        &&& exists|u: V, ok: Result<(), VisitError>|
            #[trigger] between(u, ok) && ok is Ok
                && contract_definition_parts_walked_to::<V, D>(
                    made,
                    pre,
                    done.drop_last(),
                    pre_v,
                    u,
                )
                && pre[done.len() - 1].walked::<V, D>(made, u, v, done.last(), ok)
    }
}

/// How the walk takes the items `pre` and the visitor `pre_v` to `post` and `post_v`,
/// with the result `r`: the items are walked in order, each once, each from the visitor
/// as the one before has left it, up to the first failure. That failure is the result,
/// and the items behind it are as they were. (The clause on the depths holds of every
/// sequence.)
pub open spec fn contract_definition_parts_walked<V: Visitor<D>, D>(
    made: spec_fn(Call<V>) -> bool,
    pre: Seq<ContractDefinitionPart>,
    pre_v: V,
    post_v: V,
    post: Seq<ContractDefinitionPart>,
    r: Result<(), VisitError>,
) -> bool
{
    &&& pre.len() == post.len()
    &&& match r {
        Ok(_) => contract_definition_parts_walked_to::<V, D>(made, pre, post, pre_v, post_v),
        Err(e) => exists|k: int, u: V|
            #[trigger] reached(k, u) && 0 <= k < pre.len()
                && contract_definition_parts_depths(pre)[k] <= contract_definition_parts_depth(pre)
                && contract_definition_parts_walked_to::<V, D>(made, pre, post.take(k), pre_v, u)
                && pre[k].walked::<V, D>(made, u, post_v, post[k], Err::<(), VisitError>(e))
                && forall|j: int| k < j < pre.len() ==> post[j] == pre[j],
    }
}

/// Walks `items` in order. The first failure ends the walk; the items after it are left
/// alone.
pub fn visit_contract_definition_parts<V: Visitor<D>, D>(
    items: &mut Vec<ContractDefinitionPart>,
    v: &mut V,
) -> (r: Result<(), VisitError>)
    ensures
        forall|made: spec_fn(Call<V>) -> bool|
            #![trigger picked(made)]
            picked(made)
                && (forall|mv: &mut V, node: Node, answer: Result<Step, VisitError>|
                    #[trigger] called::<V, D>(node, mv, answer) ==> made(
                        (Call { node, before: *mv, after: *final(mv), answer }),
                    ))
                ==> contract_definition_parts_walked::<V, D>(
                    made,
                    old(items)@,
                    *old(v),
                    *final(v),
                    final(items)@,
                    r,
                ),
        forall|made: spec_fn(Call<V>) -> bool|
            #![trigger picked(made)]
            picked(made)
                && (forall|mv: &mut V, node: Node, answer: Result<Step, VisitError>|
                    #[trigger] called::<V, D>(node, mv, answer) ==> made(
                        (Call { node, before: *mv, after: *final(mv), answer }),
                    ))
                ==> failure_was_answered(made, r),
        between(*final(v), r),
        final(items)@.len() == old(items)@.len(),
        contract_definition_parts_depth(final(items)@)
            <= contract_definition_parts_depth(old(items)@),
        final(v).shared() == old(v).shared(),
        unfailing::<V, D>() ==> r is Ok,
        old(v).inert() ==> {
            &&& r is Ok
            &&& *final(v) == *old(v)
            &&& contract_definition_parts_same(final(items)@, old(items)@)
        },
    decreases contract_definition_parts_depth(old(items)@), 3int,
{
    let n = items.len();
    let mut i: usize = 0;
    while i < n
        invariant
            i <= n,
            n == items@.len(),
            n == old(items)@.len(),
            forall|j: int| i <= j < n ==> items@[j] == old(items)@[j],
            forall|j: int|
                0 <= j < n ==> contract_definition_parts_depths(items@)[j]
                    <= contract_definition_parts_depths(old(items)@)[j],
            v.shared() == old(v).shared(),
            old(v).inert() ==> *v == *old(v),
            forall|made: spec_fn(Call<V>) -> bool|
                #![trigger picked(made)]
                picked(made)
                    && (forall|mv: &mut V, node: Node, answer: Result<Step, VisitError>|
                        #[trigger] called::<V, D>(node, mv, answer) ==> made(
                            (Call { node, before: *mv, after: *final(mv), answer }),
                        ))
                    ==> contract_definition_parts_walked_to::<V, D>(
                        made,
                        old(items)@,
                        items@.take(i as int),
                        *old(v),
                        *v,
                    ),
            old(v).inert() ==> forall|j: int|
                #![trigger items@[j]]
                0 <= j < i ==> items@[j].same_as(&old(items)@[j]),
        decreases n - i,
    {
        proof {
            lemma_contract_definition_parts_depth_bound(old(items)@, i as int);
        }
        let ghost done = items@.take(i as int);
        let ghost u = *v;
        let step = items[i].visit(v);
        proof {
            assert(between(u, step));
        }
        match step {
            Ok(_) => {
                proof {
                    let grown = items@.take(i + 1);
                    assert(grown.drop_last() =~= done);
                    assert(grown.last() == items@[i as int]);
                    assert forall|made: spec_fn(Call<V>) -> bool|
                        #![trigger picked(made)]
                        picked(made)
                            && (forall|mv: &mut V, node: Node, answer: Result<Step, VisitError>|
                                #[trigger] called::<V, D>(node, mv, answer) ==> made(
                                    (Call { node, before: *mv, after: *final(mv), answer }),
                                ))
                        implies contract_definition_parts_walked_to::<V, D>(
                            made,
                            old(items)@,
                            grown,
                            *old(v),
                            *v,
                        ) by {
                        assert(contract_definition_parts_walked_to::<V, D>(
                            made,
                            old(items)@,
                            done,
                            *old(v),
                            u,
                        ));
                    }
                }
            },
            Err(e) => {
                proof {
                    lemma_contract_definition_parts_depth_mono(items@, old(items)@);
                    assert(items@.take(i as int) =~= done);
                    assert(reached(i as int, u));
                    assert forall|made: spec_fn(Call<V>) -> bool|
                        #![trigger picked(made)]
                        picked(made)
                            && (forall|mv: &mut V, node: Node, answer: Result<Step, VisitError>|
                                #[trigger] called::<V, D>(node, mv, answer) ==> made(
                                    (Call { node, before: *mv, after: *final(mv), answer }),
                                ))
                        implies contract_definition_parts_walked::<V, D>(
                            made,
                            old(items)@,
                            *old(v),
                            *v,
                            items@,
                            Err::<(), VisitError>(e),
                        ) by {
                        assert(contract_definition_parts_walked_to::<V, D>(
                            made,
                            old(items)@,
                            done,
                            *old(v),
                            u,
                        ));
                    }
                }
                return Err(e);
            },
        }
        i += 1;
    }
    proof {
        lemma_contract_definition_parts_depth_mono(items@, old(items)@);
        assert(items@.take(n as int) =~= items@);
    }
    Ok(())
}

impl Visitable for Vec<ContractDefinitionPart> {
    /// Walks the items in order, as [`visit_contract_definition_parts`] does.
    fn visit<V: Visitor<D>, D>(&mut self, v: &mut V) -> (r: Result<(), VisitError>)
        ensures
            forall|made: spec_fn(Call<V>) -> bool|
                #![trigger picked(made)]
                picked(made)
                    && (forall|mv: &mut V, node: Node, answer: Result<Step, VisitError>|
                        #[trigger] called::<V, D>(node, mv, answer) ==> made(
                            (Call { node, before: *mv, after: *final(mv), answer }),
                        ))
                    ==> contract_definition_parts_walked::<V, D>(
                        made,
                        old(self)@,
                        *old(v),
                        *final(v),
                        final(self)@,
                        r,
                    ),
            forall|made: spec_fn(Call<V>) -> bool|
                #![trigger picked(made)]
                picked(made)
                    && (forall|mv: &mut V, node: Node, answer: Result<Step, VisitError>|
                        #[trigger] called::<V, D>(node, mv, answer) ==> made(
                            (Call { node, before: *mv, after: *final(mv), answer }),
                        ))
                    ==> failure_was_answered(made, r),
            final(self)@.len() == old(self)@.len(),
    {
        let ghost before = self@;
        let r = visit_contract_definition_parts(self, v);
        proof {
            assert(depths_of(before) =~= contract_definition_parts_depths(before));
            assert(depths_of(self@) =~= contract_definition_parts_depths(self@));
        }
        r
    }
}

} // verus!
