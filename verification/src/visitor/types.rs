//! The walk of type names.

use vstd::prelude::*;
use crate::ast::definition::IdentifierPath;
use crate::ast::types::{
    ArrayTypeName, ElementaryTypeName, FunctionTypeName, Mapping, TypeName, UserDefinedTypeName,
    UserDefinedTypeNameOrIdentifierPath,
    lemma_user_defined_type_name_or_identifier_paths_depth_bound,
    lemma_user_defined_type_name_or_identifier_paths_depth_mono,
    user_defined_type_name_or_identifier_paths_depth,
    user_defined_type_name_or_identifier_paths_depths,
    user_defined_type_name_or_identifier_paths_same,
};
use crate::shape::{Shape, depths_of};
use crate::visitor::{
    Call, Node, Step, VisitError, Visitable, Visitor, array_type_name_answered, between, called,
    elementary_type_name_answered, failure_was_answered, function_type_name_answered,
    mapping_answered, picked, reached, settled, unfailing, user_defined_type_name_answered,
};
use crate::visitor::expression::{maybe_boxed_expression_walked, visit_maybe_boxed_expression};

verus! {

impl TypeName {
    /// How `visit` takes this node and the visitor `pre_v` to `post` and `post_v`, with
    /// the result `r`, the calls of callbacks being among `made`: as `accept` does on
    /// the node inside, which keeps its kind.
    pub open spec fn walked<V: Visitor<D>, D>(
        &self,
        made: spec_fn(Call<V>) -> bool,
        pre_v: V,
        post_v: V,
        post: TypeName,
        r: Result<(), VisitError>,
    ) -> bool
        decreases self.depth(), 0int, 0int,
    {
        match (self, post) {
            (
                TypeName::ArrayTypeName(a),
                TypeName::ArrayTypeName(b),
            ) => a.accepted::<V, D>(made, pre_v, post_v, b, r),
            (
                TypeName::ElementaryTypeName(a),
                TypeName::ElementaryTypeName(b),
            ) => a.accepted::<V, D>(made, pre_v, post_v, b, r),
            (
                TypeName::FunctionTypeName(a),
                TypeName::FunctionTypeName(b),
            ) => a.accepted::<V, D>(made, pre_v, post_v, b, r),
            (
                TypeName::Mapping(a),
                TypeName::Mapping(b),
            ) => a.accepted::<V, D>(made, pre_v, post_v, b, r),
            (
                TypeName::UserDefinedTypeName(a),
                TypeName::UserDefinedTypeName(b),
            ) => a.accepted::<V, D>(made, pre_v, post_v, b, r),
            _ => false,
        }
    }
}

impl Visitable for TypeName {
    /// Hands the node inside to the callback of its kind, and to no other, as `accept`
    /// on that kind does.
    fn visit<V: Visitor<D>, D>(&mut self, v: &mut V) -> (r: Result<(), VisitError>)
        ensures
            forall|made: spec_fn(Call<V>) -> bool|
                #![trigger picked(made)]
                picked(made)
                    && (forall|mv: &mut V, node: Node, answer: Result<Step, VisitError>|
                        #[trigger] called::<V, D>(node, mv, answer) ==> made(
                            (Call { node, before: *mv, after: *final(mv), answer }),
                        ))
                    ==> old(self).walked::<V, D>(made, *old(v), *final(v), *final(self), r),
            forall|made: spec_fn(Call<V>) -> bool|
                #![trigger picked(made)]
                picked(made)
                    && (forall|mv: &mut V, node: Node, answer: Result<Step, VisitError>|
                        #[trigger] called::<V, D>(node, mv, answer) ==> made(
                            (Call { node, before: *mv, after: *final(mv), answer }),
                        ))
                    ==> failure_was_answered(made, r),
            between(*final(v), r),
            *old(self) matches TypeName::ArrayTypeName(n) ==> ((*final(self)) is ArrayTypeName
                && exists|mv: &mut V, mn: &mut ArrayTypeName, answer: Result<Step, VisitError>|
                    *mv == *old(v) && *mn == n
                        && #[trigger] call_ensures(V::visit_array_type_name, (mv, mn), answer)
                        && settled::<V, D, ArrayTypeName>(
                            answer,
                            r,
                            *final(mv),
                            *final(v),
                            *final(mn),
                            (*final(self))->ArrayTypeName_0,
                        )),
            *old(self) matches TypeName::ElementaryTypeName(n)
                ==> ((*final(self)) is ElementaryTypeName
                && exists|mv: &mut V, mn: &mut ElementaryTypeName, answer: Result<Step, VisitError>|
                    *mv == *old(v) && *mn == n
                        && #[trigger] call_ensures(V::visit_elementary_type_name, (mv, mn), answer)
                        && settled::<V, D, ElementaryTypeName>(
                            answer,
                            r,
                            *final(mv),
                            *final(v),
                            *final(mn),
                            (*final(self))->ElementaryTypeName_0,
                        )),
            *old(self) matches TypeName::FunctionTypeName(n) ==> ((*final(self)) is FunctionTypeName
                && exists|mv: &mut V, mn: &mut FunctionTypeName, answer: Result<Step, VisitError>|
                    *mv == *old(v) && *mn == n
                        && #[trigger] call_ensures(V::visit_function_type_name, (mv, mn), answer)
                        && settled::<V, D, FunctionTypeName>(
                            answer,
                            r,
                            *final(mv),
                            *final(v),
                            *final(mn),
                            (*final(self))->FunctionTypeName_0,
                        )),
            *old(self) matches TypeName::Mapping(n) ==> ((*final(self)) is Mapping
                && exists|mv: &mut V, mn: &mut Mapping, answer: Result<Step, VisitError>|
                    *mv == *old(v) && *mn == n
                        && #[trigger] call_ensures(V::visit_mapping, (mv, mn), answer)
                        && settled::<V, D, Mapping>(
                            answer,
                            r,
                            *final(mv),
                            *final(v),
                            *final(mn),
                            (*final(self))->Mapping_0,
                        )),
            *old(self) matches TypeName::UserDefinedTypeName(n)
                ==> ((*final(self)) is UserDefinedTypeName
                && exists|
                    mv: &mut V,
                    mn: &mut UserDefinedTypeName,
                    answer: Result<Step, VisitError>,
                |
                    *mv == *old(v) && *mn == n
                        && #[trigger] call_ensures(
                            V::visit_user_defined_type_name,
                            (mv, mn),
                            answer,
                        )
                        && settled::<V, D, UserDefinedTypeName>(
                            answer,
                            r,
                            *final(mv),
                            *final(v),
                            *final(mn),
                            (*final(self))->UserDefinedTypeName_0,
                        )),
        decreases old(self).depth(), 0int,
    {
        match self {
            TypeName::ArrayTypeName(e) => e.accept(v),
            TypeName::ElementaryTypeName(e) => e.accept(v),
            TypeName::FunctionTypeName(e) => e.accept(v),
            TypeName::Mapping(e) => e.accept(v),
            TypeName::UserDefinedTypeName(e) => e.accept(v),
        }
    }
}

/// How the walk takes an optional slot and the visitor `pre_v` to `post` and `post_v`,
/// with the result `r`, the calls of callbacks being among `made`: the node, if there
/// is one, is walked; an empty slot stays empty, and nothing is called.
pub open spec fn maybe_type_name_walked<V: Visitor<D>, D>(
    made: spec_fn(Call<V>) -> bool,
    pre: Option<TypeName>,
    pre_v: V,
    post_v: V,
    post: Option<TypeName>,
    r: Result<(), VisitError>,
) -> bool
    decreases
        (match pre {
            Some(e) => e.depth(),
            None => 0,
        }),
        2int,
        0int,
{
    match (pre, post) {
        (Some(a), Some(b)) => a.walked::<V, D>(made, pre_v, post_v, b, r),
        (None, None) => r is Ok && post_v == pre_v,
        _ => false,
    }
}

/// Walks what an optional slot holds, and does nothing if it is empty.
pub fn visit_maybe_type_name<V: Visitor<D>, D>(
    slot: &mut Option<TypeName>,
    v: &mut V,
) -> (r: Result<(), VisitError>)
    ensures
        forall|made: spec_fn(Call<V>) -> bool|
            #![trigger picked(made)]
            picked(made)
                && (forall|mv: &mut V, node: Node, answer: Result<Step, VisitError>|
                    #[trigger] called::<V, D>(node, mv, answer) ==> made(
                        (Call { node, before: *mv, after: *final(mv), answer }),
                    ))
                ==> maybe_type_name_walked::<V, D>(
                    made,
                    *old(slot),
                    *old(v),
                    *final(v),
                    *final(slot),
                    r,
                ),
        forall|made: spec_fn(Call<V>) -> bool|
            #![trigger picked(made)]
            picked(made)
                && (forall|mv: &mut V, node: Node, answer: Result<Step, VisitError>|
                    #[trigger] called::<V, D>(node, mv, answer) ==> made(
                        (Call { node, before: *mv, after: *final(mv), answer }),
                    ))
                ==> failure_was_answered(made, r),
        between(*final(v), r),
        ((*final(slot)) is Some) == ((*old(slot)) is Some),
        (match *final(slot) {
            Some(e) => e.depth(),
            None => 0,
        })
        <= (match *old(slot) {
            Some(e) => e.depth(),
            None => 0,
        }),
        final(v).shared() == old(v).shared(),
        unfailing::<V, D>() ==> r is Ok,
        old(v).inert() ==> {
            &&& r is Ok
            &&& *final(v) == *old(v)
            &&& (match (*final(slot), *old(slot)) {
                (Some(a), Some(b)) => a.same_as(&b),
                (None, None) => true,
                _ => false,
            })
        },
    decreases
        (match *old(slot) {
            Some(e) => e.depth(),
            None => 0,
        }),
        2int,
{
    match slot {
        Some(e) => e.visit(v),
        None => Ok(()),
    }
}

impl Visitable for Option<TypeName> {
    /// Walks the node if there is one, as [`visit_maybe_type_name`] does.
    fn visit<V: Visitor<D>, D>(&mut self, v: &mut V) -> (r: Result<(), VisitError>)
        ensures
            forall|made: spec_fn(Call<V>) -> bool|
                #![trigger picked(made)]
                picked(made)
                    && (forall|mv: &mut V, node: Node, answer: Result<Step, VisitError>|
                        #[trigger] called::<V, D>(node, mv, answer) ==> made(
                            (Call { node, before: *mv, after: *final(mv), answer }),
                        ))
                    ==> maybe_type_name_walked::<V, D>(
                        made,
                        *old(self),
                        *old(v),
                        *final(v),
                        *final(self),
                        r,
                    ),
            forall|made: spec_fn(Call<V>) -> bool|
                #![trigger picked(made)]
                picked(made)
                    && (forall|mv: &mut V, node: Node, answer: Result<Step, VisitError>|
                        #[trigger] called::<V, D>(node, mv, answer) ==> made(
                            (Call { node, before: *mv, after: *final(mv), answer }),
                        ))
                    ==> failure_was_answered(made, r),
            ((*final(self)) is Some) == ((*old(self)) is Some),
    {
        visit_maybe_type_name(self, v)
    }
}

impl ArrayTypeName {
    /// How `visit` takes this node and the visitor `pre_v` to `post` and `post_v`, with
    /// the result `r`, the calls of callbacks being among `made`: the children are
    /// walked one after the other, each from the visitor as the one before has left it;
    /// the first failure is the result, and what stands behind it is as it was. What is
    /// no child is as it was.
    pub open spec fn walked<V: Visitor<D>, D>(
        &self,
        made: spec_fn(Call<V>) -> bool,
        pre_v: V,
        post_v: V,
        post: ArrayTypeName,
        r: Result<(), VisitError>,
    ) -> bool
        decreases self.depth(), 0int, 0int,
    {
        &&& post == (ArrayTypeName { length: post.length, ..*self })
        &&& (maybe_boxed_expression_walked::<V, D>(
            made,
            self.length,
            pre_v,
            post_v,
            post.length,
            r,
        ))
    }

    /// How `accept` takes this node and the visitor `pre_v` to `post` and `post_v`,
    /// with the result `r`, the calls of callbacks being among `made`: the callback for
    /// this kind is called with `pre_v` and this node, answers, and leaves `mid_v` and
    /// `mid`, which is no deeper; after [`Step::Descend`] the children of `mid` are
    /// walked from `mid_v`, after anything else nothing more happens, and an error is
    /// the result as it is.
    pub open spec fn accepted<V: Visitor<D>, D>(
        &self,
        made: spec_fn(Call<V>) -> bool,
        pre_v: V,
        post_v: V,
        post: ArrayTypeName,
        r: Result<(), VisitError>,
    ) -> bool
        decreases self.depth(), 1int, 0int,
    {
        exists|mid_v: V, mid: ArrayTypeName, answer: Result<Step, VisitError>|
            #[trigger] array_type_name_answered::<V, D>(pre_v, *self, mid_v, mid, answer)
                && made(
                    (Call {
                        node: Node::ArrayTypeName(*self),
                        before: pre_v,
                        after: mid_v,
                        answer,
                    }),
                )
                && mid.depth() <= self.depth() && match answer {
                    Ok(Step::Descend) => mid.walked::<V, D>(made, mid_v, post_v, post, r),
                    Ok(Step::Prune) => r is Ok && post_v == mid_v && post == mid,
                    Err(e) => r == Err::<(), VisitError>(e) && post_v == mid_v && post == mid,
                }
    }

    /// Hands this node to [`Visitor::visit_array_type_name`] and does what the callback
    /// answers: on [`Step::Descend`] it walks the children as [`Visitable::visit`]
    /// does, on [`Step::Prune`] it leaves them alone; an error is handed on.
    pub fn accept<V: Visitor<D>, D>(&mut self, v: &mut V) -> (r: Result<(), VisitError>)
        ensures
            final(self).depth() <= old(self).depth(),
            final(v).shared() == old(v).shared(),
            unfailing::<V, D>() ==> r is Ok,
            old(v).inert() ==> r is Ok && *final(v) == *old(v) && final(self).same_as(old(self)),
            forall|made: spec_fn(Call<V>) -> bool|
                #![trigger picked(made)]
                picked(made)
                    && (forall|mv: &mut V, node: Node, answer: Result<Step, VisitError>|
                        #[trigger] called::<V, D>(node, mv, answer) ==> made(
                            (Call { node, before: *mv, after: *final(mv), answer }),
                        ))
                    ==> old(self).accepted::<V, D>(made, *old(v), *final(v), *final(self), r),
            forall|made: spec_fn(Call<V>) -> bool|
                #![trigger picked(made)]
                picked(made)
                    && (forall|mv: &mut V, node: Node, answer: Result<Step, VisitError>|
                        #[trigger] called::<V, D>(node, mv, answer) ==> made(
                            (Call { node, before: *mv, after: *final(mv), answer }),
                        ))
                    ==> failure_was_answered(made, r),
            between(*final(v), r),
            exists|mv: &mut V, mn: &mut ArrayTypeName, answer: Result<Step, VisitError>|
                *mv == *old(v) && *mn == *old(self)
                    && #[trigger] call_ensures(V::visit_array_type_name, (mv, mn), answer)
                    && settled::<V, D, ArrayTypeName>(
                        answer,
                        r,
                        *final(mv),
                        *final(v),
                        *final(mn),
                        *final(self),
                    ),
        decreases old(self).depth(), 1int,
    {
        let ghost pre_v = *v;
        let ghost pre = *self;
        let answer = v.visit_array_type_name(self);
        let ghost mid_v = *v;
        proof {
            assert(array_type_name_answered::<V, D>(pre_v, pre, *v, *self, answer));
            let (mv0, mn0) = choose|mv: &mut V, mn: &mut ArrayTypeName|
                *mv == pre_v && *final(mv) == mid_v && *mn == pre
                    && #[trigger] call_ensures(V::visit_array_type_name, (mv, mn), answer);
            assert(called::<V, D>(Node::ArrayTypeName(pre), mv0, answer));
        }
        match answer {
            Ok(Step::Descend) => {
                let r = self.visit(v);
                proof {
                    assert forall|made: spec_fn(Call<V>) -> bool|
                        #![trigger picked(made)]
                        picked(made)
                            && (forall|mv: &mut V, node: Node, answer: Result<Step, VisitError>|
                                #[trigger] called::<V, D>(node, mv, answer) ==> made(
                                    (Call { node, before: *mv, after: *final(mv), answer }),
                                ))
                        implies pre.accepted::<V, D>(made, pre_v, *v, *self, r) by {
                    }
                }
                r
            },
            Ok(Step::Prune) => {
                proof {
                    assert forall|made: spec_fn(Call<V>) -> bool|
                        #![trigger picked(made)]
                        picked(made)
                            && (forall|mv: &mut V, node: Node, answer: Result<Step, VisitError>|
                                #[trigger] called::<V, D>(node, mv, answer) ==> made(
                                    (Call { node, before: *mv, after: *final(mv), answer }),
                                ))
                        implies pre.accepted::<V, D>(
                            made,
                            pre_v,
                            *v,
                            *self,
                            Ok::<(), VisitError>(()),
                        ) by {
                    }
                }
                Ok(())
            },
            Err(e) => {
                proof {
                    assert forall|made: spec_fn(Call<V>) -> bool|
                        #![trigger picked(made)]
                        picked(made)
                            && (forall|mv: &mut V, node: Node, answer: Result<Step, VisitError>|
                                #[trigger] called::<V, D>(node, mv, answer) ==> made(
                                    (Call { node, before: *mv, after: *final(mv), answer }),
                                ))
                        implies pre.accepted::<V, D>(
                            made,
                            pre_v,
                            *v,
                            *self,
                            Err::<(), VisitError>(e),
                        ) by {
                    }
                }
                Err(e)
            },
        }
    }
}

impl Visitable for ArrayTypeName {
    /// Walks `length`.
    ///
    /// The type of the elements is not walked.
    fn visit<V: Visitor<D>, D>(&mut self, v: &mut V) -> (r: Result<(), VisitError>)
        ensures
            forall|made: spec_fn(Call<V>) -> bool|
                #![trigger picked(made)]
                picked(made)
                    && (forall|mv: &mut V, node: Node, answer: Result<Step, VisitError>|
                        #[trigger] called::<V, D>(node, mv, answer) ==> made(
                            (Call { node, before: *mv, after: *final(mv), answer }),
                        ))
                    ==> old(self).walked::<V, D>(made, *old(v), *final(v), *final(self), r),
            forall|made: spec_fn(Call<V>) -> bool|
                #![trigger picked(made)]
                picked(made)
                    && (forall|mv: &mut V, node: Node, answer: Result<Step, VisitError>|
                        #[trigger] called::<V, D>(node, mv, answer) ==> made(
                            (Call { node, before: *mv, after: *final(mv), answer }),
                        ))
                    ==> failure_was_answered(made, r),
            between(*final(v), r),
            *final(self) == (ArrayTypeName { length: final(self).length, ..*old(self) }),
            (final(self).length is Some) == (old(self).length is Some),
        decreases old(self).depth(), 0int,
    {
        visit_maybe_boxed_expression(&mut self.length, v)
    }
}

impl ElementaryTypeName {
    /// How `accept` takes this node and the visitor `pre_v` to `post` and `post_v`,
    /// with the result `r`, the calls of callbacks being among `made`: the callback for
    /// this kind is called with `pre_v` and this node, answers, and leaves `mid_v` and
    /// `mid`, which is no deeper; after [`Step::Descend`] the children of `mid` are
    /// walked from `mid_v`, after anything else nothing more happens, and an error is
    /// the result as it is.
    pub open spec fn accepted<V: Visitor<D>, D>(
        &self,
        made: spec_fn(Call<V>) -> bool,
        pre_v: V,
        post_v: V,
        post: ElementaryTypeName,
        r: Result<(), VisitError>,
    ) -> bool
    {
        exists|mid_v: V, mid: ElementaryTypeName, answer: Result<Step, VisitError>|
            #[trigger] elementary_type_name_answered::<V, D>(pre_v, *self, mid_v, mid, answer)
                && made(
                    (Call {
                        node: Node::ElementaryTypeName(*self),
                        before: pre_v,
                        after: mid_v,
                        answer,
                    }),
                )
                && post_v == mid_v && post == mid && match answer {
                    Ok(_) => r is Ok,
                    Err(e) => r == Err::<(), VisitError>(e),
                }
    }

    /// Hands this node to [`Visitor::visit_elementary_type_name`]. The node has no
    /// children that the walk enters, so nothing follows the callback; its error, if
    /// any, is handed on.
    pub fn accept<V: Visitor<D>, D>(&mut self, v: &mut V) -> (r: Result<(), VisitError>)
        ensures
            final(self).depth() <= old(self).depth(),
            final(v).shared() == old(v).shared(),
            unfailing::<V, D>() ==> r is Ok,
            old(v).inert() ==> r is Ok && *final(v) == *old(v) && final(self).same_as(old(self)),
            forall|made: spec_fn(Call<V>) -> bool|
                #![trigger picked(made)]
                picked(made)
                    && (forall|mv: &mut V, node: Node, answer: Result<Step, VisitError>|
                        #[trigger] called::<V, D>(node, mv, answer) ==> made(
                            (Call { node, before: *mv, after: *final(mv), answer }),
                        ))
                    ==> old(self).accepted::<V, D>(made, *old(v), *final(v), *final(self), r),
            forall|made: spec_fn(Call<V>) -> bool|
                #![trigger picked(made)]
                picked(made)
                    && (forall|mv: &mut V, node: Node, answer: Result<Step, VisitError>|
                        #[trigger] called::<V, D>(node, mv, answer) ==> made(
                            (Call { node, before: *mv, after: *final(mv), answer }),
                        ))
                    ==> failure_was_answered(made, r),
            between(*final(v), r),
            exists|mv: &mut V, mn: &mut ElementaryTypeName, answer: Result<Step, VisitError>|
                *mv == *old(v) && *mn == *old(self)
                    && #[trigger] call_ensures(V::visit_elementary_type_name, (mv, mn), answer)
                    && settled::<V, D, ElementaryTypeName>(
                        answer,
                        r,
                        *final(mv),
                        *final(v),
                        *final(mn),
                        *final(self),
                    ),
    {
        let ghost pre_v = *v;
        let ghost pre = *self;
        let answer = v.visit_elementary_type_name(self);
        let ghost mid_v = *v;
        proof {
            assert(elementary_type_name_answered::<V, D>(pre_v, pre, *v, *self, answer));
            let (mv0, mn0) = choose|mv: &mut V, mn: &mut ElementaryTypeName|
                *mv == pre_v && *final(mv) == mid_v && *mn == pre
                    && #[trigger] call_ensures(V::visit_elementary_type_name, (mv, mn), answer);
            assert(called::<V, D>(Node::ElementaryTypeName(pre), mv0, answer));
        }
        match answer {
            Ok(Step::Descend) => {
                let r = self.visit(v);
                proof {
                    assert forall|made: spec_fn(Call<V>) -> bool|
                        #![trigger picked(made)]
                        picked(made)
                            && (forall|mv: &mut V, node: Node, answer: Result<Step, VisitError>|
                                #[trigger] called::<V, D>(node, mv, answer) ==> made(
                                    (Call { node, before: *mv, after: *final(mv), answer }),
                                ))
                        implies pre.accepted::<V, D>(made, pre_v, *v, *self, r) by {
                    }
                }
                r
            },
            Ok(Step::Prune) => {
                proof {
                    assert forall|made: spec_fn(Call<V>) -> bool|
                        #![trigger picked(made)]
                        picked(made)
                            && (forall|mv: &mut V, node: Node, answer: Result<Step, VisitError>|
                                #[trigger] called::<V, D>(node, mv, answer) ==> made(
                                    (Call { node, before: *mv, after: *final(mv), answer }),
                                ))
                        implies pre.accepted::<V, D>(
                            made,
                            pre_v,
                            *v,
                            *self,
                            Ok::<(), VisitError>(()),
                        ) by {
                    }
                }
                Ok(())
            },
            Err(e) => {
                proof {
                    assert forall|made: spec_fn(Call<V>) -> bool|
                        #![trigger picked(made)]
                        picked(made)
                            && (forall|mv: &mut V, node: Node, answer: Result<Step, VisitError>|
                                #[trigger] called::<V, D>(node, mv, answer) ==> made(
                                    (Call { node, before: *mv, after: *final(mv), answer }),
                                ))
                        implies pre.accepted::<V, D>(
                            made,
                            pre_v,
                            *v,
                            *self,
                            Err::<(), VisitError>(e),
                        ) by {
                    }
                }
                Err(e)
            },
        }
    }
}

impl Visitable for ElementaryTypeName {
    /// Does nothing: the walk does not enter an elementary type name.
    fn visit<V: Visitor<D>, D>(&mut self, v: &mut V) -> (r: Result<(), VisitError>)
        ensures
            r is Ok,
            *final(self) == *old(self),
            *final(v) == *old(v),
    {
        Ok(())
    }
}

impl FunctionTypeName {
    /// How `accept` takes this node and the visitor `pre_v` to `post` and `post_v`,
    /// with the result `r`, the calls of callbacks being among `made`: the callback for
    /// this kind is called with `pre_v` and this node, answers, and leaves `mid_v` and
    /// `mid`, which is no deeper; after [`Step::Descend`] the children of `mid` are
    /// walked from `mid_v`, after anything else nothing more happens, and an error is
    /// the result as it is.
    pub open spec fn accepted<V: Visitor<D>, D>(
        &self,
        made: spec_fn(Call<V>) -> bool,
        pre_v: V,
        post_v: V,
        post: FunctionTypeName,
        r: Result<(), VisitError>,
    ) -> bool
    {
        exists|mid_v: V, mid: FunctionTypeName, answer: Result<Step, VisitError>|
            #[trigger] function_type_name_answered::<V, D>(pre_v, *self, mid_v, mid, answer)
                && made(
                    (Call {
                        node: Node::FunctionTypeName(*self),
                        before: pre_v,
                        after: mid_v,
                        answer,
                    }),
                )
                && post_v == mid_v && post == mid && match answer {
                    Ok(_) => r is Ok,
                    Err(e) => r == Err::<(), VisitError>(e),
                }
    }

    /// Hands this node to [`Visitor::visit_function_type_name`]. The node has no
    /// children that the walk enters, so nothing follows the callback; its error, if
    /// any, is handed on.
    pub fn accept<V: Visitor<D>, D>(&mut self, v: &mut V) -> (r: Result<(), VisitError>)
        ensures
            final(self).depth() <= old(self).depth(),
            final(v).shared() == old(v).shared(),
            unfailing::<V, D>() ==> r is Ok,
            old(v).inert() ==> r is Ok && *final(v) == *old(v) && final(self).same_as(old(self)),
            forall|made: spec_fn(Call<V>) -> bool|
                #![trigger picked(made)]
                picked(made)
                    && (forall|mv: &mut V, node: Node, answer: Result<Step, VisitError>|
                        #[trigger] called::<V, D>(node, mv, answer) ==> made(
                            (Call { node, before: *mv, after: *final(mv), answer }),
                        ))
                    ==> old(self).accepted::<V, D>(made, *old(v), *final(v), *final(self), r),
            forall|made: spec_fn(Call<V>) -> bool|
                #![trigger picked(made)]
                picked(made)
                    && (forall|mv: &mut V, node: Node, answer: Result<Step, VisitError>|
                        #[trigger] called::<V, D>(node, mv, answer) ==> made(
                            (Call { node, before: *mv, after: *final(mv), answer }),
                        ))
                    ==> failure_was_answered(made, r),
            between(*final(v), r),
            exists|mv: &mut V, mn: &mut FunctionTypeName, answer: Result<Step, VisitError>|
                *mv == *old(v) && *mn == *old(self)
                    && #[trigger] call_ensures(V::visit_function_type_name, (mv, mn), answer)
                    && settled::<V, D, FunctionTypeName>(
                        answer,
                        r,
                        *final(mv),
                        *final(v),
                        *final(mn),
                        *final(self),
                    ),
    {
        let ghost pre_v = *v;
        let ghost pre = *self;
        let answer = v.visit_function_type_name(self);
        let ghost mid_v = *v;
        proof {
            assert(function_type_name_answered::<V, D>(pre_v, pre, *v, *self, answer));
            let (mv0, mn0) = choose|mv: &mut V, mn: &mut FunctionTypeName|
                *mv == pre_v && *final(mv) == mid_v && *mn == pre
                    && #[trigger] call_ensures(V::visit_function_type_name, (mv, mn), answer);
            assert(called::<V, D>(Node::FunctionTypeName(pre), mv0, answer));
        }
        match answer {
            Ok(Step::Descend) => {
                let r = self.visit(v);
                proof {
                    assert forall|made: spec_fn(Call<V>) -> bool|
                        #![trigger picked(made)]
                        picked(made)
                            && (forall|mv: &mut V, node: Node, answer: Result<Step, VisitError>|
                                #[trigger] called::<V, D>(node, mv, answer) ==> made(
                                    (Call { node, before: *mv, after: *final(mv), answer }),
                                ))
                        implies pre.accepted::<V, D>(made, pre_v, *v, *self, r) by {
                    }
                }
                r
            },
            Ok(Step::Prune) => {
                proof {
                    assert forall|made: spec_fn(Call<V>) -> bool|
                        #![trigger picked(made)]
                        picked(made)
                            && (forall|mv: &mut V, node: Node, answer: Result<Step, VisitError>|
                                #[trigger] called::<V, D>(node, mv, answer) ==> made(
                                    (Call { node, before: *mv, after: *final(mv), answer }),
                                ))
                        implies pre.accepted::<V, D>(
                            made,
                            pre_v,
                            *v,
                            *self,
                            Ok::<(), VisitError>(()),
                        ) by {
                    }
                }
                Ok(())
            },
            Err(e) => {
                proof {
                    assert forall|made: spec_fn(Call<V>) -> bool|
                        #![trigger picked(made)]
                        picked(made)
                            && (forall|mv: &mut V, node: Node, answer: Result<Step, VisitError>|
                                #[trigger] called::<V, D>(node, mv, answer) ==> made(
                                    (Call { node, before: *mv, after: *final(mv), answer }),
                                ))
                        implies pre.accepted::<V, D>(
                            made,
                            pre_v,
                            *v,
                            *self,
                            Err::<(), VisitError>(e),
                        ) by {
                    }
                }
                Err(e)
            },
        }
    }
}

impl Visitable for FunctionTypeName {
    /// Does nothing: the walk does not enter a function type name.
    fn visit<V: Visitor<D>, D>(&mut self, v: &mut V) -> (r: Result<(), VisitError>)
        ensures
            r is Ok,
            *final(self) == *old(self),
            *final(v) == *old(v),
    {
        Ok(())
    }
}

impl Mapping {
    /// How `accept` takes this node and the visitor `pre_v` to `post` and `post_v`,
    /// with the result `r`, the calls of callbacks being among `made`: the callback for
    /// this kind is called with `pre_v` and this node, answers, and leaves `mid_v` and
    /// `mid`, which is no deeper; after [`Step::Descend`] the children of `mid` are
    /// walked from `mid_v`, after anything else nothing more happens, and an error is
    /// the result as it is.
    pub open spec fn accepted<V: Visitor<D>, D>(
        &self,
        made: spec_fn(Call<V>) -> bool,
        pre_v: V,
        post_v: V,
        post: Mapping,
        r: Result<(), VisitError>,
    ) -> bool
    {
        exists|mid_v: V, mid: Mapping, answer: Result<Step, VisitError>|
            #[trigger] mapping_answered::<V, D>(pre_v, *self, mid_v, mid, answer)
                && made(
                    (Call { node: Node::Mapping(*self), before: pre_v, after: mid_v, answer }),
                )
                && post_v == mid_v && post == mid && match answer {
                    Ok(_) => r is Ok,
                    Err(e) => r == Err::<(), VisitError>(e),
                }
    }

    /// Hands this node to [`Visitor::visit_mapping`]. The node has no children that the
    /// walk enters, so nothing follows the callback; its error, if any, is handed on.
    pub fn accept<V: Visitor<D>, D>(&mut self, v: &mut V) -> (r: Result<(), VisitError>)
        ensures
            final(self).depth() <= old(self).depth(),
            final(v).shared() == old(v).shared(),
            unfailing::<V, D>() ==> r is Ok,
            old(v).inert() ==> r is Ok && *final(v) == *old(v) && final(self).same_as(old(self)),
            forall|made: spec_fn(Call<V>) -> bool|
                #![trigger picked(made)]
                picked(made)
                    && (forall|mv: &mut V, node: Node, answer: Result<Step, VisitError>|
                        #[trigger] called::<V, D>(node, mv, answer) ==> made(
                            (Call { node, before: *mv, after: *final(mv), answer }),
                        ))
                    ==> old(self).accepted::<V, D>(made, *old(v), *final(v), *final(self), r),
            forall|made: spec_fn(Call<V>) -> bool|
                #![trigger picked(made)]
                picked(made)
                    && (forall|mv: &mut V, node: Node, answer: Result<Step, VisitError>|
                        #[trigger] called::<V, D>(node, mv, answer) ==> made(
                            (Call { node, before: *mv, after: *final(mv), answer }),
                        ))
                    ==> failure_was_answered(made, r),
            between(*final(v), r),
            exists|mv: &mut V, mn: &mut Mapping, answer: Result<Step, VisitError>|
                *mv == *old(v) && *mn == *old(self)
                    && #[trigger] call_ensures(V::visit_mapping, (mv, mn), answer)
                    && settled::<V, D, Mapping>(
                        answer,
                        r,
                        *final(mv),
                        *final(v),
                        *final(mn),
                        *final(self),
                    ),
    {
        let ghost pre_v = *v;
        let ghost pre = *self;
        let answer = v.visit_mapping(self);
        let ghost mid_v = *v;
        proof {
            assert(mapping_answered::<V, D>(pre_v, pre, *v, *self, answer));
            let (mv0, mn0) = choose|mv: &mut V, mn: &mut Mapping|
                *mv == pre_v && *final(mv) == mid_v && *mn == pre
                    && #[trigger] call_ensures(V::visit_mapping, (mv, mn), answer);
            assert(called::<V, D>(Node::Mapping(pre), mv0, answer));
        }
        match answer {
            Ok(Step::Descend) => {
                let r = self.visit(v);
                proof {
                    assert forall|made: spec_fn(Call<V>) -> bool|
                        #![trigger picked(made)]
                        picked(made)
                            && (forall|mv: &mut V, node: Node, answer: Result<Step, VisitError>|
                                #[trigger] called::<V, D>(node, mv, answer) ==> made(
                                    (Call { node, before: *mv, after: *final(mv), answer }),
                                ))
                        implies pre.accepted::<V, D>(made, pre_v, *v, *self, r) by {
                    }
                }
                r
            },
            Ok(Step::Prune) => {
                proof {
                    assert forall|made: spec_fn(Call<V>) -> bool|
                        #![trigger picked(made)]
                        picked(made)
                            && (forall|mv: &mut V, node: Node, answer: Result<Step, VisitError>|
                                #[trigger] called::<V, D>(node, mv, answer) ==> made(
                                    (Call { node, before: *mv, after: *final(mv), answer }),
                                ))
                        implies pre.accepted::<V, D>(
                            made,
                            pre_v,
                            *v,
                            *self,
                            Ok::<(), VisitError>(()),
                        ) by {
                    }
                }
                Ok(())
            },
            Err(e) => {
                proof {
                    assert forall|made: spec_fn(Call<V>) -> bool|
                        #![trigger picked(made)]
                        picked(made)
                            && (forall|mv: &mut V, node: Node, answer: Result<Step, VisitError>|
                                #[trigger] called::<V, D>(node, mv, answer) ==> made(
                                    (Call { node, before: *mv, after: *final(mv), answer }),
                                ))
                        implies pre.accepted::<V, D>(
                            made,
                            pre_v,
                            *v,
                            *self,
                            Err::<(), VisitError>(e),
                        ) by {
                    }
                }
                Err(e)
            },
        }
    }
}

impl Visitable for Mapping {
    /// Does nothing: the walk does not enter a mapping.
    fn visit<V: Visitor<D>, D>(&mut self, v: &mut V) -> (r: Result<(), VisitError>)
        ensures
            r is Ok,
            *final(self) == *old(self),
            *final(v) == *old(v),
    {
        Ok(())
    }
}

impl UserDefinedTypeName {
    /// How `accept` takes this node and the visitor `pre_v` to `post` and `post_v`,
    /// with the result `r`, the calls of callbacks being among `made`: the callback for
    /// this kind is called with `pre_v` and this node, answers, and leaves `mid_v` and
    /// `mid`, which is no deeper; after [`Step::Descend`] the children of `mid` are
    /// walked from `mid_v`, after anything else nothing more happens, and an error is
    /// the result as it is.
    pub open spec fn accepted<V: Visitor<D>, D>(
        &self,
        made: spec_fn(Call<V>) -> bool,
        pre_v: V,
        post_v: V,
        post: UserDefinedTypeName,
        r: Result<(), VisitError>,
    ) -> bool
    {
        exists|mid_v: V, mid: UserDefinedTypeName, answer: Result<Step, VisitError>|
            #[trigger] user_defined_type_name_answered::<V, D>(pre_v, *self, mid_v, mid, answer)
                && made(
                    (Call {
                        node: Node::UserDefinedTypeName(*self),
                        before: pre_v,
                        after: mid_v,
                        answer,
                    }),
                )
                && post_v == mid_v && post == mid && match answer {
                    Ok(_) => r is Ok,
                    Err(e) => r == Err::<(), VisitError>(e),
                }
    }

    /// Hands this node to [`Visitor::visit_user_defined_type_name`]. The node has no
    /// children that the walk enters, so nothing follows the callback; its error, if
    /// any, is handed on.
    pub fn accept<V: Visitor<D>, D>(&mut self, v: &mut V) -> (r: Result<(), VisitError>)
        ensures
            final(self).depth() <= old(self).depth(),
            final(v).shared() == old(v).shared(),
            unfailing::<V, D>() ==> r is Ok,
            old(v).inert() ==> r is Ok && *final(v) == *old(v) && final(self).same_as(old(self)),
            forall|made: spec_fn(Call<V>) -> bool|
                #![trigger picked(made)]
                picked(made)
                    && (forall|mv: &mut V, node: Node, answer: Result<Step, VisitError>|
                        #[trigger] called::<V, D>(node, mv, answer) ==> made(
                            (Call { node, before: *mv, after: *final(mv), answer }),
                        ))
                    ==> old(self).accepted::<V, D>(made, *old(v), *final(v), *final(self), r),
            forall|made: spec_fn(Call<V>) -> bool|
                #![trigger picked(made)]
                picked(made)
                    && (forall|mv: &mut V, node: Node, answer: Result<Step, VisitError>|
                        #[trigger] called::<V, D>(node, mv, answer) ==> made(
                            (Call { node, before: *mv, after: *final(mv), answer }),
                        ))
                    ==> failure_was_answered(made, r),
            between(*final(v), r),
            exists|mv: &mut V, mn: &mut UserDefinedTypeName, answer: Result<Step, VisitError>|
                *mv == *old(v) && *mn == *old(self)
                    && #[trigger] call_ensures(V::visit_user_defined_type_name, (mv, mn), answer)
                    && settled::<V, D, UserDefinedTypeName>(
                        answer,
                        r,
                        *final(mv),
                        *final(v),
                        *final(mn),
                        *final(self),
                    ),
    {
        let ghost pre_v = *v;
        let ghost pre = *self;
        let answer = v.visit_user_defined_type_name(self);
        let ghost mid_v = *v;
        proof {
            assert(user_defined_type_name_answered::<V, D>(pre_v, pre, *v, *self, answer));
            let (mv0, mn0) = choose|mv: &mut V, mn: &mut UserDefinedTypeName|
                *mv == pre_v && *final(mv) == mid_v && *mn == pre
                    && #[trigger] call_ensures(V::visit_user_defined_type_name, (mv, mn), answer);
            assert(called::<V, D>(Node::UserDefinedTypeName(pre), mv0, answer));
        }
        match answer {
            Ok(Step::Descend) => {
                let r = self.visit(v);
                proof {
                    assert forall|made: spec_fn(Call<V>) -> bool|
                        #![trigger picked(made)]
                        picked(made)
                            && (forall|mv: &mut V, node: Node, answer: Result<Step, VisitError>|
                                #[trigger] called::<V, D>(node, mv, answer) ==> made(
                                    (Call { node, before: *mv, after: *final(mv), answer }),
                                ))
                        implies pre.accepted::<V, D>(made, pre_v, *v, *self, r) by {
                    }
                }
                r
            },
            Ok(Step::Prune) => {
                proof {
                    assert forall|made: spec_fn(Call<V>) -> bool|
                        #![trigger picked(made)]
                        picked(made)
                            && (forall|mv: &mut V, node: Node, answer: Result<Step, VisitError>|
                                #[trigger] called::<V, D>(node, mv, answer) ==> made(
                                    (Call { node, before: *mv, after: *final(mv), answer }),
                                ))
                        implies pre.accepted::<V, D>(
                            made,
                            pre_v,
                            *v,
                            *self,
                            Ok::<(), VisitError>(()),
                        ) by {
                    }
                }
                Ok(())
            },
            Err(e) => {
                proof {
                    assert forall|made: spec_fn(Call<V>) -> bool|
                        #![trigger picked(made)]
                        picked(made)
                            && (forall|mv: &mut V, node: Node, answer: Result<Step, VisitError>|
                                #[trigger] called::<V, D>(node, mv, answer) ==> made(
                                    (Call { node, before: *mv, after: *final(mv), answer }),
                                ))
                        implies pre.accepted::<V, D>(
                            made,
                            pre_v,
                            *v,
                            *self,
                            Err::<(), VisitError>(e),
                        ) by {
                    }
                }
                Err(e)
            },
        }
    }
}

impl Visitable for UserDefinedTypeName {
    /// Does nothing: the walk does not enter a user defined type name.
    fn visit<V: Visitor<D>, D>(&mut self, v: &mut V) -> (r: Result<(), VisitError>)
        ensures
            r is Ok,
            *final(self) == *old(self),
            *final(v) == *old(v),
    {
        Ok(())
    }
}

impl UserDefinedTypeNameOrIdentifierPath {
    /// How `visit` takes this node and the visitor `pre_v` to `post` and `post_v`, with
    /// the result `r`, the calls of callbacks being among `made`: as `accept` does on
    /// the node inside, which keeps its kind.
    pub open spec fn walked<V: Visitor<D>, D>(
        &self,
        made: spec_fn(Call<V>) -> bool,
        pre_v: V,
        post_v: V,
        post: UserDefinedTypeNameOrIdentifierPath,
        r: Result<(), VisitError>,
    ) -> bool
        decreases self.depth(), 0int, 0int,
    {
        match (self, post) {
            (
                UserDefinedTypeNameOrIdentifierPath::UserDefinedTypeName(a),
                UserDefinedTypeNameOrIdentifierPath::UserDefinedTypeName(b),
            ) => a.accepted::<V, D>(made, pre_v, post_v, b, r),
            (
                UserDefinedTypeNameOrIdentifierPath::IdentifierPath(a),
                UserDefinedTypeNameOrIdentifierPath::IdentifierPath(b),
            ) => a.accepted::<V, D>(made, pre_v, post_v, b, r),
            _ => false,
        }
    }
}

impl Visitable for UserDefinedTypeNameOrIdentifierPath {
    /// Hands the node inside to the callback of its kind, and to no other, as `accept`
    /// on that kind does.
    fn visit<V: Visitor<D>, D>(&mut self, v: &mut V) -> (r: Result<(), VisitError>)
        ensures
            forall|made: spec_fn(Call<V>) -> bool|
                #![trigger picked(made)]
                picked(made)
                    && (forall|mv: &mut V, node: Node, answer: Result<Step, VisitError>|
                        #[trigger] called::<V, D>(node, mv, answer) ==> made(
                            (Call { node, before: *mv, after: *final(mv), answer }),
                        ))
                    ==> old(self).walked::<V, D>(made, *old(v), *final(v), *final(self), r),
            forall|made: spec_fn(Call<V>) -> bool|
                #![trigger picked(made)]
                picked(made)
                    && (forall|mv: &mut V, node: Node, answer: Result<Step, VisitError>|
                        #[trigger] called::<V, D>(node, mv, answer) ==> made(
                            (Call { node, before: *mv, after: *final(mv), answer }),
                        ))
                    ==> failure_was_answered(made, r),
            between(*final(v), r),
            *old(self) matches UserDefinedTypeNameOrIdentifierPath::UserDefinedTypeName(n)
                ==> ((*final(self)) is UserDefinedTypeName
                && exists|
                    mv: &mut V,
                    mn: &mut UserDefinedTypeName,
                    answer: Result<Step, VisitError>,
                |
                    *mv == *old(v) && *mn == n
                        && #[trigger] call_ensures(
                            V::visit_user_defined_type_name,
                            (mv, mn),
                            answer,
                        )
                        && settled::<V, D, UserDefinedTypeName>(
                            answer,
                            r,
                            *final(mv),
                            *final(v),
                            *final(mn),
                            (*final(self))->UserDefinedTypeName_0,
                        )),
            *old(self) matches UserDefinedTypeNameOrIdentifierPath::IdentifierPath(n)
                ==> ((*final(self)) is IdentifierPath
                && exists|mv: &mut V, mn: &mut IdentifierPath, answer: Result<Step, VisitError>|
                    *mv == *old(v) && *mn == n
                        && #[trigger] call_ensures(V::visit_identifier_path, (mv, mn), answer)
                        && settled::<V, D, IdentifierPath>(
                            answer,
                            r,
                            *final(mv),
                            *final(v),
                            *final(mn),
                            (*final(self))->IdentifierPath_0,
                        )),
        decreases old(self).depth(), 0int,
    {
        match self {
            UserDefinedTypeNameOrIdentifierPath::UserDefinedTypeName(e) => e.accept(v),
            UserDefinedTypeNameOrIdentifierPath::IdentifierPath(e) => e.accept(v),
        }
    }
}

/// How the walk takes an optional slot and the visitor `pre_v` to `post` and `post_v`,
/// with the result `r`, the calls of callbacks being among `made`: the node, if there
/// is one, is walked; an empty slot stays empty, and nothing is called.
pub open spec fn maybe_user_defined_type_name_or_identifier_path_walked<V: Visitor<D>, D>(
    made: spec_fn(Call<V>) -> bool,
    pre: Option<UserDefinedTypeNameOrIdentifierPath>,
    pre_v: V,
    post_v: V,
    post: Option<UserDefinedTypeNameOrIdentifierPath>,
    r: Result<(), VisitError>,
) -> bool
    decreases
        (match pre {
            Some(e) => e.depth(),
            None => 0,
        }),
        2int,
        0int,
{
    match (pre, post) {
        (Some(a), Some(b)) => a.walked::<V, D>(made, pre_v, post_v, b, r),
        (None, None) => r is Ok && post_v == pre_v,
        _ => false,
    }
}

/// Walks what an optional slot holds, and does nothing if it is empty.
pub fn visit_maybe_user_defined_type_name_or_identifier_path<V: Visitor<D>, D>(
    slot: &mut Option<UserDefinedTypeNameOrIdentifierPath>,
    v: &mut V,
) -> (r: Result<(), VisitError>)
    ensures
        forall|made: spec_fn(Call<V>) -> bool|
            #![trigger picked(made)]
            picked(made)
                && (forall|mv: &mut V, node: Node, answer: Result<Step, VisitError>|
                    #[trigger] called::<V, D>(node, mv, answer) ==> made(
                        (Call { node, before: *mv, after: *final(mv), answer }),
                    ))
                ==> maybe_user_defined_type_name_or_identifier_path_walked::<V, D>(
                    made,
                    *old(slot),
                    *old(v),
                    *final(v),
                    *final(slot),
                    r,
                ),
        forall|made: spec_fn(Call<V>) -> bool|
            #![trigger picked(made)]
            picked(made)
                && (forall|mv: &mut V, node: Node, answer: Result<Step, VisitError>|
                    #[trigger] called::<V, D>(node, mv, answer) ==> made(
                        (Call { node, before: *mv, after: *final(mv), answer }),
                    ))
                ==> failure_was_answered(made, r),
        between(*final(v), r),
        ((*final(slot)) is Some) == ((*old(slot)) is Some),
        (match *final(slot) {
            Some(e) => e.depth(),
            None => 0,
        })
        <= (match *old(slot) {
            Some(e) => e.depth(),
            None => 0,
        }),
        final(v).shared() == old(v).shared(),
        unfailing::<V, D>() ==> r is Ok,
        old(v).inert() ==> {
            &&& r is Ok
            &&& *final(v) == *old(v)
            &&& (match (*final(slot), *old(slot)) {
                (Some(a), Some(b)) => a.same_as(&b),
                (None, None) => true,
                _ => false,
            })
        },
    decreases
        (match *old(slot) {
            Some(e) => e.depth(),
            None => 0,
        }),
        2int,
{
    match slot {
        Some(e) => e.visit(v),
        None => Ok(()),
    }
}

impl Visitable for Option<UserDefinedTypeNameOrIdentifierPath> {
    /// Walks the node if there is one, as
    /// [`visit_maybe_user_defined_type_name_or_identifier_path`] does.
    fn visit<V: Visitor<D>, D>(&mut self, v: &mut V) -> (r: Result<(), VisitError>)
        ensures
            forall|made: spec_fn(Call<V>) -> bool|
                #![trigger picked(made)]
                picked(made)
                    && (forall|mv: &mut V, node: Node, answer: Result<Step, VisitError>|
                        #[trigger] called::<V, D>(node, mv, answer) ==> made(
                            (Call { node, before: *mv, after: *final(mv), answer }),
                        ))
                    ==> maybe_user_defined_type_name_or_identifier_path_walked::<V, D>(
                        made,
                        *old(self),
                        *old(v),
                        *final(v),
                        *final(self),
                        r,
                    ),
            forall|made: spec_fn(Call<V>) -> bool|
                #![trigger picked(made)]
                picked(made)
                    && (forall|mv: &mut V, node: Node, answer: Result<Step, VisitError>|
                        #[trigger] called::<V, D>(node, mv, answer) ==> made(
                            (Call { node, before: *mv, after: *final(mv), answer }),
                        ))
                    ==> failure_was_answered(made, r),
            ((*final(self)) is Some) == ((*old(self)) is Some),
    {
        visit_maybe_user_defined_type_name_or_identifier_path(self, v)
    }
}

/// The items of `pre` that stand where `done` has items have been walked with success,
/// in order and each once, the first from the visitor `pre_v` and each next one from
/// the visitor as the one before has left it; they are now what `done` holds, and the
/// visitor is `v`. (The clause on the depths holds of every sequence: it is what lets
/// this definition end.)
pub open spec fn user_defined_type_name_or_identifier_paths_walked_to<V: Visitor<D>, D>(
    made: spec_fn(Call<V>) -> bool,
    pre: Seq<UserDefinedTypeNameOrIdentifierPath>,
    done: Seq<UserDefinedTypeNameOrIdentifierPath>,
    pre_v: V,
    v: V,
) -> bool
    decreases user_defined_type_name_or_identifier_paths_depth(pre), 3int, done.len(),
{
    if done.len() == 0 {
        v == pre_v
    } else if done.len() > pre.len() {
        false
    } else {
        &&& user_defined_type_name_or_identifier_paths_depths(pre)[done.len() - 1] <= user_defined_type_name_or_identifier_paths_depth(pre)
        &&& exists|u: V, ok: Result<(), VisitError>|
            #[trigger] between(u, ok) && ok is Ok
                && user_defined_type_name_or_identifier_paths_walked_to::<V, D>(
                    made,
                    pre,
                    done.drop_last(),
                    pre_v,
                    u,
                )
                && pre[done.len() - 1].walked::<V, D>(made, u, v, done.last(), ok)
    }
}

/// How the walk takes the items `pre` and the visitor `pre_v` to `post` and `post_v`,
/// with the result `r`: the items are walked in order, each once, each from the visitor
/// as the one before has left it, up to the first failure. That failure is the result,
/// and the items behind it are as they were. (The clause on the depths holds of every
/// sequence.)
pub open spec fn user_defined_type_name_or_identifier_paths_walked<V: Visitor<D>, D>(
    made: spec_fn(Call<V>) -> bool,
    pre: Seq<UserDefinedTypeNameOrIdentifierPath>,
    pre_v: V,
    post_v: V,
    post: Seq<UserDefinedTypeNameOrIdentifierPath>,
    r: Result<(), VisitError>,
) -> bool
{
    &&& pre.len() == post.len()
    &&& match r {
        Ok(_) => user_defined_type_name_or_identifier_paths_walked_to::<V, D>(
            made,
            pre,
            post,
            pre_v,
            post_v,
        ),
        Err(e) => exists|k: int, u: V|
            #[trigger] reached(k, u) && 0 <= k < pre.len()
                && user_defined_type_name_or_identifier_paths_depths(pre)[k] <= user_defined_type_name_or_identifier_paths_depth(pre)
                && user_defined_type_name_or_identifier_paths_walked_to::<V, D>(
                    made,
                    pre,
                    post.take(k),
                    pre_v,
                    u,
                )
                && pre[k].walked::<V, D>(made, u, post_v, post[k], Err::<(), VisitError>(e))
                && forall|j: int| k < j < pre.len() ==> post[j] == pre[j],
    }
}

/// Walks `items` in order. The first failure ends the walk; the items after it are left
/// alone.
pub fn visit_user_defined_type_name_or_identifier_paths<V: Visitor<D>, D>(
    items: &mut Vec<UserDefinedTypeNameOrIdentifierPath>,
    v: &mut V,
) -> (r: Result<(), VisitError>)
    ensures
        forall|made: spec_fn(Call<V>) -> bool|
            #![trigger picked(made)]
            picked(made)
                && (forall|mv: &mut V, node: Node, answer: Result<Step, VisitError>|
                    #[trigger] called::<V, D>(node, mv, answer) ==> made(
                        (Call { node, before: *mv, after: *final(mv), answer }),
                    ))
                ==> user_defined_type_name_or_identifier_paths_walked::<V, D>(
                    made,
                    old(items)@,
                    *old(v),
                    *final(v),
                    final(items)@,
                    r,
                ),
        forall|made: spec_fn(Call<V>) -> bool|
            #![trigger picked(made)]
            picked(made)
                && (forall|mv: &mut V, node: Node, answer: Result<Step, VisitError>|
                    #[trigger] called::<V, D>(node, mv, answer) ==> made(
                        (Call { node, before: *mv, after: *final(mv), answer }),
                    ))
                ==> failure_was_answered(made, r),
        between(*final(v), r),
        final(items)@.len() == old(items)@.len(),
        user_defined_type_name_or_identifier_paths_depth(final(items)@)
            <= user_defined_type_name_or_identifier_paths_depth(old(items)@),
        final(v).shared() == old(v).shared(),
        unfailing::<V, D>() ==> r is Ok,
        old(v).inert() ==> {
            &&& r is Ok
            &&& *final(v) == *old(v)
            &&& user_defined_type_name_or_identifier_paths_same(final(items)@, old(items)@)
        },
    decreases user_defined_type_name_or_identifier_paths_depth(old(items)@), 3int,
{
    let n = items.len();
    let mut i: usize = 0;
    while i < n
        invariant
            i <= n,
            n == items@.len(),
            n == old(items)@.len(),
            forall|j: int| i <= j < n ==> items@[j] == old(items)@[j],
            forall|j: int|
                0 <= j < n ==> user_defined_type_name_or_identifier_paths_depths(items@)[j]
                    <= user_defined_type_name_or_identifier_paths_depths(old(items)@)[j],
            v.shared() == old(v).shared(),
            old(v).inert() ==> *v == *old(v),
            forall|made: spec_fn(Call<V>) -> bool|
                #![trigger picked(made)]
                picked(made)
                    && (forall|mv: &mut V, node: Node, answer: Result<Step, VisitError>|
                        #[trigger] called::<V, D>(node, mv, answer) ==> made(
                            (Call { node, before: *mv, after: *final(mv), answer }),
                        ))
                    ==> user_defined_type_name_or_identifier_paths_walked_to::<V, D>(
                        made,
                        old(items)@,
                        items@.take(i as int),
                        *old(v),
                        *v,
                    ),
            old(v).inert() ==> forall|j: int|
                #![trigger items@[j]]
                0 <= j < i ==> items@[j].same_as(&old(items)@[j]),
        decreases n - i,
    {
        proof {
            lemma_user_defined_type_name_or_identifier_paths_depth_bound(old(items)@, i as int);
        }
        let ghost done = items@.take(i as int);
        let ghost u = *v;
        let step = items[i].visit(v);
        proof {
            assert(between(u, step));
        }
        match step {
            Ok(_) => {
                proof {
                    let grown = items@.take(i + 1);
                    assert(grown.drop_last() =~= done);
                    assert(grown.last() == items@[i as int]);
                    assert forall|made: spec_fn(Call<V>) -> bool|
                        #![trigger picked(made)]
                        picked(made)
                            && (forall|mv: &mut V, node: Node, answer: Result<Step, VisitError>|
                                #[trigger] called::<V, D>(node, mv, answer) ==> made(
                                    (Call { node, before: *mv, after: *final(mv), answer }),
                                ))
                        implies user_defined_type_name_or_identifier_paths_walked_to::<V, D>(
                            made,
                            old(items)@,
                            grown,
                            *old(v),
                            *v,
                        ) by {
                        assert(user_defined_type_name_or_identifier_paths_walked_to::<V, D>(
                            made,
                            old(items)@,
                            done,
                            *old(v),
                            u,
                        ));
                    }
                }
            },
            Err(e) => {
                proof {
                    lemma_user_defined_type_name_or_identifier_paths_depth_mono(
                        items@,
                        old(items)@,
                    );
                    assert(items@.take(i as int) =~= done);
                    assert(reached(i as int, u));
                    assert forall|made: spec_fn(Call<V>) -> bool|
                        #![trigger picked(made)]
                        picked(made)
                            && (forall|mv: &mut V, node: Node, answer: Result<Step, VisitError>|
                                #[trigger] called::<V, D>(node, mv, answer) ==> made(
                                    (Call { node, before: *mv, after: *final(mv), answer }),
                                ))
                        implies user_defined_type_name_or_identifier_paths_walked::<V, D>(
                            made,
                            old(items)@,
                            *old(v),
                            *v,
                            items@,
                            Err::<(), VisitError>(e),
                        ) by {
                        assert(user_defined_type_name_or_identifier_paths_walked_to::<V, D>(
                            made,
                            old(items)@,
                            done,
                            *old(v),
                            u,
                        ));
                    }
                }
                return Err(e);
            },
        }
        i += 1;
    }
    proof {
        lemma_user_defined_type_name_or_identifier_paths_depth_mono(items@, old(items)@);
        assert(items@.take(n as int) =~= items@);
    }
    Ok(())
}

impl Visitable for Vec<UserDefinedTypeNameOrIdentifierPath> {
    /// Walks the items in order, as
    /// [`visit_user_defined_type_name_or_identifier_paths`] does.
    fn visit<V: Visitor<D>, D>(&mut self, v: &mut V) -> (r: Result<(), VisitError>)
        ensures
            forall|made: spec_fn(Call<V>) -> bool|
                #![trigger picked(made)]
                picked(made)
                    && (forall|mv: &mut V, node: Node, answer: Result<Step, VisitError>|
                        #[trigger] called::<V, D>(node, mv, answer) ==> made(
                            (Call { node, before: *mv, after: *final(mv), answer }),
                        ))
                    ==> user_defined_type_name_or_identifier_paths_walked::<V, D>(
                        made,
                        old(self)@,
                        *old(v),
                        *final(v),
                        final(self)@,
                        r,
                    ),
            forall|made: spec_fn(Call<V>) -> bool|
                #![trigger picked(made)]
                picked(made)
                    && (forall|mv: &mut V, node: Node, answer: Result<Step, VisitError>|
                        #[trigger] called::<V, D>(node, mv, answer) ==> made(
                            (Call { node, before: *mv, after: *final(mv), answer }),
                        ))
                    ==> failure_was_answered(made, r),
            final(self)@.len() == old(self)@.len(),
    {
        let ghost before = self@;
        let r = visit_user_defined_type_name_or_identifier_paths(self, v);
        proof {
            assert(depths_of(before) =~= user_defined_type_name_or_identifier_paths_depths(before));
            assert(depths_of(self@) =~= user_defined_type_name_or_identifier_paths_depths(self@));
        }
        r
    }
}

} // verus!
