//! Two measures that every node of a tree has: how deep the walk may go below
//! it, and what it means for two nodes to hold the same.

use vstd::prelude::*;

verus! {

/// What the contracts of the walk say of a node.
pub trait Shape {
    /// The length of the longest chain of child slots that the walk may follow
    /// from this node down. A node that the walk does not enter has depth 0,
    /// whatever it holds.
    spec fn depth(&self) -> nat;

    /// `other` holds what this node holds. A slot that the walk does not enter
    /// must be equal in both; a child that the walk enters must in turn hold the
    /// same; two vectors of children must be equally long and hold the same item
    /// by item.
    ///
    /// This stands where one would say that two nodes are equal: a walk that
    /// changes nothing still takes every vector of children in hand, and of a
    /// vector that was in hand the contracts know the items only.
    spec fn same_as(&self, other: &Self) -> bool;
}

/// The larger of two numbers.
pub open spec fn top(a: nat, b: nat) -> nat {
    if a >= b {
        a
    } else {
        b
    }
}

/// The largest number of `s`, or 0 if `s` is empty.
pub open spec fn max_of(s: Seq<nat>) -> nat
    decreases s.len(),
{
    if s.len() == 0 {
        0
    } else {
        top(s.last(), max_of(s.drop_last()))
    }
}

/// No number of `s` is above the largest.
pub proof fn lemma_max_of_bounds(s: Seq<nat>, i: int)
    requires
        0 <= i < s.len(),
    ensures
        s[i] <= max_of(s),
    decreases s.len(),
{
    if i < s.len() - 1 {
        lemma_max_of_bounds(s.drop_last(), i);
    }
}

/// Where `s` is nowhere above `t`, its largest number is not above that of `t`.
pub proof fn lemma_max_of_mono(s: Seq<nat>, t: Seq<nat>)
    requires
        s.len() == t.len(),
        forall|i: int| 0 <= i < s.len() ==> s[i] <= t[i],
    ensures
        max_of(s) <= max_of(t),
    decreases s.len(),
{
    if s.len() > 0 {
        lemma_max_of_mono(s.drop_last(), t.drop_last());
    }
}

/// The depth of each of `items`, in order.
pub open spec fn depths_of<T: Shape>(items: Seq<T>) -> Seq<nat> {
    Seq::new(items.len(), |i: int| items[i].depth())
}

impl<T: Shape> Shape for Vec<T> {
    open spec fn depth(&self) -> nat {
        max_of(depths_of(self@))
    }

    open spec fn same_as(&self, other: &Self) -> bool {
        &&& self@.len() == other@.len()
        &&& forall|i: int|
            #![trigger self@[i]]
            0 <= i < self@.len() ==> self@[i].same_as(&other@[i])
    }
}

impl<T: Shape> Shape for Option<T> {
    open spec fn depth(&self) -> nat {
        match self {
            Some(e) => e.depth(),
            None => 0,
        }
    }

    open spec fn same_as(&self, other: &Self) -> bool {
        match (self, other) {
            (Some(a), Some(b)) => a.same_as(b),
            (None, None) => true,
            _ => false,
        }
    }
}

} // verus!
