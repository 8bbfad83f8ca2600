//! A typed syntax tree for a contract language, and a walk over it.
//!
//! - [`ast`] holds the node catalogue: plain records that own their children, the
//!   kinds of each syntactic category forming a closed sum type.
//! - [`misc`] holds what the nodes carry besides their children: source
//!   locations with their text form, the keyword enums, and type descriptions.
//! - [`visitor`] holds the walk: the [`visitor::Visitor`] with one callback for
//!   each kind of node, [`visitor::Visitable`] for the nodes, and
//!   [`visitor::walk`] for a whole tree.
//! - [`shape`] holds the two measures in which the contracts of the walk speak of
//!   a node: its depth, and whether it holds what another node holds.
//!
//! A tree is not read from source text here. It is built elsewhere, handed over
//! whole, and taken as it is.

pub mod ast;
pub mod misc;
pub mod shape;
pub mod visitor;
