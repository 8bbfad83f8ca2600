//! The node catalogue: every kind of node that a tree can hold.
//!
//! A node is a plain record that owns its children; none knows its parent. The
//! kinds of one syntactic category form a closed sum type.

pub mod definition;
pub mod expression;
pub mod source_unit;
pub mod statement;
pub mod types;
pub mod yul;
