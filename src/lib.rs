//! A compact, immutable representation of a recursive (tree-shaped) expression:
//! nodes built in an append-only arena, frozen at a root, and rendered as an
//! S-expression.

pub mod symbol;
pub mod expr;
pub mod laws;
mod print;

pub use expr::{ENode, ExprError, Id, RExpr, RExprBuilder};
