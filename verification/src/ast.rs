//! The abstract syntax tree at the parser boundary.
//!
//! The grammar-driven parser that consumes the token stream is an external
//! collaborator of this library: it pulls spanned tokens and produces a tree
//! over these variants.  The shape is given here so that the boundary can be
//! described; no function of the library builds or reads it.

use vstd::prelude::*;

verus! {

/// One node of the parser's output tree.
///
/// `Tbd` is an explicit placeholder for constructs the grammar does not model
/// yet; it carries the raw name that was seen.
#[derive(Debug, PartialEq)]
pub enum Expr {
    DefFunc { name: String, exprs: Vec<Expr> },
    DefModule { name: String, exprs: Vec<Expr> },
    Use { name: String },
    List { elems: Vec<Expr> },
    Tuple { elems: Vec<Expr> },
    Atom { value: String },
    StringLit { value: String },
    FuncCall { name: String, args: Vec<Expr> },
    True,
    Tbd { name: String },
}

} // verus!
