//! A small expression language: a token-stream parser that builds an
//! abstract syntax tree, and two renderers that lay the tree out as text.
//!
//! The token alphabet is produced by an external lexer and consumed here
//! through the `token` module's own model of it.  The grammar engine in
//! `parser` turns a token stream into an `Expr`; the `render` module turns
//! an `Expr` back into a box-drawing tree or an indented outline.

pub mod token;
pub mod expr;
pub mod parser;
pub mod render;
