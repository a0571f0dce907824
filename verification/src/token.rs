//! The token alphabet the grammar engine consumes.
//!
//! Tokenization itself is an external collaborator: a lexer turns source
//! text into a finite stream of these tokens, ending with `EndOfFile`.
//! A literal is carried as its textual rendering, the only capability the
//! engine needs of it.

use vstd::prelude::*;

verus! {

/// The reserved words and operator lexemes of the language.
#[derive(Debug, PartialEq, Eq, Structural, Copy, Clone)]
pub enum Reserved {
    Let,
    Val,
    Equal,
    In,
    End,
    If,
    Then,
    Else,
    OrElse,
    AndAlso,
    Not,
    Add,
    Sub,
    Mult,
    Div,
    Mod,
    LessThan,
}

/// Which way a parenthesis faces.
#[derive(Debug, PartialEq, Eq, Structural, Copy, Clone)]
pub enum Direction {
    Left,
    Right,
}

/// One lexical unit of the input stream.
#[derive(Debug, PartialEq, Eq)]
pub enum Token {
    /// An identifier carrying its name.
    Name(String),
    /// A literal carrying its textual rendering.
    Lit(String),
    /// A whitespace run carrying its length; a run of length zero
    /// matches nothing.
    Space(usize),
    /// A keyword or operator lexeme.
    Keyword(Reserved),
    /// A parenthesis tagged with its direction.
    Paren(Direction),
    /// The distinguished end-of-input marker.
    EndOfFile,
}

/// A whitespace-run token of strictly positive length.
pub open spec fn is_space_tok(t: Token) -> bool {
    match t {
        Token::Space(n) => n > 0,
        _ => false,
    }
}

/// The given keyword token.
pub open spec fn is_kw(t: Token, k: Reserved) -> bool {
    match t {
        Token::Keyword(r) => r == k,
        _ => false,
    }
}

/// The parenthesis token facing the given way.
pub open spec fn is_paren(t: Token, d: Direction) -> bool {
    match t {
        Token::Paren(p) => p == d,
        _ => false,
    }
}

/// The end-of-input token.
pub open spec fn is_eof(t: Token) -> bool {
    match t {
        Token::EndOfFile => true,
        _ => false,
    }
}

} // verus!
