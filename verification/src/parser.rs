//! The grammar engine: nine mutually recursive precedence levels that
//! turn a token stream into an `Expr`.
//!
//! Each level is specified by a spec-level parsing function over the
//! stream and a cursor; the executable level is proved to return exactly
//! what its spec function says.  A result is either `Ok((value, next))`
//! with the cursor after the consumed tokens, or `Err((consumed, at))`:
//! a failure at position `at` that has (`true`) or has not (`false`)
//! consumed input.  A failure that consumed nothing lets an enclosing
//! choice try its next alternative; one that consumed is fatal for the
//! choice, as when a let-form fails midway after its `let` keyword
//! matched.

use vstd::prelude::*;

use crate::token::{Token, Reserved, Direction, is_space_tok, is_kw, is_paren, is_eof};
use crate::expr::{Expr, UnaryOp, BinaryOp};

verus! {

/// The single failure report of the engine: no alternative matched at
/// this position.
#[derive(Debug, PartialEq, Eq, Structural, Copy, Clone)]
pub struct ParseError {
    pub position: usize,
}

/// Which left-associative fold level an operator belongs to.
#[derive(Debug, Copy, Clone)]
pub enum OpLevel {
    /// `orelse`
    Or,
    /// `andalso`
    And,
    /// `=` and `<`, the non-chaining comparisons
    Cmp,
    /// `+` and `-`
    AddSub,
    /// `*`, `div` and `mod`
    MulDivMod,
}

// ---------------------------------------------------------------------
// Lexical helpers: one token, with optional whitespace around it.
// ---------------------------------------------------------------------

/// One whitespace-run token of positive length at `pos`; a run of
/// length zero is treated as absent whitespace and does not match.
pub open spec fn sp_space(s: Seq<Token>, pos: int) -> Result<int, (bool, int)> {
    if 0 <= pos < s.len() && is_space_tok(s[pos]) {
        Ok(pos + 1)
    } else {
        Err((false, pos))
    }
}

/// The cursor after an optional whitespace-run token: consumes zero or
/// one of them, never fails.
pub open spec fn sp_skip(s: Seq<Token>, pos: int) -> int {
    if 0 <= pos < s.len() && is_space_tok(s[pos]) {
        pos + 1
    } else {
        pos
    }
}

/// The keyword `k`, bracketed by optional whitespace on both sides.
pub open spec fn sp_lex_kw(s: Seq<Token>, pos: int, k: Reserved) -> Result<int, (bool, int)> {
    let p = sp_skip(s, pos);
    if p < s.len() && is_kw(s[p], k) {
        Ok(sp_skip(s, p + 1))
    } else {
        Err((p != pos, p))
    }
}

/// A name token, bracketed by optional whitespace, yielding its
/// identifier.
pub open spec fn sp_lex_name(s: Seq<Token>, pos: int) -> Result<(String, int), (bool, int)> {
    let p = sp_skip(s, pos);
    if 0 <= p < s.len() {
        match s[p] {
            Token::Name(n) => Ok((n, sp_skip(s, p + 1))),
            _ => Err((p != pos, p)),
        }
    } else {
        Err((p != pos, p))
    }
}

/// A parenthesis facing `d`, bracketed by optional whitespace.
pub open spec fn sp_lex_paren(s: Seq<Token>, pos: int, d: Direction) -> Result<int, (bool, int)> {
    let p = sp_skip(s, pos);
    if p < s.len() && is_paren(s[p], d) {
        Ok(sp_skip(s, p + 1))
    } else {
        Err((p != pos, p))
    }
}

/// The end-of-input token, with optional whitespace before it.
pub open spec fn sp_lex_eof(s: Seq<Token>, pos: int) -> Result<int, (bool, int)> {
    let p = sp_skip(s, pos);
    if p < s.len() && is_eof(s[p]) {
        Ok(p + 1)
    } else {
        Err((p != pos, p))
    }
}

/// The binary operator that a keyword stands for at a fold level.
pub open spec fn op_of(lv: OpLevel, k: Reserved) -> Option<BinaryOp> {
    match (lv, k) {
        (OpLevel::Or, Reserved::OrElse) => Some(BinaryOp::OrElse),
        (OpLevel::And, Reserved::AndAlso) => Some(BinaryOp::AndAlso),
        (OpLevel::Cmp, Reserved::Equal) => Some(BinaryOp::Equal),
        (OpLevel::Cmp, Reserved::LessThan) => Some(BinaryOp::LessThan),
        (OpLevel::AddSub, Reserved::Add) => Some(BinaryOp::Add),
        (OpLevel::AddSub, Reserved::Sub) => Some(BinaryOp::Sub),
        (OpLevel::MulDivMod, Reserved::Mult) => Some(BinaryOp::Mult),
        (OpLevel::MulDivMod, Reserved::Div) => Some(BinaryOp::Div),
        (OpLevel::MulDivMod, Reserved::Mod) => Some(BinaryOp::Mod),
        _ => None,
    }
}

/// An operator of fold level `lv`, bracketed by optional whitespace.
pub open spec fn sp_lex_op(s: Seq<Token>, pos: int, lv: OpLevel) -> Result<
    (BinaryOp, int),
    (bool, int),
> {
    let p = sp_skip(s, pos);
    if 0 <= p < s.len() {
        match s[p] {
            Token::Keyword(k) => match op_of(lv, k) {
                Some(op) => Ok((op, sp_skip(s, p + 1))),
                None => Err((p != pos, p)),
            },
            _ => Err((p != pos, p)),
        }
    } else {
        Err((p != pos, p))
    }
}

// ---------------------------------------------------------------------
// The grammar, one spec function per precedence level.
//
// The recursion terminates because every successful sub-parse moves the
// cursor strictly forward; the `if prev < next <= s.len()` checks after
// each sub-parse keep that measure obvious to the checker, and their
// `else` arms are never reached.
// ---------------------------------------------------------------------

/// The parenthesized alternative of `atom`: `"(" expn ")"`, both parens
/// whitespace-tolerant; once the opening paren matched, the rest is
/// committed.
pub open spec fn sp_atom_paren(s: Seq<Token>, pos: int) -> Result<(Expr, int), (bool, int)>
    decreases s.len() - pos, 0int,
{
    match sp_lex_paren(s, pos, Direction::Left) {
        Ok(p1) => if pos < p1 <= s.len() {
            match sp_expn(s, p1) {
                Ok((e, p2)) => match sp_lex_paren(s, p2, Direction::Right) {
                    Ok(p3) => Ok((e, p3)),
                    Err((_, fp)) => Err((true, fp)),
                },
                Err((_, fp)) => Err((true, fp)),
            }
        } else {
            Err((true, p1))
        },
        Err(e) => Err(e),
    }
}

/// `atom ::= name | literal | "(" expn ")"`
pub open spec fn sp_atom(s: Seq<Token>, pos: int) -> Result<(Expr, int), (bool, int)>
    decreases s.len() - pos, 1int,
{
    let p = sp_skip(s, pos);
    if 0 <= p < s.len() {
        match s[p] {
            Token::Name(n) => Ok((Expr::Var(n), sp_skip(s, p + 1))),
            Token::Lit(l) => Ok((Expr::Lit(l), sp_skip(s, p + 1))),
            _ => sp_atom_paren(s, pos),
        }
    } else {
        sp_atom_paren(s, pos)
    }
}

/// `nega ::= "not" atom | atom` — `not` binds to a single atom and does
/// not stack; the unary form is a backtracking attempt.
pub open spec fn sp_nega(s: Seq<Token>, pos: int) -> Result<(Expr, int), (bool, int)>
    decreases s.len() - pos, 2int,
{
    match sp_lex_kw(s, pos, Reserved::Not) {
        Ok(p1) => if pos < p1 <= s.len() {
            match sp_atom(s, p1) {
                Ok((a, p2)) => Ok((
                    Expr::Unary { operation: UnaryOp::Not, child: Box::new(a) },
                    p2,
                )),
                Err(_) => sp_atom(s, pos),
            }
        } else {
            Err((true, p1))
        },
        Err(_) => sp_atom(s, pos),
    }
}

/// The left-associative fold shared by `disj`, `conj`, `add` and `mult`:
/// having parsed `acc`, consume `(operator, operand)` pairs of level
/// `lv`, wrapping the accumulator as the new left child each time.
pub open spec fn sp_chain(s: Seq<Token>, pos: int, acc: Expr, lv: OpLevel) -> Result<
    (Expr, int),
    (bool, int),
>
    decreases s.len() - pos, 9int,
{
    match sp_lex_op(s, pos, lv) {
        Ok((op, p1)) => if pos < p1 <= s.len() {
            let operand = match lv {
                OpLevel::Or => sp_conj(s, p1),
                OpLevel::And => sp_cmp(s, p1),
                OpLevel::Cmp => sp_add(s, p1),
                OpLevel::AddSub => sp_mult(s, p1),
                OpLevel::MulDivMod => sp_nega(s, p1),
            };
            match operand {
                Ok((v, p2)) => if p1 < p2 <= s.len() {
                    sp_chain(
                        s,
                        p2,
                        Expr::Binary { left: Box::new(acc), operation: op, right: Box::new(v) },
                        lv,
                    )
                } else {
                    Err((true, p2))
                },
                Err((_, fp)) => Err((true, fp)),
            }
        } else {
            Err((true, p1))
        },
        Err((c, p)) => if c {
            Err((true, p))
        } else {
            Ok((acc, pos))
        },
    }
}

/// `mult ::= mult ("*" | "div" | "mod") nega | nega`
pub open spec fn sp_mult(s: Seq<Token>, pos: int) -> Result<(Expr, int), (bool, int)>
    decreases s.len() - pos, 3int,
{
    match sp_nega(s, pos) {
        Ok((e, p)) => if pos < p <= s.len() {
            sp_chain(s, p, e, OpLevel::MulDivMod)
        } else {
            Err((true, p))
        },
        Err(e) => Err(e),
    }
}

/// `add ::= add ("+" | "-") mult | mult`
pub open spec fn sp_add(s: Seq<Token>, pos: int) -> Result<(Expr, int), (bool, int)>
    decreases s.len() - pos, 4int,
{
    match sp_mult(s, pos) {
        Ok((e, p)) => if pos < p <= s.len() {
            sp_chain(s, p, e, OpLevel::AddSub)
        } else {
            Err((true, p))
        },
        Err(e) => Err(e),
    }
}

/// `cmp ::= add ("=" | "<") add | add` — comparison does not chain: at
/// most one application is accepted, and when the two-operand attempt
/// fails the level backtracks to the plain `add`.
pub open spec fn sp_cmp(s: Seq<Token>, pos: int) -> Result<(Expr, int), (bool, int)>
    decreases s.len() - pos, 5int,
{
    match sp_add(s, pos) {
        Ok((l, p1)) => if pos < p1 <= s.len() {
            match sp_lex_op(s, p1, OpLevel::Cmp) {
                Ok((op, p2)) => if p1 < p2 <= s.len() {
                    match sp_add(s, p2) {
                        Ok((r, p3)) => Ok((
                            Expr::Binary {
                                left: Box::new(l),
                                operation: op,
                                right: Box::new(r),
                            },
                            p3,
                        )),
                        Err(_) => Ok((l, p1)),
                    }
                } else {
                    Err((true, p2))
                },
                Err(_) => Ok((l, p1)),
            }
        } else {
            Err((true, p1))
        },
        Err(e) => Err(e),
    }
}

/// `conj ::= conj "andalso" cmp | cmp`
pub open spec fn sp_conj(s: Seq<Token>, pos: int) -> Result<(Expr, int), (bool, int)>
    decreases s.len() - pos, 6int,
{
    match sp_cmp(s, pos) {
        Ok((e, p)) => if pos < p <= s.len() {
            sp_chain(s, p, e, OpLevel::And)
        } else {
            Err((true, p))
        },
        Err(e) => Err(e),
    }
}

/// `disj ::= disj "orelse" conj | conj`
pub open spec fn sp_disj(s: Seq<Token>, pos: int) -> Result<(Expr, int), (bool, int)>
    decreases s.len() - pos, 7int,
{
    match sp_conj(s, pos) {
        Ok((e, p)) => if pos < p <= s.len() {
            sp_chain(s, p, e, OpLevel::Or)
        } else {
            Err((true, p))
        },
        Err(e) => Err(e),
    }
}

/// The rest of a let-form, after its `let` keyword matched at a cursor
/// now standing at `p1`: from here on any failure is fatal.
pub open spec fn sp_let_tail(s: Seq<Token>, p1: int) -> Result<(Expr, int), (bool, int)>
    decreases s.len() - p1, 9int,
{
    match sp_lex_kw(s, p1, Reserved::Val) {
        Ok(p2) => if p1 < p2 <= s.len() {
            match sp_lex_name(s, p2) {
                Ok((nm, p3)) => if p2 < p3 <= s.len() {
                    match sp_lex_kw(s, p3, Reserved::Equal) {
                        Ok(p4) => if p3 < p4 <= s.len() {
                            match sp_expn(s, p4) {
                                Ok((binder, p5)) => if p4 < p5 <= s.len() {
                                    match sp_lex_kw(s, p5, Reserved::In) {
                                        Ok(p6) => if p5 < p6 <= s.len() {
                                            match sp_expn(s, p6) {
                                                Ok((child, p7)) => match sp_lex_kw(
                                                    s,
                                                    p7,
                                                    Reserved::End,
                                                ) {
                                                    Ok(p8) => Ok((
                                                        Expr::Let {
                                                            name: nm,
                                                            binder: Box::new(binder),
                                                            child: Box::new(child),
                                                        },
                                                        p8,
                                                    )),
                                                    Err((_, fp)) => Err((true, fp)),
                                                },
                                                Err((_, fp)) => Err((true, fp)),
                                            }
                                        } else {
                                            Err((true, p6))
                                        },
                                        Err((_, fp)) => Err((true, fp)),
                                    }
                                } else {
                                    Err((true, p5))
                                },
                                Err((_, fp)) => Err((true, fp)),
                            }
                        } else {
                            Err((true, p4))
                        },
                        Err((_, fp)) => Err((true, fp)),
                    }
                } else {
                    Err((true, p3))
                },
                Err((_, fp)) => Err((true, fp)),
            }
        } else {
            Err((true, p2))
        },
        Err((_, fp)) => Err((true, fp)),
    }
}

/// The rest of an if-form, after its `if` keyword matched at a cursor
/// now standing at `p1`: from here on any failure is fatal.  The else
/// branch is parsed by `expn` itself, so nested if-forms associate to
/// the right.
pub open spec fn sp_if_tail(s: Seq<Token>, p1: int) -> Result<(Expr, int), (bool, int)>
    decreases s.len() - p1, 9int,
{
    match sp_expn(s, p1) {
        Ok((cond, p2)) => if p1 < p2 <= s.len() {
            match sp_lex_kw(s, p2, Reserved::Then) {
                Ok(p3) => if p2 < p3 <= s.len() {
                    match sp_expn(s, p3) {
                        Ok((ib, p4)) => if p3 < p4 <= s.len() {
                            match sp_lex_kw(s, p4, Reserved::Else) {
                                Ok(p5) => if p4 < p5 <= s.len() {
                                    match sp_expn(s, p5) {
                                        Ok((eb, p6)) => Ok((
                                            Expr::IfThenElse {
                                                condition: Box::new(cond),
                                                if_branch: Box::new(ib),
                                                else_branch: Box::new(eb),
                                            },
                                            p6,
                                        )),
                                        Err((_, fp)) => Err((true, fp)),
                                    }
                                } else {
                                    Err((true, p5))
                                },
                                Err((_, fp)) => Err((true, fp)),
                            }
                        } else {
                            Err((true, p4))
                        },
                        Err((_, fp)) => Err((true, fp)),
                    }
                } else {
                    Err((true, p3))
                },
                Err((_, fp)) => Err((true, fp)),
            }
        } else {
            Err((true, p2))
        },
        Err((_, fp)) => Err((true, fp)),
    }
}

/// `expn ::= "let" "val" name "=" expn "in" expn "end"
///         | "if" expn "then" expn "else" expn
///         | disj`
///
/// The let- and if-forms are chosen by their leading keyword, tried as
/// a backtracking attempt; once the keyword has matched, the rest of
/// the form is committed.
pub open spec fn sp_expn(s: Seq<Token>, pos: int) -> Result<(Expr, int), (bool, int)>
    decreases s.len() - pos, 8int,
{
    match sp_lex_kw(s, pos, Reserved::Let) {
        Ok(p1) => if pos < p1 <= s.len() {
            sp_let_tail(s, p1)
        } else {
            Err((true, p1))
        },
        Err(_) => match sp_lex_kw(s, pos, Reserved::If) {
            Ok(p1) => if pos < p1 <= s.len() {
                sp_if_tail(s, p1)
            } else {
                Err((true, p1))
            },
            Err(_) => sp_disj(s, pos),
        },
    }
}

/// `prog ::= expn EOF`: one expression, then the end-of-input token.
/// The failure carries only the position at which no alternative
/// matched.
pub open spec fn sp_prog(s: Seq<Token>) -> Result<Expr, int> {
    match sp_expn(s, 0) {
        Ok((e, p)) => match sp_lex_eof(s, p) {
            Ok(_) => Ok(e),
            Err((_, fp)) => Err(fp),
        },
        Err((_, fp)) => Err(fp),
    }
}

// ---------------------------------------------------------------------
// The executable engine, level by level; each level returns exactly
// what its spec function says.
// ---------------------------------------------------------------------

/// An executable result agrees with a spec-level one, and a success
/// moved the cursor strictly forward without leaving the stream.
pub open spec fn parse_matches(
    r: Result<(Expr, usize), (bool, usize)>,
    g: Result<(Expr, int), (bool, int)>,
    pos: int,
    len: int,
) -> bool {
    match r {
        Ok((e, p)) => g == Ok::<(Expr, int), (bool, int)>((e, p as int)) && pos < p as int <= len,
        Err((c, p)) => g == Err::<(Expr, int), (bool, int)>((c, p as int)),
    }
}

/// One whitespace-run token of positive length.
pub fn space(toks: &Vec<Token>, pos: usize) -> (r: Result<usize, (bool, usize)>)
    requires
        pos <= toks@.len(),
    ensures
        match r {
            Ok(p) => sp_space(toks@, pos as int) == Ok::<int, (bool, int)>(p as int) && pos < p
                <= toks@.len(),
            Err((c, p)) => sp_space(toks@, pos as int) == Err::<int, (bool, int)>((c, p as int))
                && p == pos,
        },
{
    if pos < toks.len() {
        match &toks[pos] {
            Token::Space(n) => if *n > 0 {
                return Ok(pos + 1);
            },
            _ => {},
        }
    }
    Err((false, pos))
}

/// The cursor after an optional whitespace-run token.
pub fn skip_space(toks: &Vec<Token>, pos: usize) -> (r: usize)
    requires
        pos <= toks@.len(),
    ensures
        r as int == sp_skip(toks@, pos as int),
        pos <= r <= toks@.len(),
{
    match space(toks, pos) {
        Ok(p) => p,
        Err(_) => pos,
    }
}

/// The keyword `k`, bracketed by optional whitespace on both sides.
pub fn lex_kw(toks: &Vec<Token>, pos: usize, k: Reserved) -> (r: Result<usize, (bool, usize)>)
    requires
        pos <= toks@.len(),
    ensures
        match r {
            Ok(p) => sp_lex_kw(toks@, pos as int, k) == Ok::<int, (bool, int)>(p as int) && pos
                < p <= toks@.len(),
            Err((c, p)) => sp_lex_kw(toks@, pos as int, k) == Err::<int, (bool, int)>(
                (c, p as int),
            ) && pos <= p <= toks@.len(),
        },
{
    let p = skip_space(toks, pos);
    if p < toks.len() {
        match &toks[p] {
            Token::Keyword(r) => if *r == k {
                return Ok(skip_space(toks, p + 1));
            },
            _ => {},
        }
    }
    Err((p != pos, p))
}

/// A name token, bracketed by optional whitespace, yielding its
/// identifier.
pub fn lex_name(toks: &Vec<Token>, pos: usize) -> (r: Result<(String, usize), (bool, usize)>)
    requires
        pos <= toks@.len(),
    ensures
        match r {
            Ok((n, p)) => sp_lex_name(toks@, pos as int) == Ok::<(String, int), (bool, int)>(
                (n, p as int),
            ) && pos < p <= toks@.len(),
            Err((c, p)) => sp_lex_name(toks@, pos as int) == Err::<(String, int), (bool, int)>(
                (c, p as int),
            ) && pos <= p <= toks@.len(),
        },
{
    let p = skip_space(toks, pos);
    if p < toks.len() {
        match &toks[p] {
            Token::Name(n) => {
                let nm = n.clone();
                return Ok((nm, skip_space(toks, p + 1)));
            },
            _ => {},
        }
    }
    Err((p != pos, p))
}

/// A parenthesis facing `d`, bracketed by optional whitespace.
pub fn lex_paren(toks: &Vec<Token>, pos: usize, d: Direction) -> (r: Result<
    usize,
    (bool, usize),
>)
    requires
        pos <= toks@.len(),
    ensures
        match r {
            Ok(p) => sp_lex_paren(toks@, pos as int, d) == Ok::<int, (bool, int)>(p as int)
                && pos < p <= toks@.len(),
            Err((c, p)) => sp_lex_paren(toks@, pos as int, d) == Err::<int, (bool, int)>(
                (c, p as int),
            ) && pos <= p <= toks@.len(),
        },
{
    let p = skip_space(toks, pos);
    if p < toks.len() {
        match &toks[p] {
            Token::Paren(q) => if *q == d {
                return Ok(skip_space(toks, p + 1));
            },
            _ => {},
        }
    }
    Err((p != pos, p))
}

/// The end-of-input token, with optional whitespace before it.
pub fn lex_eof(toks: &Vec<Token>, pos: usize) -> (r: Result<usize, (bool, usize)>)
    requires
        pos <= toks@.len(),
    ensures
        match r {
            Ok(p) => sp_lex_eof(toks@, pos as int) == Ok::<int, (bool, int)>(p as int) && pos < p
                <= toks@.len(),
            Err((c, p)) => sp_lex_eof(toks@, pos as int) == Err::<int, (bool, int)>(
                (c, p as int),
            ) && pos <= p <= toks@.len(),
        },
{
    let p = skip_space(toks, pos);
    if p < toks.len() {
        match &toks[p] {
            Token::EndOfFile => {
                return Ok(p + 1);
            },
            _ => {},
        }
    }
    Err((p != pos, p))
}

/// The binary operator that a keyword stands for at a fold level.
fn op_kind(lv: OpLevel, k: Reserved) -> (o: Option<BinaryOp>)
    ensures
        o == op_of(lv, k),
{
    match (lv, k) {
        (OpLevel::Or, Reserved::OrElse) => Some(BinaryOp::OrElse),
        (OpLevel::And, Reserved::AndAlso) => Some(BinaryOp::AndAlso),
        (OpLevel::Cmp, Reserved::Equal) => Some(BinaryOp::Equal),
        (OpLevel::Cmp, Reserved::LessThan) => Some(BinaryOp::LessThan),
        (OpLevel::AddSub, Reserved::Add) => Some(BinaryOp::Add),
        (OpLevel::AddSub, Reserved::Sub) => Some(BinaryOp::Sub),
        (OpLevel::MulDivMod, Reserved::Mult) => Some(BinaryOp::Mult),
        (OpLevel::MulDivMod, Reserved::Div) => Some(BinaryOp::Div),
        (OpLevel::MulDivMod, Reserved::Mod) => Some(BinaryOp::Mod),
        _ => None,
    }
}

/// An operator of fold level `lv`, bracketed by optional whitespace.
pub fn lex_op(toks: &Vec<Token>, pos: usize, lv: OpLevel) -> (r: Result<
    (BinaryOp, usize),
    (bool, usize),
>)
    requires
        pos <= toks@.len(),
    ensures
        match r {
            Ok((op, p)) => sp_lex_op(toks@, pos as int, lv) == Ok::<(BinaryOp, int), (bool, int)>(
                (op, p as int),
            ) && pos < p <= toks@.len(),
            Err((c, p)) => sp_lex_op(toks@, pos as int, lv) == Err::<(BinaryOp, int), (bool, int)>(
                (c, p as int),
            ) && pos <= p <= toks@.len(),
        },
{
    let p = skip_space(toks, pos);
    if p < toks.len() {
        match &toks[p] {
            Token::Keyword(k) => match op_kind(lv, *k) {
                Some(op) => {
                    return Ok((op, skip_space(toks, p + 1)));
                },
                None => {},
            },
            _ => {},
        }
    }
    Err((p != pos, p))
}

/// The parenthesized alternative of `atom`.
fn atom_paren(toks: &Vec<Token>, pos: usize) -> (r: Result<(Expr, usize), (bool, usize)>)
    requires
        pos <= toks@.len(),
    ensures
        parse_matches(r, sp_atom_paren(toks@, pos as int), pos as int, toks@.len() as int),
    decreases toks@.len() - pos, 0int,
{
    let p1 = match lex_paren(toks, pos, Direction::Left) {
        Ok(p) => p,
        Err(e) => {
            return Err(e);
        },
    };
    let (e, p2) = match expn(toks, p1) {
        Ok(v) => v,
        Err((_, fp)) => {
            return Err((true, fp));
        },
    };
    match lex_paren(toks, p2, Direction::Right) {
        Ok(p3) => Ok((e, p3)),
        Err((_, fp)) => Err((true, fp)),
    }
}

/// `atom ::= name | literal | "(" expn ")"`
pub fn atom(toks: &Vec<Token>, pos: usize) -> (r: Result<(Expr, usize), (bool, usize)>)
    requires
        pos <= toks@.len(),
    ensures
        parse_matches(r, sp_atom(toks@, pos as int), pos as int, toks@.len() as int),
    decreases toks@.len() - pos, 1int,
{
    let p = skip_space(toks, pos);
    if p < toks.len() {
        match &toks[p] {
            Token::Name(n) => {
                let nm = n.clone();
                return Ok((Expr::Var(nm), skip_space(toks, p + 1)));
            },
            Token::Lit(l) => {
                let tx = l.clone();
                return Ok((Expr::Lit(tx), skip_space(toks, p + 1)));
            },
            _ => {},
        }
    }
    atom_paren(toks, pos)
}

/// `nega ::= "not" atom | atom`
pub fn nega(toks: &Vec<Token>, pos: usize) -> (r: Result<(Expr, usize), (bool, usize)>)
    requires
        pos <= toks@.len(),
    ensures
        parse_matches(r, sp_nega(toks@, pos as int), pos as int, toks@.len() as int),
    decreases toks@.len() - pos, 2int,
{
    match lex_kw(toks, pos, Reserved::Not) {
        Ok(p1) => match atom(toks, p1) {
            Ok((a, p2)) => Ok((Expr::Unary { operation: UnaryOp::Not, child: Box::new(a) }, p2)),
            Err(_) => atom(toks, pos),
        },
        Err(_) => atom(toks, pos),
    }
}

/// The left-associative fold shared by `disj`, `conj`, `add` and
/// `mult`: an iterative loop, so that long operator chains cost no
/// recursion depth.
fn chain_ops(toks: &Vec<Token>, pos: usize, acc: Expr, lv: OpLevel) -> (r: Result<
    (Expr, usize),
    (bool, usize),
>)
    requires
        pos <= toks@.len(),
    ensures
        match r {
            Ok((e, p)) => sp_chain(toks@, pos as int, acc, lv) == Ok::<(Expr, int), (bool, int)>(
                (e, p as int),
            ) && pos <= p <= toks@.len(),
            Err((c, p)) => sp_chain(toks@, pos as int, acc, lv) == Err::<(Expr, int), (bool, int)>(
                (c, p as int),
            ),
        },
    decreases toks@.len() - pos, 9int,
{
    let mut cur = acc;
    let mut p = pos;
    loop
        invariant
            pos <= p <= toks@.len(),
            sp_chain(toks@, p as int, cur, lv) == sp_chain(toks@, pos as int, acc, lv),
        decreases toks@.len() - p,
    {
        let (op, p1) = match lex_op(toks, p, lv) {
            Ok(v) => v,
            Err((c, fp)) => if c {
                return Err((true, fp));
            } else {
                return Ok((cur, p));
            },
        };
        let operand = match lv {
            OpLevel::Or => conj(toks, p1),
            OpLevel::And => cmp(toks, p1),
            OpLevel::Cmp => crate::parser::add(toks, p1),
            OpLevel::AddSub => mult(toks, p1),
            OpLevel::MulDivMod => nega(toks, p1),
        };
        let (v, p2) = match operand {
            Ok(v) => v,
            Err((_, fp)) => {
                return Err((true, fp));
            },
        };
        cur = Expr::Binary { left: Box::new(cur), operation: op, right: Box::new(v) };
        p = p2;
    }
}

/// `mult ::= mult ("*" | "div" | "mod") nega | nega`
pub fn mult(toks: &Vec<Token>, pos: usize) -> (r: Result<(Expr, usize), (bool, usize)>)
    requires
        pos <= toks@.len(),
    ensures
        parse_matches(r, sp_mult(toks@, pos as int), pos as int, toks@.len() as int),
    decreases toks@.len() - pos, 3int,
{
    match nega(toks, pos) {
        Ok((e, p)) => chain_ops(toks, p, e, OpLevel::MulDivMod),
        Err(e) => Err(e),
    }
}

/// `add ::= add ("+" | "-") mult | mult`
pub fn add(toks: &Vec<Token>, pos: usize) -> (r: Result<(Expr, usize), (bool, usize)>)
    requires
        pos <= toks@.len(),
    ensures
        parse_matches(r, sp_add(toks@, pos as int), pos as int, toks@.len() as int),
    decreases toks@.len() - pos, 4int,
{
    match mult(toks, pos) {
        Ok((e, p)) => chain_ops(toks, p, e, OpLevel::AddSub),
        Err(e) => Err(e),
    }
}

/// `cmp ::= add ("=" | "<") add | add`, non-chaining: the two-operand
/// form is a backtracking attempt, and on its failure the level yields
/// the plain `add` result instead.
pub fn cmp(toks: &Vec<Token>, pos: usize) -> (r: Result<(Expr, usize), (bool, usize)>)
    requires
        pos <= toks@.len(),
    ensures
        parse_matches(r, sp_cmp(toks@, pos as int), pos as int, toks@.len() as int),
    decreases toks@.len() - pos, 5int,
{
    let (l, p1) = match crate::parser::add(toks, pos) {
        Ok(v) => v,
        Err(e) => {
            return Err(e);
        },
    };
    let (op, p2) = match lex_op(toks, p1, OpLevel::Cmp) {
        Ok(v) => v,
        Err(_) => {
            return Ok((l, p1));
        },
    };
    match crate::parser::add(toks, p2) {
        Ok((rr, p3)) => Ok((
            Expr::Binary { left: Box::new(l), operation: op, right: Box::new(rr) },
            p3,
        )),
        Err(_) => Ok((l, p1)),
    }
}

/// `conj ::= conj "andalso" cmp | cmp`
pub fn conj(toks: &Vec<Token>, pos: usize) -> (r: Result<(Expr, usize), (bool, usize)>)
    requires
        pos <= toks@.len(),
    ensures
        parse_matches(r, sp_conj(toks@, pos as int), pos as int, toks@.len() as int),
    decreases toks@.len() - pos, 6int,
{
    match cmp(toks, pos) {
        Ok((e, p)) => chain_ops(toks, p, e, OpLevel::And),
        Err(e) => Err(e),
    }
}

/// `disj ::= disj "orelse" conj | conj`
pub fn disj(toks: &Vec<Token>, pos: usize) -> (r: Result<(Expr, usize), (bool, usize)>)
    requires
        pos <= toks@.len(),
    ensures
        parse_matches(r, sp_disj(toks@, pos as int), pos as int, toks@.len() as int),
    decreases toks@.len() - pos, 7int,
{
    match conj(toks, pos) {
        Ok((e, p)) => chain_ops(toks, p, e, OpLevel::Or),
        Err(e) => Err(e),
    }
}

/// The rest of a let-form after its `let` keyword.
fn let_tail(toks: &Vec<Token>, p1: usize) -> (r: Result<(Expr, usize), (bool, usize)>)
    requires
        p1 <= toks@.len(),
    ensures
        parse_matches(r, sp_let_tail(toks@, p1 as int), p1 as int, toks@.len() as int),
    decreases toks@.len() - p1, 9int,
{
    let p2 = match lex_kw(toks, p1, Reserved::Val) {
        Ok(p) => p,
        Err((_, fp)) => {
            return Err((true, fp));
        },
    };
    let (nm, p3) = match lex_name(toks, p2) {
        Ok(v) => v,
        Err((_, fp)) => {
            return Err((true, fp));
        },
    };
    let p4 = match lex_kw(toks, p3, Reserved::Equal) {
        Ok(p) => p,
        Err((_, fp)) => {
            return Err((true, fp));
        },
    };
    let (binder, p5) = match expn(toks, p4) {
        Ok(v) => v,
        Err((_, fp)) => {
            return Err((true, fp));
        },
    };
    let p6 = match lex_kw(toks, p5, Reserved::In) {
        Ok(p) => p,
        Err((_, fp)) => {
            return Err((true, fp));
        },
    };
    let (child, p7) = match expn(toks, p6) {
        Ok(v) => v,
        Err((_, fp)) => {
            return Err((true, fp));
        },
    };
    match lex_kw(toks, p7, Reserved::End) {
        Ok(p8) => Ok((
            Expr::Let { name: nm, binder: Box::new(binder), child: Box::new(child) },
            p8,
        )),
        Err((_, fp)) => Err((true, fp)),
    }
}

/// The rest of an if-form after its `if` keyword.
fn if_tail(toks: &Vec<Token>, p1: usize) -> (r: Result<(Expr, usize), (bool, usize)>)
    requires
        p1 <= toks@.len(),
    ensures
        parse_matches(r, sp_if_tail(toks@, p1 as int), p1 as int, toks@.len() as int),
    decreases toks@.len() - p1, 9int,
{
    let (cond, p2) = match expn(toks, p1) {
        Ok(v) => v,
        Err((_, fp)) => {
            return Err((true, fp));
        },
    };
    let p3 = match lex_kw(toks, p2, Reserved::Then) {
        Ok(p) => p,
        Err((_, fp)) => {
            return Err((true, fp));
        },
    };
    let (ib, p4) = match expn(toks, p3) {
        Ok(v) => v,
        Err((_, fp)) => {
            return Err((true, fp));
        },
    };
    let p5 = match lex_kw(toks, p4, Reserved::Else) {
        Ok(p) => p,
        Err((_, fp)) => {
            return Err((true, fp));
        },
    };
    match expn(toks, p5) {
        Ok((eb, p6)) => Ok((
            Expr::IfThenElse {
                condition: Box::new(cond),
                if_branch: Box::new(ib),
                else_branch: Box::new(eb),
            },
            p6,
        )),
        Err((_, fp)) => Err((true, fp)),
    }
}

/// `expn ::= let-form | if-form | disj`
pub fn expn(toks: &Vec<Token>, pos: usize) -> (r: Result<(Expr, usize), (bool, usize)>)
    requires
        pos <= toks@.len(),
    ensures
        parse_matches(r, sp_expn(toks@, pos as int), pos as int, toks@.len() as int),
    decreases toks@.len() - pos, 8int,
{
    match lex_kw(toks, pos, Reserved::Let) {
        Ok(p1) => let_tail(toks, p1),
        Err(_) => match lex_kw(toks, pos, Reserved::If) {
            Ok(p1) => if_tail(toks, p1),
            Err(_) => disj(toks, pos),
        },
    }
}

/// The single entry point: parses one expression and requires the very
/// next token to be the end-of-input marker; returns the complete tree
/// or a single failure report.
pub fn prog(toks: &Vec<Token>) -> (r: Result<Expr, ParseError>)
    ensures
        match r {
            Ok(e) => sp_prog(toks@) == Ok::<Expr, int>(e),
            Err(pe) => sp_prog(toks@) == Err::<Expr, int>(pe.position as int),
        },
{
    match expn(toks, 0) {
        Ok((e, p)) => match lex_eof(toks, p) {
            Ok(_) => Ok(e),
            Err((_, fp)) => Err(ParseError { position: fp }),
        },
        Err((_, fp)) => Err(ParseError { position: fp }),
    }
}

// ---------------------------------------------------------------------
// Laws of the engine.
// ---------------------------------------------------------------------

/// A successful parenthesized atom ends past its start and inside the
/// stream.
pub proof fn lemma_atom_paren_bounds(s: Seq<Token>, pos: int)
    requires
        0 <= pos <= s.len(),
    ensures
        sp_atom_paren(s, pos) matches Ok(v) ==> pos < v.1 <= s.len(),
    decreases s.len() - pos, 0int,
{
    match sp_lex_paren(s, pos, Direction::Left) {
        Ok(p1) => {
            if pos < p1 <= s.len() {
                lemma_expn_bounds(s, p1);
            }
        },
        Err(_) => {},
    }
}

/// A successful atom ends past its start and inside the stream.
pub proof fn lemma_atom_bounds(s: Seq<Token>, pos: int)
    requires
        0 <= pos <= s.len(),
    ensures
        sp_atom(s, pos) matches Ok(v) ==> pos < v.1 <= s.len(),
    decreases s.len() - pos, 1int,
{
    lemma_atom_paren_bounds(s, pos);
}

/// A successful negation level ends past its start and inside the
/// stream.
pub proof fn lemma_nega_bounds(s: Seq<Token>, pos: int)
    requires
        0 <= pos <= s.len(),
    ensures
        sp_nega(s, pos) matches Ok(v) ==> pos < v.1 <= s.len(),
    decreases s.len() - pos, 2int,
{
    lemma_atom_bounds(s, pos);
    match sp_lex_kw(s, pos, Reserved::Not) {
        Ok(p1) => {
            if pos < p1 <= s.len() {
                lemma_atom_bounds(s, p1);
            }
        },
        Err(_) => {},
    }
}

/// A successful operator fold never moves the cursor backwards and
/// stays inside the stream.
pub proof fn lemma_chain_bounds(s: Seq<Token>, pos: int, acc: Expr, lv: OpLevel)
    requires
        0 <= pos <= s.len(),
    ensures
        sp_chain(s, pos, acc, lv) matches Ok(v) ==> pos <= v.1 <= s.len(),
    decreases s.len() - pos, 9int,
{
    match sp_lex_op(s, pos, lv) {
        Ok((op, p1)) => {
            if pos < p1 <= s.len() {
                let operand = match lv {
                    OpLevel::Or => sp_conj(s, p1),
                    OpLevel::And => sp_cmp(s, p1),
                    OpLevel::Cmp => sp_add(s, p1),
                    OpLevel::AddSub => sp_mult(s, p1),
                    OpLevel::MulDivMod => sp_nega(s, p1),
                };
                match operand {
                    Ok((v, p2)) => {
                        if p1 < p2 <= s.len() {
                            lemma_chain_bounds(
                                s,
                                p2,
                                Expr::Binary {
                                    left: Box::new(acc),
                                    operation: op,
                                    right: Box::new(v),
                                },
                                lv,
                            );
                        }
                    },
                    Err(_) => {},
                }
            }
        },
        Err(_) => {},
    }
}

/// A successful multiplication level ends past its start and inside
/// the stream.
pub proof fn lemma_mult_bounds(s: Seq<Token>, pos: int)
    requires
        0 <= pos <= s.len(),
    ensures
        sp_mult(s, pos) matches Ok(v) ==> pos < v.1 <= s.len(),
    decreases s.len() - pos, 3int,
{
    match sp_nega(s, pos) {
        Ok((e, p)) => {
            if pos < p <= s.len() {
                lemma_chain_bounds(s, p, e, OpLevel::MulDivMod);
            }
        },
        Err(_) => {},
    }
}

/// A successful addition level ends past its start and inside the
/// stream.
pub proof fn lemma_add_bounds(s: Seq<Token>, pos: int)
    requires
        0 <= pos <= s.len(),
    ensures
        sp_add(s, pos) matches Ok(v) ==> pos < v.1 <= s.len(),
    decreases s.len() - pos, 4int,
{
    match sp_mult(s, pos) {
        Ok((e, p)) => {
            if pos < p <= s.len() {
                lemma_chain_bounds(s, p, e, OpLevel::AddSub);
            }
        },
        Err(_) => {},
    }
}

/// A successful comparison level ends past its start and inside the
/// stream.
pub proof fn lemma_cmp_bounds(s: Seq<Token>, pos: int)
    requires
        0 <= pos <= s.len(),
    ensures
        sp_cmp(s, pos) matches Ok(v) ==> pos < v.1 <= s.len(),
    decreases s.len() - pos, 5int,
{
    match sp_add(s, pos) {
        Ok((l, p1)) => {
            if pos < p1 <= s.len() {
                match sp_lex_op(s, p1, OpLevel::Cmp) {
                    Ok((op, p2)) => {
                        if p1 < p2 <= s.len() {
                            lemma_add_bounds(s, p2);
                        }
                    },
                    Err(_) => {},
                }
            }
        },
        Err(_) => {},
    }
}

/// A successful conjunction level ends past its start and inside the
/// stream.
pub proof fn lemma_conj_bounds(s: Seq<Token>, pos: int)
    requires
        0 <= pos <= s.len(),
    ensures
        sp_conj(s, pos) matches Ok(v) ==> pos < v.1 <= s.len(),
    decreases s.len() - pos, 6int,
{
    match sp_cmp(s, pos) {
        Ok((e, p)) => {
            if pos < p <= s.len() {
                lemma_chain_bounds(s, p, e, OpLevel::And);
            }
        },
        Err(_) => {},
    }
}

/// A successful disjunction level ends past its start and inside the
/// stream.
pub proof fn lemma_disj_bounds(s: Seq<Token>, pos: int)
    requires
        0 <= pos <= s.len(),
    ensures
        sp_disj(s, pos) matches Ok(v) ==> pos < v.1 <= s.len(),
    decreases s.len() - pos, 7int,
{
    match sp_conj(s, pos) {
        Ok((e, p)) => {
            if pos < p <= s.len() {
                lemma_chain_bounds(s, p, e, OpLevel::Or);
            }
        },
        Err(_) => {},
    }
}

/// A successful let-form tail ends past its start and inside the
/// stream.
pub proof fn lemma_let_tail_bounds(s: Seq<Token>, p1: int)
    requires
        0 <= p1 <= s.len(),
    ensures
        sp_let_tail(s, p1) matches Ok(v) ==> p1 < v.1 <= s.len(),
    decreases s.len() - p1, 9int,
{
    match sp_lex_kw(s, p1, Reserved::Val) {
        Ok(p2) => {
            if p1 < p2 <= s.len() {
                match sp_lex_name(s, p2) {
                    Ok((nm, p3)) => {
                        if p2 < p3 <= s.len() {
                            match sp_lex_kw(s, p3, Reserved::Equal) {
                                Ok(p4) => {
                                    if p3 < p4 <= s.len() {
                                        lemma_expn_bounds(s, p4);
                                        match sp_expn(s, p4) {
                                            Ok((b, p5)) => {
                                                if p4 < p5 <= s.len() {
                                                    match sp_lex_kw(s, p5, Reserved::In) {
                                                        Ok(p6) => {
                                                            if p5 < p6 <= s.len() {
                                                                lemma_expn_bounds(s, p6);
                                                            }
                                                        },
                                                        Err(_) => {},
                                                    }
                                                }
                                            },
                                            Err(_) => {},
                                        }
                                    }
                                },
                                Err(_) => {},
                            }
                        }
                    },
                    Err(_) => {},
                }
            }
        },
        Err(_) => {},
    }
}

/// A successful if-form tail ends past its start and inside the
/// stream.
pub proof fn lemma_if_tail_bounds(s: Seq<Token>, p1: int)
    requires
        0 <= p1 <= s.len(),
    ensures
        sp_if_tail(s, p1) matches Ok(v) ==> p1 < v.1 <= s.len(),
    decreases s.len() - p1, 9int,
{
    lemma_expn_bounds(s, p1);
    match sp_expn(s, p1) {
        Ok((c, p2)) => {
            if p1 < p2 <= s.len() {
                match sp_lex_kw(s, p2, Reserved::Then) {
                    Ok(p3) => {
                        if p2 < p3 <= s.len() {
                            lemma_expn_bounds(s, p3);
                            match sp_expn(s, p3) {
                                Ok((ib, p4)) => {
                                    if p3 < p4 <= s.len() {
                                        match sp_lex_kw(s, p4, Reserved::Else) {
                                            Ok(p5) => {
                                                if p4 < p5 <= s.len() {
                                                    lemma_expn_bounds(s, p5);
                                                }
                                            },
                                            Err(_) => {},
                                        }
                                    }
                                },
                                Err(_) => {},
                            }
                        }
                    },
                    Err(_) => {},
                }
            }
        },
        Err(_) => {},
    }
}

/// A successful expression parse ends past its start and inside the
/// stream.
pub proof fn lemma_expn_bounds(s: Seq<Token>, pos: int)
    requires
        0 <= pos <= s.len(),
    ensures
        sp_expn(s, pos) matches Ok(v) ==> pos < v.1 <= s.len(),
    decreases s.len() - pos, 8int,
{
    match sp_lex_kw(s, pos, Reserved::Let) {
        Ok(p1) => {
            if pos < p1 <= s.len() {
                lemma_let_tail_bounds(s, p1);
            }
        },
        Err(_) => {
            match sp_lex_kw(s, pos, Reserved::If) {
                Ok(p1) => {
                    if pos < p1 <= s.len() {
                        lemma_if_tail_bounds(s, p1);
                    }
                },
                Err(_) => {
                    lemma_disj_bounds(s, pos);
                },
            }
        },
    }
}

/// Every well-formed stream is accepted whole: when a stream holds a
/// valid expression and the next token after it (past at most one
/// whitespace run) is the end-of-input marker, the entry point
/// succeeds with that expression, and the cursor after the end token
/// covers the entire stream whenever the end token is its last.
pub proof fn lemma_prog_accepts_valid_stream(s: Seq<Token>, e: Expr, p: int)
    requires
        sp_expn(s, 0) == Ok::<(Expr, int), (bool, int)>((e, p)),
        0 <= p <= s.len(),
        sp_skip(s, p) < s.len(),
        is_eof(s[sp_skip(s, p)]),
    ensures
        sp_prog(s) == Ok::<Expr, int>(e),
        sp_lex_eof(s, p) == Ok::<int, (bool, int)>(sp_skip(s, p) + 1),
        sp_skip(s, p) + 1 == s.len() ==> sp_lex_eof(s, p) == Ok::<int, (bool, int)>(
            s.len() as int,
        ),
{
}

/// Whitespace tolerance at its single injection point: before any
/// lexeme, one whitespace-run token of positive length is consumed
/// exactly as if it were absent, so token streams that differ only in
/// such a run are consumed alike.  (The failures differ only in
/// whether the run was consumed before the mismatch.)
pub proof fn lemma_lex_space_insensitive(
    s: Seq<Token>,
    pos: int,
    k: Reserved,
    d: Direction,
    lv: OpLevel,
)
    requires
        0 <= pos,
        pos + 1 < s.len(),
        is_space_tok(s[pos]),
        !is_space_tok(s[pos + 1]),
    ensures
        (sp_lex_kw(s, pos, k) matches Ok(_)) ==> sp_lex_kw(s, pos, k) == sp_lex_kw(s, pos + 1, k),
        (sp_lex_kw(s, pos + 1, k) matches Ok(_)) ==> sp_lex_kw(s, pos, k) == sp_lex_kw(
            s,
            pos + 1,
            k,
        ),
        (sp_lex_name(s, pos) matches Ok(_)) ==> sp_lex_name(s, pos) == sp_lex_name(s, pos + 1),
        (sp_lex_name(s, pos + 1) matches Ok(_)) ==> sp_lex_name(s, pos) == sp_lex_name(
            s,
            pos + 1,
        ),
        (sp_lex_paren(s, pos, d) matches Ok(_)) ==> sp_lex_paren(s, pos, d) == sp_lex_paren(
            s,
            pos + 1,
            d,
        ),
        (sp_lex_paren(s, pos + 1, d) matches Ok(_)) ==> sp_lex_paren(s, pos, d) == sp_lex_paren(
            s,
            pos + 1,
            d,
        ),
        (sp_lex_op(s, pos, lv) matches Ok(_)) ==> sp_lex_op(s, pos, lv) == sp_lex_op(
            s,
            pos + 1,
            lv,
        ),
        (sp_lex_op(s, pos + 1, lv) matches Ok(_)) ==> sp_lex_op(s, pos, lv) == sp_lex_op(
            s,
            pos + 1,
            lv,
        ),
        (sp_lex_eof(s, pos) matches Ok(_)) ==> sp_lex_eof(s, pos) == sp_lex_eof(s, pos + 1),
        (sp_lex_eof(s, pos + 1) matches Ok(_)) ==> sp_lex_eof(s, pos) == sp_lex_eof(s, pos + 1),
{
    assert(sp_skip(s, pos) == pos + 1);
    assert(sp_skip(s, pos + 1) == pos + 1);
}

/// Left-associativity of the operator folds: when an operator of the
/// fold's level follows the accumulator and its operand parses, the
/// fold continues with the accumulator wrapped as the new Binary
/// node's left child — so `a - b - c` builds `(a - b) - c` and never
/// `a - (b - c)`.
pub proof fn lemma_chain_folds_left(
    s: Seq<Token>,
    pos: int,
    acc: Expr,
    lv: OpLevel,
    op: BinaryOp,
    p1: int,
    v: Expr,
    p2: int,
)
    requires
        sp_lex_op(s, pos, lv) == Ok::<(BinaryOp, int), (bool, int)>((op, p1)),
        pos < p1 <= s.len(),
        (match lv {
            OpLevel::Or => sp_conj(s, p1),
            OpLevel::And => sp_cmp(s, p1),
            OpLevel::Cmp => sp_add(s, p1),
            OpLevel::AddSub => sp_mult(s, p1),
            OpLevel::MulDivMod => sp_nega(s, p1),
        }) == Ok::<(Expr, int), (bool, int)>((v, p2)),
        p1 < p2 <= s.len(),
    ensures
        sp_chain(s, pos, acc, lv) == sp_chain(
            s,
            p2,
            Expr::Binary { left: Box::new(acc), operation: op, right: Box::new(v) },
            lv,
        ),
{
}

/// Whitespace tolerance at every precedence level: a parse begun on
/// one whitespace-run token of positive length yields exactly the
/// tree and end cursor of the parse begun just past it, and the one
/// succeeds exactly when the other does.  Inter-token whitespace
/// therefore never changes what is parsed, only where a failure's
/// consumed flag points.
pub proof fn lemma_parse_space_insensitive(s: Seq<Token>, pos: int)
    requires
        0 <= pos,
        pos + 1 < s.len(),
        is_space_tok(s[pos]),
        !is_space_tok(s[pos + 1]),
    ensures
        (sp_atom(s, pos) matches Ok(_)) <==> (sp_atom(s, pos + 1) matches Ok(_)),
        sp_atom(s, pos) matches Ok(_) ==> sp_atom(s, pos) == sp_atom(s, pos + 1),
        (sp_nega(s, pos) matches Ok(_)) <==> (sp_nega(s, pos + 1) matches Ok(_)),
        sp_nega(s, pos) matches Ok(_) ==> sp_nega(s, pos) == sp_nega(s, pos + 1),
        (sp_mult(s, pos) matches Ok(_)) <==> (sp_mult(s, pos + 1) matches Ok(_)),
        sp_mult(s, pos) matches Ok(_) ==> sp_mult(s, pos) == sp_mult(s, pos + 1),
        (sp_add(s, pos) matches Ok(_)) <==> (sp_add(s, pos + 1) matches Ok(_)),
        sp_add(s, pos) matches Ok(_) ==> sp_add(s, pos) == sp_add(s, pos + 1),
        (sp_cmp(s, pos) matches Ok(_)) <==> (sp_cmp(s, pos + 1) matches Ok(_)),
        sp_cmp(s, pos) matches Ok(_) ==> sp_cmp(s, pos) == sp_cmp(s, pos + 1),
        (sp_conj(s, pos) matches Ok(_)) <==> (sp_conj(s, pos + 1) matches Ok(_)),
        sp_conj(s, pos) matches Ok(_) ==> sp_conj(s, pos) == sp_conj(s, pos + 1),
        (sp_disj(s, pos) matches Ok(_)) <==> (sp_disj(s, pos + 1) matches Ok(_)),
        sp_disj(s, pos) matches Ok(_) ==> sp_disj(s, pos) == sp_disj(s, pos + 1),
        (sp_expn(s, pos) matches Ok(_)) <==> (sp_expn(s, pos + 1) matches Ok(_)),
        sp_expn(s, pos) matches Ok(_) ==> sp_expn(s, pos) == sp_expn(s, pos + 1),
{
    assert(sp_skip(s, pos) == pos + 1);
    assert(sp_skip(s, pos + 1) == pos + 1);
    lemma_lex_space_insensitive(s, pos, Reserved::Let, Direction::Left, OpLevel::Or);
    lemma_lex_space_insensitive(s, pos, Reserved::If, Direction::Left, OpLevel::And);
    lemma_lex_space_insensitive(s, pos, Reserved::Not, Direction::Left, OpLevel::Cmp);

    // The parenthesized atom: once the opening paren is consumed, the
    // two runs stand at the same cursor and are the same parse.
    assert((sp_atom_paren(s, pos) matches Ok(_)) || (sp_atom_paren(s, pos + 1) matches Ok(_))
        ==> sp_atom_paren(s, pos) == sp_atom_paren(s, pos + 1)) by {
        match sp_lex_paren(s, pos, Direction::Left) {
            Ok(p1) => {
                assert(sp_lex_paren(s, pos + 1, Direction::Left) == Ok::<int, (bool, int)>(p1));
                assert(pos + 1 < p1 <= s.len());
            },
            Err(_) => {
                assert(sp_lex_paren(s, pos + 1, Direction::Left) matches Err(_));
            },
        }
    }
    assert(sp_atom(s, pos) matches Ok(_) ==> sp_atom(s, pos) == sp_atom(s, pos + 1));
    assert(sp_atom(s, pos + 1) matches Ok(_) ==> sp_atom(s, pos) == sp_atom(s, pos + 1));

    // The negation level: the `not` keyword is read alike, and both
    // runs continue at the same cursor.
    assert((sp_nega(s, pos) matches Ok(_)) || (sp_nega(s, pos + 1) matches Ok(_))
        ==> sp_nega(s, pos) == sp_nega(s, pos + 1)) by {
        match sp_lex_kw(s, pos, Reserved::Not) {
            Ok(p1) => {
                assert(sp_lex_kw(s, pos + 1, Reserved::Not) == Ok::<int, (bool, int)>(p1));
                assert(pos + 1 < p1 <= s.len());
            },
            Err(_) => {
                assert(sp_lex_kw(s, pos + 1, Reserved::Not) matches Err(_));
            },
        }
    }

    // The four fold levels and the comparison: their first operand is
    // read alike, and past it the two runs are the same parse.
    if sp_nega(s, pos) matches Ok(v) {
        lemma_nega_bounds(s, pos);
        lemma_nega_bounds(s, pos + 1);
        assert(sp_mult(s, pos) == sp_mult(s, pos + 1));
    } else {
        assert(sp_mult(s, pos) matches Err(_));
        assert(sp_mult(s, pos + 1) matches Err(_));
    }
    if sp_mult(s, pos) matches Ok(v) {
        lemma_mult_bounds(s, pos);
        lemma_mult_bounds(s, pos + 1);
        assert(sp_add(s, pos) == sp_add(s, pos + 1));
    } else {
        assert(sp_add(s, pos) matches Err(_));
        assert(sp_add(s, pos + 1) matches Err(_));
    }
    if sp_add(s, pos) matches Ok(v) {
        lemma_add_bounds(s, pos);
        lemma_add_bounds(s, pos + 1);
        assert(sp_cmp(s, pos) == sp_cmp(s, pos + 1));
    } else {
        assert(sp_cmp(s, pos) matches Err(_));
        assert(sp_cmp(s, pos + 1) matches Err(_));
    }
    if sp_cmp(s, pos) matches Ok(v) {
        lemma_cmp_bounds(s, pos);
        lemma_cmp_bounds(s, pos + 1);
        assert(sp_conj(s, pos) == sp_conj(s, pos + 1));
    } else {
        assert(sp_conj(s, pos) matches Err(_));
        assert(sp_conj(s, pos + 1) matches Err(_));
    }
    if sp_conj(s, pos) matches Ok(v) {
        lemma_conj_bounds(s, pos);
        lemma_conj_bounds(s, pos + 1);
        assert(sp_disj(s, pos) == sp_disj(s, pos + 1));
    } else {
        assert(sp_disj(s, pos) matches Err(_));
        assert(sp_disj(s, pos + 1) matches Err(_));
    }

    // The expression level: the leading keyword of a let- or if-form
    // is read alike, and past it the two runs are the same parse.
    match sp_lex_kw(s, pos, Reserved::Let) {
        Ok(p1) => {
            assert(sp_lex_kw(s, pos + 1, Reserved::Let) == Ok::<int, (bool, int)>(p1));
            assert(pos + 1 < p1 <= s.len());
            assert(sp_expn(s, pos) == sp_expn(s, pos + 1));
        },
        Err(_) => {
            assert(sp_lex_kw(s, pos + 1, Reserved::Let) matches Err(_));
            match sp_lex_kw(s, pos, Reserved::If) {
                Ok(p1) => {
                    assert(sp_lex_kw(s, pos + 1, Reserved::If) == Ok::<int, (bool, int)>(p1));
                    assert(pos + 1 < p1 <= s.len());
                    assert(sp_expn(s, pos) == sp_expn(s, pos + 1));
                },
                Err(_) => {
                    assert(sp_lex_kw(s, pos + 1, Reserved::If) matches Err(_));
                    assert((sp_expn(s, pos) matches Ok(_)) <==> (sp_disj(s, pos) matches Ok(
                        _,
                    )));
                },
            }
        },
    }
}

} // verus!

