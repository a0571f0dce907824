use exprlang::expr::{BinaryOp, Expr, UnaryOp};
use exprlang::parser::{nega, prog, space, ParseError};
use exprlang::token::{Direction, Reserved, Token};

fn name(s: &str) -> Token {
    Token::Name(s.to_string())
}

fn lit(s: &str) -> Token {
    Token::Lit(s.to_string())
}

fn kw(r: Reserved) -> Token {
    Token::Keyword(r)
}

fn sp() -> Token {
    Token::Space(1)
}

fn var(s: &str) -> Expr {
    Expr::Var(s.to_string())
}

fn litex(s: &str) -> Expr {
    Expr::Lit(s.to_string())
}

fn bin(l: Expr, op: BinaryOp, r: Expr) -> Expr {
    Expr::Binary { left: Box::new(l), operation: op, right: Box::new(r) }
}

#[test]
fn parses_single_variable() {
    let toks = vec![name("x"), Token::EndOfFile];
    assert_eq!(prog(&toks), Ok(var("x")));
}

#[test]
fn parses_single_literal() {
    let toks = vec![lit("42"), Token::EndOfFile];
    assert_eq!(prog(&toks), Ok(litex("42")));
}

#[test]
fn empty_stream_fails_at_position_zero() {
    let toks: Vec<Token> = vec![];
    assert_eq!(prog(&toks), Err(ParseError { position: 0 }));
}

#[test]
fn subtraction_is_left_associative() {
    // a - b - c parses as (a - b) - c, never a - (b - c).
    let toks = vec![
        name("a"),
        sp(),
        kw(Reserved::Sub),
        sp(),
        name("b"),
        sp(),
        kw(Reserved::Sub),
        sp(),
        name("c"),
        Token::EndOfFile,
    ];
    let expected = bin(bin(var("a"), BinaryOp::Sub, var("b")), BinaryOp::Sub, var("c"));
    let wrong = bin(var("a"), BinaryOp::Sub, bin(var("b"), BinaryOp::Sub, var("c")));
    let got = prog(&toks).unwrap();
    assert_eq!(got, expected);
    assert_ne!(got, wrong);
}

#[test]
fn comparison_does_not_chain() {
    // a = b = c: the second `=` is not consumed, so the end-of-input
    // check fails at its position.
    let toks = vec![
        name("a"),
        sp(),
        kw(Reserved::Equal),
        sp(),
        name("b"),
        sp(),
        kw(Reserved::Equal),
        sp(),
        name("c"),
        Token::EndOfFile,
    ];
    assert_eq!(prog(&toks), Err(ParseError { position: 6 }));
}

#[test]
fn single_comparison_is_accepted() {
    let toks = vec![name("a"), sp(), kw(Reserved::LessThan), sp(), name("b"), Token::EndOfFile];
    assert_eq!(prog(&toks), Ok(bin(var("a"), BinaryOp::LessThan, var("b"))));
}

#[test]
fn negation_does_not_stack() {
    // not not x: `not` binds only to a following atom, and a second
    // `not` is no atom.
    let toks = vec![kw(Reserved::Not), sp(), kw(Reserved::Not), sp(), name("x"), Token::EndOfFile];
    assert!(nega(&toks, 0).is_err());
    assert!(prog(&toks).is_err());
}

#[test]
fn single_negation_is_accepted() {
    let toks = vec![kw(Reserved::Not), sp(), name("x"), Token::EndOfFile];
    let expected = Expr::Unary { operation: UnaryOp::Not, child: Box::new(var("x")) };
    assert_eq!(prog(&toks), Ok(expected));
}

#[test]
fn nested_if_attaches_to_inner_branch() {
    // if a then if b then c else d else e: the inner if sits wholly in
    // the outer if-branch, and e is the outer else-branch.
    let toks = vec![
        kw(Reserved::If),
        sp(),
        name("a"),
        sp(),
        kw(Reserved::Then),
        sp(),
        kw(Reserved::If),
        sp(),
        name("b"),
        sp(),
        kw(Reserved::Then),
        sp(),
        name("c"),
        sp(),
        kw(Reserved::Else),
        sp(),
        name("d"),
        sp(),
        kw(Reserved::Else),
        sp(),
        name("e"),
        Token::EndOfFile,
    ];
    let inner = Expr::IfThenElse {
        condition: Box::new(var("b")),
        if_branch: Box::new(var("c")),
        else_branch: Box::new(var("d")),
    };
    let outer = Expr::IfThenElse {
        condition: Box::new(var("a")),
        if_branch: Box::new(inner),
        else_branch: Box::new(var("e")),
    };
    assert_eq!(prog(&toks), Ok(outer));
}

#[test]
fn let_form_parses() {
    // let val x = 1 in x end
    let toks = vec![
        kw(Reserved::Let),
        sp(),
        kw(Reserved::Val),
        sp(),
        name("x"),
        sp(),
        kw(Reserved::Equal),
        sp(),
        lit("1"),
        sp(),
        kw(Reserved::In),
        sp(),
        name("x"),
        sp(),
        kw(Reserved::End),
        Token::EndOfFile,
    ];
    let expected = Expr::Let {
        name: "x".to_string(),
        binder: Box::new(litex("1")),
        child: Box::new(var("x")),
    };
    assert_eq!(prog(&toks), Ok(expected));
}

#[test]
fn let_form_without_end_fails() {
    let toks = vec![
        kw(Reserved::Let),
        sp(),
        kw(Reserved::Val),
        sp(),
        name("x"),
        sp(),
        kw(Reserved::Equal),
        sp(),
        lit("1"),
        sp(),
        kw(Reserved::In),
        sp(),
        name("x"),
        Token::EndOfFile,
    ];
    assert!(prog(&toks).is_err());
}

#[test]
fn parenthesized_expression_parses() {
    let toks = vec![
        Token::Paren(Direction::Left),
        sp(),
        name("a"),
        sp(),
        Token::Paren(Direction::Right),
        Token::EndOfFile,
    ];
    assert_eq!(prog(&toks), Ok(var("a")));
}

#[test]
fn multiplication_binds_tighter_than_addition() {
    // 1 + 2 * 3 parses as 1 + (2 * 3).
    let toks = vec![
        lit("1"),
        sp(),
        kw(Reserved::Add),
        sp(),
        lit("2"),
        sp(),
        kw(Reserved::Mult),
        sp(),
        lit("3"),
        Token::EndOfFile,
    ];
    let expected = bin(litex("1"), BinaryOp::Add, bin(litex("2"), BinaryOp::Mult, litex("3")));
    assert_eq!(prog(&toks), Ok(expected));
}

#[test]
fn boolean_precedence_orders_not_andalso_orelse() {
    // not a andalso b orelse c parses as ((not a) andalso b) orelse c.
    let toks = vec![
        kw(Reserved::Not),
        sp(),
        name("a"),
        sp(),
        kw(Reserved::AndAlso),
        sp(),
        name("b"),
        sp(),
        kw(Reserved::OrElse),
        sp(),
        name("c"),
        Token::EndOfFile,
    ];
    let nota = Expr::Unary { operation: UnaryOp::Not, child: Box::new(var("a")) };
    let expected = bin(bin(nota, BinaryOp::AndAlso, var("b")), BinaryOp::OrElse, var("c"));
    assert_eq!(prog(&toks), Ok(expected));
}

#[test]
fn division_and_modulo_fold_left() {
    // a div b mod c parses as (a div b) mod c.
    let toks = vec![
        name("a"),
        sp(),
        kw(Reserved::Div),
        sp(),
        name("b"),
        sp(),
        kw(Reserved::Mod),
        sp(),
        name("c"),
        Token::EndOfFile,
    ];
    let expected = bin(bin(var("a"), BinaryOp::Div, var("b")), BinaryOp::Mod, var("c"));
    assert_eq!(prog(&toks), Ok(expected));
}

#[test]
fn zero_or_one_space_between_tokens_parses_identically() {
    let spaced = vec![
        name("a"),
        sp(),
        kw(Reserved::Add),
        sp(),
        name("b"),
        sp(),
        Token::EndOfFile,
    ];
    let unspaced = vec![name("a"), kw(Reserved::Add), name("b"), Token::EndOfFile];
    assert_eq!(prog(&spaced), Ok(bin(var("a"), BinaryOp::Add, var("b"))));
    assert_eq!(prog(&unspaced), Ok(bin(var("a"), BinaryOp::Add, var("b"))));
}

#[test]
fn let_form_parses_without_any_spaces() {
    let toks = vec![
        kw(Reserved::Let),
        kw(Reserved::Val),
        name("x"),
        kw(Reserved::Equal),
        lit("1"),
        kw(Reserved::In),
        name("x"),
        kw(Reserved::End),
        Token::EndOfFile,
    ];
    let expected = Expr::Let {
        name: "x".to_string(),
        binder: Box::new(litex("1")),
        child: Box::new(var("x")),
    };
    assert_eq!(prog(&toks), Ok(expected));
}

#[test]
fn zero_length_whitespace_run_matches_nothing() {
    // A whitespace-run token of length zero is treated as absent
    // whitespace: the space rule does not consume it.
    let toks = vec![Token::Space(0), name("a"), Token::EndOfFile];
    assert!(space(&toks, 0).is_err());
    let positive = vec![Token::Space(3), name("a"), Token::EndOfFile];
    assert_eq!(space(&positive, 0), Ok(1));
}

#[test]
fn trailing_tokens_after_expression_fail() {
    let toks = vec![name("a"), sp(), name("b"), Token::EndOfFile];
    assert_eq!(prog(&toks), Err(ParseError { position: 2 }));
}
