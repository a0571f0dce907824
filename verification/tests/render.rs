use exprlang::expr::{BinaryOp, Expr, UnaryOp};

fn var(s: &str) -> Expr {
    Expr::Var(s.to_string())
}

fn bin(l: Expr, op: BinaryOp, r: Expr) -> Expr {
    Expr::Binary { left: Box::new(l), operation: op, right: Box::new(r) }
}

#[test]
fn operator_labels_are_canonical() {
    assert_eq!(UnaryOp::Not.label(), "not");
    assert_eq!(BinaryOp::Add.label(), "(+)");
    assert_eq!(BinaryOp::Sub.label(), "(-)");
    assert_eq!(BinaryOp::Mult.label(), "(*)");
    assert_eq!(BinaryOp::Div.label(), "div");
    assert_eq!(BinaryOp::Mod.label(), "mod");
    assert_eq!(BinaryOp::Equal.label(), "(=)");
    assert_eq!(BinaryOp::LessThan.label(), "(<)");
    assert_eq!(BinaryOp::OrElse.label(), "orelse");
    assert_eq!(BinaryOp::AndAlso.label(), "andalso");
}

#[test]
fn pretty_leaf_is_its_own_line() {
    assert_eq!(var("x").pretty(), "x");
    assert_eq!(Expr::Lit("42".to_string()).pretty(), "42");
}

#[test]
fn pretty_binary_draws_two_branches() {
    // A Binary node with leaf children x and y under (+): the label,
    // then each child behind its connector, each block preceded by the
    // stem separator line.
    let e = bin(var("x"), BinaryOp::Add, var("y"));
    assert_eq!(e.pretty(), "(+)\n│  \n├──x\n│  \n└──y");
}

#[test]
fn pretty_unary_draws_one_branch() {
    let e = Expr::Unary { operation: UnaryOp::Not, child: Box::new(var("x")) };
    assert_eq!(e.pretty(), "not\n│  \n└──x");
}

#[test]
fn pretty_nested_binary_keeps_sibling_bars() {
    // (a - b) - c: the inner block's lines continue the outer bar,
    // and nothing is drawn under the last branch.
    let e = bin(bin(var("a"), BinaryOp::Sub, var("b")), BinaryOp::Sub, var("c"));
    let expected = "(-)\n│  \n├──(-)\n│  │  \n│  ├──a\n│  │  \n│  └──b\n│  \n└──c";
    assert_eq!(e.pretty(), expected);
}

#[test]
fn pretty_let_folds_name_into_label() {
    let e = Expr::Let {
        name: "v".to_string(),
        binder: Box::new(var("x")),
        child: Box::new(var("y")),
    };
    assert_eq!(e.pretty(), "let v=\n│  \n├──x\n│  \n└──y");
}

#[test]
fn pretty_if_draws_three_branches() {
    let e = Expr::IfThenElse {
        condition: Box::new(var("a")),
        if_branch: Box::new(var("b")),
        else_branch: Box::new(var("c")),
    };
    assert_eq!(e.pretty(), "if\n│  \n├──a\n│  \n├──b\n│  \n└──c");
}

#[test]
fn outline_leaf_ends_with_newline() {
    assert_eq!(var("x").outline(), "x\n");
}

#[test]
fn outline_binary_indents_children_three_spaces() {
    let e = bin(var("x"), BinaryOp::Add, var("y"));
    assert_eq!(e.outline(), "(+)\n   x\n   y\n");
}

#[test]
fn outline_let_prints_name_on_its_own_line() {
    let e = Expr::Let {
        name: "v".to_string(),
        binder: Box::new(var("x")),
        child: Box::new(var("y")),
    };
    assert_eq!(e.outline(), "let\n   v\n   x\n   y\n");
}

#[test]
fn outline_if_prints_single_label_line() {
    let e = Expr::IfThenElse {
        condition: Box::new(var("a")),
        if_branch: Box::new(var("b")),
        else_branch: Box::new(var("c")),
    };
    assert_eq!(e.outline(), "if then else\n   a\n   b\n   c\n");
}

#[test]
fn outline_indent_accumulates_with_depth() {
    let nota = Expr::Unary { operation: UnaryOp::Not, child: Box::new(var("a")) };
    let e = bin(nota, BinaryOp::AndAlso, var("b"));
    assert_eq!(e.outline(), "andalso\n   not\n      a\n   b\n");
}

#[test]
fn both_renderers_show_children_in_declared_order() {
    // The same tree, rendered both ways: x (the left child) appears
    // before y (the right child) in both line sequences.
    let e = bin(var("x"), BinaryOp::Sub, var("y"));
    let boxed = e.pretty();
    let outlined = e.outline();
    let bx = boxed.find("x").unwrap();
    let by = boxed.find("y").unwrap();
    assert!(bx < by);
    let ox = outlined.find("x").unwrap();
    let oy = outlined.find("y").unwrap();
    assert!(ox < oy);
}
