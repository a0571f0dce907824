//! The two tree renderers: a box-drawing layout and an indented
//! outline.
//!
//! Each renderer is specified as a sequence of rows derived from the
//! tree by structural recursion: a row carries the text of one output
//! line, split into a decoration part and a content part, and is marked
//! when its content is a node label.  The executable renderers are
//! proved to produce exactly the text of those rows, and the row
//! sequences themselves are proved to visit every node exactly once,
//! in declared child order.

use vstd::prelude::*;

use crate::expr::{Expr, spec_unary_label, spec_binary_label};

verus! {

/// The newline that separates or ends rendered lines.
pub open spec fn nl() -> Seq<char> {
    seq!['\n']
}

/// The vertical-bar column that keeps siblings below connected upward;
/// also the separator line between a label and its children's blocks.
pub open spec fn bar() -> Seq<char> {
    "\u{2502}  "@
}

/// The branch connector of a child that is not the last.
pub open spec fn con_mid() -> Seq<char> {
    "\u{251c}\u{2500}\u{2500}"@
}

/// The branch connector of the last child.
pub open spec fn con_last() -> Seq<char> {
    "\u{2514}\u{2500}\u{2500}"@
}

/// The blank continuation under the last branch.
pub open spec fn blank() -> Seq<char> {
    "   "@
}

/// One fixed indentation step of the outline renderer.
pub open spec fn indent_step() -> Seq<char> {
    "   "@
}

// ---------------------------------------------------------------------
// The box-drawing renderer.
//
// A row is `(prefix, text, is_label)`: the line reads `prefix + text`,
// and `is_label` marks the rows whose text is a node's own label (the
// separator rows between blocks are not).
// ---------------------------------------------------------------------

/// The output line of a row.
pub open spec fn row_line(r: (Seq<char>, Seq<char>, bool)) -> Seq<char> {
    r.0 + r.1
}

/// Every row of a block pushed one column to the right under
/// continuation `c`.
pub open spec fn shift_rows(rs: Seq<(Seq<char>, Seq<char>, bool)>, c: Seq<char>) -> Seq<
    (Seq<char>, Seq<char>, bool),
> {
    rs.map_values(|r: (Seq<char>, Seq<char>, bool)| (c + r.0, r.1, r.2))
}

/// A child's block placed under its parent: the connector `f` on its
/// first row, the continuation `c` on every other row.
pub open spec fn block_rows(
    rs: Seq<(Seq<char>, Seq<char>, bool)>,
    f: Seq<char>,
    c: Seq<char>,
) -> Seq<(Seq<char>, Seq<char>, bool)> {
    if rs.len() == 0 {
        rs
    } else {
        seq![(f + rs.first().0, rs.first().1, rs.first().2)] + shift_rows(rs.drop_first(), c)
    }
}

/// A separator row: the bare stem drawn between a node's label line
/// and a child's block.
pub open spec fn sep_row() -> (Seq<char>, Seq<char>, bool) {
    (Seq::empty(), bar(), false)
}

/// A label row with no decoration of its own.
pub open spec fn label_row(text: Seq<char>) -> (Seq<char>, Seq<char>, bool) {
    (Seq::empty(), text, true)
}

/// The box-drawing label of a node: operators display their canonical
/// token, an if-form displays `if`, and a let-form folds its bound
/// name into the label.
pub open spec fn box_label(e: Expr) -> Seq<char> {
    match e {
        Expr::Var(n) => n@,
        Expr::Lit(l) => l@,
        Expr::Unary { operation, .. } => spec_unary_label(operation),
        Expr::Binary { operation, .. } => spec_binary_label(operation),
        Expr::IfThenElse { .. } => "if"@,
        Expr::Let { name, .. } => "let "@ + name@ + "="@,
    }
}

/// The rows of the box-drawing rendering: the node's label line, then
/// each child's block beneath it, every block preceded by one
/// separator row, every child but the last connected with the
/// mid-branch decorations and the last with the closing ones.
pub open spec fn box_rows(e: Expr) -> Seq<(Seq<char>, Seq<char>, bool)>
    decreases e,
{
    match e {
        Expr::Var(_) => seq![label_row(box_label(e))],
        Expr::Lit(_) => seq![label_row(box_label(e))],
        Expr::Unary { child, .. } => seq![label_row(box_label(e)), sep_row()]
            + block_rows(box_rows(*child), con_last(), blank()),
        Expr::Binary { left, right, .. } => seq![label_row(box_label(e)), sep_row()]
            + block_rows(box_rows(*left), con_mid(), bar()) + seq![sep_row()] + block_rows(
            box_rows(*right),
            con_last(),
            blank(),
        ),
        Expr::IfThenElse { condition, if_branch, else_branch } => seq![
            label_row(box_label(e)),
            sep_row(),
        ] + block_rows(box_rows(*condition), con_mid(), bar()) + seq![sep_row()] + block_rows(
            box_rows(*if_branch),
            con_mid(),
            bar(),
        ) + seq![sep_row()] + block_rows(box_rows(*else_branch), con_last(), blank()),
        Expr::Let { binder, child, .. } => seq![label_row(box_label(e)), sep_row()]
            + block_rows(box_rows(*binder), con_mid(), bar()) + seq![sep_row()] + block_rows(
            box_rows(*child),
            con_last(),
            blank(),
        ),
    }
}

/// The lines of the box-drawing rendering.
pub open spec fn box_lines_spec(e: Expr) -> Seq<Seq<char>> {
    box_rows(e).map_values(|r: (Seq<char>, Seq<char>, bool)| row_line(r))
}

/// Lines joined with a newline between consecutive lines and none at
/// the end.
pub open spec fn join_lines(ls: Seq<Seq<char>>) -> Seq<char>
    decreases ls.len(),
{
    if ls.len() == 0 {
        Seq::empty()
    } else if ls.len() == 1 {
        ls[0]
    } else {
        join_lines(ls.drop_last()) + nl() + ls.last()
    }
}

/// The full box-drawing rendering of a tree.
pub open spec fn pretty_spec(e: Expr) -> Seq<char> {
    join_lines(box_lines_spec(e))
}

// ---------------------------------------------------------------------
// The indented-outline renderer.
//
// A row is `(padding, text)`; the line reads `padding + text` and every
// line, the last included, ends with a newline.
// ---------------------------------------------------------------------

/// The outline rows of a tree at a given padding: the node's own label
/// line, then each child at one more indentation step.  A let-form
/// prints its bound name alone on the line after its label; an if-form
/// prints the single label `if then else`.
pub open spec fn outline_rows(e: Expr, pad: Seq<char>) -> Seq<(Seq<char>, Seq<char>)>
    decreases e,
{
    match e {
        Expr::Var(n) => seq![(pad, n@)],
        Expr::Lit(l) => seq![(pad, l@)],
        Expr::Unary { operation, child } => seq![(pad, spec_unary_label(operation))]
            + outline_rows(*child, pad + indent_step()),
        Expr::Binary { left, operation, right } => seq![(pad, spec_binary_label(operation))]
            + outline_rows(*left, pad + indent_step()) + outline_rows(
            *right,
            pad + indent_step(),
        ),
        Expr::IfThenElse { condition, if_branch, else_branch } => seq![(pad, "if then else"@)]
            + outline_rows(*condition, pad + indent_step()) + outline_rows(
            *if_branch,
            pad + indent_step(),
        ) + outline_rows(*else_branch, pad + indent_step()),
        Expr::Let { name, binder, child } => seq![(pad, "let"@), (pad + indent_step(), name@)]
            + outline_rows(*binder, pad + indent_step()) + outline_rows(
            *child,
            pad + indent_step(),
        ),
    }
}

/// The text of a sequence of outline rows, each line newline-ended.
pub open spec fn rows_text(rs: Seq<(Seq<char>, Seq<char>)>) -> Seq<char>
    decreases rs.len(),
{
    if rs.len() == 0 {
        Seq::empty()
    } else {
        rs.first().0 + rs.first().1 + nl() + rows_text(rs.drop_first())
    }
}

/// The indented-outline text of a tree at a given padding, written out
/// flat: each node's label line, then its children one indentation
/// step deeper, every line newline-ended.
pub open spec fn outline_text(e: Expr, pad: Seq<char>) -> Seq<char>
    decreases e,
{
    match e {
        Expr::Var(n) => pad + n@ + nl(),
        Expr::Lit(l) => pad + l@ + nl(),
        Expr::Unary { operation, child } => pad + spec_unary_label(operation) + nl()
            + outline_text(*child, pad + indent_step()),
        Expr::Binary { left, operation, right } => pad + spec_binary_label(operation) + nl()
            + outline_text(*left, pad + indent_step()) + outline_text(
            *right,
            pad + indent_step(),
        ),
        Expr::IfThenElse { condition, if_branch, else_branch } => pad + "if then else"@ + nl()
            + outline_text(*condition, pad + indent_step()) + outline_text(
            *if_branch,
            pad + indent_step(),
        ) + outline_text(*else_branch, pad + indent_step()),
        Expr::Let { name, binder, child } => pad + "let"@ + nl() + (pad + indent_step()) + name@
            + nl() + outline_text(*binder, pad + indent_step()) + outline_text(
            *child,
            pad + indent_step(),
        ),
    }
}

/// The full indented-outline rendering of a tree.
pub open spec fn outline_spec(e: Expr) -> Seq<char> {
    outline_text(e, Seq::empty())
}

// ---------------------------------------------------------------------
// The executable renderers.
// ---------------------------------------------------------------------

/// The views of a sequence of owned lines.
pub open spec fn strs(v: Seq<String>) -> Seq<Seq<char>> {
    v.map_values(|s: String| s@)
}

/// A block of lines placed under a parent: connector `f` on the first
/// line, continuation `c` on every other.
pub open spec fn block_lines(ls: Seq<Seq<char>>, f: Seq<char>, c: Seq<char>) -> Seq<Seq<char>> {
    if ls.len() == 0 {
        ls
    } else {
        seq![f + ls.first()] + ls.drop_first().map_values(|l: Seq<char>| c + l)
    }
}

/// Decorating a block row by row and then reading its lines gives the
/// same lines as decorating the lines themselves.
proof fn lemma_block_line_view(rs: Seq<(Seq<char>, Seq<char>, bool)>, f: Seq<char>, c: Seq<char>)
    ensures
        block_rows(rs, f, c).map_values(|r: (Seq<char>, Seq<char>, bool)| row_line(r))
            == block_lines(
            rs.map_values(|r: (Seq<char>, Seq<char>, bool)| row_line(r)),
            f,
            c,
        ),
{
    let line = |r: (Seq<char>, Seq<char>, bool)| row_line(r);
    let lhs = block_rows(rs, f, c).map_values(line);
    let rhs = block_lines(rs.map_values(line), f, c);
    assert forall|i: int| 0 <= i < lhs.len() implies lhs[i] =~= rhs[i] by {
        if i == 0 {
            assert((f + rs[0].0) + rs[0].1 =~= f + (rs[0].0 + rs[0].1));
        } else {
            assert((c + rs[i].0) + rs[i].1 =~= c + (rs[i].0 + rs[i].1));
        }
    }
    assert(lhs =~~= rhs);
}

/// Pushes a child's rendered block under the lines gathered so far,
/// decorating its first line with `f` and the rest with `c`.
fn push_block(out: &mut Vec<String>, block: &Vec<String>, f: &str, c: &str)
    ensures
        strs(final(out)@) == strs(old(out)@) + block_lines(strs(block@), f@, c@),
{
    let ghost target = block_lines(strs(block@), f@, c@);
    let mut i: usize = 0;
    while i < block.len()
        invariant
            0 <= i <= block@.len(),
            target == block_lines(strs(block@), f@, c@),
            strs(out@) == strs(old(out)@) + target.take(i as int),
        decreases block@.len() - i,
    {
        let mut s = if i == 0 {
            String::from_str(f)
        } else {
            String::from_str(c)
        };
        s.append(block[i].as_str());
        proof {
            assert(target.len() == block@.len());
            assert(s@ =~= target[i as int]);
        }
        let ghost before = out@;
        out.push(s);
        proof {
            assert(strs(out@) =~~= strs(before).push(s@));
            assert(target.take(i as int + 1) =~~= target.take(i as int).push(target[i as int]));
            assert((strs(old(out)@) + target.take(i as int)).push(target[i as int]) =~~= strs(
                old(out)@,
            ) + target.take(i as int + 1));
            assert(strs(out@) =~~= strs(old(out)@) + target.take(i as int + 1));
        }
        i = i + 1;
    }
    proof {
        assert(target.take(block@.len() as int) =~~= target);
    }
}

impl Expr {
    /// The box-drawing rendering of this tree, as one multi-line
    /// string with no trailing newline.
    pub fn pretty(&self) -> (out: String)
        ensures
            out@ == pretty_spec(*self),
    {
        let lines = box_lines(self);
        let mut out = String::new();
        let mut i: usize = 0;
        while i < lines.len()
            invariant
                0 <= i <= lines@.len(),
                strs(lines@) == box_lines_spec(*self),
                out@ == join_lines(strs(lines@).take(i as int)),
            decreases lines@.len() - i,
        {
            if i > 0 {
                out.append("\n");
            }
            out.append(lines[i].as_str());
            proof {
                let ls = strs(lines@);
                assert(ls.take(i as int + 1).drop_last() =~~= ls.take(i as int));
                assert(ls.take(i as int + 1).last() == ls[i as int]);
                if i == 0 {
                    assert(out@ =~= ls[0]);
                } else {
                    reveal_strlit("\n");
                    assert(out@ =~= join_lines(ls.take(i as int)) + nl() + ls[i as int]);
                }
            }
            i = i + 1;
        }
        proof {
            assert(strs(lines@).take(lines@.len() as int) =~~= strs(lines@));
        }
        out
    }

    /// The indented-outline rendering of this tree, every line ended
    /// with a newline.
    pub fn outline(&self) -> (out: String)
        ensures
            out@ == outline_spec(*self),
    {
        let pad = String::new();
        let mut out = String::new();
        outline_into(self, &pad, &mut out);
        proof {
            assert(pad@ =~= Seq::<char>::empty());
            assert(Seq::<char>::empty() + rows_text(outline_rows(*self, Seq::empty())) =~= rows_text(
                outline_rows(*self, Seq::empty()),
            ));
        }
        out
    }
}

/// The lines of the box-drawing rendering of a tree, one `String` per
/// output line.
fn box_lines(e: &Expr) -> (v: Vec<String>)
    ensures
        strs(v@) == box_lines_spec(*e),
    decreases *e,
{
    match e {
        Expr::Var(n) => {
            let mut v: Vec<String> = Vec::new();
            v.push(n.clone());
            proof {
                assert(Seq::<char>::empty() + n@ =~= n@);
                assert(strs(v@) =~~= box_lines_spec(*e));
            }
            v
        },
        Expr::Lit(l) => {
            let mut v: Vec<String> = Vec::new();
            v.push(l.clone());
            proof {
                assert(Seq::<char>::empty() + l@ =~= l@);
                assert(strs(v@) =~~= box_lines_spec(*e));
            }
            v
        },
        Expr::Unary { operation, child } => {
            let mut v: Vec<String> = Vec::new();
            v.push(String::from_str(operation.label()));
            v.push(String::from_str("\u{2502}  "));
            let ghost v0 = v@;
            let sub = box_lines(child);
            push_block(&mut v, &sub, "\u{2514}\u{2500}\u{2500}", "   ");
            proof {
                lemma_block_line_view(box_rows(**child), con_last(), blank());
                assert(strs(v0) =~~= seq![spec_unary_label(*operation), bar()]);
                assert(strs(v@) == strs(v0) + block_lines(strs(sub@), con_last(), blank()));
                assert(Seq::<char>::empty() + box_label(*e) =~= box_label(*e));
                assert(Seq::<char>::empty() + bar() =~= bar());
                assert(strs(v@) =~~= box_lines_spec(*e));
            }
            v
        },
        Expr::Binary { left, operation, right } => {
            let mut v: Vec<String> = Vec::new();
            v.push(String::from_str(operation.label()));
            v.push(String::from_str("\u{2502}  "));
            let ghost v0 = v@;
            let sub_l = box_lines(left);
            push_block(&mut v, &sub_l, "\u{251c}\u{2500}\u{2500}", "\u{2502}  ");
            let ghost v1 = v@;
            v.push(String::from_str("\u{2502}  "));
            let ghost v2 = v@;
            let sub_r = box_lines(right);
            push_block(&mut v, &sub_r, "\u{2514}\u{2500}\u{2500}", "   ");
            proof {
                lemma_block_line_view(box_rows(**left), con_mid(), bar());
                lemma_block_line_view(box_rows(**right), con_last(), blank());
                assert(strs(v0) =~~= seq![spec_binary_label(*operation), bar()]);
                assert(strs(v1) == strs(v0) + block_lines(strs(sub_l@), con_mid(), bar()));
                assert(strs(v2) =~~= strs(v1).push(bar()));
                assert(strs(v@) == strs(v2) + block_lines(strs(sub_r@), con_last(), blank()));
                assert(Seq::<char>::empty() + box_label(*e) =~= box_label(*e));
                assert(Seq::<char>::empty() + bar() =~= bar());
                assert(strs(v@) =~~= box_lines_spec(*e));
            }
            v
        },
        Expr::IfThenElse { condition, if_branch, else_branch } => {
            let mut v: Vec<String> = Vec::new();
            v.push(String::from_str("if"));
            v.push(String::from_str("\u{2502}  "));
            let ghost v0 = v@;
            let sub_c = box_lines(condition);
            push_block(&mut v, &sub_c, "\u{251c}\u{2500}\u{2500}", "\u{2502}  ");
            let ghost v1 = v@;
            v.push(String::from_str("\u{2502}  "));
            let ghost v2 = v@;
            let sub_i = box_lines(if_branch);
            push_block(&mut v, &sub_i, "\u{251c}\u{2500}\u{2500}", "\u{2502}  ");
            let ghost v3 = v@;
            v.push(String::from_str("\u{2502}  "));
            let ghost v4 = v@;
            let sub_e = box_lines(else_branch);
            push_block(&mut v, &sub_e, "\u{2514}\u{2500}\u{2500}", "   ");
            proof {
                lemma_block_line_view(box_rows(**condition), con_mid(), bar());
                lemma_block_line_view(box_rows(**if_branch), con_mid(), bar());
                lemma_block_line_view(box_rows(**else_branch), con_last(), blank());
                assert(strs(v0) =~~= seq!["if"@, bar()]);
                assert(strs(v1) == strs(v0) + block_lines(strs(sub_c@), con_mid(), bar()));
                assert(strs(v2) =~~= strs(v1).push(bar()));
                assert(strs(v3) == strs(v2) + block_lines(strs(sub_i@), con_mid(), bar()));
                assert(strs(v4) =~~= strs(v3).push(bar()));
                assert(strs(v@) == strs(v4) + block_lines(strs(sub_e@), con_last(), blank()));
                assert(Seq::<char>::empty() + box_label(*e) =~= box_label(*e));
                assert(Seq::<char>::empty() + bar() =~= bar());
                assert(strs(v@) =~~= box_lines_spec(*e));
            }
            v
        },
        Expr::Let { name, binder, child } => {
            let mut label = String::from_str("let ");
            label.append(name.as_str());
            label.append("=");
            let mut v: Vec<String> = Vec::new();
            v.push(label);
            v.push(String::from_str("\u{2502}  "));
            let ghost v0 = v@;
            let sub_b = box_lines(binder);
            push_block(&mut v, &sub_b, "\u{251c}\u{2500}\u{2500}", "\u{2502}  ");
            let ghost v1 = v@;
            v.push(String::from_str("\u{2502}  "));
            let ghost v2 = v@;
            let sub_c = box_lines(child);
            push_block(&mut v, &sub_c, "\u{2514}\u{2500}\u{2500}", "   ");
            proof {
                lemma_block_line_view(box_rows(**binder), con_mid(), bar());
                lemma_block_line_view(box_rows(**child), con_last(), blank());
                reveal_strlit("let ");
                reveal_strlit("=");
                assert(("let "@ + name@ + "="@) =~= box_label(*e));
                assert(strs(v0) =~~= seq![("let "@ + name@ + "="@), bar()]);
                assert(strs(v1) == strs(v0) + block_lines(strs(sub_b@), con_mid(), bar()));
                assert(strs(v2) =~~= strs(v1).push(bar()));
                assert(strs(v@) == strs(v2) + block_lines(strs(sub_c@), con_last(), blank()));
                assert(Seq::<char>::empty() + box_label(*e) =~= box_label(*e));
                assert(Seq::<char>::empty() + bar() =~= bar());
                assert(strs(v@) =~~= box_lines_spec(*e));
            }
            v
        },
    }
}

// ---------------------------------------------------------------------
// Visit order: each renderer's rows name every node exactly once, in
// the tree's declared child order.
// ---------------------------------------------------------------------

/// The label column of a box-row sequence: the texts of its labelled
/// rows, top to bottom, separator rows skipped.
pub open spec fn row_labels(rs: Seq<(Seq<char>, Seq<char>, bool)>) -> Seq<Seq<char>>
    decreases rs.len(),
{
    if rs.len() == 0 {
        Seq::empty()
    } else if rs.first().2 {
        seq![rs.first().1] + row_labels(rs.drop_first())
    } else {
        row_labels(rs.drop_first())
    }
}

/// The preorder traversal of a tree's box-drawing labels: each node's
/// own label once, then its children's, in declared order.
pub open spec fn box_visit_labels(e: Expr) -> Seq<Seq<char>>
    decreases e,
{
    match e {
        Expr::Var(_) => seq![box_label(e)],
        Expr::Lit(_) => seq![box_label(e)],
        Expr::Unary { child, .. } => seq![box_label(e)] + box_visit_labels(*child),
        Expr::Binary { left, right, .. } => seq![box_label(e)] + box_visit_labels(*left)
            + box_visit_labels(*right),
        Expr::IfThenElse { condition, if_branch, else_branch } => seq![box_label(e)]
            + box_visit_labels(*condition) + box_visit_labels(*if_branch) + box_visit_labels(
            *else_branch,
        ),
        Expr::Let { binder, child, .. } => seq![box_label(e)] + box_visit_labels(*binder)
            + box_visit_labels(*child),
    }
}

/// The labels of a concatenation of row sequences are the labels of
/// the parts, in order.
proof fn lemma_row_labels_add(
    a: Seq<(Seq<char>, Seq<char>, bool)>,
    b: Seq<(Seq<char>, Seq<char>, bool)>,
)
    ensures
        row_labels(a + b) == row_labels(a) + row_labels(b),
    decreases a.len(),
{
    if a.len() == 0 {
        assert(a + b =~= b);
        assert(Seq::<Seq<char>>::empty() + row_labels(b) =~= row_labels(b));
    } else {
        assert((a + b).drop_first() =~= a.drop_first() + b);
        lemma_row_labels_add(a.drop_first(), b);
        assert((a + b).first() == a.first());
        if a.first().2 {
            assert(seq![a.first().1] + (row_labels(a.drop_first()) + row_labels(b)) =~= (seq![
                a.first().1,
            ] + row_labels(a.drop_first())) + row_labels(b));
        }
    }
}

/// Shifting a block right changes no row's text or label mark.
proof fn lemma_row_labels_shift(rs: Seq<(Seq<char>, Seq<char>, bool)>, c: Seq<char>)
    ensures
        row_labels(shift_rows(rs, c)) == row_labels(rs),
    decreases rs.len(),
{
    if rs.len() == 0 {
        assert(shift_rows(rs, c).len() == 0);
    } else {
        let sh = shift_rows(rs, c);
        assert(sh.first() == (c + rs.first().0, rs.first().1, rs.first().2));
        assert(sh.drop_first() =~= shift_rows(rs.drop_first(), c));
        lemma_row_labels_shift(rs.drop_first(), c);
    }
}

/// Decorating a child's block changes no row's text or label mark.
proof fn lemma_row_labels_block(rs: Seq<(Seq<char>, Seq<char>, bool)>, f: Seq<char>, c: Seq<char>)
    ensures
        row_labels(block_rows(rs, f, c)) == row_labels(rs),
{
    reveal_with_fuel(row_labels, 3);
    if rs.len() == 0 {
    } else {
        let hd = seq![(f + rs.first().0, rs.first().1, rs.first().2)];
        let tl = shift_rows(rs.drop_first(), c);
        lemma_row_labels_add(hd, tl);
        lemma_row_labels_shift(rs.drop_first(), c);
        assert(hd.drop_first().len() == 0);
        if rs.first().2 {
            assert(row_labels(hd) =~= seq![rs.first().1]);
            assert(seq![rs.first().1] + row_labels(rs.drop_first()) == row_labels(rs));
        } else {
            assert(row_labels(hd) =~= Seq::<Seq<char>>::empty());
            assert(Seq::<Seq<char>>::empty() + row_labels(rs.drop_first()) =~= row_labels(
                rs.drop_first(),
            ));
        }
    }
}

/// The box-drawing renderer visits every node exactly once and keeps
/// the declared child order: the labelled rows of `box_rows`, read top
/// to bottom, are exactly the preorder labels of the tree.
pub proof fn lemma_box_visit_order(e: Expr)
    ensures
        row_labels(box_rows(e)) == box_visit_labels(e),
    decreases e,
{
    reveal_with_fuel(row_labels, 4);
    let lbl = seq![label_row(box_label(e)), sep_row()];
    assert(row_labels(lbl) =~= seq![box_label(e)]) by {
        assert(lbl.drop_first() =~= seq![sep_row()]);
        assert(seq![sep_row()].drop_first().len() == 0);
    }
    match e {
        Expr::Var(_) => {
            assert(seq![label_row(box_label(e))].drop_first().len() == 0);
            assert(row_labels(box_rows(e)) =~= box_visit_labels(e));
        },
        Expr::Lit(_) => {
            assert(seq![label_row(box_label(e))].drop_first().len() == 0);
            assert(row_labels(box_rows(e)) =~= box_visit_labels(e));
        },
        Expr::Unary { child, .. } => {
            let b = block_rows(box_rows(*child), con_last(), blank());
            lemma_row_labels_add(lbl, b);
            lemma_row_labels_block(box_rows(*child), con_last(), blank());
            lemma_box_visit_order(*child);
            assert(row_labels(box_rows(e)) =~= box_visit_labels(e));
        },
        Expr::Binary { left, right, .. } => {
            let bl = block_rows(box_rows(*left), con_mid(), bar());
            let br = block_rows(box_rows(*right), con_last(), blank());
            lemma_row_labels_add(lbl + bl + seq![sep_row()], br);
            lemma_row_labels_add(lbl + bl, seq![sep_row()]);
            lemma_row_labels_add(lbl, bl);
            lemma_row_labels_block(box_rows(*left), con_mid(), bar());
            lemma_row_labels_block(box_rows(*right), con_last(), blank());
            lemma_box_visit_order(*left);
            lemma_box_visit_order(*right);
            assert(seq![sep_row()].drop_first().len() == 0);
            assert(row_labels(seq![sep_row()]) =~= Seq::<Seq<char>>::empty());
            assert(row_labels(box_rows(e)) =~= box_visit_labels(e));
        },
        Expr::IfThenElse { condition, if_branch, else_branch } => {
            let bc = block_rows(box_rows(*condition), con_mid(), bar());
            let bi = block_rows(box_rows(*if_branch), con_mid(), bar());
            let be = block_rows(box_rows(*else_branch), con_last(), blank());
            lemma_row_labels_add(lbl + bc + seq![sep_row()] + bi + seq![sep_row()], be);
            lemma_row_labels_add(lbl + bc + seq![sep_row()] + bi, seq![sep_row()]);
            lemma_row_labels_add(lbl + bc + seq![sep_row()], bi);
            lemma_row_labels_add(lbl + bc, seq![sep_row()]);
            lemma_row_labels_add(lbl, bc);
            lemma_row_labels_block(box_rows(*condition), con_mid(), bar());
            lemma_row_labels_block(box_rows(*if_branch), con_mid(), bar());
            lemma_row_labels_block(box_rows(*else_branch), con_last(), blank());
            lemma_box_visit_order(*condition);
            lemma_box_visit_order(*if_branch);
            lemma_box_visit_order(*else_branch);
            assert(seq![sep_row()].drop_first().len() == 0);
            assert(row_labels(seq![sep_row()]) =~= Seq::<Seq<char>>::empty());
            assert(row_labels(box_rows(e)) =~= box_visit_labels(e));
        },
        Expr::Let { binder, child, .. } => {
            let bb = block_rows(box_rows(*binder), con_mid(), bar());
            let bc = block_rows(box_rows(*child), con_last(), blank());
            lemma_row_labels_add(lbl + bb + seq![sep_row()], bc);
            lemma_row_labels_add(lbl + bb, seq![sep_row()]);
            lemma_row_labels_add(lbl, bb);
            lemma_row_labels_block(box_rows(*binder), con_mid(), bar());
            lemma_row_labels_block(box_rows(*child), con_last(), blank());
            lemma_box_visit_order(*binder);
            lemma_box_visit_order(*child);
            assert(seq![sep_row()].drop_first().len() == 0);
            assert(row_labels(seq![sep_row()]) =~= Seq::<Seq<char>>::empty());
            assert(row_labels(box_rows(e)) =~= box_visit_labels(e));
        },
    }
}

/// The outline labels of a tree, in preorder: each node's own label
/// line once (a let-form's bound name stands on the line after its
/// label), then its children's labels in declared order.
pub open spec fn outline_visit_labels(e: Expr) -> Seq<Seq<char>>
    decreases e,
{
    match e {
        Expr::Var(n) => seq![n@],
        Expr::Lit(l) => seq![l@],
        Expr::Unary { operation, child } => seq![spec_unary_label(operation)]
            + outline_visit_labels(*child),
        Expr::Binary { left, operation, right } => seq![spec_binary_label(operation)]
            + outline_visit_labels(*left) + outline_visit_labels(*right),
        Expr::IfThenElse { condition, if_branch, else_branch } => seq!["if then else"@]
            + outline_visit_labels(*condition) + outline_visit_labels(*if_branch)
            + outline_visit_labels(*else_branch),
        Expr::Let { name, binder, child } => seq!["let"@, name@] + outline_visit_labels(*binder)
            + outline_visit_labels(*child),
    }
}

/// The text column of an outline row sequence.
pub open spec fn outline_row_texts(rs: Seq<(Seq<char>, Seq<char>)>) -> Seq<Seq<char>> {
    rs.map_values(|r: (Seq<char>, Seq<char>)| r.1)
}

/// The indented-outline renderer visits every node exactly once and
/// keeps the declared child order: the text column of its rows, top to
/// bottom, is exactly the preorder label sequence of the tree, at
/// every padding.
pub proof fn lemma_outline_visit_order(e: Expr, pad: Seq<char>)
    ensures
        outline_row_texts(outline_rows(e, pad)) == outline_visit_labels(e),
    decreases e,
{
    match e {
        Expr::Var(_) => {
            assert(outline_row_texts(outline_rows(e, pad)) =~~= outline_visit_labels(e));
        },
        Expr::Lit(_) => {
            assert(outline_row_texts(outline_rows(e, pad)) =~~= outline_visit_labels(e));
        },
        Expr::Unary { child, .. } => {
            lemma_outline_visit_order(*child, pad + indent_step());
            assert(outline_row_texts(outline_rows(e, pad)) =~~= outline_visit_labels(e));
        },
        Expr::Binary { left, right, .. } => {
            lemma_outline_visit_order(*left, pad + indent_step());
            lemma_outline_visit_order(*right, pad + indent_step());
            assert(outline_row_texts(outline_rows(e, pad)) =~~= outline_visit_labels(e));
        },
        Expr::IfThenElse { condition, if_branch, else_branch } => {
            lemma_outline_visit_order(*condition, pad + indent_step());
            lemma_outline_visit_order(*if_branch, pad + indent_step());
            lemma_outline_visit_order(*else_branch, pad + indent_step());
            assert(outline_row_texts(outline_rows(e, pad)) =~~= outline_visit_labels(e));
        },
        Expr::Let { binder, child, .. } => {
            lemma_outline_visit_order(*binder, pad + indent_step());
            lemma_outline_visit_order(*child, pad + indent_step());
            assert(outline_row_texts(outline_rows(e, pad)) =~~= outline_visit_labels(e));
        },
    }
}

/// The text of a concatenation of outline rows is the concatenation of
/// the texts.
proof fn lemma_rows_text_add(a: Seq<(Seq<char>, Seq<char>)>, b: Seq<(Seq<char>, Seq<char>)>)
    ensures
        rows_text(a + b) == rows_text(a) + rows_text(b),
    decreases a.len(),
{
    if a.len() == 0 {
        assert(a + b =~= b);
        assert(Seq::<char>::empty() + rows_text(b) =~= rows_text(b));
    } else {
        assert((a + b).drop_first() =~= a.drop_first() + b);
        lemma_rows_text_add(a.drop_first(), b);
        assert((a + b).first() == a.first());
        assert((a.first().0 + a.first().1 + nl() + (rows_text(a.drop_first()) + rows_text(b)))
            =~= ((a.first().0 + a.first().1 + nl() + rows_text(a.drop_first())) + rows_text(b)));
    }
}

/// The outline text of a tree is exactly the text of its outline
/// rows: padding, content and one newline per row, in row order.  With
/// the visit-order result above, this ties the rendered text line by
/// line to the tree's preorder traversal.
pub proof fn lemma_outline_text_is_rows_text(e: Expr, pad: Seq<char>)
    ensures
        outline_text(e, pad) == rows_text(outline_rows(e, pad)),
    decreases e,
{
    reveal_with_fuel(rows_text, 3);
    match e {
        Expr::Var(n) => {
            assert(outline_text(e, pad) =~= rows_text(outline_rows(e, pad)));
        },
        Expr::Lit(l) => {
            assert(outline_text(e, pad) =~= rows_text(outline_rows(e, pad)));
        },
        Expr::Unary { operation, child } => {
            let lab = seq![(pad, spec_unary_label(operation))];
            let rc = outline_rows(*child, pad + indent_step());
            lemma_rows_text_add(lab, rc);
            lemma_outline_text_is_rows_text(*child, pad + indent_step());
            assert(rows_text(lab) =~= pad + spec_unary_label(operation) + nl());
            assert(outline_text(e, pad) =~= rows_text(lab) + rows_text(rc));
        },
        Expr::Binary { left, operation, right } => {
            let lab = seq![(pad, spec_binary_label(operation))];
            let rl = outline_rows(*left, pad + indent_step());
            let rr = outline_rows(*right, pad + indent_step());
            lemma_rows_text_add(lab + rl, rr);
            lemma_rows_text_add(lab, rl);
            lemma_outline_text_is_rows_text(*left, pad + indent_step());
            lemma_outline_text_is_rows_text(*right, pad + indent_step());
            assert(rows_text(lab) =~= pad + spec_binary_label(operation) + nl());
            assert(outline_text(e, pad) =~= (rows_text(lab) + rows_text(rl)) + rows_text(rr));
        },
        Expr::IfThenElse { condition, if_branch, else_branch } => {
            let lab = seq![(pad, "if then else"@)];
            let rc = outline_rows(*condition, pad + indent_step());
            let ri = outline_rows(*if_branch, pad + indent_step());
            let re = outline_rows(*else_branch, pad + indent_step());
            lemma_rows_text_add(lab + rc + ri, re);
            lemma_rows_text_add(lab + rc, ri);
            lemma_rows_text_add(lab, rc);
            lemma_outline_text_is_rows_text(*condition, pad + indent_step());
            lemma_outline_text_is_rows_text(*if_branch, pad + indent_step());
            lemma_outline_text_is_rows_text(*else_branch, pad + indent_step());
            assert(rows_text(lab) =~= pad + "if then else"@ + nl());
            assert(outline_text(e, pad) =~= ((rows_text(lab) + rows_text(rc)) + rows_text(ri))
                + rows_text(re));
        },
        Expr::Let { name, binder, child } => {
            let lab = seq![(pad, "let"@), (pad + indent_step(), name@)];
            let rb = outline_rows(*binder, pad + indent_step());
            let rc = outline_rows(*child, pad + indent_step());
            lemma_rows_text_add(lab + rb, rc);
            lemma_rows_text_add(lab, rb);
            lemma_outline_text_is_rows_text(*binder, pad + indent_step());
            lemma_outline_text_is_rows_text(*child, pad + indent_step());
            assert(rows_text(lab) =~= pad + "let"@ + nl() + (pad + indent_step()) + name@
                + nl());
            assert(outline_text(e, pad) =~= (rows_text(lab) + rows_text(rb)) + rows_text(rc));
        },
    }
}

/// Appends the indented-outline rendering of `e` at padding `pad` to
/// `out`, one newline-ended line per node visit.
fn outline_into(e: &Expr, pad: &String, out: &mut String)
    ensures
        final(out)@ == old(out)@ + outline_text(*e, pad@),
    decreases *e,
{
    let ghost pad0 = pad@;
    let ghost out0 = out@;
    match e {
        Expr::Var(n) => {
            out.append(pad.as_str());
            out.append(n.as_str());
            out.append("\n");
            proof {
                reveal_strlit("\n");
                assert("\n"@ =~= nl());
                assert(out@ =~= out0 + outline_text(*e, pad0));
            }
        },
        Expr::Lit(l) => {
            out.append(pad.as_str());
            out.append(l.as_str());
            out.append("\n");
            proof {
                reveal_strlit("\n");
                assert("\n"@ =~= nl());
                assert(out@ =~= out0 + outline_text(*e, pad0));
            }
        },
        Expr::Unary { operation, child } => {
            out.append(pad.as_str());
            out.append(operation.label());
            out.append("\n");
            let mut deeper = pad.clone();
            deeper.append("   ");
            outline_into(child, &deeper, out);
            proof {
                reveal_strlit("\n");
                assert("\n"@ =~= nl());
                assert(deeper@ == pad0 + indent_step());
                let sub = outline_text(**child, pad0 + indent_step());
                assert(out@ == out0 + pad0 + spec_unary_label(*operation) + nl() + sub);
                assert(out@ =~= out0 + (pad0 + spec_unary_label(*operation) + nl() + sub));
            }
        },
        Expr::Binary { left, operation, right } => {
            out.append(pad.as_str());
            out.append(operation.label());
            out.append("\n");
            let mut deeper = pad.clone();
            deeper.append("   ");
            outline_into(left, &deeper, out);
            outline_into(right, &deeper, out);
            proof {
                reveal_strlit("\n");
                assert("\n"@ =~= nl());
                assert(deeper@ == pad0 + indent_step());
                let sl = outline_text(**left, pad0 + indent_step());
                let sr = outline_text(**right, pad0 + indent_step());
                assert(out@ == out0 + pad0 + spec_binary_label(*operation) + nl() + sl + sr);
                assert(out@ =~= out0 + (pad0 + spec_binary_label(*operation) + nl() + sl + sr));
            }
        },
        Expr::IfThenElse { condition, if_branch, else_branch } => {
            out.append(pad.as_str());
            out.append("if then else");
            out.append("\n");
            let mut deeper = pad.clone();
            deeper.append("   ");
            outline_into(condition, &deeper, out);
            outline_into(if_branch, &deeper, out);
            outline_into(else_branch, &deeper, out);
            proof {
                reveal_strlit("\n");
                assert("\n"@ =~= nl());
                assert(deeper@ == pad0 + indent_step());
                let sc = outline_text(**condition, pad0 + indent_step());
                let si = outline_text(**if_branch, pad0 + indent_step());
                let se = outline_text(**else_branch, pad0 + indent_step());
                assert(out@ == out0 + pad0 + "if then else"@ + nl() + sc + si + se);
                assert(out@ =~= out0 + (pad0 + "if then else"@ + nl() + sc + si + se));
            }
        },
        Expr::Let { name, binder, child } => {
            out.append(pad.as_str());
            out.append("let");
            out.append("\n");
            let mut deeper = pad.clone();
            deeper.append("   ");
            out.append(deeper.as_str());
            out.append(name.as_str());
            out.append("\n");
            outline_into(binder, &deeper, out);
            outline_into(child, &deeper, out);
            proof {
                reveal_strlit("\n");
                assert("\n"@ =~= nl());
                assert(deeper@ == pad0 + indent_step());
                let sb = outline_text(**binder, pad0 + indent_step());
                let sc = outline_text(**child, pad0 + indent_step());
                assert(out@ == out0 + pad0 + "let"@ + nl() + (pad0 + indent_step()) + name@
                    + nl() + sb + sc);
                assert(out@ =~= out0 + (pad0 + "let"@ + nl() + (pad0 + indent_step()) + name@
                    + nl() + sb + sc));
            }
        },
    }
}

} // verus!
