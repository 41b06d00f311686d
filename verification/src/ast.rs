//! The syntax tree.

use crate::text::{concat, spaces};
use vstd::prelude::*;
use vstd::string::*;

verus! {

/// A unary operator.
#[derive(Debug, Clone, Copy, PartialEq, Eq, Structural)]
pub enum UnOp {
    Neg,
    Not,
}

/// A binary operator.
#[derive(Debug, Clone, Copy, PartialEq, Eq, Structural)]
pub enum BinOp {
    Add,
    Sub,
    Mul,
    Div,
    Pow,
    Mod,
    Eq,
    Ne,
    Lt,
    Le,
    Gt,
    Ge,
    And,
    Or,
}

/// An expression. Every node owns its children.
#[derive(Debug, PartialEq)]
#[allow(inconsistent_fields)]
pub enum Expr {
    /// A numeric literal, as it is written in the source.
    Number(String),
    Bool(bool),
    Ident(String),
    /// `name(args)`, or `@name(args)` where `is_alg` is set.
    Call { is_alg: bool, name: String, args: Vec<Expr> },
    Unary { op: UnOp, expr: Box<Expr> },
    Bin { op: BinOp, left: Box<Expr>, right: Box<Expr> },
    /// Arms of condition and result, tried in order, and the default.
    Case { arms: Vec<(Expr, Expr)>, default: Box<Expr> },
    /// `head >> step >> step ...`
    Pipe { head: Box<Expr>, steps: Vec<Expr> },
}

/// The mathematical value of an [`Expr`].
#[allow(inconsistent_fields)]
pub ghost enum ExprView {
    Number(Seq<char>),
    Bool(bool),
    Ident(Seq<char>),
    Call { is_alg: bool, name: Seq<char>, args: Seq<ExprView> },
    Unary { op: UnOp, expr: Box<ExprView> },
    Bin { op: BinOp, left: Box<ExprView>, right: Box<ExprView> },
    Case { arms: Seq<(ExprView, ExprView)>, default: Box<ExprView> },
    Pipe { head: Box<ExprView>, steps: Seq<ExprView> },
}

/// The value of an expression tree.
pub open spec fn expr_view(e: Expr) -> ExprView
    decreases e,
{
    match e {
        Expr::Number(s) => ExprView::Number(s@),
        Expr::Bool(b) => ExprView::Bool(b),
        Expr::Ident(s) => ExprView::Ident(s@),
        Expr::Call { is_alg, name, args } => ExprView::Call {
            is_alg,
            name: name@,
            args: Seq::new(
                args@.len(),
                |i: int|
                    if 0 <= i < args@.len() {
                        expr_view(args@[i])
                    } else {
                        ExprView::Bool(false)
                    },
            ),
        },
        Expr::Unary { op, expr } => ExprView::Unary { op, expr: Box::new(expr_view(*expr)) },
        Expr::Bin { op, left, right } => ExprView::Bin {
            op,
            left: Box::new(expr_view(*left)),
            right: Box::new(expr_view(*right)),
        },
        Expr::Case { arms, default } => ExprView::Case {
            arms: Seq::new(
                arms@.len(),
                |i: int|
                    if 0 <= i < arms@.len() {
                        (expr_view(arms@[i].0), expr_view(arms@[i].1))
                    } else {
                        (ExprView::Bool(false), ExprView::Bool(false))
                    },
            ),
            default: Box::new(expr_view(*default)),
        },
        Expr::Pipe { head, steps } => ExprView::Pipe {
            head: Box::new(expr_view(*head)),
            steps: Seq::new(
                steps@.len(),
                |i: int|
                    if 0 <= i < steps@.len() {
                        expr_view(steps@[i])
                    } else {
                        ExprView::Bool(false)
                    },
            ),
        },
    }
}

impl View for Expr {
    type V = ExprView;

    open spec fn view(&self) -> ExprView {
        expr_view(*self)
    }
}

/// The values of a sequence of expressions, in order.
pub open spec fn exprs_view(v: Seq<Expr>) -> Seq<ExprView> {
    v.map_values(|e: Expr| e@)
}

/// The values of the arms of a case expression, in order.
pub open spec fn arms_view(v: Seq<(Expr, Expr)>) -> Seq<(ExprView, ExprView)> {
    v.map_values(|a: (Expr, Expr)| (a.0@, a.1@))
}

/// The value of a node, over the values of its children.
pub proof fn lemma_expr_view(e: Expr)
    ensures
        e@ == match e {
            Expr::Number(s) => ExprView::Number(s@),
            Expr::Bool(b) => ExprView::Bool(b),
            Expr::Ident(s) => ExprView::Ident(s@),
            Expr::Call { is_alg, name, args } => ExprView::Call {
                is_alg,
                name: name@,
                args: exprs_view(args@),
            },
            Expr::Unary { op, expr } => ExprView::Unary { op, expr: Box::new(expr@) },
            Expr::Bin { op, left, right } => ExprView::Bin {
                op,
                left: Box::new(left@),
                right: Box::new(right@),
            },
            Expr::Case { arms, default } => ExprView::Case {
                arms: arms_view(arms@),
                default: Box::new(default@),
            },
            Expr::Pipe { head, steps } => ExprView::Pipe {
                head: Box::new(head@),
                steps: exprs_view(steps@),
            },
        },
{
    match e {
        Expr::Call { is_alg, name, args } => {
            assert(e@->Call_args =~= exprs_view(args@));
        },
        Expr::Case { arms, default } => {
            assert(e@->Case_arms =~= arms_view(arms@));
        },
        Expr::Pipe { head, steps } => {
            assert(e@->Pipe_steps =~= exprs_view(steps@));
        },
        _ => {},
    }
}

/// Copies a list of expressions.
fn clone_exprs(v: &Vec<Expr>) -> (r: Vec<Expr>)
    ensures
        exprs_view(r@) == exprs_view(v@),
    decreases v,
{
    let mut out: Vec<Expr> = Vec::new();
    let mut i: usize = 0;
    while i < v.len()
        invariant
            i <= v@.len(),
            out@.len() == i,
            forall|j: int| 0 <= j < i ==> out@[j]@ == v@[j]@,
        decreases v@.len() - i,
    {
        out.push(v[i].clone());
        i += 1;
    }
    assert(exprs_view(out@) =~= exprs_view(v@));
    out
}

/// Copies the arms of a case expression.
fn clone_arms(v: &Vec<(Expr, Expr)>) -> (r: Vec<(Expr, Expr)>)
    ensures
        arms_view(r@) == arms_view(v@),
    decreases v,
{
    let mut out: Vec<(Expr, Expr)> = Vec::new();
    let mut i: usize = 0;
    while i < v.len()
        invariant
            i <= v@.len(),
            out@.len() == i,
            forall|j: int| 0 <= j < i ==> out@[j].0@ == v@[j].0@ && out@[j].1@ == v@[j].1@,
        decreases v@.len() - i,
    {
        let c = v[i].0.clone();
        let r = v[i].1.clone();
        out.push((c, r));
        i += 1;
    }
    assert(arms_view(out@) =~= arms_view(v@));
    out
}

impl Clone for Expr {
    fn clone(&self) -> (r: Self)
        ensures
            r@ == self@,
        decreases self,
    {
        proof {
            lemma_expr_view(*self);
        }
        let r = match self {
            Expr::Number(s) => Expr::Number(s.clone()),
            Expr::Bool(b) => Expr::Bool(*b),
            Expr::Ident(s) => Expr::Ident(s.clone()),
            Expr::Call { is_alg, name, args } => Expr::Call {
                is_alg: *is_alg,
                name: name.clone(),
                args: clone_exprs(args),
            },
            Expr::Unary { op, expr } => Expr::Unary { op: *op, expr: Box::new((**expr).clone()) },
            Expr::Bin { op, left, right } => Expr::Bin {
                op: *op,
                left: Box::new((**left).clone()),
                right: Box::new((**right).clone()),
            },
            Expr::Case { arms, default } => Expr::Case {
                arms: clone_arms(arms),
                default: Box::new((**default).clone()),
            },
            Expr::Pipe { head, steps } => Expr::Pipe {
                head: Box::new((**head).clone()),
                steps: clone_exprs(steps),
            },
        };
        proof {
            lemma_expr_view(r);
        }
        r
    }
}

/// A named algorithm: its parameters, in order, and its body.
#[derive(Debug, PartialEq)]
pub struct AlgorithmDef {
    pub name: String,
    pub params: Vec<String>,
    pub body: Expr,
}

/// The mathematical value of an [`AlgorithmDef`].
pub ghost struct AlgorithmDefView {
    pub name: Seq<char>,
    pub params: Seq<Seq<char>>,
    pub body: ExprView,
}

/// The values of a sequence of names, in order.
pub open spec fn names_view(v: Seq<String>) -> Seq<Seq<char>> {
    v.map_values(|s: String| s@)
}

impl View for AlgorithmDef {
    type V = AlgorithmDefView;

    open spec fn view(&self) -> AlgorithmDefView {
        AlgorithmDefView { name: self.name@, params: names_view(self.params@), body: self.body@ }
    }
}

/// The name of a unary operator.
pub open spec fn unop_name(op: UnOp) -> Seq<char> {
    match op {
        UnOp::Neg => "Neg"@,
        UnOp::Not => "Not"@,
    }
}

/// The name of a binary operator.
pub open spec fn binop_name(op: BinOp) -> Seq<char> {
    match op {
        BinOp::Add => "Add"@,
        BinOp::Sub => "Sub"@,
        BinOp::Mul => "Mul"@,
        BinOp::Div => "Div"@,
        BinOp::Pow => "Pow"@,
        BinOp::Mod => "Mod"@,
        BinOp::Eq => "Eq"@,
        BinOp::Ne => "Ne"@,
        BinOp::Lt => "Lt"@,
        BinOp::Le => "Le"@,
        BinOp::Gt => "Gt"@,
        BinOp::Ge => "Ge"@,
        BinOp::And => "And"@,
        BinOp::Or => "Or"@,
    }
}

/// One line of a tree's outline: the indentation, the text and a line feed.
pub open spec fn outline_line(pad: Seq<char>, text: Seq<char>) -> Seq<char> {
    pad + text + "\n"@
}

/// The outline of a tree: one line for each node with what it is, and below
/// it, indented by two spaces more, the outlines of its children. The arms,
/// the default, the head and the steps of case blocks and pipelines stand
/// under a line of their own.
pub open spec fn show_spec(e: ExprView, pad: Seq<char>) -> Seq<char>
    decreases e, 0nat,
{
    match e {
        ExprView::Number(text) => outline_line(pad, "Number("@ + text + ")"@),
        ExprView::Bool(b) => outline_line(
            pad,
            if b {
                "Bool(true)"@
            } else {
                "Bool(false)"@
            },
        ),
        ExprView::Ident(name) => outline_line(pad, "Ident("@ + name + ")"@),
        ExprView::Call { is_alg, name, args } => outline_line(
            pad,
            (if is_alg {
                "Call(is_alg=true, name="@
            } else {
                "Call(is_alg=false, name="@
            }) + name + ")"@,
        ) + show_list_spec(args, pad + "  "@, 0),
        ExprView::Unary { op, expr } => outline_line(pad, "Unary("@ + unop_name(op) + ")"@)
            + show_spec(*expr, pad + "  "@),
        ExprView::Bin { op, left, right } => outline_line(pad, "Bin("@ + binop_name(op) + ")"@)
            + show_spec(*left, pad + "  "@) + show_spec(*right, pad + "  "@),
        ExprView::Case { arms, default } => outline_line(pad, "Case"@) + show_arms_spec(arms, pad, 0)
            + outline_line(pad, "  Default:"@) + show_spec(*default, pad + "    "@),
        ExprView::Pipe { head, steps } => outline_line(pad, "Pipe"@) + outline_line(
            pad,
            "  Head:"@,
        ) + show_spec(*head, pad + "    "@) + show_steps_spec(steps, pad, 0),
    }
}

/// The outlines of the expressions of a list from the `i`-th on, each at the
/// indentation `pad`.
pub open spec fn show_list_spec(es: Seq<ExprView>, pad: Seq<char>, i: nat) -> Seq<char>
    decreases es, es.len() - i,
{
    if i >= es.len() {
        Seq::empty()
    } else {
        show_spec(es[i as int], pad) + show_list_spec(es, pad, i + 1)
    }
}

/// The outlines of the steps of a pipeline from the `i`-th on: for each, a
/// line `>> Step:` and the step.
pub open spec fn show_steps_spec(steps: Seq<ExprView>, pad: Seq<char>, i: nat) -> Seq<char>
    decreases steps, steps.len() - i,
{
    if i >= steps.len() {
        Seq::empty()
    } else {
        outline_line(pad, "  >> Step:"@) + show_spec(steps[i as int], pad + "    "@)
            + show_steps_spec(steps, pad, i + 1)
    }
}

/// The outlines of the arms of a case block from the `i`-th on: for each,
/// a line `Arm:`, the condition, a line `=>` and the result.
pub open spec fn show_arms_spec(arms: Seq<(ExprView, ExprView)>, pad: Seq<char>, i: nat) -> Seq<
    char,
>
    decreases arms, arms.len() - i,
{
    if i >= arms.len() {
        Seq::empty()
    } else {
        outline_line(pad, "  Arm:"@) + show_spec(arms[i as int].0, pad + "    "@) + outline_line(
            pad,
            "  =>"@,
        ) + show_spec(arms[i as int].1, pad + "    "@) + show_arms_spec(arms, pad, i + 1)
    }
}

/// The name of a unary operator.
fn unop_text(op: UnOp) -> (r: &'static str)
    ensures
        r@ == unop_name(op),
{
    match op {
        UnOp::Neg => "Neg",
        UnOp::Not => "Not",
    }
}

/// The name of a binary operator.
fn binop_text(op: BinOp) -> (r: &'static str)
    ensures
        r@ == binop_name(op),
{
    match op {
        BinOp::Add => "Add",
        BinOp::Sub => "Sub",
        BinOp::Mul => "Mul",
        BinOp::Div => "Div",
        BinOp::Pow => "Pow",
        BinOp::Mod => "Mod",
        BinOp::Eq => "Eq",
        BinOp::Ne => "Ne",
        BinOp::Lt => "Lt",
        BinOp::Le => "Le",
        BinOp::Gt => "Gt",
        BinOp::Ge => "Ge",
        BinOp::And => "And",
        BinOp::Or => "Or",
    }
}

/// Appends one line of an outline to `out`.
fn push_line(out: &mut String, pad: &str, text: &str)
    ensures
        final(out)@ == old(out)@ + outline_line(pad@, text@),
{
    out.append(pad);
    out.append(text);
    out.append("\n");
    assert(out@ =~= old(out)@ + outline_line(pad@, text@));
}

/// Appends the outlines of the expressions of `es` to `out`.
fn show_list(out: &mut String, es: &Vec<Expr>, pad: &str)
    ensures
        final(out)@ == old(out)@ + show_list_spec(exprs_view(es@), pad@, 0),
    decreases es,
{
    let ghost views = exprs_view(es@);
    let mut i: usize = 0;
    assert(out@ =~= old(out)@ + Seq::<char>::empty());
    while i < es.len()
        invariant
            views == exprs_view(es@),
            i <= es@.len(),
            out@ + show_list_spec(views, pad@, i as nat) == old(out)@ + show_list_spec(
                views,
                pad@,
                0,
            ),
        decreases es@.len() - i,
    {
        let ghost before = out@;
        show_tree(out, &es[i], pad);
        proof {
            let rest = show_list_spec(views, pad@, (i + 1) as nat);
            assert(out@ + rest =~= before + (show_spec(views[i as int], pad@) + rest));
        }
        i += 1;
    }
    assert(out@ + Seq::<char>::empty() =~= out@);
}

/// Appends the outlines of the steps of a pipeline to `out`.
fn show_steps(out: &mut String, steps: &Vec<Expr>, pad: &str)
    ensures
        final(out)@ == old(out)@ + show_steps_spec(exprs_view(steps@), pad@, 0),
    decreases steps,
{
    let ghost views = exprs_view(steps@);
    let deeper = concat(pad, "    ");
    let mut i: usize = 0;
    assert(out@ =~= old(out)@ + Seq::<char>::empty());
    while i < steps.len()
        invariant
            views == exprs_view(steps@),
            deeper@ == pad@ + "    "@,
            i <= steps@.len(),
            out@ + show_steps_spec(views, pad@, i as nat) == old(out)@ + show_steps_spec(
                views,
                pad@,
                0,
            ),
        decreases steps@.len() - i,
    {
        let ghost before = out@;
        push_line(out, pad, "  >> Step:");
        show_tree(out, &steps[i], deeper.as_str());
        proof {
            let rest = show_steps_spec(views, pad@, (i + 1) as nat);
            assert(out@ + rest =~= before + (outline_line(pad@, "  >> Step:"@) + show_spec(
                views[i as int],
                pad@ + "    "@,
            ) + rest));
        }
        i += 1;
    }
    assert(out@ + Seq::<char>::empty() =~= out@);
}

/// Appends the outlines of the arms of a case block to `out`.
fn show_arms(out: &mut String, arms: &Vec<(Expr, Expr)>, pad: &str)
    ensures
        final(out)@ == old(out)@ + show_arms_spec(arms_view(arms@), pad@, 0),
    decreases arms,
{
    let ghost views = arms_view(arms@);
    let deeper = concat(pad, "    ");
    let mut i: usize = 0;
    assert(out@ =~= old(out)@ + Seq::<char>::empty());
    while i < arms.len()
        invariant
            views == arms_view(arms@),
            deeper@ == pad@ + "    "@,
            i <= arms@.len(),
            out@ + show_arms_spec(views, pad@, i as nat) == old(out)@ + show_arms_spec(
                views,
                pad@,
                0,
            ),
        decreases arms@.len() - i,
    {
        let ghost before = out@;
        push_line(out, pad, "  Arm:");
        show_tree(out, &arms[i].0, deeper.as_str());
        push_line(out, pad, "  =>");
        show_tree(out, &arms[i].1, deeper.as_str());
        proof {
            let rest = show_arms_spec(views, pad@, (i + 1) as nat);
            assert(out@ + rest =~= before + (outline_line(pad@, "  Arm:"@) + show_spec(
                views[i as int].0,
                pad@ + "    "@,
            ) + outline_line(pad@, "  =>"@) + show_spec(views[i as int].1, pad@ + "    "@)
                + rest));
        }
        i += 1;
    }
    assert(out@ + Seq::<char>::empty() =~= out@);
}

/// Appends the outline of `e` to `out`, indented by `pad`.
fn show_tree(out: &mut String, e: &Expr, pad: &str)
    ensures
        final(out)@ == old(out)@ + show_spec(e@, pad@),
    decreases e,
{
    proof {
        lemma_expr_view(*e);
    }
    let ghost before = out@;
    match e {
        Expr::Number(text) => {
            let mut line = concat("Number(", text.as_str());
            line.append(")");
            push_line(out, pad, line.as_str());
        },
        Expr::Bool(b) => {
            push_line(
                out,
                pad,
                if *b {
                    "Bool(true)"
                } else {
                    "Bool(false)"
                },
            );
        },
        Expr::Ident(name) => {
            let mut line = concat("Ident(", name.as_str());
            line.append(")");
            push_line(out, pad, line.as_str());
        },
        Expr::Call { is_alg, name, args } => {
            let mut line = concat(
                if *is_alg {
                    "Call(is_alg=true, name="
                } else {
                    "Call(is_alg=false, name="
                },
                name.as_str(),
            );
            line.append(")");
            push_line(out, pad, line.as_str());
            let deeper = concat(pad, "  ");
            show_list(out, args, deeper.as_str());
            assert(out@ =~= before + show_spec(e@, pad@));
        },
        Expr::Unary { op, expr } => {
            let mut line = concat("Unary(", unop_text(*op));
            line.append(")");
            push_line(out, pad, line.as_str());
            let deeper = concat(pad, "  ");
            show_tree(out, expr, deeper.as_str());
            assert(out@ =~= before + show_spec(e@, pad@));
        },
        Expr::Bin { op, left, right } => {
            let mut line = concat("Bin(", binop_text(*op));
            line.append(")");
            push_line(out, pad, line.as_str());
            let deeper = concat(pad, "  ");
            show_tree(out, left, deeper.as_str());
            show_tree(out, right, deeper.as_str());
            assert(out@ =~= before + show_spec(e@, pad@));
        },
        Expr::Case { arms, default } => {
            push_line(out, pad, "Case");
            show_arms(out, arms, pad);
            push_line(out, pad, "  Default:");
            let deeper = concat(pad, "    ");
            show_tree(out, default, deeper.as_str());
            assert(out@ =~= before + show_spec(e@, pad@));
        },
        Expr::Pipe { head, steps } => {
            push_line(out, pad, "Pipe");
            push_line(out, pad, "  Head:");
            let deeper = concat(pad, "    ");
            show_tree(out, head, deeper.as_str());
            show_steps(out, steps, pad);
            assert(out@ =~= before + show_spec(e@, pad@));
        },
    }
}

/// The indentation of the level `indent`: two spaces for each level.
pub open spec fn indentation(indent: nat) -> Seq<char> {
    spaces(2 * indent)
}

/// The outline of the tree `e`, one node to a line, indented by `indent`
/// levels.
pub fn show_expr(e: &Expr, indent: usize) -> (r: String)
    ensures
        r@ == show_spec(e@, indentation(indent as nat)),
{
    let mut pad = String::new();
    let mut i: usize = 0;
    assert(pad@ =~= indentation(0));
    while i < indent
        invariant
            i <= indent,
            pad@ == indentation(i as nat),
        decreases indent - i,
    {
        pad.append("  ");
        proof {
            reveal_strlit("  ");
            assert(pad@ =~= indentation((i + 1) as nat));
        }
        i += 1;
    }
    let mut out = String::new();
    show_tree(&mut out, e, pad.as_str());
    assert(out@ =~= show_spec(e@, pad@));
    out
}

/// The texts of `parts` with `sep` between them.
pub open spec fn join(parts: Seq<Seq<char>>, sep: Seq<char>) -> Seq<char>
    decreases parts.len(),
{
    if parts.len() == 0 {
        Seq::empty()
    } else if parts.len() == 1 {
        parts[0]
    } else {
        join(parts.drop_last(), sep) + sep + parts.last()
    }
}

/// The head of a definition as it is written, without the `@`: the name and,
/// in brackets, the parameters with `, ` between them.
pub open spec fn signature_spec(def: AlgorithmDefView) -> Seq<char> {
    def.name + "("@ + join(def.params, ", "@) + ")"@
}

/// The head of a definition as it is written, without the `@`.
pub fn signature(def: &AlgorithmDef) -> (r: String)
    ensures
        r@ == signature_spec(def@),
{
    let mut r = concat(def.name.as_str(), "(");
    let ghost start = r@;
    let ghost views = names_view(def.params@);
    let mut i: usize = 0;
    assert(views.take(0) =~= Seq::<Seq<char>>::empty());
    while i < def.params.len()
        invariant
            i <= def.params@.len(),
            views == names_view(def.params@),
            r@ == start + join(views.take(i as int), ", "@),
        decreases def.params@.len() - i,
    {
        if i > 0 {
            r.append(", ");
        }
        r.append(def.params[i].as_str());
        proof {
            let longer = views.take(i + 1);
            assert(longer.drop_last() =~= views.take(i as int));
            assert(longer.last() == views[i as int]);
            if i == 0 {
                assert(r@ =~= start + join(longer, ", "@));
            } else {
                assert(r@ =~= start + join(longer, ", "@));
            }
        }
        i += 1;
    }
    assert(views.take(views.len() as int) =~= views);
    r.append(")");
    r
}

} // verus!



