//! The parser: from tokens to syntax trees, by recursive descent.
//!
//! The first violation of the grammar ends the parse with an error that holds
//! a message and the byte offset of the offending token, or of the end of the
//! last token where the input ends too early.

use crate::ast::{
    arms_view, exprs_view, lemma_expr_view, names_view, AlgorithmDef, AlgorithmDefView, BinOp,
    Expr, ExprView, UnOp,
};
use crate::lexer::{is_number_literal, number_literal};
use crate::text::concat;
use crate::token::{spans_view, TokSpan, TokSpanView, Token, TokenView};
use vstd::prelude::*;
use vstd::string::*;

verus! {

/// How deep expressions may nest before the parser gives up: each
/// parenthesized expression, argument, case arm, prefix operator and
/// right-hand side of `^` counts as one level.
pub const MAX_NESTING: usize = 64;

/// A violation of the grammar.
#[derive(Debug, PartialEq)]
pub struct ParseError {
    /// What was expected or found.
    pub message: String,
    /// The byte offset in the source at which parsing failed.
    pub byte: usize,
}

/// The mathematical value of a [`ParseError`].
pub ghost struct ParseErrorView {
    pub message: Seq<char>,
    pub byte: int,
}

impl View for ParseError {
    type V = ParseErrorView;

    open spec fn view(&self) -> ParseErrorView {
        ParseErrorView { message: self.message@, byte: self.byte as int }
    }
}

/// What parsing from some position gives: a value and the position behind
/// it, or an error.
pub type Parsed<T> = Result<(T, int), ParseErrorView>;

/// The token at position `pos`, if there is one.
pub open spec fn tok_at(toks: Seq<TokSpanView>, pos: int) -> Option<TokenView> {
    if 0 <= pos < toks.len() {
        Some(toks[pos].tok)
    } else {
        None
    }
}

/// The byte offset that an error at position `pos` is reported at: the start
/// of the token there, or, where the tokens have run out, the end of the last
/// one.
pub open spec fn here(toks: Seq<TokSpanView>, pos: int) -> int {
    if 0 <= pos < toks.len() {
        toks[pos].start
    } else if 0 <= pos - 1 < toks.len() {
        toks[pos - 1].end
    } else {
        0
    }
}

/// A failure at position `pos`.
pub open spec fn fail<T>(toks: Seq<TokSpanView>, pos: int, message: Seq<char>) -> Parsed<T> {
    Err(ParseErrorView { message, byte: here(toks, pos) })
}

/// The name of a token's kind, followed by the token's text in brackets
/// where it has one.
pub open spec fn token_text(t: TokenView) -> Seq<char> {
    match t {
        TokenView::At => "At"@,
        TokenView::LParen => "LParen"@,
        TokenView::RParen => "RParen"@,
        TokenView::LBracket => "LBracket"@,
        TokenView::RBracket => "RBracket"@,
        TokenView::Comma => "Comma"@,
        TokenView::Semicolon => "Semicolon"@,
        TokenView::Underscore => "Underscore"@,
        TokenView::Equal => "Equal"@,
        TokenView::Arrow => "Arrow"@,
        TokenView::Pipe => "Pipe"@,
        TokenView::QMark => "QMark"@,
        TokenView::DblPipe => "DblPipe"@,
        TokenView::DblAmp => "DblAmp"@,
        TokenView::DblGt => "DblGt"@,
        TokenView::Plus => "Plus"@,
        TokenView::Minus => "Minus"@,
        TokenView::Star => "Star"@,
        TokenView::Slash => "Slash"@,
        TokenView::Percent => "Percent"@,
        TokenView::EqEq => "EqEq"@,
        TokenView::Neq => "Neq"@,
        TokenView::Le => "Le"@,
        TokenView::Ge => "Ge"@,
        TokenView::Lt => "Lt"@,
        TokenView::Gt => "Gt"@,
        TokenView::Bang => "Bang"@,
        TokenView::Ident(s) => "Ident(\""@ + s + "\")"@,
        TokenView::Number(s) => "Number(\""@ + s + "\")"@,
        TokenView::Bool(b) => if b {
            "Bool(true)"@
        } else {
            "Bool(false)"@
        },
        TokenView::String(s) => "String(\""@ + s + "\")"@,
        TokenView::Error(s) => "Error(\""@ + s + "\")"@,
        TokenView::Caret => "Caret"@,
    }
}

/// `Some(..)` around a token's text, or `None` for the end of the input.
pub open spec fn found_text(t: Option<TokenView>) -> Seq<char> {
    match t {
        Some(t) => "Some("@ + token_text(t) + ")"@,
        None => "None"@,
    }
}

/// The message for a token that was expected and is not there.
pub open spec fn expected_message(want: TokenView, context: Seq<char>) -> Seq<char> {
    "expected "@ + token_text(want) + " while parsing "@ + context
}

/// The message for a missing name behind `@`.
pub open spec fn expected_name_message(got: Option<TokenView>) -> Seq<char> {
    "expected identifier after '@', got "@ + found_text(got)
}

/// The message for a token that starts no expression.
pub open spec fn unexpected_token_message(got: Option<TokenView>) -> Seq<char> {
    "unexpected token in expression: "@ + found_text(got)
}

/// The message for a parenthesis that is not closed.
pub open spec fn unclosed_message(got: Option<TokenView>) -> Seq<char> {
    "expected ')', got "@ + found_text(got)
}

/// The message for a numeric literal that is none.
pub open spec fn bad_number_message(text: Seq<char>) -> Seq<char> {
    "bad number literal: "@ + text
}

/// The message for a call of something that has no name.
pub open spec fn not_callable_message() -> Seq<char> {
    "cannot call non-name expression"@
}

/// The message for a case block without a default arm.
pub open spec fn missing_default_message() -> Seq<char> {
    "case block missing default '_' ? expr"@
}

/// The message for a case block with a second default arm.
pub open spec fn second_default_message() -> Seq<char> {
    "case block has more than one default '_' arm"@
}

/// The message for a default arm without `?` or `->`.
pub open spec fn default_arm_message() -> Seq<char> {
    "expected '?' or '->' after '_' in case arm"@
}

/// The message for a conditional arm without `?` or `->`.
pub open spec fn conditional_arm_message() -> Seq<char> {
    "expected '?' or '->' after condition in case arm"@
}

/// The message for a second comparison behind a comparison.
pub open spec fn chained_comparison_message() -> Seq<char> {
    "comparison operators do not chain"@
}

/// The message for a comma in a parameter list that no name follows.
pub open spec fn expected_parameter_message(got: Option<TokenView>) -> Seq<char> {
    "expected parameter name after ',', got "@ + found_text(got)
}

/// The message for a token behind what should have ended the input.
pub open spec fn trailing_message(got: Option<TokenView>) -> Seq<char> {
    "unexpected token after the end: "@ + found_text(got)
}

/// The message for an expression that nests deeper than the parser follows.
pub open spec fn too_deep_message() -> Seq<char> {
    "expression nested too deeply"@
}

/// The levels of left-associative binary operators, from the loosest to the
/// tightest.
#[derive(Debug, Clone, Copy, PartialEq, Eq, Structural)]
pub enum Level {
    Or,
    And,
    Add,
    Mul,
}

/// The operator that a token spells at a level, if it spells one there.
pub open spec fn level_op(level: Level, t: Option<TokenView>) -> Option<BinOp> {
    match (level, t) {
        (Level::Or, Some(TokenView::DblPipe)) => Some(BinOp::Or),
        (Level::And, Some(TokenView::DblAmp)) => Some(BinOp::And),
        (Level::Add, Some(TokenView::Plus)) => Some(BinOp::Add),
        (Level::Add, Some(TokenView::Minus)) => Some(BinOp::Sub),
        (Level::Mul, Some(TokenView::Star)) => Some(BinOp::Mul),
        (Level::Mul, Some(TokenView::Slash)) => Some(BinOp::Div),
        (Level::Mul, Some(TokenView::Percent)) => Some(BinOp::Mod),
        _ => None,
    }
}

/// The comparison that a token spells, if it spells one. `=` is read as
/// `==`.
pub open spec fn comparison_op(t: Option<TokenView>) -> Option<BinOp> {
    match t {
        Some(TokenView::EqEq) => Some(BinOp::Eq),
        Some(TokenView::Equal) => Some(BinOp::Eq),
        Some(TokenView::Neq) => Some(BinOp::Ne),
        Some(TokenView::Le) => Some(BinOp::Le),
        Some(TokenView::Ge) => Some(BinOp::Ge),
        Some(TokenView::Lt) => Some(BinOp::Lt),
        Some(TokenView::Gt) => Some(BinOp::Gt),
        _ => None,
    }
}

/// The place of a level in the order in which the grammar's rules refer to
/// each other.
pub open spec fn level_tag(level: Level) -> nat {
    match level {
        Level::Or => 22,
        Level::And => 19,
        Level::Add => 15,
        Level::Mul => 12,
    }
}

/// The call of `node` on `args`, where `node` is a name or an algorithm
/// reference.
pub open spec fn attach_spec(node: ExprView, args: Seq<ExprView>) -> Option<ExprView> {
    match node {
        ExprView::Ident(name) => Some(ExprView::Call { is_alg: false, name, args }),
        ExprView::Call { is_alg: true, name, args: _ } => Some(
            ExprView::Call { is_alg: true, name, args },
        ),
        _ => None,
    }
}

/// The token `want` at `pos`, or the failure that it is not there.
pub open spec fn expect_spec(
    toks: Seq<TokSpanView>,
    pos: int,
    want: TokenView,
    context: Seq<char>,
) -> Parsed<()> {
    if tok_at(toks, pos) == Some(want) {
        Ok(((), pos + 1))
    } else {
        fail(toks, pos, expected_message(want, context))
    }
}

/// `Expr := Case | Pipe`, with `depth` levels of nesting allowed.
pub open spec fn expr_spec(toks: Seq<TokSpanView>, pos: int, depth: nat) -> Parsed<ExprView>
    decreases depth, 0nat, 0nat,
{
    if depth == 0 {
        fail(toks, pos, too_deep_message())
    } else if tok_at(toks, pos) == Some(TokenView::LBracket) {
        case_spec(toks, pos, (depth - 1) as nat)
    } else {
        pipe_spec(toks, pos, (depth - 1) as nat)
    }
}

/// `Case := '[' Arm {';' Arm} ']'`, with exactly one default arm among the
/// arms.
pub open spec fn case_spec(toks: Seq<TokSpanView>, pos: int, depth: nat) -> Parsed<ExprView>
    decreases depth, 28nat, 0nat,
{
    match expect_spec(toks, pos, TokenView::LBracket, "case '['"@) {
        Err(e) => Err(e),
        Ok((_, p)) => match case_arms_spec(toks, p, Seq::empty(), None, depth) {
            Err(e) => Err(e),
            Ok(((arms, default), n2)) => match expect_spec(
                toks,
                n2,
                TokenView::RBracket,
                "closing ']'"@,
            ) {
                Err(e) => Err(e),
                Ok((_, n3)) => match default {
                    None => fail(toks, n3, missing_default_message()),
                    Some(d) => Ok((ExprView::Case { arms, default: Box::new(d) }, n3)),
                },
            },
        },
    }
}

/// The arms of a case block from `pos` on, added to the arms and the default
/// that were read before.
pub open spec fn case_arms_spec(
    toks: Seq<TokSpanView>,
    pos: int,
    arms: Seq<(ExprView, ExprView)>,
    default: Option<ExprView>,
    depth: nat,
) -> Parsed<(Seq<(ExprView, ExprView)>, Option<ExprView>)>
    decreases depth, 27nat, toks.len() - pos,
{
    let arm: Parsed<(Seq<(ExprView, ExprView)>, Option<ExprView>)> = if tok_at(toks, pos) == Some(
        TokenView::Underscore,
    ) {
        if default is Some {
            fail(toks, pos, second_default_message())
        } else {
            match default_arm_spec(toks, pos + 1, depth) {
                Err(e) => Err(e),
                Ok((d, p)) => Ok(((arms, Some(d)), p)),
            }
        }
    } else {
        match conditional_arm_spec(toks, pos, arms, depth) {
            Err(e) => Err(e),
            Ok((a, p)) => Ok(((a, default), p)),
        }
    };
    match arm {
        Err(e) => Err(e),
        Ok(((a, d), p)) => if tok_at(toks, p) == Some(TokenView::Semicolon) && pos <= p {
            case_arms_spec(toks, p + 1, a, d, depth)
        } else {
            Ok(((a, d), p))
        },
    }
}

/// The rest of a default arm, behind its `_`: `('?' | '->') Expr`.
pub open spec fn default_arm_spec(toks: Seq<TokSpanView>, pos: int, depth: nat) -> Parsed<ExprView>
    decreases depth, 26nat, 0nat,
{
    if tok_at(toks, pos) == Some(TokenView::QMark) || tok_at(toks, pos) == Some(TokenView::Arrow) {
        expr_spec(toks, pos + 1, depth)
    } else {
        fail(toks, pos, default_arm_message())
    }
}

/// A conditional arm, `Or ('?' Expr ['|' Expr] | '->' Expr)`, added to `arms`.
pub open spec fn conditional_arm_spec(
    toks: Seq<TokSpanView>,
    pos: int,
    arms: Seq<(ExprView, ExprView)>,
    depth: nat,
) -> Parsed<Seq<(ExprView, ExprView)>>
    decreases depth, 26nat, 0nat,
{
    match binary_spec(toks, pos, Level::Or, depth) {
        Err(e) => Err(e),
        Ok((cond, p)) => if tok_at(toks, p) == Some(TokenView::QMark) {
            question_arm_spec(toks, p + 1, arms, cond, depth)
        } else if tok_at(toks, p) == Some(TokenView::Arrow) {
            match expr_spec(toks, p + 1, depth) {
                Err(e) => Err(e),
                Ok((rhs, n2)) => Ok((arms.push((cond, rhs)), n2)),
            }
        } else {
            fail(toks, p, conditional_arm_message())
        },
    }
}

/// The rest of an arm behind `cond ?`. `cond ? a | b` gives two arms: `cond`
/// with `a`, then the negation of `cond` with `b`.
pub open spec fn question_arm_spec(
    toks: Seq<TokSpanView>,
    pos: int,
    arms: Seq<(ExprView, ExprView)>,
    cond: ExprView,
    depth: nat,
) -> Parsed<Seq<(ExprView, ExprView)>>
    decreases depth, 25nat, 0nat,
{
    match expr_spec(toks, pos, depth) {
        Err(e) => Err(e),
        Ok((then_e, p)) => if tok_at(toks, p) == Some(TokenView::Pipe) {
            match expr_spec(toks, p + 1, depth) {
                Err(e) => Err(e),
                Ok((else_e, n2)) => Ok(
                    (
                        arms.push((cond, then_e)).push(
                            (ExprView::Unary { op: UnOp::Not, expr: Box::new(cond) }, else_e),
                        ),
                        n2,
                    ),
                ),
            }
        } else {
            Ok((arms.push((cond, then_e)), p))
        },
    }
}

/// `Pipe := Or {'>>' Or}`. Without a step it is the head itself.
pub open spec fn pipe_spec(toks: Seq<TokSpanView>, pos: int, depth: nat) -> Parsed<ExprView>
    decreases depth, 24nat, 0nat,
{
    match binary_spec(toks, pos, Level::Or, depth) {
        Err(e) => Err(e),
        Ok((head, p)) => match pipe_rest_spec(toks, p, Seq::empty(), depth) {
            Err(e) => Err(e),
            Ok((steps, n2)) => if steps.len() == 0 {
                Ok((head, n2))
            } else {
                Ok((ExprView::Pipe { head: Box::new(head), steps }, n2))
            },
        },
    }
}

/// The steps of a pipeline from `pos` on, added to `steps`.
pub open spec fn pipe_rest_spec(
    toks: Seq<TokSpanView>,
    pos: int,
    steps: Seq<ExprView>,
    depth: nat,
) -> Parsed<Seq<ExprView>>
    decreases depth, 23nat, toks.len() - pos,
{
    if tok_at(toks, pos) == Some(TokenView::DblGt) {
        match binary_spec(toks, pos + 1, Level::Or, depth) {
            Err(e) => Err(e),
            Ok((step, p)) => if pos < p <= toks.len() {
                pipe_rest_spec(toks, p, steps.push(step), depth)
            } else {
                Ok((steps.push(step), p))
            },
        }
    } else {
        Ok((steps, pos))
    }
}

/// A chain of operands of `level`, joined from the left by the operators of
/// that level.
pub open spec fn binary_spec(toks: Seq<TokSpanView>, pos: int, level: Level, depth: nat) -> Parsed<
    ExprView,
>
    decreases depth, level_tag(level), 0nat,
{
    match operand_spec(toks, pos, level, depth) {
        Err(e) => Err(e),
        Ok((node, p)) => binary_rest_spec(toks, p, node, level, depth),
    }
}

/// The rest of a chain at `level`, with `node` what was read of it.
pub open spec fn binary_rest_spec(
    toks: Seq<TokSpanView>,
    pos: int,
    node: ExprView,
    level: Level,
    depth: nat,
) -> Parsed<ExprView>
    decreases depth, (level_tag(level) - 1) as nat, toks.len() - pos,
{
    match level_op(level, tok_at(toks, pos)) {
        Some(op) => match operand_spec(toks, pos + 1, level, depth) {
            Err(e) => Err(e),
            Ok((rhs, p)) => {
                let joined = ExprView::Bin { op, left: Box::new(node), right: Box::new(rhs) };
                if pos < p <= toks.len() {
                    binary_rest_spec(toks, p, joined, level, depth)
                } else {
                    Ok((joined, p))
                }
            },
        },
        None => Ok((node, pos)),
    }
}

/// An operand of `level`: an expression of the next tighter level.
pub open spec fn operand_spec(toks: Seq<TokSpanView>, pos: int, level: Level, depth: nat) -> Parsed<
    ExprView,
>
    decreases depth, (level_tag(level) - 2) as nat, 0nat,
{
    match level {
        Level::Or => binary_spec(toks, pos, Level::And, depth),
        Level::And => comparison_spec(toks, pos, depth),
        Level::Add => binary_spec(toks, pos, Level::Mul, depth),
        Level::Mul => pow_spec(toks, pos, depth),
    }
}

/// `Cmp := Add [comparison Add]`: at most one comparison. A comparison
/// operator behind the right operand is a failure at that operator:
/// comparisons do not chain.
pub open spec fn comparison_spec(toks: Seq<TokSpanView>, pos: int, depth: nat) -> Parsed<ExprView>
    decreases depth, 16nat, 0nat,
{
    match binary_spec(toks, pos, Level::Add, depth) {
        Err(e) => Err(e),
        Ok((node, p)) => match comparison_op(tok_at(toks, p)) {
            Some(op) => match binary_spec(toks, p + 1, Level::Add, depth) {
                Err(e) => Err(e),
                Ok((rhs, n2)) => if comparison_op(tok_at(toks, n2)) is Some {
                    fail(toks, n2, chained_comparison_message())
                } else {
                    Ok((ExprView::Bin { op, left: Box::new(node), right: Box::new(rhs) }, n2))
                },
            },
            None => Ok((node, p)),
        },
    }
}

/// `Pow := Unary ['^' Pow]`: `^` associates to the right.
pub open spec fn pow_spec(toks: Seq<TokSpanView>, pos: int, depth: nat) -> Parsed<ExprView>
    decreases depth, 9nat, 0nat,
{
    match unary_spec(toks, pos, depth) {
        Err(e) => Err(e),
        Ok((node, p)) => if tok_at(toks, p) == Some(TokenView::Caret) {
            if depth == 0 {
                fail(toks, p + 1, too_deep_message())
            } else {
                match pow_spec(toks, p + 1, (depth - 1) as nat) {
                    Err(e) => Err(e),
                    Ok((rhs, n2)) => Ok(
                        (
                            ExprView::Bin {
                                op: BinOp::Pow,
                                left: Box::new(node),
                                right: Box::new(rhs),
                            },
                            n2,
                        ),
                    ),
                }
            }
        } else {
            Ok((node, p))
        },
    }
}

/// `Unary := ('-' | '!') Unary | Postfix`.
pub open spec fn unary_spec(toks: Seq<TokSpanView>, pos: int, depth: nat) -> Parsed<ExprView>
    decreases depth, 8nat, 0nat,
{
    let op = if tok_at(toks, pos) == Some(TokenView::Minus) {
        Some(UnOp::Neg)
    } else if tok_at(toks, pos) == Some(TokenView::Bang) {
        Some(UnOp::Not)
    } else {
        None
    };
    match op {
        Some(op) => if depth == 0 {
            fail(toks, pos + 1, too_deep_message())
        } else {
            match unary_spec(toks, pos + 1, (depth - 1) as nat) {
                Err(e) => Err(e),
                Ok((e, p)) => Ok((ExprView::Unary { op, expr: Box::new(e) }, p)),
            }
        },
        None => postfix_spec(toks, pos, depth),
    }
}

/// `Postfix := Primary {'(' [Expr {',' Expr}] ')'}`.
pub open spec fn postfix_spec(toks: Seq<TokSpanView>, pos: int, depth: nat) -> Parsed<ExprView>
    decreases depth, 7nat, 0nat,
{
    match primary_spec(toks, pos, depth) {
        Err(e) => Err(e),
        Ok((node, p)) => calls_spec(toks, p, node, depth),
    }
}

/// The argument lists behind `node`, each making a call of what stands
/// before it.
pub open spec fn calls_spec(toks: Seq<TokSpanView>, pos: int, node: ExprView, depth: nat) -> Parsed<
    ExprView,
>
    decreases depth, 6nat, toks.len() - pos,
{
    if tok_at(toks, pos) == Some(TokenView::LParen) {
        match args_spec(toks, pos + 1, depth) {
            Err(e) => Err(e),
            Ok((args, p)) => match expect_spec(
                toks,
                p,
                TokenView::RParen,
                "closing ')' of call"@,
            ) {
                Err(e) => Err(e),
                Ok((_, n2)) => match attach_spec(node, args) {
                    None => fail(toks, n2, not_callable_message()),
                    Some(call) => if pos < n2 <= toks.len() {
                        calls_spec(toks, n2, call, depth)
                    } else {
                        Ok((call, n2))
                    },
                },
            },
        }
    } else {
        Ok((node, pos))
    }
}

/// The arguments of a call, behind its `(`: `[Expr {',' Expr}]`.
pub open spec fn args_spec(toks: Seq<TokSpanView>, pos: int, depth: nat) -> Parsed<Seq<ExprView>>
    decreases depth, 5nat, 0nat,
{
    if tok_at(toks, pos) is Some && tok_at(toks, pos) != Some(TokenView::RParen) {
        match expr_spec(toks, pos, depth) {
            Err(e) => Err(e),
            Ok((first, p)) => args_rest_spec(toks, p, seq![first], depth),
        }
    } else {
        Ok((Seq::empty(), pos))
    }
}

/// The arguments from `pos` on, each behind a comma, added to `args`.
pub open spec fn args_rest_spec(
    toks: Seq<TokSpanView>,
    pos: int,
    args: Seq<ExprView>,
    depth: nat,
) -> Parsed<Seq<ExprView>>
    decreases depth, 4nat, toks.len() - pos,
{
    if tok_at(toks, pos) == Some(TokenView::Comma) {
        match expr_spec(toks, pos + 1, depth) {
            Err(e) => Err(e),
            Ok((e, p)) => if pos < p <= toks.len() {
                args_rest_spec(toks, p, args.push(e), depth)
            } else {
                Ok((args.push(e), p))
            },
        }
    } else {
        Ok((args, pos))
    }
}

/// `Primary := Number | Bool | Ident | '@' Ident | '(' Expr ')'`.
pub open spec fn primary_spec(toks: Seq<TokSpanView>, pos: int, depth: nat) -> Parsed<ExprView>
    decreases depth, 3nat, 0nat,
{
    match tok_at(toks, pos) {
        Some(TokenView::Number(s)) => if number_literal(s) {
            Ok((ExprView::Number(s), pos + 1))
        } else {
            fail(toks, pos, bad_number_message(s))
        },
        Some(TokenView::Bool(b)) => Ok((ExprView::Bool(b), pos + 1)),
        Some(TokenView::Ident(s)) => Ok((ExprView::Ident(s), pos + 1)),
        Some(TokenView::At) => match tok_at(toks, pos + 1) {
            Some(TokenView::Ident(s)) => Ok(
                (ExprView::Call { is_alg: true, name: s, args: Seq::empty() }, pos + 2),
            ),
            other => fail(toks, pos + 1, expected_name_message(other)),
        },
        Some(TokenView::LParen) => match expr_spec(toks, pos + 1, depth) {
            Err(e) => Err(e),
            Ok((e, p)) => if tok_at(toks, p) == Some(TokenView::RParen) {
                Ok((e, p + 1))
            } else {
                fail(toks, p, unclosed_message(tok_at(toks, p)))
            },
        },
        other => fail(toks, pos, unexpected_token_message(other)),
    }
}

/// The parameters of a definition, behind its `(`: `[Ident {',' Ident}]`.
pub open spec fn params_spec(toks: Seq<TokSpanView>, pos: int) -> Parsed<Seq<Seq<char>>> {
    match tok_at(toks, pos) {
        Some(TokenView::Ident(s)) => params_rest_spec(toks, pos + 1, seq![s]),
        _ => Ok((Seq::empty(), pos)),
    }
}

/// The parameters from `pos` on, each behind a comma, added to `params`. A
/// comma that no name follows is a failure at what follows it.
pub open spec fn params_rest_spec(toks: Seq<TokSpanView>, pos: int, params: Seq<Seq<char>>) -> Parsed<
    Seq<Seq<char>>,
>
    decreases toks.len() - pos,
{
    if tok_at(toks, pos) == Some(TokenView::Comma) {
        match tok_at(toks, pos + 1) {
            Some(TokenView::Ident(s)) => params_rest_spec(toks, pos + 2, params.push(s)),
            other => fail(toks, pos + 1, expected_parameter_message(other)),
        }
    } else {
        Ok((params, pos))
    }
}

/// `AlgDef := '@' Ident '(' [Ident {',' Ident}] ')' '=' Expr`.
pub open spec fn alg_def_spec(toks: Seq<TokSpanView>, pos: int, depth: nat) -> Parsed<
    AlgorithmDefView,
> {
    match expect_spec(toks, pos, TokenView::At, "algorithm start '@'"@) {
        Err(e) => Err(e),
        Ok((_, n1)) => match tok_at(toks, n1) {
            Some(TokenView::Ident(name)) => match expect_spec(
                toks,
                n1 + 1,
                TokenView::LParen,
                "parameter list '('"@,
            ) {
                Err(e) => Err(e),
                Ok((_, n2)) => match params_spec(toks, n2) {
                    Err(e) => Err(e),
                    Ok((params, n3)) => match expect_spec(
                        toks,
                        n3,
                        TokenView::RParen,
                        "parameter list ')'"@,
                    ) {
                        Err(e) => Err(e),
                        Ok((_, n4)) => match expect_spec(
                            toks,
                            n4,
                            TokenView::Equal,
                            "definition '='"@,
                        ) {
                            Err(e) => Err(e),
                            Ok((_, n5)) => match expr_spec(toks, n5, depth) {
                                Err(e) => Err(e),
                                Ok((body, n6)) => Ok(
                                    (AlgorithmDefView { name, params, body }, n6),
                                ),
                            },
                        },
                    },
                },
            },
            other => fail(toks, n1, expected_name_message(other)),
        },
    }
}

/// The text of a token, for messages.
pub fn describe(t: &Token) -> (r: String)
    ensures
        r@ == token_text(t@),
{
    match t {
        Token::At => "At".to_owned(),
        Token::LParen => "LParen".to_owned(),
        Token::RParen => "RParen".to_owned(),
        Token::LBracket => "LBracket".to_owned(),
        Token::RBracket => "RBracket".to_owned(),
        Token::Comma => "Comma".to_owned(),
        Token::Semicolon => "Semicolon".to_owned(),
        Token::Underscore => "Underscore".to_owned(),
        Token::Equal => "Equal".to_owned(),
        Token::Arrow => "Arrow".to_owned(),
        Token::Pipe => "Pipe".to_owned(),
        Token::QMark => "QMark".to_owned(),
        Token::DblPipe => "DblPipe".to_owned(),
        Token::DblAmp => "DblAmp".to_owned(),
        Token::DblGt => "DblGt".to_owned(),
        Token::Plus => "Plus".to_owned(),
        Token::Minus => "Minus".to_owned(),
        Token::Star => "Star".to_owned(),
        Token::Slash => "Slash".to_owned(),
        Token::Percent => "Percent".to_owned(),
        Token::EqEq => "EqEq".to_owned(),
        Token::Neq => "Neq".to_owned(),
        Token::Le => "Le".to_owned(),
        Token::Ge => "Ge".to_owned(),
        Token::Lt => "Lt".to_owned(),
        Token::Gt => "Gt".to_owned(),
        Token::Bang => "Bang".to_owned(),
        Token::Ident(s) => {
            let mut r = concat("Ident(\"", s.as_str());
            r.append("\")");
            r
        },
        Token::Number(s) => {
            let mut r = concat("Number(\"", s.as_str());
            r.append("\")");
            r
        },
        Token::Bool(b) => if *b {
            "Bool(true)".to_owned()
        } else {
            "Bool(false)".to_owned()
        },
        Token::String(s) => {
            let mut r = concat("String(\"", s.as_str());
            r.append("\")");
            r
        },
        Token::Error(s) => {
            let mut r = concat("Error(\"", s.as_str());
            r.append("\")");
            r
        },
        Token::Caret => "Caret".to_owned(),
    }
}

/// The value of a token that may be missing.
pub open spec fn found_view(t: Option<&Token>) -> Option<TokenView> {
    match t {
        Some(t) => Some(t@),
        None => None,
    }
}

/// The text of what was found where something else was expected.
pub fn describe_found(t: Option<&Token>) -> (r: String)
    ensures
        r@ == found_text(found_view(t)),
{
    match t {
        Some(t) => {
            let mut r = concat("Some(", describe(t).as_str());
            r.append(")");
            r
        },
        None => "None".to_owned(),
    }
}

/// A sequence of tokens with the position of the next one to read, and the
/// source text that the tokens' spans refer to.
pub struct Tokens<'a> {
    items: Vec<TokSpan>,
    pos: usize,
    src: &'a str,
}

impl<'a> Tokens<'a> {
    /// The tokens.
    pub closed spec fn toks(&self) -> Seq<TokSpanView> {
        spans_view(self.items@)
    }

    /// The position of the next token to read.
    pub closed spec fn pos(&self) -> int {
        self.pos as int
    }

    /// The source text.
    pub closed spec fn src(&self) -> Seq<char> {
        self.src@
    }

    /// The tokens `items` of the source `src`, with nothing read yet.
    pub fn new_with_src(items: Vec<TokSpan>, src: &'a str) -> (ts: Self)
        ensures
            ts.toks() == spans_view(items@),
            ts.pos() == 0,
            ts.src() == src@,
    {
        Tokens { items, pos: 0, src }
    }

    /// The next token, without reading it.
    pub fn peek(&self) -> (r: Option<&Token>)
        ensures
            found_view(r) == tok_at(self.toks(), self.pos()),
    {
        if self.pos < self.items.len() {
            Some(&self.items[self.pos].tok)
        } else {
            None
        }
    }

    /// The next token with its span, without reading it.
    pub fn peek_span(&self) -> (r: Option<&TokSpan>)
        ensures
            match r {
                Some(t) => 0 <= self.pos() < self.toks().len() && t@ == self.toks()[self.pos()],
                None => !(0 <= self.pos() < self.toks().len()),
            },
    {
        if self.pos < self.items.len() {
            Some(&self.items[self.pos])
        } else {
            None
        }
    }

    /// The token that was read last, with its span.
    pub fn last_span(&self) -> (r: Option<&TokSpan>)
        ensures
            match r {
                Some(t) => 0 <= self.pos() - 1 < self.toks().len() && t@ == self.toks()[self.pos()
                    - 1],
                None => !(0 <= self.pos() - 1 < self.toks().len()),
            },
    {
        if self.pos == 0 || self.pos - 1 >= self.items.len() {
            None
        } else {
            Some(&self.items[self.pos - 1])
        }
    }

    /// The source text.
    pub fn source(&self) -> (r: &'a str)
        ensures
            r@ == self.src(),
    {
        self.src
    }

    /// Reads the next token.
    pub fn next(&mut self) -> (r: Option<Token>)
        ensures
            final(self).toks() == old(self).toks(),
            final(self).src() == old(self).src(),
            match r {
                Some(t) => tok_at(old(self).toks(), old(self).pos()) == Some(t@)
                    && final(self).pos() == old(self).pos() + 1,
                None => tok_at(old(self).toks(), old(self).pos()) is None && final(self).pos()
                    == old(self).pos(),
            },
    {
        if self.pos >= self.items.len() {
            None
        } else {
            let t = self.items[self.pos].tok.clone();
            self.pos += 1;
            Some(t)
        }
    }

    /// The position of the next token to read: the number of tokens that
    /// were read.
    pub fn position(&self) -> (r: usize)
        ensures
            r == self.pos(),
    {
        self.pos
    }

    /// Puts the cursor back to the position `pos`.
    pub fn rewind(&mut self, pos: usize)
        ensures
            final(self).toks() == old(self).toks(),
            final(self).src() == old(self).src(),
            final(self).pos() == pos,
    {
        self.pos = pos;
    }

    /// Steps over the next token.
    fn bump(&mut self)
        requires
            0 <= old(self).pos() < old(self).toks().len(),
        ensures
            final(self).toks() == old(self).toks(),
            final(self).src() == old(self).src(),
            final(self).pos() == old(self).pos() + 1,
    {
        if self.pos < self.items.len() {
            self.pos += 1;
        }
    }

    /// Reads the next token if it is `want`, and says whether it did.
    pub fn eat(&mut self, want: &Token) -> (r: bool)
        ensures
            final(self).toks() == old(self).toks(),
            final(self).src() == old(self).src(),
            r == (tok_at(old(self).toks(), old(self).pos()) == Some(want@)),
            final(self).pos() == old(self).pos() + if r {
                1int
            } else {
                0int
            },
    {
        if self.pos < self.items.len() && self.items[self.pos].tok == *want {
            self.pos += 1;
            true
        } else {
            false
        }
    }

    /// Reads the token `want`, or fails where the next token is another.
    pub fn expect(&mut self, want: &Token, ctx: &str) -> (r: Result<(), ParseError>)
        ensures
            final(self).toks() == old(self).toks(),
            final(self).src() == old(self).src(),
            match r {
                Ok(_) => expect_spec(old(self).toks(), old(self).pos(), want@, ctx@) == Ok::<
                    ((), int),
                    ParseErrorView,
                >(((), final(self).pos())) && 0 <= old(self).pos() < final(self).pos()
                    <= old(self).toks().len(),
                Err(e) => expect_spec(old(self).toks(), old(self).pos(), want@, ctx@) == Err::<
                    ((), int),
                    ParseErrorView,
                >(e@) && final(self).pos() == old(self).pos(),
            },
    {
        if self.eat(want) {
            Ok(())
        } else {
            let mut msg = concat("expected ", describe(want).as_str());
            msg.append(" while parsing ");
            msg.append(ctx);
            assert(msg@ =~= expected_message(want@, ctx@));
            Err(self.err_here(msg.as_str()))
        }
    }

    /// Checks that every token was read; fails at the next token where one
    /// is left.
    pub fn expect_end(&self) -> (r: Result<(), ParseError>)
        ensures
            match r {
                Ok(_) => self.pos() >= self.toks().len(),
                Err(e) => 0 <= self.pos() < self.toks().len() && e@ == (ParseErrorView {
                    message: trailing_message(tok_at(self.toks(), self.pos())),
                    byte: here(self.toks(), self.pos()),
                }),
            },
    {
        match self.peek() {
            None => Ok(()),
            Some(t) => {
                let msg = concat(
                    "unexpected token after the end: ",
                    describe_found(Some(t)).as_str(),
                );
                Err(self.err_here(msg.as_str()))
            },
        }
    }

    /// The error with the message `msg` at the next token, or at the end of
    /// the last token where the tokens have run out.
    pub fn err_here(&self, msg: &str) -> (e: ParseError)
        ensures
            e@ == (ParseErrorView { message: msg@, byte: here(self.toks(), self.pos()) }),
    {
        let byte: usize = match self.peek_span() {
            Some(s) => s.start,
            None => match self.last_span() {
                Some(s) => s.end,
                None => 0,
            },
        };
        ParseError { message: msg.to_owned(), byte }
    }
}

/// What the parsing function of a rule promises: the tokens and the source
/// stay as they are; on success the cursor stands behind what was read, which
/// is at least one token, and the result is what `expected` says; on failure
/// the error is the one that `expected` says, and the cursor stands where the
/// rule gave up.
pub open spec fn parses(
    before: Tokens,
    after: Tokens,
    r: Result<Expr, ParseError>,
    expected: Parsed<ExprView>,
) -> bool {
    &&& after.toks() == before.toks()
    &&& after.src() == before.src()
    &&& match r {
        Ok(e) => expected == Ok::<(ExprView, int), ParseErrorView>((e@, after.pos()))
            && before.pos() < after.pos() <= before.toks().len(),
        Err(e) => expected == Err::<(ExprView, int), ParseErrorView>(e@),
    }
}

/// The place of a level's parsing function in the order in which the
/// parsing functions call each other.
pub open spec fn ladder(level: Level) -> nat {
    match level {
        Level::Or => 33,
        Level::And => 30,
        Level::Add => 26,
        Level::Mul => 23,
    }
}

/// The value of an expression that may be missing.
pub open spec fn opt_expr_view(e: Option<Expr>) -> Option<ExprView> {
    match e {
        Some(e) => Some(e@),
        None => None,
    }
}

/// The operator that a token spells at a level.
fn level_operator(level: Level, t: Option<&Token>) -> (r: Option<BinOp>)
    ensures
        r == level_op(level, found_view(t)),
{
    match (level, t) {
        (Level::Or, Some(Token::DblPipe)) => Some(BinOp::Or),
        (Level::And, Some(Token::DblAmp)) => Some(BinOp::And),
        (Level::Add, Some(Token::Plus)) => Some(BinOp::Add),
        (Level::Add, Some(Token::Minus)) => Some(BinOp::Sub),
        (Level::Mul, Some(Token::Star)) => Some(BinOp::Mul),
        (Level::Mul, Some(Token::Slash)) => Some(BinOp::Div),
        (Level::Mul, Some(Token::Percent)) => Some(BinOp::Mod),
        _ => None,
    }
}

/// The comparison that a token spells.
fn comparison_operator(t: Option<&Token>) -> (r: Option<BinOp>)
    ensures
        r == comparison_op(found_view(t)),
{
    match t {
        Some(Token::EqEq) => Some(BinOp::Eq),
        Some(Token::Equal) => Some(BinOp::Eq),
        Some(Token::Neq) => Some(BinOp::Ne),
        Some(Token::Le) => Some(BinOp::Le),
        Some(Token::Ge) => Some(BinOp::Ge),
        Some(Token::Lt) => Some(BinOp::Lt),
        Some(Token::Gt) => Some(BinOp::Gt),
        _ => None,
    }
}

/// The application of a binary operator to two operands.
pub fn make_binary_expr(op: BinOp, left: Expr, right: Expr) -> (e: Expr)
    ensures
        e@ == (ExprView::Bin { op, left: Box::new(left@), right: Box::new(right@) }),
{
    let e = Expr::Bin { op, left: Box::new(left), right: Box::new(right) };
    proof {
        lemma_expr_view(e);
    }
    e
}

/// The application of a unary operator to its operand.
fn make_unary_expr(op: UnOp, operand: Expr) -> (e: Expr)
    ensures
        e@ == (ExprView::Unary { op, expr: Box::new(operand@) }),
{
    let e = Expr::Unary { op, expr: Box::new(operand) };
    proof {
        lemma_expr_view(e);
    }
    e
}

/// Parses an expression inside another, with `depth` levels of nesting
/// allowed.
fn parse_nested(ts: &mut Tokens, depth: usize) -> (r: Result<Expr, ParseError>)
    ensures
        parses(
            *old(ts),
            *final(ts),
            r,
            expr_spec(old(ts).toks(), old(ts).pos(), depth as nat),
        ),
    decreases depth, 0nat, 0nat,
{
    if depth == 0 {
        return Err(ts.err_here("expression nested too deeply"));
    }
    let is_case = match ts.peek() {
        Some(Token::LBracket) => true,
        _ => false,
    };
    if is_case {
        parse_case(ts, depth - 1)
    } else {
        parse_pipe(ts, depth - 1)
    }
}

/// Parses a case block.
#[verifier::loop_isolation(false)]
fn parse_case(ts: &mut Tokens, depth: usize) -> (r: Result<Expr, ParseError>)
    ensures
        parses(
            *old(ts),
            *final(ts),
            r,
            case_spec(old(ts).toks(), old(ts).pos(), depth as nat),
        ),
    decreases depth, 40nat, 0nat,
{
    let ghost toks = ts.toks();
    let ghost src = ts.src();
    let ghost start = ts.pos();
    match ts.expect(&Token::LBracket, "case '['") {
        Err(e) => {
            return Err(e);
        },
        Ok(_) => {},
    }
    let ghost first = ts.pos();
    let mut arms: Vec<(Expr, Expr)> = Vec::new();
    let mut default: Option<Expr> = None;
    assert(arms_view(arms@) =~= Seq::empty());
    loop
        invariant
            ts.toks() == toks,
            ts.src() == src,
            start < first <= ts.pos() <= toks.len(),
            case_arms_spec(
                toks,
                ts.pos(),
                arms_view(arms@),
                opt_expr_view(default),
                depth as nat,
            ) == case_arms_spec(toks, first, Seq::empty(), None, depth as nat),
            case_spec(toks, start, depth as nat) == match case_arms_spec(
                toks,
                first,
                Seq::empty(),
                None,
                depth as nat,
            ) {
                Err(e) => Err(e),
                Ok(((a, d), n2)) => match expect_spec(
                    toks,
                    n2,
                    TokenView::RBracket,
                    "closing ']'"@,
                ) {
                    Err(e) => Err(e),
                    Ok((_, n3)) => match d {
                        None => fail(toks, n3, missing_default_message()),
                        Some(d) => Ok((ExprView::Case { arms: a, default: Box::new(d) }, n3)),
                    },
                },
            },
        decreases toks.len() - ts.pos(),
    {
        let is_default = match ts.peek() {
            Some(Token::Underscore) => true,
            _ => false,
        };
        if is_default {
            if default.is_some() {
                return Err(ts.err_here("case block has more than one default '_' arm"));
            }
            ts.bump();
            match parse_default_arm(ts, depth) {
                Err(e) => {
                    return Err(e);
                },
                Ok(d) => {
                    default = Some(d);
                },
            }
        } else {
            match parse_conditional_arm(ts, &mut arms, depth) {
                Err(e) => {
                    return Err(e);
                },
                Ok(_) => {},
            }
        }
        if !ts.eat(&Token::Semicolon) {
            match ts.expect(&Token::RBracket, "closing ']'") {
                Err(e) => {
                    return Err(e);
                },
                Ok(_) => {},
            }
            return match default {
                None => Err(ts.err_here("case block missing default '_' ? expr")),
                Some(d) => {
                    let e = Expr::Case { arms, default: Box::new(d) };
                    proof {
                        lemma_expr_view(e);
                    }
                    Ok(e)
                },
            };
        }
    }
}

/// Parses the rest of a default arm, behind its `_`.
fn parse_default_arm(ts: &mut Tokens, depth: usize) -> (r: Result<Expr, ParseError>)
    ensures
        parses(
            *old(ts),
            *final(ts),
            r,
            default_arm_spec(old(ts).toks(), old(ts).pos(), depth as nat),
        ),
    decreases depth, 38nat, 0nat,
{
    if ts.eat(&Token::QMark) || ts.eat(&Token::Arrow) {
        parse_nested(ts, depth)
    } else {
        Err(ts.err_here("expected '?' or '->' after '_' in case arm"))
    }
}

/// Parses a conditional arm and appends to `arms` what it gives.
fn parse_conditional_arm(ts: &mut Tokens, arms: &mut Vec<(Expr, Expr)>, depth: usize) -> (r: Result<
    (),
    ParseError,
>)
    ensures
        final(ts).toks() == old(ts).toks(),
        final(ts).src() == old(ts).src(),
        match r {
            Ok(_) => conditional_arm_spec(
                old(ts).toks(),
                old(ts).pos(),
                arms_view(old(arms)@),
                depth as nat,
            ) == Ok::<(Seq<(ExprView, ExprView)>, int), ParseErrorView>(
                (arms_view(final(arms)@), final(ts).pos()),
            ) && old(ts).pos() < final(ts).pos() <= old(ts).toks().len(),
            Err(e) => conditional_arm_spec(
                old(ts).toks(),
                old(ts).pos(),
                arms_view(old(arms)@),
                depth as nat,
            ) == Err::<(Seq<(ExprView, ExprView)>, int), ParseErrorView>(e@),
        },
    decreases depth, 38nat, 0nat,
{
    let cond = match parse_or(ts, depth) {
        Err(e) => {
            return Err(e);
        },
        Ok(c) => c,
    };
    if ts.eat(&Token::QMark) {
        parse_question_arm(ts, arms, cond, depth)
    } else if ts.eat(&Token::Arrow) {
        match parse_nested(ts, depth) {
            Err(e) => Err(e),
            Ok(rhs) => {
                let ghost before = arms@;
                let ghost pair = (cond@, rhs@);
                arms.push((cond, rhs));
                assert(arms_view(arms@) =~= arms_view(before).push(pair));
                Ok(())
            },
        }
    } else {
        Err(ts.err_here("expected '?' or '->' after condition in case arm"))
    }
}

/// Parses the rest of an arm behind `cond ?` and appends to `arms` what it
/// gives: one arm, or two where an alternative follows behind `|`.
fn parse_question_arm(
    ts: &mut Tokens,
    arms: &mut Vec<(Expr, Expr)>,
    cond: Expr,
    depth: usize,
) -> (r: Result<(), ParseError>)
    ensures
        final(ts).toks() == old(ts).toks(),
        final(ts).src() == old(ts).src(),
        match r {
            Ok(_) => question_arm_spec(
                old(ts).toks(),
                old(ts).pos(),
                arms_view(old(arms)@),
                cond@,
                depth as nat,
            ) == Ok::<(Seq<(ExprView, ExprView)>, int), ParseErrorView>(
                (arms_view(final(arms)@), final(ts).pos()),
            ) && old(ts).pos() < final(ts).pos() <= old(ts).toks().len(),
            Err(e) => question_arm_spec(
                old(ts).toks(),
                old(ts).pos(),
                arms_view(old(arms)@),
                cond@,
                depth as nat,
            ) == Err::<(Seq<(ExprView, ExprView)>, int), ParseErrorView>(e@),
        },
    decreases depth, 37nat, 0nat,
{
    let then_e = match parse_nested(ts, depth) {
        Err(e) => {
            return Err(e);
        },
        Ok(t) => t,
    };
    let ghost before = arms@;
    if ts.eat(&Token::Pipe) {
        let else_e = match parse_nested(ts, depth) {
            Err(e) => {
                return Err(e);
            },
            Ok(t) => t,
        };
        let ghost first = (cond@, then_e@);
        let copy = cond.clone();
        let not_cond = make_unary_expr(UnOp::Not, cond);
        let ghost second = (not_cond@, else_e@);
        arms.push((copy, then_e));
        arms.push((not_cond, else_e));
        assert(arms_view(arms@) =~= arms_view(before).push(first).push(second));
        Ok(())
    } else {
        let ghost pair = (cond@, then_e@);
        arms.push((cond, then_e));
        assert(arms_view(arms@) =~= arms_view(before).push(pair));
        Ok(())
    }
}

/// Parses a pipeline.
#[verifier::loop_isolation(false)]
fn parse_pipe(ts: &mut Tokens, depth: usize) -> (r: Result<Expr, ParseError>)
    ensures
        parses(
            *old(ts),
            *final(ts),
            r,
            pipe_spec(old(ts).toks(), old(ts).pos(), depth as nat),
        ),
    decreases depth, 36nat, 0nat,
{
    let ghost toks = ts.toks();
    let ghost src = ts.src();
    let ghost start = ts.pos();
    let head = match parse_or(ts, depth) {
        Err(e) => {
            return Err(e);
        },
        Ok(h) => h,
    };
    let ghost first = ts.pos();
    let mut steps: Vec<Expr> = Vec::new();
    assert(exprs_view(steps@) =~= Seq::empty());
    loop
        invariant
            ts.toks() == toks,
            ts.src() == src,
            start < first <= ts.pos() <= toks.len(),
            pipe_rest_spec(toks, ts.pos(), exprs_view(steps@), depth as nat) == pipe_rest_spec(
                toks,
                first,
                Seq::empty(),
                depth as nat,
            ),
            pipe_spec(toks, start, depth as nat) == match pipe_rest_spec(
                toks,
                first,
                Seq::empty(),
                depth as nat,
            ) {
                Err(e) => Err(e),
                Ok((s, n2)) => if s.len() == 0 {
                    Ok((head@, n2))
                } else {
                    Ok((ExprView::Pipe { head: Box::new(head@), steps: s }, n2))
                },
            },
        decreases toks.len() - ts.pos(),
    {
        if !ts.eat(&Token::DblGt) {
            if steps.len() == 0 {
                return Ok(head);
            }
            let e = Expr::Pipe { head: Box::new(head), steps };
            proof {
                lemma_expr_view(e);
            }
            return Ok(e);
        }
        match parse_or(ts, depth) {
            Err(e) => {
                return Err(e);
            },
            Ok(step) => {
                let ghost before = steps@;
                let ghost v = step@;
                steps.push(step);
                assert(exprs_view(steps@) =~= exprs_view(before).push(v));
            },
        }
    }
}

/// Parses a chain of `||`.
fn parse_or(ts: &mut Tokens, depth: usize) -> (r: Result<Expr, ParseError>)
    ensures
        parses(
            *old(ts),
            *final(ts),
            r,
            binary_spec(old(ts).toks(), old(ts).pos(), Level::Or, depth as nat),
        ),
    decreases depth, 34nat, 0nat,
{
    parse_binary_left_associative(ts, Level::Or, depth)
}

/// Parses a chain of `&&`.
fn parse_and(ts: &mut Tokens, depth: usize) -> (r: Result<Expr, ParseError>)
    ensures
        parses(
            *old(ts),
            *final(ts),
            r,
            binary_spec(old(ts).toks(), old(ts).pos(), Level::And, depth as nat),
        ),
    decreases depth, 31nat, 0nat,
{
    parse_binary_left_associative(ts, Level::And, depth)
}

/// Parses a comparison, or what stands in place of one.
fn parse_comparison(ts: &mut Tokens, depth: usize) -> (r: Result<Expr, ParseError>)
    ensures
        parses(
            *old(ts),
            *final(ts),
            r,
            comparison_spec(old(ts).toks(), old(ts).pos(), depth as nat),
        ),
    decreases depth, 28nat, 0nat,
{
    let node = match parse_add(ts, depth) {
        Err(e) => {
            return Err(e);
        },
        Ok(n) => n,
    };
    match comparison_operator(ts.peek()) {
        None => Ok(node),
        Some(op) => {
            ts.bump();
            match parse_add(ts, depth) {
                Err(e) => Err(e),
                Ok(rhs) => if comparison_operator(ts.peek()).is_some() {
                    Err(ts.err_here("comparison operators do not chain"))
                } else {
                    Ok(make_binary_expr(op, node, rhs))
                },
            }
        },
    }
}

/// Parses a chain of operands of `level`, joined from the left.
#[verifier::loop_isolation(false)]
fn parse_binary_left_associative(ts: &mut Tokens, level: Level, depth: usize) -> (r: Result<
    Expr,
    ParseError,
>)
    ensures
        parses(
            *old(ts),
            *final(ts),
            r,
            binary_spec(old(ts).toks(), old(ts).pos(), level, depth as nat),
        ),
    decreases depth, ladder(level), 0nat,
{
    let ghost toks = ts.toks();
    let ghost src = ts.src();
    let ghost start = ts.pos();
    let mut node = match parse_operand(ts, level, depth) {
        Err(e) => {
            return Err(e);
        },
        Ok(n) => n,
    };
    loop
        invariant
            ts.toks() == toks,
            ts.src() == src,
            start < ts.pos() <= toks.len(),
            binary_spec(toks, start, level, depth as nat) == binary_rest_spec(
                toks,
                ts.pos(),
                node@,
                level,
                depth as nat,
            ),
        decreases toks.len() - ts.pos(),
    {
        let op = match level_operator(level, ts.peek()) {
            None => {
                return Ok(node);
            },
            Some(op) => op,
        };
        ts.bump();
        let rhs = match parse_operand(ts, level, depth) {
            Err(e) => {
                return Err(e);
            },
            Ok(r) => r,
        };
        node = make_binary_expr(op, node, rhs);
    }
}

/// Parses an operand of `level`.
fn parse_operand(ts: &mut Tokens, level: Level, depth: usize) -> (r: Result<Expr, ParseError>)
    ensures
        parses(
            *old(ts),
            *final(ts),
            r,
            operand_spec(old(ts).toks(), old(ts).pos(), level, depth as nat),
        ),
    decreases depth, (ladder(level) - 1) as nat, 0nat,
{
    match level {
        Level::Or => parse_and(ts, depth),
        Level::And => parse_comparison(ts, depth),
        Level::Add => parse_mul(ts, depth),
        Level::Mul => parse_pow(ts, depth),
    }
}

/// Parses a chain of `+` and `-`.
fn parse_add(ts: &mut Tokens, depth: usize) -> (r: Result<Expr, ParseError>)
    ensures
        parses(
            *old(ts),
            *final(ts),
            r,
            binary_spec(old(ts).toks(), old(ts).pos(), Level::Add, depth as nat),
        ),
    decreases depth, 27nat, 0nat,
{
    parse_binary_left_associative(ts, Level::Add, depth)
}

/// Parses a chain of `*`, `/` and `%`.
fn parse_mul(ts: &mut Tokens, depth: usize) -> (r: Result<Expr, ParseError>)
    ensures
        parses(
            *old(ts),
            *final(ts),
            r,
            binary_spec(old(ts).toks(), old(ts).pos(), Level::Mul, depth as nat),
        ),
    decreases depth, 24nat, 0nat,
{
    parse_binary_left_associative(ts, Level::Mul, depth)
}

/// Parses a power: `^` takes what stands before it and the whole power that
/// stands behind it.
fn parse_pow(ts: &mut Tokens, depth: usize) -> (r: Result<Expr, ParseError>)
    ensures
        parses(
            *old(ts),
            *final(ts),
            r,
            pow_spec(old(ts).toks(), old(ts).pos(), depth as nat),
        ),
    decreases depth, 21nat, 0nat,
{
    let node = match parse_unary(ts, depth) {
        Err(e) => {
            return Err(e);
        },
        Ok(n) => n,
    };
    if ts.eat(&Token::Caret) {
        if depth == 0 {
            return Err(ts.err_here("expression nested too deeply"));
        }
        match parse_pow(ts, depth - 1) {
            Err(e) => Err(e),
            Ok(rhs) => Ok(make_binary_expr(BinOp::Pow, node, rhs)),
        }
    } else {
        Ok(node)
    }
}

/// Parses a prefix operator with its operand, or a postfix expression.
fn parse_unary(ts: &mut Tokens, depth: usize) -> (r: Result<Expr, ParseError>)
    ensures
        parses(
            *old(ts),
            *final(ts),
            r,
            unary_spec(old(ts).toks(), old(ts).pos(), depth as nat),
        ),
    decreases depth, 20nat, 0nat,
{
    let op = if ts.eat(&Token::Minus) {
        UnOp::Neg
    } else if ts.eat(&Token::Bang) {
        UnOp::Not
    } else {
        return parse_postfix(ts, depth);
    };
    if depth == 0 {
        return Err(ts.err_here("expression nested too deeply"));
    }
    match parse_unary(ts, depth - 1) {
        Err(e) => Err(e),
        Ok(e) => Ok(make_unary_expr(op, e)),
    }
}

/// Parses a primary expression and the argument lists behind it.
fn parse_postfix(ts: &mut Tokens, depth: usize) -> (r: Result<Expr, ParseError>)
    ensures
        parses(
            *old(ts),
            *final(ts),
            r,
            postfix_spec(old(ts).toks(), old(ts).pos(), depth as nat),
        ),
    decreases depth, 19nat, 0nat,
{
    let ghost start = ts.pos();
    let node = match parse_primary(ts, depth) {
        Err(e) => {
            return Err(e);
        },
        Ok(n) => n,
    };
    parse_function_calls(ts, node, Ghost(start), depth)
}

/// Parses a primary expression.
fn parse_primary(ts: &mut Tokens, depth: usize) -> (r: Result<Expr, ParseError>)
    ensures
        parses(
            *old(ts),
            *final(ts),
            r,
            primary_spec(old(ts).toks(), old(ts).pos(), depth as nat),
        ),
    decreases depth, 15nat, 0nat,
{
    let tok = match ts.peek() {
        None => {
            let msg = concat("unexpected token in expression: ", describe_found(None).as_str());
            return Err(ts.err_here(msg.as_str()));
        },
        Some(t) => t.clone(),
    };
    match tok {
        Token::Number(s) => {
            let e = parse_number(ts, s.as_str());
            if e.is_ok() {
                ts.bump();
            }
            e
        },
        Token::Bool(b) => {
            ts.bump();
            Ok(Expr::Bool(b))
        },
        Token::Ident(s) => {
            ts.bump();
            Ok(Expr::Ident(s))
        },
        Token::At => {
            ts.bump();
            parse_algorithm_call(ts)
        },
        Token::LParen => {
            ts.bump();
            parse_parenthesized(ts, depth)
        },
        other => {
            let msg = concat(
                "unexpected token in expression: ",
                describe_found(Some(&other)).as_str(),
            );
            Err(ts.err_here(msg.as_str()))
        },
    }
}

/// The expression of the numeric literal `s`, which is the next token; an
/// error at that token where `s` is no numeric literal.
fn parse_number(ts: &Tokens, s: &str) -> (r: Result<Expr, ParseError>)
    ensures
        match r {
            Ok(e) => number_literal(s@) && e@ == ExprView::Number(s@),
            Err(e) => !number_literal(s@) && e@ == (ParseErrorView {
                message: bad_number_message(s@),
                byte: here(ts.toks(), ts.pos()),
            }),
        },
{
    if is_number_literal(s) {
        Ok(Expr::Number(s.to_owned()))
    } else {
        let msg = concat("bad number literal: ", s);
        Err(ts.err_here(msg.as_str()))
    }
}

/// Parses the name of an algorithm reference, behind its `@`.
fn parse_algorithm_call(ts: &mut Tokens) -> (r: Result<Expr, ParseError>)
    ensures
        final(ts).toks() == old(ts).toks(),
        final(ts).src() == old(ts).src(),
        match r {
            Ok(e) => tok_at(old(ts).toks(), old(ts).pos()) matches Some(TokenView::Ident(s))
                && e@ == (ExprView::Call { is_alg: true, name: s, args: Seq::empty() })
                && final(ts).pos() == old(ts).pos() + 1,
            Err(e) => !(tok_at(old(ts).toks(), old(ts).pos()) is Some && tok_at(
                old(ts).toks(),
                old(ts).pos(),
            )->Some_0 is Ident) && e@ == (ParseErrorView {
                message: expected_name_message(tok_at(old(ts).toks(), old(ts).pos())),
                byte: here(old(ts).toks(), old(ts).pos()),
            }),
        },
{
    match parse_algorithm_name(ts) {
        Err(e) => Err(e),
        Ok(name) => {
            let e = Expr::Call { is_alg: true, name, args: Vec::new() };
            proof {
                lemma_expr_view(e);
                assert(exprs_view(Seq::<Expr>::empty()) =~= Seq::<ExprView>::empty());
            }
            Ok(e)
        },
    }
}

/// Parses the name of an algorithm, behind `@`.
fn parse_algorithm_name(ts: &mut Tokens) -> (r: Result<String, ParseError>)
    ensures
        final(ts).toks() == old(ts).toks(),
        final(ts).src() == old(ts).src(),
        match r {
            Ok(name) => tok_at(old(ts).toks(), old(ts).pos()) == Some(TokenView::Ident(name@))
                && final(ts).pos() == old(ts).pos() + 1,
            Err(e) => !(tok_at(old(ts).toks(), old(ts).pos()) is Some && tok_at(
                old(ts).toks(),
                old(ts).pos(),
            )->Some_0 is Ident) && e@ == (ParseErrorView {
                message: expected_name_message(tok_at(old(ts).toks(), old(ts).pos())),
                byte: here(old(ts).toks(), old(ts).pos()),
            }),
        },
{
    let name = match ts.peek() {
        Some(Token::Ident(s)) => Some(s.clone()),
        _ => None,
    };
    match name {
        Some(name) => {
            ts.bump();
            Ok(name)
        },
        None => {
            let msg = concat("expected identifier after '@', got ", describe_found(ts.peek()).as_str());
            Err(ts.err_here(msg.as_str()))
        },
    }
}

/// Parses the rest of a parenthesized expression, behind its `(`.
fn parse_parenthesized(ts: &mut Tokens, depth: usize) -> (r: Result<Expr, ParseError>)
    ensures
        final(ts).toks() == old(ts).toks(),
        final(ts).src() == old(ts).src(),
        match expr_spec(old(ts).toks(), old(ts).pos(), depth as nat) {
            Err(x) => r matches Err(e) && e@ == x,
            Ok((v, p)) => if tok_at(old(ts).toks(), p) == Some(TokenView::RParen) {
                r matches Ok(e) && e@ == v && final(ts).pos() == p + 1 && old(ts).pos() < p
                    < old(ts).toks().len()
            } else {
                r matches Err(e) && e@ == (ParseErrorView {
                    message: unclosed_message(tok_at(old(ts).toks(), p)),
                    byte: here(old(ts).toks(), p),
                })
            },
        },
    decreases depth, 14nat, 0nat,
{
    let e = match parse_nested(ts, depth) {
        Err(e) => {
            return Err(e);
        },
        Ok(e) => e,
    };
    if ts.eat(&Token::RParen) {
        Ok(e)
    } else {
        let msg = concat("expected ')', got ", describe_found(ts.peek()).as_str());
        Err(ts.err_here(msg.as_str()))
    }
}

/// Parses the argument lists behind `node`, which was read from `start` on.
#[verifier::loop_isolation(false)]
fn parse_function_calls(ts: &mut Tokens, node: Expr, Ghost(start): Ghost<int>, depth: usize) -> (r:
    Result<Expr, ParseError>)
    requires
        start < old(ts).pos() <= old(ts).toks().len(),
    ensures
        final(ts).toks() == old(ts).toks(),
        final(ts).src() == old(ts).src(),
        match r {
            Ok(e) => calls_spec(old(ts).toks(), old(ts).pos(), node@, depth as nat) == Ok::<
                (ExprView, int),
                ParseErrorView,
            >((e@, final(ts).pos())) && old(ts).pos() <= final(ts).pos() <= old(ts).toks().len(),
            Err(e) => calls_spec(old(ts).toks(), old(ts).pos(), node@, depth as nat) == Err::<
                (ExprView, int),
                ParseErrorView,
            >(e@),
        },
    decreases depth, 18nat, 0nat,
{
    let ghost toks = ts.toks();
    let ghost src = ts.src();
    let ghost first = ts.pos();
    let ghost given = node@;
    let mut node = node;
    loop
        invariant
            ts.toks() == toks,
            ts.src() == src,
            first <= ts.pos() <= toks.len(),
            calls_spec(toks, ts.pos(), node@, depth as nat) == calls_spec(
                toks,
                first,
                given,
                depth as nat,
            ),
        decreases toks.len() - ts.pos(),
    {
        if !ts.eat(&Token::LParen) {
            return Ok(node);
        }
        let args = match parse_argument_list(ts, depth) {
            Err(e) => {
                return Err(e);
            },
            Ok(a) => a,
        };
        match ts.expect(&Token::RParen, "closing ')' of call") {
            Err(e) => {
                return Err(e);
            },
            Ok(_) => {},
        }
        node = match attach_call_to_node(ts, node, args) {
            Err(e) => {
                return Err(e);
            },
            Ok(n) => n,
        };
    }
}

/// Parses the arguments of a call, behind its `(`.
fn parse_argument_list(ts: &mut Tokens, depth: usize) -> (r: Result<Vec<Expr>, ParseError>)
    ensures
        final(ts).toks() == old(ts).toks(),
        final(ts).src() == old(ts).src(),
        match r {
            Ok(a) => args_spec(old(ts).toks(), old(ts).pos(), depth as nat) == Ok::<
                (Seq<ExprView>, int),
                ParseErrorView,
            >((exprs_view(a@), final(ts).pos())) && (old(ts).pos() == final(ts).pos()
                || old(ts).pos() < final(ts).pos() <= old(ts).toks().len()),
            Err(e) => args_spec(old(ts).toks(), old(ts).pos(), depth as nat) == Err::<
                (Seq<ExprView>, int),
                ParseErrorView,
            >(e@),
        },
    decreases depth, 17nat, 0nat,
{
    let mut args: Vec<Expr> = Vec::new();
    let has_first = match ts.peek() {
        None => false,
        Some(Token::RParen) => false,
        Some(_) => true,
    };
    if !has_first {
        assert(exprs_view(args@) =~= Seq::empty());
        return Ok(args);
    }
    match parse_nested(ts, depth) {
        Err(e) => Err(e),
        Ok(first) => {
            let ghost v = first@;
            args.push(first);
            assert(exprs_view(args@) =~= seq![v]);
            parse_more_arguments(ts, args, depth)
        },
    }
}

/// Parses the arguments that follow the first, each behind a comma, and
/// appends them to `args`.
fn parse_more_arguments(ts: &mut Tokens, args: Vec<Expr>, depth: usize) -> (r: Result<
    Vec<Expr>,
    ParseError,
>)
    requires
        old(ts).pos() <= old(ts).toks().len(),
    ensures
        final(ts).toks() == old(ts).toks(),
        final(ts).src() == old(ts).src(),
        match r {
            Ok(a) => args_rest_spec(
                old(ts).toks(),
                old(ts).pos(),
                exprs_view(args@),
                depth as nat,
            ) == Ok::<(Seq<ExprView>, int), ParseErrorView>((exprs_view(a@), final(ts).pos()))
                && old(ts).pos() <= final(ts).pos() <= old(ts).toks().len(),
            Err(e) => args_rest_spec(
                old(ts).toks(),
                old(ts).pos(),
                exprs_view(args@),
                depth as nat,
            ) == Err::<(Seq<ExprView>, int), ParseErrorView>(e@),
        },
    decreases depth, 16nat, 0nat,
{
    let ghost toks = ts.toks();
    let ghost src = ts.src();
    let ghost first = ts.pos();
    let ghost given = exprs_view(args@);
    let mut all = args;
    loop
        invariant
            given == exprs_view(args@),
            ts.toks() == toks,
            ts.src() == src,
            toks == old(ts).toks(),
            src == old(ts).src(),
            first == old(ts).pos(),
            first <= ts.pos() <= toks.len(),
            args_rest_spec(toks, ts.pos(), exprs_view(all@), depth as nat) == args_rest_spec(
                toks,
                first,
                given,
                depth as nat,
            ),
        decreases toks.len() - ts.pos(),
    {
        if !ts.eat(&Token::Comma) {
            return Ok(all);
        }
        match parse_nested(ts, depth) {
            Err(e) => {
                return Err(e);
            },
            Ok(e) => {
                let ghost before = all@;
                let ghost v = e@;
                all.push(e);
                assert(exprs_view(all@) =~= exprs_view(before).push(v));
            },
        }
    }
}

/// Makes the call of `node` on `args`; fails where `node` is neither a name
/// nor an algorithm reference.
fn attach_call_to_node(ts: &Tokens, node: Expr, args: Vec<Expr>) -> (r: Result<Expr, ParseError>)
    ensures
        match r {
            Ok(e) => attach_spec(node@, exprs_view(args@)) == Some(e@),
            Err(e) => attach_spec(node@, exprs_view(args@)) is None && e@ == (ParseErrorView {
                message: not_callable_message(),
                byte: here(ts.toks(), ts.pos()),
            }),
        },
{
    proof {
        lemma_expr_view(node);
    }
    match node {
        Expr::Ident(name) => {
            let e = Expr::Call { is_alg: false, name, args };
            proof {
                lemma_expr_view(e);
            }
            Ok(e)
        },
        Expr::Call { is_alg: true, name, args: _ } => {
            let e = Expr::Call { is_alg: true, name, args };
            proof {
                lemma_expr_view(e);
            }
            Ok(e)
        },
        _ => Err(ts.err_here("cannot call non-name expression")),
    }
}

/// Parses the parameters of a definition, behind the `(`.
fn parse_parameter_list(ts: &mut Tokens) -> (r: Result<Vec<String>, ParseError>)
    ensures
        final(ts).toks() == old(ts).toks(),
        final(ts).src() == old(ts).src(),
        match r {
            Ok(params) => params_spec(old(ts).toks(), old(ts).pos()) == Ok::<
                (Seq<Seq<char>>, int),
                ParseErrorView,
            >((names_view(params@), final(ts).pos())) && old(ts).pos() <= final(ts).pos(),
            Err(e) => params_spec(old(ts).toks(), old(ts).pos()) == Err::<
                (Seq<Seq<char>>, int),
                ParseErrorView,
            >(e@),
        },
{
    let ghost toks = ts.toks();
    let ghost src = ts.src();
    let mut params: Vec<String> = Vec::new();
    let first = match ts.peek() {
        Some(Token::Ident(s)) => Some(s.clone()),
        _ => None,
    };
    match first {
        None => {
            assert(names_view(params@) =~= Seq::empty());
            return Ok(params);
        },
        Some(name) => {
            let ghost v = name@;
            ts.bump();
            params.push(name);
            assert(names_view(params@) =~= seq![v]);
        },
    }
    let ghost start = ts.pos();
    let ghost one = names_view(params@);
    loop
        invariant
            toks == old(ts).toks(),
            src == old(ts).src(),
            ts.toks() == toks,
            ts.src() == src,
            old(ts).pos() < start <= ts.pos(),
            params_spec(toks, old(ts).pos()) == params_rest_spec(toks, start, one),
            params_rest_spec(toks, ts.pos(), names_view(params@)) == params_rest_spec(
                toks,
                start,
                one,
            ),
        decreases toks.len() - ts.pos(),
    {
        if !ts.eat(&Token::Comma) {
            return Ok(params);
        }
        let name = match ts.peek() {
            Some(Token::Ident(s)) => Some(s.clone()),
            _ => None,
        };
        match name {
            None => {
                let msg = concat(
                    "expected parameter name after ',', got ",
                    describe_found(ts.peek()).as_str(),
                );
                return Err(ts.err_here(msg.as_str()));
            },
            Some(name) => {
                let ghost before = params@;
                let ghost v = name@;
                ts.bump();
                params.push(name);
                assert(names_view(params@) =~= names_view(before).push(v));
            },
        }
    }
}

/// Parses the definition of an algorithm, with `depth` levels of nesting
/// allowed in its body.
fn parse_definition(ts: &mut Tokens, depth: usize) -> (r: Result<AlgorithmDef, ParseError>)
    ensures
        final(ts).toks() == old(ts).toks(),
        final(ts).src() == old(ts).src(),
        match r {
            Ok(d) => alg_def_spec(old(ts).toks(), old(ts).pos(), depth as nat) == Ok::<
                (AlgorithmDefView, int),
                ParseErrorView,
            >((d@, final(ts).pos())) && old(ts).pos() < final(ts).pos() <= old(ts).toks().len(),
            Err(e) => alg_def_spec(old(ts).toks(), old(ts).pos(), depth as nat) == Err::<
                (AlgorithmDefView, int),
                ParseErrorView,
            >(e@),
        },
{
    match ts.expect(&Token::At, "algorithm start '@'") {
        Err(e) => {
            return Err(e);
        },
        Ok(_) => {},
    }
    let name = match parse_algorithm_name(ts) {
        Err(e) => {
            return Err(e);
        },
        Ok(n) => n,
    };
    match ts.expect(&Token::LParen, "parameter list '('") {
        Err(e) => {
            return Err(e);
        },
        Ok(_) => {},
    }
    let params = match parse_parameter_list(ts) {
        Err(e) => {
            return Err(e);
        },
        Ok(p) => p,
    };
    match ts.expect(&Token::RParen, "parameter list ')'") {
        Err(e) => {
            return Err(e);
        },
        Ok(_) => {},
    }
    match ts.expect(&Token::Equal, "definition '='") {
        Err(e) => {
            return Err(e);
        },
        Ok(_) => {},
    }
    match parse_nested(ts, depth) {
        Err(e) => Err(e),
        Ok(body) => Ok(AlgorithmDef { name, params, body }),
    }
}

/// What the public parsing functions promise: the tokens and the source stay
/// as they are; on success the cursor stands behind what was read, which is
/// at least one token, and the result is what `expected` says; on failure the
/// error is the one that `expected` says and the cursor stands where it
/// stood.
pub open spec fn parsed_or_rewound<T: View>(
    before: Tokens,
    after: Tokens,
    r: Result<T, ParseError>,
    expected: Parsed<T::V>,
) -> bool {
    &&& after.toks() == before.toks()
    &&& after.src() == before.src()
    &&& match r {
        Ok(v) => expected == Ok::<(T::V, int), ParseErrorView>((v@, after.pos())) && before.pos()
            < after.pos() <= before.toks().len(),
        Err(e) => expected == Err::<(T::V, int), ParseErrorView>(e@) && after.pos()
            == before.pos(),
    }
}

/// What was parsed, where it ends with the tokens; a failure at the first
/// token behind it, where tokens are left.
pub open spec fn to_the_end<T>(toks: Seq<TokSpanView>, r: Parsed<T>) -> Parsed<T> {
    match r {
        Err(e) => Err(e),
        Ok((v, p)) => if p >= toks.len() {
            Ok((v, p))
        } else {
            fail(toks, p, trailing_message(tok_at(toks, p)))
        },
    }
}

/// Where the cursor stands after a public parsing function: behind what was
/// read, or where it stood.
pub open spec fn cursor_after<T>(expected: Parsed<T>, start: int) -> int {
    match expected {
        Ok((_, p)) => p,
        Err(_) => start,
    }
}

/// Parses the definition of an algorithm, with `depth` levels of nesting
/// allowed in its body.
pub fn parse_alg_def_at(ts: &mut Tokens, depth: usize) -> (r: Result<AlgorithmDef, ParseError>)
    ensures
        parsed_or_rewound(
            *old(ts),
            *final(ts),
            r,
            alg_def_spec(old(ts).toks(), old(ts).pos(), depth as nat),
        ),
{
    let start = ts.position();
    let r = parse_definition(ts, depth);
    if r.is_err() {
        ts.rewind(start);
    }
    r
}

/// Parses the definition of an algorithm:
/// `'@' Ident '(' [Ident {',' Ident}] ')' '=' Expr`.
pub fn parse_alg_def(ts: &mut Tokens) -> (r: Result<AlgorithmDef, ParseError>)
    ensures
        parsed_or_rewound(
            *old(ts),
            *final(ts),
            r,
            alg_def_spec(old(ts).toks(), old(ts).pos(), MAX_NESTING as nat),
        ),
{
    parse_alg_def_at(ts, MAX_NESTING)
}

/// Parses an expression, with `depth` levels of nesting allowed.
pub fn parse_expr_at(ts: &mut Tokens, depth: usize) -> (r: Result<Expr, ParseError>)
    ensures
        parsed_or_rewound(
            *old(ts),
            *final(ts),
            r,
            expr_spec(old(ts).toks(), old(ts).pos(), depth as nat),
        ),
{
    let start = ts.position();
    let r = parse_nested(ts, depth);
    if r.is_err() {
        ts.rewind(start);
    }
    r
}

/// Parses an expression: a case block or a pipeline.
pub fn parse_expr(ts: &mut Tokens) -> (r: Result<Expr, ParseError>)
    ensures
        parsed_or_rewound(
            *old(ts),
            *final(ts),
            r,
            expr_spec(old(ts).toks(), old(ts).pos(), MAX_NESTING as nat),
        ),
{
    parse_expr_at(ts, MAX_NESTING)
}

/// Parses the definition of an algorithm that the tokens end with: tokens
/// behind the definition are a failure.
pub fn parse_whole_alg_def(ts: &mut Tokens) -> (r: Result<AlgorithmDef, ParseError>)
    ensures
        parsed_or_rewound(
            *old(ts),
            *final(ts),
            r,
            to_the_end(
                old(ts).toks(),
                alg_def_spec(old(ts).toks(), old(ts).pos(), MAX_NESTING as nat),
            ),
        ),
{
    let start = ts.position();
    let def = match parse_alg_def(ts) {
        Err(e) => {
            return Err(e);
        },
        Ok(d) => d,
    };
    match ts.expect_end() {
        Err(e) => {
            ts.rewind(start);
            Err(e)
        },
        Ok(_) => Ok(def),
    }
}

/// Parses an expression that the tokens end with: tokens behind the
/// expression are a failure.
pub fn parse_whole_expr(ts: &mut Tokens) -> (r: Result<Expr, ParseError>)
    ensures
        parsed_or_rewound(
            *old(ts),
            *final(ts),
            r,
            to_the_end(
                old(ts).toks(),
                expr_spec(old(ts).toks(), old(ts).pos(), MAX_NESTING as nat),
            ),
        ),
{
    let start = ts.position();
    let e = match parse_expr(ts) {
        Err(e) => {
            return Err(e);
        },
        Ok(e) => e,
    };
    match ts.expect_end() {
        Err(x) => {
            ts.rewind(start);
            Err(x)
        },
        Ok(_) => Ok(e),
    }
}

/// An operand that is asked for where the tokens have run out is a failure
/// at the end of the last token.
pub proof fn lemma_operand_at_end(toks: Seq<TokSpanView>, level: Level, depth: nat)
    requires
        toks.len() > 0,
    ensures
        operand_spec(toks, toks.len() as int, level, depth) == Err::<(ExprView, int), ParseErrorView>(
            ParseErrorView { message: unexpected_token_message(None), byte: toks.last().end },
        ),
{
    reveal_with_fuel(binary_spec, 4);
    reveal_with_fuel(operand_spec, 4);
}

/// A binary operator that the source ends with, its right operand missing,
/// fails the parse with a position immediately behind the operator.
pub proof fn law_missing_right_operand(
    toks: Seq<TokSpanView>,
    pos: int,
    node: ExprView,
    level: Level,
    depth: nat,
)
    requires
        0 <= pos,
        pos + 1 == toks.len(),
        level_op(level, tok_at(toks, pos)) is Some,
    ensures
        binary_rest_spec(toks, pos, node, level, depth) == Err::<(ExprView, int), ParseErrorView>(
            ParseErrorView { message: unexpected_token_message(None), byte: toks[pos].end },
        ),
{
    lemma_operand_at_end(toks, level, depth);
}

} // verus!



