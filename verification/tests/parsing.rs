use amlang::ast::{AlgorithmDef, BinOp, Expr, UnOp};
use amlang::error_handling::format_parse_error;
use amlang::lexer::lex;
use amlang::parser::{
    parse_alg_def, parse_expr, parse_expr_at, parse_whole_alg_def, parse_whole_expr, ParseError,
    Tokens,
};
use amlang::token::{caret_message, span, Token};

fn expr(src: &str) -> Result<Expr, ParseError> {
    let mut ts = Tokens::new_with_src(lex(src), src);
    parse_expr(&mut ts)
}

fn def(src: &str) -> Result<AlgorithmDef, ParseError> {
    let mut ts = Tokens::new_with_src(lex(src), src);
    parse_alg_def(&mut ts)
}

fn n(text: &str) -> Expr {
    Expr::Number(text.to_string())
}

fn id(text: &str) -> Expr {
    Expr::Ident(text.to_string())
}

fn bin(op: BinOp, l: Expr, r: Expr) -> Expr {
    Expr::Bin { op, left: Box::new(l), right: Box::new(r) }
}

#[test]
fn product_binds_tighter_than_sum() {
    assert_eq!(
        expr("1 + 2 * 3"),
        Ok(bin(BinOp::Add, n("1"), bin(BinOp::Mul, n("2"), n("3"))))
    );
}

#[test]
fn sums_join_from_the_left() {
    assert_eq!(
        expr("1 - 2 + 3"),
        Ok(bin(BinOp::Add, bin(BinOp::Sub, n("1"), n("2")), n("3")))
    );
}

#[test]
fn power_joins_from_the_right() {
    assert_eq!(
        expr("2 ^ 3 ^ 2"),
        Ok(bin(BinOp::Pow, n("2"), bin(BinOp::Pow, n("3"), n("2"))))
    );
}

#[test]
fn unary_minus_wraps_its_operand_only() {
    assert_eq!(
        expr("-2 ^ 2"),
        Ok(bin(
            BinOp::Pow,
            Expr::Unary { op: UnOp::Neg, expr: Box::new(n("2")) },
            n("2")
        ))
    );
}

#[test]
fn comparison_does_not_chain() {
    let err = expr("a < b < c").unwrap_err();
    assert_eq!(err.message, "comparison operators do not chain");
    assert_eq!(err.byte, 6);
    let err = expr("(a < b < c)").unwrap_err();
    assert_eq!(err.message, "comparison operators do not chain");
    assert_eq!(err.byte, 7);
    let err = expr("a < b == c").unwrap_err();
    assert_eq!(err.message, "comparison operators do not chain");
    assert_eq!(err.byte, 6);
    let err = expr("a = b = c").unwrap_err();
    assert_eq!(err.byte, 6);
    assert_eq!(expr("a < b"), Ok(bin(BinOp::Lt, id("a"), id("b"))));
    assert_eq!(
        expr("(a < b) < c"),
        Ok(bin(BinOp::Lt, bin(BinOp::Lt, id("a"), id("b")), id("c")))
    );
    assert_eq!(
        expr("a < b && b < c"),
        Ok(bin(BinOp::And, bin(BinOp::Lt, id("a"), id("b")), bin(BinOp::Lt, id("b"), id("c"))))
    );
}

#[test]
fn single_equal_is_equality() {
    assert_eq!(expr("a = b"), Ok(bin(BinOp::Eq, id("a"), id("b"))));
    assert_eq!(expr("a == b"), Ok(bin(BinOp::Eq, id("a"), id("b"))));
}

#[test]
fn logic_levels() {
    assert_eq!(
        expr("a || b && c"),
        Ok(bin(BinOp::Or, id("a"), bin(BinOp::And, id("b"), id("c"))))
    );
}

#[test]
fn calls_and_algorithm_references() {
    assert_eq!(
        expr("f(1, x)"),
        Ok(Expr::Call { is_alg: false, name: "f".to_string(), args: vec![n("1"), id("x")] })
    );
    assert_eq!(
        expr("@F(1)"),
        Ok(Expr::Call { is_alg: true, name: "F".to_string(), args: vec![n("1")] })
    );
    assert_eq!(
        expr("@F"),
        Ok(Expr::Call { is_alg: true, name: "F".to_string(), args: vec![] })
    );
    assert_eq!(
        expr("f()"),
        Ok(Expr::Call { is_alg: false, name: "f".to_string(), args: vec![] })
    );
}

#[test]
fn pipeline_collects_its_steps() {
    assert_eq!(
        expr("4 >> sqrt >> @F(2)"),
        Ok(Expr::Pipe {
            head: Box::new(n("4")),
            steps: vec![
                id("sqrt"),
                Expr::Call { is_alg: true, name: "F".to_string(), args: vec![n("2")] }
            ],
        })
    );
    assert_eq!(expr("4"), Ok(n("4")));
}

#[test]
fn case_with_arrow_and_question_arms() {
    assert_eq!(
        expr("[a -> 1; b ? 2; _ -> 3]"),
        Ok(Expr::Case {
            arms: vec![(id("a"), n("1")), (id("b"), n("2"))],
            default: Box::new(n("3")),
        })
    );
    assert_eq!(
        expr("[_ ? 3; a -> 1]"),
        Ok(Expr::Case { arms: vec![(id("a"), n("1"))], default: Box::new(n("3")) })
    );
}

#[test]
fn ternary_arm_gives_two_arms() {
    assert_eq!(
        expr("[c ? 1 | 2; _ -> 3]"),
        Ok(Expr::Case {
            arms: vec![
                (id("c"), n("1")),
                (Expr::Unary { op: UnOp::Not, expr: Box::new(id("c")) }, n("2")),
            ],
            default: Box::new(n("3")),
        })
    );
}

#[test]
fn case_needs_exactly_one_default() {
    let err = expr("[a -> 1]").unwrap_err();
    assert_eq!(err.message, "case block missing default '_' ? expr");
    assert_eq!(err.byte, 8);
    let err = expr("[_ -> 1; _ -> 2]").unwrap_err();
    assert_eq!(err.message, "case block has more than one default '_' arm");
    assert_eq!(err.byte, 9);
}

#[test]
fn arm_needs_a_result() {
    let err = expr("[a 1; _ -> 2]").unwrap_err();
    assert_eq!(err.message, "expected '?' or '->' after condition in case arm");
    assert_eq!(err.byte, 3);
    let err = expr("[_ 1]").unwrap_err();
    assert_eq!(err.message, "expected '?' or '->' after '_' in case arm");
    assert_eq!(err.byte, 3);
}

#[test]
fn definition_with_parameters() {
    let d = def("@Add(a, b) = a + b").unwrap();
    assert_eq!(d.name, "Add");
    assert_eq!(d.params, vec!["a".to_string(), "b".to_string()]);
    assert_eq!(d.body, bin(BinOp::Add, id("a"), id("b")));
    let d = def("@One() = 1").unwrap();
    assert_eq!(d.params, Vec::<String>::new());
}

#[test]
fn missing_operand_points_behind_the_operator() {
    let src = "@Add(a,b) = a +";
    let err = def(src).unwrap_err();
    assert_eq!(err.byte, 15);
    assert_eq!(err.message, "unexpected token in expression: None");
    let text = format_parse_error(&err, src);
    assert_eq!(
        text,
        "error: unexpected token in expression: None \n --> input:1:16\n  1 | @Add(a,b) = a +\n |                   ^ here"
    );
    let lines: Vec<&str> = text.lines().collect();
    let caret = lines[3].find('^').unwrap();
    let text_start = lines[2].find("@Add").unwrap();
    assert_eq!(caret - text_start, src.len());
}

#[test]
fn error_points_at_the_offending_token() {
    let err = expr("1 + )").unwrap_err();
    assert_eq!(err.byte, 4);
    assert_eq!(err.message, "unexpected token in expression: Some(RParen)");
    let err = def("@(a) = 1").unwrap_err();
    assert_eq!(err.byte, 1);
    assert_eq!(err.message, "expected identifier after '@', got Some(LParen)");
    let err = def("Add(a) = 1").unwrap_err();
    assert_eq!(err.byte, 0);
    assert_eq!(err.message, "expected At while parsing algorithm start '@'");
    let err = def("@Add(a = 1").unwrap_err();
    assert_eq!(err.byte, 7);
    assert_eq!(err.message, "expected RParen while parsing parameter list ')'");
    let err = expr("f(1").unwrap_err();
    assert_eq!(err.byte, 3);
    assert_eq!(err.message, "expected RParen while parsing closing ')' of call");
    let err = expr("(1").unwrap_err();
    assert_eq!(err.byte, 2);
    assert_eq!(err.message, "expected ')', got None");
}

#[test]
fn lexical_errors_fail_the_parse() {
    let err = expr("1 + #").unwrap_err();
    assert_eq!(err.byte, 4);
    assert_eq!(
        err.message,
        "unexpected token in expression: Some(Error(\"unexpected character '#'\"))"
    );
}

#[test]
fn only_names_can_be_called() {
    let err = expr("1(2)").unwrap_err();
    assert_eq!(err.message, "cannot call non-name expression");
    assert_eq!(err.byte, 4);
    let err = expr("f(1)(2) + 3").unwrap_err();
    assert_eq!(err.message, "cannot call non-name expression");
    assert_eq!(err.byte, 8);
}

#[test]
fn malformed_number_token_is_rejected() {
    let src = "1e5";
    let items = vec![span(Token::Number("1e5".to_string()), 0, 3)];
    let mut ts = Tokens::new_with_src(items, src);
    let err = parse_expr(&mut ts).unwrap_err();
    assert_eq!(err.message, "bad number literal: 1e5");
    assert_eq!(err.byte, 0);
}

#[test]
fn nesting_is_bounded() {
    let deep = format!("{}1{}", "(".repeat(100), ")".repeat(100));
    let err = expr(&deep).unwrap_err();
    assert_eq!(err.message, "expression nested too deeply");
    let fine = format!("{}1{}", "(".repeat(20), ")".repeat(20));
    assert_eq!(expr(&fine), Ok(n("1")));
    let minus = format!("{}1", "-".repeat(500));
    assert_eq!(expr(&minus).unwrap_err().message, "expression nested too deeply");
    let src = "(1)";
    let mut ts = Tokens::new_with_src(lex(src), src);
    let err = parse_expr_at(&mut ts, 1).unwrap_err();
    assert_eq!(err.message, "expression nested too deeply");
    assert_eq!(err.byte, 1);
}

#[test]
fn cursor_reads_in_order() {
    let src = "a b";
    let mut ts = Tokens::new_with_src(lex(src), src);
    assert_eq!(ts.peek(), Some(&Token::Ident("a".to_string())));
    assert_eq!(ts.next(), Some(Token::Ident("a".to_string())));
    assert!(!ts.eat(&Token::Comma));
    assert!(ts.eat(&Token::Ident("b".to_string())));
    assert_eq!(ts.peek(), None);
    assert_eq!(ts.next(), None);
    let e = ts.err_here("m");
    assert_eq!(e.byte, 3);
    assert!(ts.expect(&Token::Comma, "x").is_err());
}

#[test]
fn caret_message_counts_lines_and_columns() {
    let src = "ab\ncde\nf";
    assert_eq!(
        caret_message(src, 5, "m"),
        "error: m \n --> input:2:3\n  2 | cde\n |      ^ here"
    );
    assert_eq!(
        caret_message(src, 0, "m"),
        "error: m \n --> input:1:1\n  1 | ab\n |    ^ here"
    );
    assert_eq!(
        caret_message(src, 100, "m"),
        "error: m \n --> input:3:2\n  3 | f\n |     ^ here"
    );
    assert_eq!(
        caret_message("", 0, "m"),
        "error: m \n --> input:1:1\n  1 | \n |    ^ here"
    );
}

#[test]
fn caret_message_counts_columns_in_characters() {
    let src = "\u{e9}\u{e9} x";
    assert_eq!(
        caret_message(src, 5, "m"),
        "error: m \n --> input:1:4\n  1 | \u{e9}\u{e9} x\n |       ^ here"
    );
}

#[test]
fn failed_parse_leaves_the_cursor() {
    let src = "1 + 2 3 +";
    let mut ts = Tokens::new_with_src(lex(src), src);
    assert!(parse_expr(&mut ts).is_ok());
    assert_eq!(ts.position(), 3);
    assert!(parse_expr(&mut ts).is_err());
    assert_eq!(ts.position(), 3);
    ts.rewind(0);
    assert_eq!(ts.peek(), Some(&Token::Number("1".to_string())));
    assert!(parse_alg_def(&mut ts).is_err());
    assert_eq!(ts.position(), 0);
}

#[test]
fn every_comma_needs_a_parameter() {
    let err = def("@F(a,) = a").unwrap_err();
    assert_eq!(err.message, "expected parameter name after ',', got Some(RParen)");
    assert_eq!(err.byte, 5);
    let err = def("@F(a,,b) = a").unwrap_err();
    assert_eq!(err.message, "expected parameter name after ',', got Some(Comma)");
    assert_eq!(err.byte, 5);
    let err = def("@F(a,").unwrap_err();
    assert_eq!(err.message, "expected parameter name after ',', got None");
    assert_eq!(err.byte, 5);
    let err = def("@F(,a) = a").unwrap_err();
    assert_eq!(err.message, "expected RParen while parsing parameter list ')'");
    assert_eq!(err.byte, 3);
    let err = def("@F(a b) = a").unwrap_err();
    assert_eq!(err.message, "expected RParen while parsing parameter list ')'");
    assert_eq!(err.byte, 5);
    assert_eq!(def("@F(a, b, c) = a").unwrap().params, vec!["a", "b", "c"]);
}

#[test]
fn whole_input_must_be_read() {
    let src = "1 + 2 3";
    let mut ts = Tokens::new_with_src(lex(src), src);
    let err = parse_whole_expr(&mut ts).unwrap_err();
    assert_eq!(err.message, "unexpected token after the end: Some(Number(\"3\"))");
    assert_eq!(err.byte, 6);
    assert_eq!(ts.position(), 0);
    let src = "1 + 2";
    let mut ts = Tokens::new_with_src(lex(src), src);
    assert_eq!(parse_whole_expr(&mut ts), Ok(bin(BinOp::Add, n("1"), n("2"))));
    assert_eq!(ts.position(), 3);
    assert!(ts.expect_end().is_ok());
    let src = "@F(x) = x )";
    let mut ts = Tokens::new_with_src(lex(src), src);
    let err = parse_whole_alg_def(&mut ts).unwrap_err();
    assert_eq!(err.message, "unexpected token after the end: Some(RParen)");
    assert_eq!(err.byte, 10);
    assert_eq!(ts.position(), 0);
    let src = "@F(x) = x";
    let mut ts = Tokens::new_with_src(lex(src), src);
    assert_eq!(parse_whole_alg_def(&mut ts).unwrap().name, "F");
}
