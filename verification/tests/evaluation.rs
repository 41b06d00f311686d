use amlang::ast::{AlgorithmDef, Expr};
use amlang::eval::{eval_bounded, eval_expr, run_alg, Env, EvalError, Kind, Value, World};
use amlang::lexer::lex;
use amlang::number::{ArithOp, NumRequest, INFINITY_BITS, NAN_BITS};
use amlang::parser::{parse_alg_def, parse_expr, Tokens};

fn kernel(q: NumRequest) -> u64 {
    match q {
        NumRequest::Literal(s) => s.parse::<f64>().unwrap().to_bits(),
        NumRequest::Sqrt(a) => f64::from_bits(a).sqrt().to_bits(),
        NumRequest::Arith(op, a, b) => {
            let (x, y) = (f64::from_bits(a), f64::from_bits(b));
            let r = match op {
                ArithOp::Add => x + y,
                ArithOp::Sub => x - y,
                ArithOp::Mul => x * y,
                ArithOp::Div => x / y,
                ArithOp::Rem => x % y,
                ArithOp::Pow => x.powf(y),
            };
            r.to_bits()
        }
    }
}

fn expr(src: &str) -> Expr {
    let mut ts = Tokens::new_with_src(lex(src), src);
    parse_expr(&mut ts).expect("expression parses")
}

fn def(src: &str) -> AlgorithmDef {
    let mut ts = Tokens::new_with_src(lex(src), src);
    parse_alg_def(&mut ts).expect("definition parses")
}

fn eval_with(defs: &[AlgorithmDef], src: &str) -> Result<Value, EvalError> {
    let world = World::new(defs);
    eval_expr(&world, &Env::base(), &expr(src), &kernel)
}

fn eval(src: &str) -> Result<Value, EvalError> {
    eval_with(&[], src)
}

fn num(x: f64) -> Result<Value, EvalError> {
    Ok(Value::Number(x.to_bits()))
}

#[test]
fn precedence_of_product_over_sum() {
    assert_eq!(eval("1 + 2 * 3"), num(7.0));
}

#[test]
fn power_associates_to_the_right() {
    assert_eq!(eval("2 ^ 3 ^ 2"), num(512.0));
}

#[test]
fn minus_binds_tighter_than_power() {
    assert_eq!(eval("-2 ^ 2"), num(4.0));
}

#[test]
fn case_takes_first_matching_arm() {
    let defs = vec![def("@Sign(x) = [x>0 -> 1; x<0 -> -1; _ -> 0]")];
    assert_eq!(eval_with(&defs, "Sign(5)"), num(1.0));
    assert_eq!(eval_with(&defs, "Sign(-3)"), num(-1.0));
    assert_eq!(eval_with(&defs, "Sign(0)"), num(0.0));
}

#[test]
fn ternary_is_two_arms() {
    let sugar = expr("[x>0 ? 1 | -1; _ -> 0]");
    let plain = expr("[x>0 -> 1; !(x>0) -> -1; _ -> 0]");
    assert_eq!(sugar, plain);
    let defs = vec![
        def("@A(x) = [x>0 ? 1 | -1; _ -> 0]"),
        def("@B(x) = [x>0 -> 1; !(x>0) -> -1; _ -> 0]"),
    ];
    for x in [5.0f64, -3.0, 0.0, -0.0, f64::INFINITY, f64::NEG_INFINITY, f64::NAN, 1e-300] {
        let a = run_alg(&defs, "A", vec![x.to_bits()], &kernel);
        let b = run_alg(&defs, "B", vec![x.to_bits()], &kernel);
        assert_eq!(a, b);
        assert_eq!(a, num(if x > 0.0 { 1.0 } else { -1.0 }));
    }
}

#[test]
fn pipe_threads_the_value() {
    let piped = eval("4 >> sqrt >> sqrt");
    assert_eq!(piped, eval("sqrt(sqrt(4))"));
    assert_eq!(piped, num(1.4142135623730951));
}

#[test]
fn pipe_puts_the_value_before_written_arguments() {
    let defs = vec![def("@Sub(a, b) = a - b")];
    assert_eq!(eval_with(&defs, "10 >> @Sub(3)"), num(7.0));
    assert_eq!(eval_with(&defs, "10 >> Sub(3) >> Sub(1)"), num(6.0));
}

#[test]
fn nan_equals_nan() {
    assert_eq!(eval("NaN == NaN"), Ok(Value::Bool(true)));
    assert_eq!(eval("NaN != NaN"), Ok(Value::Bool(false)));
    assert_eq!(eval("NaN == 1"), Ok(Value::Bool(false)));
    assert_eq!(eval("NaN < 1"), Ok(Value::Bool(false)));
}

#[test]
fn constants_are_seeded() {
    assert_eq!(eval("inf"), Ok(Value::Number(INFINITY_BITS)));
    assert_eq!(eval("NaN"), Ok(Value::Number(NAN_BITS)));
    assert_eq!(INFINITY_BITS, f64::INFINITY.to_bits());
    assert!(f64::from_bits(NAN_BITS).is_nan());
    assert_eq!(eval("1 / 0 == inf"), Ok(Value::Bool(true)));
    assert_eq!(eval("-inf < inf"), Ok(Value::Bool(true)));
}

#[test]
fn redefinition_replaces() {
    let defs = vec![def("@F(x) = x + 1"), def("@F(x) = x * 2")];
    assert_eq!(eval_with(&defs, "F(3)"), num(6.0));
    assert_eq!(run_alg(&defs, "F", vec![3.0f64.to_bits()], &kernel), num(6.0));
}

#[test]
fn arity_mismatch_is_an_error() {
    let defs = vec![def("@Add(a, b) = a + b")];
    assert_eq!(
        eval_with(&defs, "Add(1)"),
        Err(EvalError::ArityMismatch { expected: 2, got: 1 })
    );
    assert_eq!(
        eval_with(&defs, "1 >> Add"),
        Err(EvalError::ArityMismatch { expected: 2, got: 1 })
    );
    assert_eq!(
        eval("sqrt(1, 2)"),
        Err(EvalError::ArityMismatch { expected: 1, got: 2 })
    );
    assert_eq!(
        run_alg(&defs, "Add", vec![1.0f64.to_bits()], &kernel),
        Err(EvalError::ArityMismatch { expected: 2, got: 1 })
    );
}

#[test]
fn evaluation_is_repeatable() {
    let defs = vec![def("@F(x) = [x > 1 -> x * F(x - 1); _ -> 1]")];
    let first = eval_with(&defs, "F(10) / 3 >> sqrt");
    let second = eval_with(&defs, "F(10) / 3 >> sqrt");
    assert_eq!(first, second);
    assert_eq!(first, num((3628800.0f64 / 3.0).sqrt()));
}

#[test]
fn unknown_names_are_errors() {
    assert_eq!(eval("x"), Err(EvalError::UnknownIdentifier("x".to_string())));
    assert_eq!(eval("@G(1)"), Err(EvalError::UnknownAlgorithm("G".to_string())));
    assert_eq!(eval("g(1)"), Err(EvalError::UnknownFunction("g".to_string())));
    assert_eq!(
        run_alg(&[], "G", vec![], &kernel),
        Err(EvalError::UnknownAlgorithm("G".to_string()))
    );
}

#[test]
fn kinds_are_checked() {
    assert_eq!(
        eval("true + 1"),
        Err(EvalError::KindMismatch { expected: Kind::Number, got: Value::Bool(true) })
    );
    assert_eq!(
        eval("1 && true"),
        Err(EvalError::KindMismatch { expected: Kind::Bool, got: Value::Number(1.0f64.to_bits()) })
    );
    assert_eq!(
        eval("!1"),
        Err(EvalError::KindMismatch { expected: Kind::Bool, got: Value::Number(1.0f64.to_bits()) })
    );
    assert_eq!(
        eval("-true"),
        Err(EvalError::KindMismatch { expected: Kind::Number, got: Value::Bool(true) })
    );
    assert_eq!(
        eval("true == true"),
        Err(EvalError::KindMismatch { expected: Kind::Number, got: Value::Bool(true) })
    );
    assert_eq!(
        eval("[1 -> 2; _ -> 3]"),
        Err(EvalError::KindMismatch { expected: Kind::Bool, got: Value::Number(1.0f64.to_bits()) })
    );
    assert_eq!(
        eval("abs(true)"),
        Err(EvalError::KindMismatch { expected: Kind::Number, got: Value::Bool(true) })
    );
}

#[test]
fn both_operands_of_logic_are_evaluated() {
    assert_eq!(eval("false && x"), Err(EvalError::UnknownIdentifier("x".to_string())));
    assert_eq!(eval("true || x"), Err(EvalError::UnknownIdentifier("x".to_string())));
    assert_eq!(eval("true && false || true"), Ok(Value::Bool(true)));
}

#[test]
fn arms_behind_the_match_are_not_evaluated() {
    assert_eq!(eval("[true -> 1; x -> 2; _ -> y]"), num(1.0));
    assert_eq!(eval("[false -> 1; _ -> 3]"), num(3.0));
}

#[test]
fn pipe_step_must_be_a_name_or_call() {
    assert_eq!(eval("4 >> 2"), Err(EvalError::BadPipeStep));
    assert_eq!(eval("4 >> (sqrt)"), eval("sqrt(4)"));
}

#[test]
fn frames_do_not_see_the_caller() {
    let defs = vec![def("@Inner() = x"), def("@Outer(x) = Inner()")];
    assert_eq!(
        eval_with(&defs, "Outer(1)"),
        Err(EvalError::UnknownIdentifier("x".to_string()))
    );
}

#[test]
fn constants_win_over_parameters_and_last_parameter_wins() {
    let defs = vec![def("@K(inf) = inf"), def("@D(a, a) = a")];
    assert_eq!(eval_with(&defs, "K(1)"), Ok(Value::Number(INFINITY_BITS)));
    assert_eq!(eval_with(&defs, "D(1, 2)"), num(2.0));
}

#[test]
fn arithmetic_follows_the_kernel() {
    assert_eq!(eval("7 % 3"), num(1.0));
    assert_eq!(eval("-7 % 3"), num(-1.0));
    assert_eq!(eval("2 ^ 0.5"), num(2.0f64.powf(0.5)));
    assert_eq!(eval("1 / 4"), num(0.25));
    assert_eq!(eval("0.1 + 0.2"), num(0.1 + 0.2));
    assert_eq!(eval("abs(-3.5)"), num(3.5));
    assert_eq!(eval("abs(3.5)"), num(3.5));
    assert_eq!(eval("- 0"), num(-0.0));
}

#[test]
fn comparisons_follow_the_numbers() {
    let values = [
        0.0f64,
        -0.0,
        1.0,
        -1.0,
        0.5,
        -0.5,
        1e300,
        -1e300,
        5e-324,
        -5e-324,
        f64::INFINITY,
        f64::NEG_INFINITY,
        f64::NAN,
        -f64::NAN,
    ];
    for &x in values.iter() {
        for &y in values.iter() {
            let (a, b) = (x.to_bits(), y.to_bits());
            assert_eq!(amlang::number::num_lt(a, b), x < y, "{x} < {y}");
            assert_eq!(amlang::number::num_le(a, b), x <= y, "{x} <= {y}");
            assert_eq!(
                amlang::number::num_eq(a, b),
                (x.is_nan() && y.is_nan()) || x == y,
                "{x} == {y}"
            );
        }
        assert_eq!(amlang::number::num_neg(x.to_bits()), (-x).to_bits());
        assert_eq!(amlang::number::num_abs(x.to_bits()), x.abs().to_bits());
        assert_eq!(amlang::number::is_nan(x.to_bits()), x.is_nan());
    }
}

#[test]
fn depth_is_bounded() {
    let defs = vec![def("@Loop(x) = Loop(x)")];
    assert_eq!(eval_with(&defs, "Loop(1)"), Err(EvalError::DepthExceeded));
    let world = World::new(&[]);
    let e = expr("1 + 2");
    assert_eq!(eval_bounded(&world, &Env::base(), &e, 1, &kernel), Err(EvalError::DepthExceeded));
    assert_eq!(eval_bounded(&world, &Env::base(), &e, 2, &kernel), num(3.0));
    assert_eq!(eval_bounded(&world, &Env::base(), &e, 0, &kernel), Err(EvalError::DepthExceeded));
}

#[test]
fn malformed_literal_in_a_tree_is_an_error() {
    let world = World::new(&[]);
    let e = Expr::Number("1e5".to_string());
    assert_eq!(
        eval_expr(&world, &Env::base(), &e, &kernel),
        Err(EvalError::BadNumber("1e5".to_string()))
    );
    let e = Expr::Number("12.".to_string());
    assert_eq!(eval_expr(&world, &Env::base(), &e, &kernel), num(12.0));
}

#[test]
fn frame_lookup() {
    let env = Env::with_params(
        &["a".to_string(), "b".to_string()],
        &[Value::Bool(true), Value::Number(2.0f64.to_bits())],
    )
    .unwrap();
    assert_eq!(env.get("a"), Some(Value::Bool(true)));
    assert_eq!(env.get("b"), Some(Value::Number(2.0f64.to_bits())));
    assert_eq!(env.get("c"), None);
    assert_eq!(env.get("inf"), Some(Value::Number(INFINITY_BITS)));
    assert!(Env::with_params(&["a".to_string()], &[]).is_err());
}

#[test]
fn long_sums_evaluate() {
    let terms = vec!["1"; 300].join(" + ");
    assert_eq!(eval(&terms), num(300.0));
    let too_long = vec!["1"; 600].join(" + ");
    assert_eq!(eval(&too_long), Err(EvalError::DepthExceeded));
}
