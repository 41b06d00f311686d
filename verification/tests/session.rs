use amlang::ast::{AlgorithmDef, Expr};
use amlang::error_handling::safe_parse;
use amlang::eval::{EvalError, Kind, Value};
use amlang::file_processor::{
    ast_text, execute_call, load_definitions, parse_all_defs, process_file, summary,
    FileProcessorConfig, Report,
};
use amlang::lexer::lex;
use amlang::normalize::normalize_unicode_to_ascii;
use amlang::number::{ArithOp, NumRequest};
use amlang::parser::{parse_alg_def, parse_expr, Tokens};
use amlang::registry::Registry;
use amlang::ast::signature;
use amlang::repl::{wants_exit, Repl, Reply, Turn};

fn kernel(q: NumRequest) -> u64 {
    match q {
        NumRequest::Literal(s) => s.parse::<f64>().unwrap().to_bits(),
        NumRequest::Sqrt(a) => f64::from_bits(a).sqrt().to_bits(),
        NumRequest::Arith(op, a, b) => {
            let (x, y) = (f64::from_bits(a), f64::from_bits(b));
            let r = match op {
                ArithOp::Add => x + y,
                ArithOp::Sub => x - y,
                ArithOp::Mul => x * y,
                ArithOp::Div => x / y,
                ArithOp::Rem => x % y,
                ArithOp::Pow => x.powf(y),
            };
            r.to_bits()
        }
    }
}

fn def(src: &str) -> AlgorithmDef {
    let mut ts = Tokens::new_with_src(lex(src), src);
    parse_alg_def(&mut ts).expect("definition parses")
}

fn expr(src: &str) -> Expr {
    let mut ts = Tokens::new_with_src(lex(src), src);
    parse_expr(&mut ts).expect("expression parses")
}

fn lines(text: &[&str]) -> Vec<String> {
    text.iter().map(|s| s.to_string()).collect()
}

#[test]
fn normalize_rewrites_symbols() {
    assert_eq!(
        normalize_unicode_to_ascii("a \u{2227} b \u{2228} \u{00AC}c"),
        "a && b || !c"
    );
    assert_eq!(
        normalize_unicode_to_ascii("x \u{2260} y \u{2264} z \u{2265} w \u{2261} v"),
        "x != y <= z >= w == v"
    );
    assert_eq!(
        normalize_unicode_to_ascii("c \u{2192} 1; d \u{21D2} 2"),
        "c -> 1; d -> 2"
    );
    assert_eq!(
        normalize_unicode_to_ascii("2 \u{2212} 3 \u{00D7} 4 \u{2217} 5 \u{00F7} 6"),
        "2 - 3 * 4 * 5 / 6"
    );
    assert_eq!(normalize_unicode_to_ascii("\u{221E}\u{00A0}x"), "inf x");
    assert_eq!(normalize_unicode_to_ascii("plain \u{e9} text"), "plain \u{e9} text");
    assert_eq!(normalize_unicode_to_ascii(""), "");
}

#[test]
fn registry_upsert_list_clear() {
    let mut r = Registry::new();
    assert_eq!(r.len(), 0);
    assert_eq!(r.current_version(), 0);
    r.upsert(def("@F(x) = x + 1"));
    assert_eq!(r.current_version(), 1);
    r.upsert(def("@G(x) = x"));
    r.upsert(def("@F(x) = x * 2"));
    assert_eq!(r.list(), lines(&["F", "G"]));
    assert_eq!(r.len(), 2);
    assert_eq!(r.definitions()[0], def("@F(x) = x * 2"));
    assert_eq!(r.world().lookup("F"), Some(&def("@F(x) = x * 2")));
    assert_eq!(r.world().lookup("H"), None);
    r.clear();
    assert_eq!(r.list(), Vec::<String>::new());
    assert_eq!(r.current_version(), 4);
}

#[test]
fn session_redefinition_replaces() {
    let mut repl = Repl::new();
    assert_eq!(
        repl.process_input("@F(x) = x + 1", &kernel),
        Reply::Lines(lines(&["Defined: F(x)"]))
    );
    assert_eq!(repl.process_input("F(3)", &kernel), Reply::Value(Value::Number(4.0f64.to_bits())));
    assert_eq!(
        repl.process_input("@F(x) = x * 2", &kernel),
        Reply::Lines(lines(&["Defined: F(x)"]))
    );
    assert_eq!(repl.process_input("F(3)", &kernel), Reply::Value(Value::Number(6.0f64.to_bits())));
    assert_eq!(repl.registry().len(), 1);
}

#[test]
fn session_commands() {
    let mut repl = Repl::new();
    assert_eq!(repl.handle_command("1 + 1"), None);
    assert_eq!(repl.handle_command(":list"), Some(lines(&["<no algorithms defined>"])));
    repl.process_input("@Add(a, b) = a + b", &kernel);
    repl.process_input("@One() = 1", &kernel);
    assert_eq!(repl.handle_command(":list"), Some(lines(&["Add(a, b)", "One()"])));
    assert_eq!(
        repl.handle_command(":help"),
        Some(lines(&[
            "Commands:",
            "  :help        show this help",
            "  :list        list defined algorithms",
            "  :reset       clear all definitions",
            "  exit, :q     quit",
        ]))
    );
    assert_eq!(repl.handle_command(":reset"), Some(lines(&["Definitions cleared."])));
    assert_eq!(repl.handle_command(":list"), Some(lines(&["<no algorithms defined>"])));
    assert!(wants_exit("exit") && wants_exit(":q") && wants_exit(":quit"));
    assert!(!wants_exit("quit") && !wants_exit(""));
}

#[test]
fn session_replies() {
    let mut repl = Repl::new();
    assert_eq!(repl.process_input("   ", &kernel), Reply::Silent);
    assert_eq!(repl.process_input("// note", &kernel), Reply::Silent);
    assert_eq!(repl.process_input("2 \u{00D7} 3", &kernel), Reply::Value(Value::Number(6.0f64.to_bits())));
    assert_eq!(repl.process_input("1 < 2", &kernel), Reply::Value(Value::Bool(true)));
    assert_eq!(
        repl.process_input("x", &kernel),
        Reply::EvalFailed(EvalError::UnknownIdentifier("x".to_string()))
    );
    assert_eq!(
        repl.process_input("1 +", &kernel),
        Reply::ParseFailed(
            "error: unexpected token in expression: None \n --> input:1:4\n  1 | 1 +\n |       ^ here"
                .to_string()
        )
    );
    assert_eq!(
        repl.process_input("@F(x = 1", &kernel),
        Reply::ParseFailed(
            "error: expected RParen while parsing parameter list ')' \n --> input:1:6\n  1 | @F(x = 1\n |         ^ here"
                .to_string()
        )
    );
    assert_eq!(repl.evaluate(&expr("1 + 1"), &kernel), Reply::Value(Value::Number(2.0f64.to_bits())));
}

#[test]
fn signature_joins_parameters() {
    assert_eq!(signature(&def("@F(a, b, c) = 1")), "F(a, b, c)");
    assert_eq!(signature(&def("@F() = 1")), "F()");
    assert_eq!(signature(&def("@F(a) = 1")), "F(a)");
}

#[test]
fn flags_are_read_in_order() {
    let mut c = FileProcessorConfig::new();
    assert_eq!(c, FileProcessorConfig { print_ast: false, call_expr: None });
    assert_eq!(c.parse_args(&lines(&["--ast", "--call", "F(1)"])), Ok(()));
    assert_eq!(c, FileProcessorConfig { print_ast: true, call_expr: Some("F(1)".to_string()) });
    let mut c = FileProcessorConfig::new();
    assert_eq!(c.parse_args(&lines(&["--call", "A", "--call", "B"])), Ok(()));
    assert_eq!(c.call_expr, Some("B".to_string()));
    let mut c = FileProcessorConfig::new();
    assert_eq!(
        c.parse_args(&lines(&["--call"])),
        Err("--call requires an expression, e.g. --call \"SafeDiv(1,0)\"".to_string())
    );
    assert_eq!(
        c.parse_args(&lines(&["--ast", "--nope", "--call", "x"])),
        Err("unknown flag: --nope".to_string())
    );
    assert_eq!(c, FileProcessorConfig { print_ast: true, call_expr: None });
    let mut c = FileProcessorConfig::new();
    assert_eq!(c.parse_single_arg(&lines(&["--ast"]), 0), Ok(1));
    assert_eq!(c.parse_call_arg(&lines(&["--call", "x"]), 0), Ok(2));
}

#[test]
fn definitions_of_a_source() {
    let src = "// two algorithms\n@Add(a,b) = a + b\n@Twice(x) = x >> Add(x)\n";
    let defs = load_definitions(src, "two.am").unwrap();
    assert_eq!(defs.len(), 2);
    assert_eq!(defs[1].name, "Twice");
    assert_eq!(
        load_definitions("1 + 1", "none.am"),
        Err("No algorithms found in none.am".to_string())
    );
    assert_eq!(
        load_definitions("@Add(a,b) = a +", "bad.am"),
        Err("error: unexpected token in expression: None \n --> input:1:16\n  1 | @Add(a,b) = a +\n |                   ^ here".to_string())
    );
    let mut ts = Tokens::new_with_src(lex(src), src);
    assert_eq!(parse_all_defs(&mut ts).unwrap().len(), 2);
}

#[test]
fn add_works() {
    let defs = load_definitions("@Add(a,b) = a + b\n", "examples/add.am").unwrap();
    let value = execute_call("Add(1,4)", &defs, &kernel).unwrap();
    assert_eq!(value, Value::Number(5.0f64.to_bits()));
    let shown = match value {
        Value::Number(bits) => format!("= {}", f64::from_bits(bits)),
        Value::Bool(b) => format!("= {}", b),
    };
    assert!(shown.trim().ends_with("= 5"));
}

#[test]
fn call_failures_are_messages() {
    let defs = load_definitions("@Add(a,b) = a + b\n", "add.am").unwrap();
    assert_eq!(
        execute_call("Add(1)", &defs, &kernel),
        Err("runtime error: argument count mismatch: expected 2, got 1".to_string())
    );
    assert_eq!(
        execute_call("Add(1,", &defs, &kernel),
        Err("error: unexpected token in expression: None \n --> input:1:7\n  1 | Add(1,\n |          ^ here".to_string())
    );
    assert_eq!(execute_call("1 \u{2264} 2", &defs, &kernel), Ok(Value::Bool(true)));
}

#[test]
fn error_messages() {
    assert_eq!(EvalError::UnknownIdentifier("x".into()).message(), "unknown identifier: x");
    assert_eq!(EvalError::UnknownAlgorithm("F".into()).message(), "unknown algorithm: F");
    assert_eq!(EvalError::UnknownFunction("f".into()).message(), "unknown function: f");
    assert_eq!(
        EvalError::ArityMismatch { expected: 12, got: 0 }.message(),
        "argument count mismatch: expected 12, got 0"
    );
    assert_eq!(
        EvalError::KindMismatch { expected: Kind::Number, got: Value::Bool(false) }.message(),
        "expected number, got Bool(false)"
    );
    assert_eq!(
        EvalError::KindMismatch { expected: Kind::Bool, got: Value::Number(0) }.message(),
        "expected bool, got a number"
    );
    assert_eq!(EvalError::BadPipeStep.message(), "pipeline step must be a call or name");
    assert_eq!(EvalError::BadNumber("1e".into()).message(), "bad number literal: 1e");
    assert_eq!(EvalError::DepthExceeded.message(), "evaluation nested too deeply");
}

#[test]
fn summary_lists_the_definitions() {
    let defs = load_definitions("@Add(a,b) = a + b\n@One() = 1", "p.am").unwrap();
    assert_eq!(
        summary(&defs, "p.am"),
        lines(&[
            "Loaded 2 algorithm(s):",
            "  Add(a, b)",
            "  One()",
            "Try:  cargo run -- p.am --call \"Add(1,0)\"",
        ])
    );
    assert_eq!(summary(&[], "p.am"), lines(&["Loaded 0 algorithm(s):"]));
}

#[test]
fn outline_of_definitions() {
    let defs = vec![def("@F(a,b) = [a > 0 ? f(a) | -b; _ -> a >> @G(1) >> h]")];
    let expected = "\
AlgorithmDef F(a,b)
body:
  Case
    Arm:
      Bin(Gt)
        Ident(a)
        Number(0)
    =>
      Call(is_alg=false, name=f)
        Ident(a)
    Arm:
      Unary(Not)
        Bin(Gt)
          Ident(a)
          Number(0)
    =>
      Unary(Neg)
        Ident(b)
    Default:
      Pipe
        Head:
          Ident(a)
        >> Step:
          Call(is_alg=true, name=G)
            Number(1)
        >> Step:
          Ident(h)
";
    assert_eq!(ast_text(&defs), expected);
    assert_eq!(amlang::ast::show_expr(&expr("true"), 0), "Bool(true)\n");
    assert_eq!(amlang::ast::show_expr(&expr("x"), 2), "    Ident(x)\n");
}

#[test]
fn safe_parse_renders_the_error() {
    let src = "1 + ";
    let mut ts = Tokens::new_with_src(lex(src), src);
    let r = safe_parse(|| parse_expr(&mut ts), src);
    assert_eq!(
        r,
        Err("error: unexpected token in expression: None \n --> input:1:4\n  1 | 1 + \n |       ^ here".to_string())
    );
    let src = "1 + 2";
    let mut ts = Tokens::new_with_src(lex(src), src);
    assert_eq!(safe_parse(|| parse_expr(&mut ts), src), Ok(expr("1 + 2")));
}

#[test]
fn session_steps() {
    let mut repl = Repl::new();
    assert_eq!(
        repl.step("@F(x) = x + 1", &kernel),
        Turn::Show(Reply::Lines(lines(&["Defined: F(x)"])))
    );
    assert_eq!(repl.step(":list", &kernel), Turn::Show(Reply::Lines(lines(&["F(x)"]))));
    assert_eq!(
        repl.step("F(1)", &kernel),
        Turn::Show(Reply::Value(Value::Number(2.0f64.to_bits())))
    );
    assert_eq!(repl.step(":q", &kernel), Turn::Quit);
    assert_eq!(repl.step("exit", &kernel), Turn::Quit);
    assert_eq!(
        repl.step(":reset", &kernel),
        Turn::Show(Reply::Lines(lines(&["Definitions cleared."])))
    );
    assert_eq!(
        repl.step("F(1)", &kernel),
        Turn::Show(Reply::EvalFailed(EvalError::UnknownFunction("F".to_string())))
    );
}

#[test]
fn file_reports() {
    let src = "@Add(a,b) = a + b\n";
    assert_eq!(
        process_file(src, "add.am", &lines(&["--call", "Add(1,4)"]), &kernel),
        Report {
            text: String::new(),
            value: Some(Value::Number(5.0f64.to_bits())),
            failure: None
        }
    );
    assert_eq!(
        process_file(src, "add.am", &[], &kernel),
        Report {
            text: "Loaded 1 algorithm(s):\n  Add(a, b)\nTry:  cargo run -- add.am --call \"Add(1,0)\"\n"
                .to_string(),
            value: None,
            failure: None
        }
    );
    assert_eq!(
        process_file(src, "add.am", &lines(&["--ast"]), &kernel),
        Report {
            text: "AlgorithmDef Add(a,b)\nbody:\n  Bin(Add)\n    Ident(a)\n    Ident(b)\n".to_string(),
            value: None,
            failure: None
        }
    );
    assert_eq!(
        process_file(src, "add.am", &lines(&["--ast", "--call", "Add(1)"]), &kernel),
        Report {
            text: "AlgorithmDef Add(a,b)\nbody:\n  Bin(Add)\n    Ident(a)\n    Ident(b)\n".to_string(),
            value: None,
            failure: Some("runtime error: argument count mismatch: expected 2, got 1".to_string())
        }
    );
    assert_eq!(
        process_file("", "empty.am", &lines(&["--bogus"]), &kernel),
        Report {
            text: String::new(),
            value: None,
            failure: Some("No algorithms found in empty.am".to_string())
        }
    );
    assert_eq!(
        process_file(src, "add.am", &lines(&["--bogus"]), &kernel),
        Report {
            text: String::new(),
            value: None,
            failure: Some("unknown flag: --bogus".to_string())
        }
    );
}

#[test]
fn session_runs_a_transcript() {
    let mut repl = Repl::new();
    let (replies, ended) = repl.run(
        &lines(&["@F(x) = x + 1", "", "F(2)", ":q", "F(3)"]),
        &kernel,
    );
    assert!(ended);
    assert_eq!(
        replies,
        vec![
            Reply::Lines(lines(&["Defined: F(x)"])),
            Reply::Silent,
            Reply::Value(Value::Number(3.0f64.to_bits())),
        ]
    );
    let (replies, ended) = repl.run(&lines(&["F(3)"]), &kernel);
    assert!(!ended);
    assert_eq!(replies, vec![Reply::Value(Value::Number(4.0f64.to_bits()))]);
}

#[test]
fn tokens_left_over_are_errors() {
    let mut repl = Repl::new();
    assert_eq!(
        repl.process_input("1 2", &kernel),
        Reply::ParseFailed(
            "error: unexpected token after the end: Some(Number(\"2\")) \n --> input:1:3\n  1 | 1 2\n |      ^ here"
                .to_string()
        )
    );
    assert_eq!(
        repl.process_input("1 < 2 < 3", &kernel),
        Reply::ParseFailed(
            "error: comparison operators do not chain \n --> input:1:7\n  1 | 1 < 2 < 3\n |          ^ here"
                .to_string()
        )
    );
    assert!(matches!(repl.process_input("@F(x) = x y", &kernel), Reply::ParseFailed(_)));
    assert_eq!(repl.registry().len(), 0);
    assert!(matches!(repl.process_input("@F(x,) = x", &kernel), Reply::ParseFailed(_)));
    assert_eq!(repl.registry().len(), 0);
    let defs = load_definitions("@Add(a,b) = a + b\n", "add.am").unwrap();
    assert_eq!(
        execute_call("Add(1,4) 5", &defs, &kernel),
        Err("error: unexpected token after the end: Some(Number(\"5\")) \n --> input:1:10\n  1 | Add(1,4) 5\n |             ^ here".to_string())
    );
    assert_eq!(
        load_definitions("@A(x) = x\n1 + 1", "a.am"),
        Err("error: unexpected token after the end: Some(Number(\"1\")) \n --> input:2:1\n  2 | 1 + 1\n |    ^ here".to_string())
    );
}
