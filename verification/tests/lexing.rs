use amlang::lexer::lex;
use amlang::token::{TokSpan, Token};

fn kinds(src: &str) -> Vec<Token> {
    lex(src).into_iter().map(|t: TokSpan| t.tok).collect()
}

#[test]
fn lex_simple_definition() {
    let toks = kinds("@Add(a,b) = a + b");
    assert_eq!(
        toks,
        vec![
            Token::At,
            Token::Ident("Add".to_string()),
            Token::LParen,
            Token::Ident("a".to_string()),
            Token::Comma,
            Token::Ident("b".to_string()),
            Token::RParen,
            Token::Equal,
            Token::Ident("a".to_string()),
            Token::Plus,
            Token::Ident("b".to_string()),
        ]
    );
}

#[test]
fn lex_spans_are_byte_offsets() {
    let toks = lex("  ab >> 12.5");
    assert_eq!(toks.len(), 3);
    assert_eq!((toks[0].start, toks[0].end), (2, 4));
    assert_eq!((toks[1].start, toks[1].end), (5, 7));
    assert_eq!(toks[1].tok, Token::DblGt);
    assert_eq!((toks[2].start, toks[2].end), (8, 12));
    assert_eq!(toks[2].tok, Token::Number("12.5".to_string()));
}

#[test]
fn lex_two_character_operators_first() {
    assert_eq!(
        kinds("-> >> || && == != <= >="),
        vec![
            Token::Arrow,
            Token::DblGt,
            Token::DblPipe,
            Token::DblAmp,
            Token::EqEq,
            Token::Neq,
            Token::Le,
            Token::Ge
        ]
    );
    assert_eq!(kinds(">>>"), vec![Token::DblGt, Token::Gt]);
    assert_eq!(kinds("==="), vec![Token::EqEq, Token::Equal]);
}

#[test]
fn lex_single_characters() {
    assert_eq!(
        kinds("@()[],;_=|?!+-*/%<>^"),
        vec![
            Token::At,
            Token::LParen,
            Token::RParen,
            Token::LBracket,
            Token::RBracket,
            Token::Comma,
            Token::Semicolon,
            Token::Underscore,
            Token::Equal,
            Token::Pipe,
            Token::QMark,
            Token::Bang,
            Token::Plus,
            Token::Minus,
            Token::Star,
            Token::Slash,
            Token::Percent,
            Token::Lt,
            Token::Gt,
            Token::Caret,
        ]
    );
}

#[test]
fn lex_comments_are_skipped() {
    assert_eq!(kinds("1 // two\n3"), vec![Token::Number("1".into()), Token::Number("3".into())]);
    assert_eq!(
        kinds("1 /* a /* nested */ still */ 2"),
        vec![Token::Number("1".into()), Token::Number("2".into())]
    );
    assert_eq!(kinds("/* /* */ */"), Vec::<Token>::new());
    assert_eq!(kinds("1 /* never closed"), vec![Token::Number("1".into())]);
    assert_eq!(kinds("// only"), Vec::<Token>::new());
}

#[test]
fn lex_string_literals() {
    assert_eq!(kinds("\"a b\""), vec![Token::String("a b".into())]);
    assert_eq!(
        kinds(r#""q\"\\\n\t\r\x""#),
        vec![Token::String("q\"\\\n\t\rx".into())]
    );
    let toks = lex("x \"open");
    assert_eq!(toks.len(), 2);
    assert_eq!(toks[1].tok, Token::Error("unterminated string literal".into()));
    assert_eq!((toks[1].start, toks[1].end), (2, 7));
}

#[test]
fn lex_words_and_booleans() {
    assert_eq!(
        kinds("true false truth a_1 _x"),
        vec![
            Token::Bool(true),
            Token::Bool(false),
            Token::Ident("truth".into()),
            Token::Ident("a_1".into()),
            Token::Underscore,
            Token::Ident("x".into()),
        ]
    );
}

#[test]
fn lex_numbers() {
    assert_eq!(
        kinds("12 3.5 4. -1 1.2.3"),
        vec![
            Token::Number("12".into()),
            Token::Number("3.5".into()),
            Token::Number("4.".into()),
            Token::Minus,
            Token::Number("1".into()),
            Token::Number("1.2".into()),
            Token::Error("unexpected character '.'".into()),
            Token::Number("3".into()),
        ]
    );
}

#[test]
fn lex_unknown_bytes_are_error_tokens() {
    let toks = lex("a # b");
    assert_eq!(toks[1].tok, Token::Error("unexpected character '#'".into()));
    assert_eq!((toks[1].start, toks[1].end), (2, 3));
    let toks = lex("\u{e9}");
    assert_eq!(toks.len(), 2);
    assert_eq!(toks[0].tok, Token::Error("unexpected character '\u{c3}'".into()));
    assert_eq!(toks[1].tok, Token::Error("unexpected character '\u{a9}'".into()));
}

#[test]
fn lex_whitespace_is_skipped() {
    assert_eq!(kinds(" \t\r\n\u{c} "), Vec::<Token>::new());
    assert_eq!(kinds(""), Vec::<Token>::new());
}
