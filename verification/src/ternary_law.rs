//! The two spellings of a conditional arm, followed from the text to the
//! value: `[x>0 ? 1 | -1; _ -> 0]` and `[x>0 -> 1; !(x>0) -> -1; _ -> 0]` are
//! the same tree, and its value is one of the two results for every number
//! `x`, never the default.

use crate::ast::{BinOp, ExprView, UnOp};
use crate::eval::{eval_spec, frame, Context, EvalErrorView, Value, MAX_DEPTH};
use crate::eval_laws::law_ternary_is_conditional;
use crate::lexer::{
    digit, ident_continue, ident_start, lemma_lex_from_step, lex_from, lex_spec, number_end,
    number_literal, one_char_token, run_end, two_char_token, whitespace, word_token,
};
use crate::number::{num_lt_spec, num_neg_spec, NumRequestView};
use crate::parser::{
    binary_rest_spec, binary_spec, calls_spec, case_arms_spec, case_spec, comparison_op,
    comparison_spec, conditional_arm_spec, default_arm_spec, expr_spec, level_op, operand_spec,
    postfix_spec, primary_spec, question_arm_spec, to_the_end, tok_at, unary_spec, Level,
    ParseErrorView, MAX_NESTING,
};
use crate::text::byte_chars;
use crate::token::{TokSpanView, TokenView};
use vstd::prelude::*;
use vstd::utf8::*;

verus! {

/// A space gives no token.
pub proof fn lemma_skip_space(bytes: Seq<u8>, i: int)
    requires
        0 <= i < bytes.len(),
        bytes[i] == 0x20,
    ensures
        lex_from(bytes, i) == lex_from(bytes, i + 1),
{
    lemma_lex_from_step(bytes, i);
}

/// A character that spells a token alone, and none together with the next,
/// gives that token.
pub proof fn lemma_one_char(bytes: Seq<u8>, i: int, t: TokenView)
    requires
        0 <= i < bytes.len(),
        !whitespace(bytes[i]),
        one_char_token(bytes[i] as char) == Some(t),
        i + 1 < bytes.len() ==> two_char_token(bytes[i] as char, bytes[i + 1] as char) is None,
        i + 1 < bytes.len() ==> !(bytes[i] as char == '/' && (bytes[i + 1] as char == '/'
            || bytes[i + 1] as char == '*')),
    ensures
        lex_from(bytes, i) == seq![TokSpanView { tok: t, start: i, end: i + 1 }] + lex_from(
            bytes,
            i + 1,
        ),
{
    lemma_lex_from_step(bytes, i);
}

/// Two characters that spell an operator together give that operator.
pub proof fn lemma_two_char(bytes: Seq<u8>, i: int, t: TokenView)
    requires
        0 <= i,
        i + 1 < bytes.len(),
        !whitespace(bytes[i]),
        two_char_token(bytes[i] as char, bytes[i + 1] as char) == Some(t),
    ensures
        lex_from(bytes, i) == seq![TokSpanView { tok: t, start: i, end: i + 2 }] + lex_from(
            bytes,
            i + 2,
        ),
{
    lemma_lex_from_step(bytes, i);
}

/// A letter that no letter, digit or `_` follows gives an identifier of that
/// letter.
pub proof fn lemma_short_word(bytes: Seq<u8>, i: int)
    requires
        0 <= i < bytes.len(),
        ident_start(bytes[i] as char),
        bytes[i] as char != '_',
        i + 1 < bytes.len() ==> !ident_continue(bytes[i + 1] as char),
    ensures
        lex_from(bytes, i) == seq![
            TokSpanView { tok: TokenView::Ident(seq![bytes[i] as char]), start: i, end: i + 1 },
        ] + lex_from(bytes, i + 1),
{
    lemma_lex_from_step(bytes, i);
    reveal_strlit("true");
    reveal_strlit("false");
    let text = byte_chars(bytes.subrange(i, i + 1));
    assert(text =~= seq![bytes[i] as char]);
    assert(run_end(bytes, i + 1, |c: char| ident_continue(c)) == i + 1);
    assert(word_token(text) == TokenView::Ident(text));
}

/// A digit that neither a digit nor `.` follows gives a number of that digit.
pub proof fn lemma_short_number(bytes: Seq<u8>, i: int)
    requires
        0 <= i < bytes.len(),
        digit(bytes[i] as char),
        i + 1 < bytes.len() ==> !digit(bytes[i + 1] as char) && bytes[i + 1] as char != '.',
    ensures
        lex_from(bytes, i) == seq![
            TokSpanView { tok: TokenView::Number(seq![bytes[i] as char]), start: i, end: i + 1 },
        ] + lex_from(bytes, i + 1),
{
    lemma_lex_from_step(bytes, i);
    let text = byte_chars(bytes.subrange(i, i + 1));
    assert(text =~= seq![bytes[i] as char]);
    assert(run_end(bytes, i + 1, |c: char| digit(c)) == i + 1);
    assert(number_end(bytes, i) == i + 1);
}

/// The text of the arm with `?` and `|`.
pub open spec fn sugar_text() -> Seq<char> {
    "[x>0 ? 1 | -1; _ -> 0]"@
}

/// The text of the two arms with `->`.
pub open spec fn plain_text() -> Seq<char> {
    "[x>0 -> 1; !(x>0) -> -1; _ -> 0]"@
}

/// The tokens of the text of [`sugar_text`].
pub open spec fn sugar_tokens() -> Seq<TokSpanView> {
    seq![
        TokSpanView { tok: TokenView::LBracket, start: 0, end: 1 },
        TokSpanView { tok: TokenView::Ident(seq!['x']), start: 1, end: 2 },
        TokSpanView { tok: TokenView::Gt, start: 2, end: 3 },
        TokSpanView { tok: TokenView::Number(seq!['0']), start: 3, end: 4 },
        TokSpanView { tok: TokenView::QMark, start: 5, end: 6 },
        TokSpanView { tok: TokenView::Number(seq!['1']), start: 7, end: 8 },
        TokSpanView { tok: TokenView::Pipe, start: 9, end: 10 },
        TokSpanView { tok: TokenView::Minus, start: 11, end: 12 },
        TokSpanView { tok: TokenView::Number(seq!['1']), start: 12, end: 13 },
        TokSpanView { tok: TokenView::Semicolon, start: 13, end: 14 },
        TokSpanView { tok: TokenView::Underscore, start: 15, end: 16 },
        TokSpanView { tok: TokenView::Arrow, start: 17, end: 19 },
        TokSpanView { tok: TokenView::Number(seq!['0']), start: 20, end: 21 },
        TokSpanView { tok: TokenView::RBracket, start: 21, end: 22 },
    ]
}

/// The bytes of the text of [`sugar_text`] are its characters.
proof fn lemma_sugar_bytes()
    ensures
        encode_utf8(sugar_text()).len() == 22,
        forall|i: int| 0 <= i < 22 ==> (#[trigger] encode_utf8(sugar_text())[i]) == sugar_text()[i] as u8,
        sugar_text()[0] == '[',
        sugar_text()[1] == 'x',
        sugar_text()[2] == '>',
        sugar_text()[3] == '0',
        sugar_text()[4] == ' ',
        sugar_text()[5] == '?',
        sugar_text()[6] == ' ',
        sugar_text()[7] == '1',
        sugar_text()[8] == ' ',
        sugar_text()[9] == '|',
        sugar_text()[10] == ' ',
        sugar_text()[11] == '-',
        sugar_text()[12] == '1',
        sugar_text()[13] == ';',
        sugar_text()[14] == ' ',
        sugar_text()[15] == '_',
        sugar_text()[16] == ' ',
        sugar_text()[17] == '-',
        sugar_text()[18] == '>',
        sugar_text()[19] == ' ',
        sugar_text()[20] == '0',
        sugar_text()[21] == ']',
{
    reveal_strlit("[x>0 ? 1 | -1; _ -> 0]");
    let s = sugar_text();
    assert(s.len() == 22);
    assert(s[0] == '[');
    assert(s[1] == 'x');
    assert(s[2] == '>');
    assert(s[3] == '0');
    assert(s[4] == ' ');
    assert(s[5] == '?');
    assert(s[6] == ' ');
    assert(s[7] == '1');
    assert(s[8] == ' ');
    assert(s[9] == '|');
    assert(s[10] == ' ');
    assert(s[11] == '-');
    assert(s[12] == '1');
    assert(s[13] == ';');
    assert(s[14] == ' ');
    assert(s[15] == '_');
    assert(s[16] == ' ');
    assert(s[17] == '-');
    assert(s[18] == '>');
    assert(s[19] == ' ');
    assert(s[20] == '0');
    assert(s[21] == ']');
    assert(is_ascii_chars(s)) by {
        assert forall|i: int| 0 <= i < s.len() implies '\0' <= #[trigger] s[i] <= '\u{7f}' by {
            if i == 0 {
            } else if i == 1 {
            } else if i == 2 {
            } else if i == 3 {
            } else if i == 4 {
            } else if i == 5 {
            } else if i == 6 {
            } else if i == 7 {
            } else if i == 8 {
            } else if i == 9 {
            } else if i == 10 {
            } else if i == 11 {
            } else if i == 12 {
            } else if i == 13 {
            } else if i == 14 {
            } else if i == 15 {
            } else if i == 16 {
            } else if i == 17 {
            } else if i == 18 {
            } else if i == 19 {
            } else if i == 20 {
            } else if i == 21 {
            }
        }
    }
    is_ascii_chars_encode_utf8(s);
}

/// Lexing the text of [`sugar_text`] gives [`sugar_tokens`].
pub proof fn lemma_sugar_lexes()
    ensures
        lex_spec(encode_utf8(sugar_text())) == sugar_tokens(),
{
    lemma_sugar_bytes();
    let b = encode_utf8(sugar_text());
    assert(b[0] == 91u8);
    assert(b[1] == 120u8);
    assert(b[2] == 62u8);
    assert(b[3] == 48u8);
    assert(b[4] == 32u8);
    assert(b[5] == 63u8);
    assert(b[6] == 32u8);
    assert(b[7] == 49u8);
    assert(b[8] == 32u8);
    assert(b[9] == 124u8);
    assert(b[10] == 32u8);
    assert(b[11] == 45u8);
    assert(b[12] == 49u8);
    assert(b[13] == 59u8);
    assert(b[14] == 32u8);
    assert(b[15] == 95u8);
    assert(b[16] == 32u8);
    assert(b[17] == 45u8);
    assert(b[18] == 62u8);
    assert(b[19] == 32u8);
    assert(b[20] == 48u8);
    assert(b[21] == 93u8);
    assert(lex_from(b, 22) =~= Seq::<TokSpanView>::empty());
    lemma_one_char(b, 21, TokenView::RBracket);
    assert(lex_from(b, 21) =~= seq![
        TokSpanView { tok: TokenView::RBracket, start: 21, end: 22 },
    ]);
    lemma_short_number(b, 20);
    assert(lex_from(b, 20) =~= seq![
        TokSpanView { tok: TokenView::Number(seq!['0']), start: 20, end: 21 },
        TokSpanView { tok: TokenView::RBracket, start: 21, end: 22 },
    ]);
    lemma_skip_space(b, 19);
    lemma_two_char(b, 17, TokenView::Arrow);
    assert(lex_from(b, 17) =~= seq![
        TokSpanView { tok: TokenView::Arrow, start: 17, end: 19 },
        TokSpanView { tok: TokenView::Number(seq!['0']), start: 20, end: 21 },
        TokSpanView { tok: TokenView::RBracket, start: 21, end: 22 },
    ]);
    lemma_skip_space(b, 16);
    lemma_one_char(b, 15, TokenView::Underscore);
    assert(lex_from(b, 15) =~= seq![
        TokSpanView { tok: TokenView::Underscore, start: 15, end: 16 },
        TokSpanView { tok: TokenView::Arrow, start: 17, end: 19 },
        TokSpanView { tok: TokenView::Number(seq!['0']), start: 20, end: 21 },
        TokSpanView { tok: TokenView::RBracket, start: 21, end: 22 },
    ]);
    lemma_skip_space(b, 14);
    lemma_one_char(b, 13, TokenView::Semicolon);
    assert(lex_from(b, 13) =~= seq![
        TokSpanView { tok: TokenView::Semicolon, start: 13, end: 14 },
        TokSpanView { tok: TokenView::Underscore, start: 15, end: 16 },
        TokSpanView { tok: TokenView::Arrow, start: 17, end: 19 },
        TokSpanView { tok: TokenView::Number(seq!['0']), start: 20, end: 21 },
        TokSpanView { tok: TokenView::RBracket, start: 21, end: 22 },
    ]);
    lemma_short_number(b, 12);
    assert(lex_from(b, 12) =~= seq![
        TokSpanView { tok: TokenView::Number(seq!['1']), start: 12, end: 13 },
        TokSpanView { tok: TokenView::Semicolon, start: 13, end: 14 },
        TokSpanView { tok: TokenView::Underscore, start: 15, end: 16 },
        TokSpanView { tok: TokenView::Arrow, start: 17, end: 19 },
        TokSpanView { tok: TokenView::Number(seq!['0']), start: 20, end: 21 },
        TokSpanView { tok: TokenView::RBracket, start: 21, end: 22 },
    ]);
    lemma_one_char(b, 11, TokenView::Minus);
    assert(lex_from(b, 11) =~= seq![
        TokSpanView { tok: TokenView::Minus, start: 11, end: 12 },
        TokSpanView { tok: TokenView::Number(seq!['1']), start: 12, end: 13 },
        TokSpanView { tok: TokenView::Semicolon, start: 13, end: 14 },
        TokSpanView { tok: TokenView::Underscore, start: 15, end: 16 },
        TokSpanView { tok: TokenView::Arrow, start: 17, end: 19 },
        TokSpanView { tok: TokenView::Number(seq!['0']), start: 20, end: 21 },
        TokSpanView { tok: TokenView::RBracket, start: 21, end: 22 },
    ]);
    lemma_skip_space(b, 10);
    lemma_one_char(b, 9, TokenView::Pipe);
    assert(lex_from(b, 9) =~= seq![
        TokSpanView { tok: TokenView::Pipe, start: 9, end: 10 },
        TokSpanView { tok: TokenView::Minus, start: 11, end: 12 },
        TokSpanView { tok: TokenView::Number(seq!['1']), start: 12, end: 13 },
        TokSpanView { tok: TokenView::Semicolon, start: 13, end: 14 },
        TokSpanView { tok: TokenView::Underscore, start: 15, end: 16 },
        TokSpanView { tok: TokenView::Arrow, start: 17, end: 19 },
        TokSpanView { tok: TokenView::Number(seq!['0']), start: 20, end: 21 },
        TokSpanView { tok: TokenView::RBracket, start: 21, end: 22 },
    ]);
    lemma_skip_space(b, 8);
    lemma_short_number(b, 7);
    assert(lex_from(b, 7) =~= seq![
        TokSpanView { tok: TokenView::Number(seq!['1']), start: 7, end: 8 },
        TokSpanView { tok: TokenView::Pipe, start: 9, end: 10 },
        TokSpanView { tok: TokenView::Minus, start: 11, end: 12 },
        TokSpanView { tok: TokenView::Number(seq!['1']), start: 12, end: 13 },
        TokSpanView { tok: TokenView::Semicolon, start: 13, end: 14 },
        TokSpanView { tok: TokenView::Underscore, start: 15, end: 16 },
        TokSpanView { tok: TokenView::Arrow, start: 17, end: 19 },
        TokSpanView { tok: TokenView::Number(seq!['0']), start: 20, end: 21 },
        TokSpanView { tok: TokenView::RBracket, start: 21, end: 22 },
    ]);
    lemma_skip_space(b, 6);
    lemma_one_char(b, 5, TokenView::QMark);
    assert(lex_from(b, 5) =~= seq![
        TokSpanView { tok: TokenView::QMark, start: 5, end: 6 },
        TokSpanView { tok: TokenView::Number(seq!['1']), start: 7, end: 8 },
        TokSpanView { tok: TokenView::Pipe, start: 9, end: 10 },
        TokSpanView { tok: TokenView::Minus, start: 11, end: 12 },
        TokSpanView { tok: TokenView::Number(seq!['1']), start: 12, end: 13 },
        TokSpanView { tok: TokenView::Semicolon, start: 13, end: 14 },
        TokSpanView { tok: TokenView::Underscore, start: 15, end: 16 },
        TokSpanView { tok: TokenView::Arrow, start: 17, end: 19 },
        TokSpanView { tok: TokenView::Number(seq!['0']), start: 20, end: 21 },
        TokSpanView { tok: TokenView::RBracket, start: 21, end: 22 },
    ]);
    lemma_skip_space(b, 4);
    lemma_short_number(b, 3);
    assert(lex_from(b, 3) =~= seq![
        TokSpanView { tok: TokenView::Number(seq!['0']), start: 3, end: 4 },
        TokSpanView { tok: TokenView::QMark, start: 5, end: 6 },
        TokSpanView { tok: TokenView::Number(seq!['1']), start: 7, end: 8 },
        TokSpanView { tok: TokenView::Pipe, start: 9, end: 10 },
        TokSpanView { tok: TokenView::Minus, start: 11, end: 12 },
        TokSpanView { tok: TokenView::Number(seq!['1']), start: 12, end: 13 },
        TokSpanView { tok: TokenView::Semicolon, start: 13, end: 14 },
        TokSpanView { tok: TokenView::Underscore, start: 15, end: 16 },
        TokSpanView { tok: TokenView::Arrow, start: 17, end: 19 },
        TokSpanView { tok: TokenView::Number(seq!['0']), start: 20, end: 21 },
        TokSpanView { tok: TokenView::RBracket, start: 21, end: 22 },
    ]);
    lemma_one_char(b, 2, TokenView::Gt);
    assert(lex_from(b, 2) =~= seq![
        TokSpanView { tok: TokenView::Gt, start: 2, end: 3 },
        TokSpanView { tok: TokenView::Number(seq!['0']), start: 3, end: 4 },
        TokSpanView { tok: TokenView::QMark, start: 5, end: 6 },
        TokSpanView { tok: TokenView::Number(seq!['1']), start: 7, end: 8 },
        TokSpanView { tok: TokenView::Pipe, start: 9, end: 10 },
        TokSpanView { tok: TokenView::Minus, start: 11, end: 12 },
        TokSpanView { tok: TokenView::Number(seq!['1']), start: 12, end: 13 },
        TokSpanView { tok: TokenView::Semicolon, start: 13, end: 14 },
        TokSpanView { tok: TokenView::Underscore, start: 15, end: 16 },
        TokSpanView { tok: TokenView::Arrow, start: 17, end: 19 },
        TokSpanView { tok: TokenView::Number(seq!['0']), start: 20, end: 21 },
        TokSpanView { tok: TokenView::RBracket, start: 21, end: 22 },
    ]);
    lemma_short_word(b, 1);
    assert(lex_from(b, 1) =~= seq![
        TokSpanView { tok: TokenView::Ident(seq!['x']), start: 1, end: 2 },
        TokSpanView { tok: TokenView::Gt, start: 2, end: 3 },
        TokSpanView { tok: TokenView::Number(seq!['0']), start: 3, end: 4 },
        TokSpanView { tok: TokenView::QMark, start: 5, end: 6 },
        TokSpanView { tok: TokenView::Number(seq!['1']), start: 7, end: 8 },
        TokSpanView { tok: TokenView::Pipe, start: 9, end: 10 },
        TokSpanView { tok: TokenView::Minus, start: 11, end: 12 },
        TokSpanView { tok: TokenView::Number(seq!['1']), start: 12, end: 13 },
        TokSpanView { tok: TokenView::Semicolon, start: 13, end: 14 },
        TokSpanView { tok: TokenView::Underscore, start: 15, end: 16 },
        TokSpanView { tok: TokenView::Arrow, start: 17, end: 19 },
        TokSpanView { tok: TokenView::Number(seq!['0']), start: 20, end: 21 },
        TokSpanView { tok: TokenView::RBracket, start: 21, end: 22 },
    ]);
    lemma_one_char(b, 0, TokenView::LBracket);
    assert(lex_from(b, 0) =~= seq![
        TokSpanView { tok: TokenView::LBracket, start: 0, end: 1 },
        TokSpanView { tok: TokenView::Ident(seq!['x']), start: 1, end: 2 },
        TokSpanView { tok: TokenView::Gt, start: 2, end: 3 },
        TokSpanView { tok: TokenView::Number(seq!['0']), start: 3, end: 4 },
        TokSpanView { tok: TokenView::QMark, start: 5, end: 6 },
        TokSpanView { tok: TokenView::Number(seq!['1']), start: 7, end: 8 },
        TokSpanView { tok: TokenView::Pipe, start: 9, end: 10 },
        TokSpanView { tok: TokenView::Minus, start: 11, end: 12 },
        TokSpanView { tok: TokenView::Number(seq!['1']), start: 12, end: 13 },
        TokSpanView { tok: TokenView::Semicolon, start: 13, end: 14 },
        TokSpanView { tok: TokenView::Underscore, start: 15, end: 16 },
        TokSpanView { tok: TokenView::Arrow, start: 17, end: 19 },
        TokSpanView { tok: TokenView::Number(seq!['0']), start: 20, end: 21 },
        TokSpanView { tok: TokenView::RBracket, start: 21, end: 22 },
    ]);
}

/// The tokens of the text of [`plain_text`].
pub open spec fn plain_tokens() -> Seq<TokSpanView> {
    seq![
        TokSpanView { tok: TokenView::LBracket, start: 0, end: 1 },
        TokSpanView { tok: TokenView::Ident(seq!['x']), start: 1, end: 2 },
        TokSpanView { tok: TokenView::Gt, start: 2, end: 3 },
        TokSpanView { tok: TokenView::Number(seq!['0']), start: 3, end: 4 },
        TokSpanView { tok: TokenView::Arrow, start: 5, end: 7 },
        TokSpanView { tok: TokenView::Number(seq!['1']), start: 8, end: 9 },
        TokSpanView { tok: TokenView::Semicolon, start: 9, end: 10 },
        TokSpanView { tok: TokenView::Bang, start: 11, end: 12 },
        TokSpanView { tok: TokenView::LParen, start: 12, end: 13 },
        TokSpanView { tok: TokenView::Ident(seq!['x']), start: 13, end: 14 },
        TokSpanView { tok: TokenView::Gt, start: 14, end: 15 },
        TokSpanView { tok: TokenView::Number(seq!['0']), start: 15, end: 16 },
        TokSpanView { tok: TokenView::RParen, start: 16, end: 17 },
        TokSpanView { tok: TokenView::Arrow, start: 18, end: 20 },
        TokSpanView { tok: TokenView::Minus, start: 21, end: 22 },
        TokSpanView { tok: TokenView::Number(seq!['1']), start: 22, end: 23 },
        TokSpanView { tok: TokenView::Semicolon, start: 23, end: 24 },
        TokSpanView { tok: TokenView::Underscore, start: 25, end: 26 },
        TokSpanView { tok: TokenView::Arrow, start: 27, end: 29 },
        TokSpanView { tok: TokenView::Number(seq!['0']), start: 30, end: 31 },
        TokSpanView { tok: TokenView::RBracket, start: 31, end: 32 },
    ]
}

/// The bytes of the text of [`plain_text`] are its characters.
proof fn lemma_plain_bytes()
    ensures
        encode_utf8(plain_text()).len() == 32,
        forall|i: int| 0 <= i < 32 ==> (#[trigger] encode_utf8(plain_text())[i]) == plain_text()[i] as u8,
        plain_text()[0] == '[',
        plain_text()[1] == 'x',
        plain_text()[2] == '>',
        plain_text()[3] == '0',
        plain_text()[4] == ' ',
        plain_text()[5] == '-',
        plain_text()[6] == '>',
        plain_text()[7] == ' ',
        plain_text()[8] == '1',
        plain_text()[9] == ';',
        plain_text()[10] == ' ',
        plain_text()[11] == '!',
        plain_text()[12] == '(',
        plain_text()[13] == 'x',
        plain_text()[14] == '>',
        plain_text()[15] == '0',
        plain_text()[16] == ')',
        plain_text()[17] == ' ',
        plain_text()[18] == '-',
        plain_text()[19] == '>',
        plain_text()[20] == ' ',
        plain_text()[21] == '-',
        plain_text()[22] == '1',
        plain_text()[23] == ';',
        plain_text()[24] == ' ',
        plain_text()[25] == '_',
        plain_text()[26] == ' ',
        plain_text()[27] == '-',
        plain_text()[28] == '>',
        plain_text()[29] == ' ',
        plain_text()[30] == '0',
        plain_text()[31] == ']',
{
    reveal_strlit("[x>0 -> 1; !(x>0) -> -1; _ -> 0]");
    let s = plain_text();
    assert(s.len() == 32);
    assert(s[0] == '[');
    assert(s[1] == 'x');
    assert(s[2] == '>');
    assert(s[3] == '0');
    assert(s[4] == ' ');
    assert(s[5] == '-');
    assert(s[6] == '>');
    assert(s[7] == ' ');
    assert(s[8] == '1');
    assert(s[9] == ';');
    assert(s[10] == ' ');
    assert(s[11] == '!');
    assert(s[12] == '(');
    assert(s[13] == 'x');
    assert(s[14] == '>');
    assert(s[15] == '0');
    assert(s[16] == ')');
    assert(s[17] == ' ');
    assert(s[18] == '-');
    assert(s[19] == '>');
    assert(s[20] == ' ');
    assert(s[21] == '-');
    assert(s[22] == '1');
    assert(s[23] == ';');
    assert(s[24] == ' ');
    assert(s[25] == '_');
    assert(s[26] == ' ');
    assert(s[27] == '-');
    assert(s[28] == '>');
    assert(s[29] == ' ');
    assert(s[30] == '0');
    assert(s[31] == ']');
    assert(is_ascii_chars(s)) by {
        assert forall|i: int| 0 <= i < s.len() implies '\0' <= #[trigger] s[i] <= '\u{7f}' by {
            if i == 0 {
            } else if i == 1 {
            } else if i == 2 {
            } else if i == 3 {
            } else if i == 4 {
            } else if i == 5 {
            } else if i == 6 {
            } else if i == 7 {
            } else if i == 8 {
            } else if i == 9 {
            } else if i == 10 {
            } else if i == 11 {
            } else if i == 12 {
            } else if i == 13 {
            } else if i == 14 {
            } else if i == 15 {
            } else if i == 16 {
            } else if i == 17 {
            } else if i == 18 {
            } else if i == 19 {
            } else if i == 20 {
            } else if i == 21 {
            } else if i == 22 {
            } else if i == 23 {
            } else if i == 24 {
            } else if i == 25 {
            } else if i == 26 {
            } else if i == 27 {
            } else if i == 28 {
            } else if i == 29 {
            } else if i == 30 {
            } else if i == 31 {
            }
        }
    }
    is_ascii_chars_encode_utf8(s);
}

/// Lexing the text of [`plain_text`] gives [`plain_tokens`].
pub proof fn lemma_plain_lexes()
    ensures
        lex_spec(encode_utf8(plain_text())) == plain_tokens(),
{
    lemma_plain_bytes();
    let b = encode_utf8(plain_text());
    assert(b[0] == 91u8);
    assert(b[1] == 120u8);
    assert(b[2] == 62u8);
    assert(b[3] == 48u8);
    assert(b[4] == 32u8);
    assert(b[5] == 45u8);
    assert(b[6] == 62u8);
    assert(b[7] == 32u8);
    assert(b[8] == 49u8);
    assert(b[9] == 59u8);
    assert(b[10] == 32u8);
    assert(b[11] == 33u8);
    assert(b[12] == 40u8);
    assert(b[13] == 120u8);
    assert(b[14] == 62u8);
    assert(b[15] == 48u8);
    assert(b[16] == 41u8);
    assert(b[17] == 32u8);
    assert(b[18] == 45u8);
    assert(b[19] == 62u8);
    assert(b[20] == 32u8);
    assert(b[21] == 45u8);
    assert(b[22] == 49u8);
    assert(b[23] == 59u8);
    assert(b[24] == 32u8);
    assert(b[25] == 95u8);
    assert(b[26] == 32u8);
    assert(b[27] == 45u8);
    assert(b[28] == 62u8);
    assert(b[29] == 32u8);
    assert(b[30] == 48u8);
    assert(b[31] == 93u8);
    assert(lex_from(b, 32) =~= Seq::<TokSpanView>::empty());
    lemma_one_char(b, 31, TokenView::RBracket);
    assert(lex_from(b, 31) =~= seq![
        TokSpanView { tok: TokenView::RBracket, start: 31, end: 32 },
    ]);
    lemma_short_number(b, 30);
    assert(lex_from(b, 30) =~= seq![
        TokSpanView { tok: TokenView::Number(seq!['0']), start: 30, end: 31 },
        TokSpanView { tok: TokenView::RBracket, start: 31, end: 32 },
    ]);
    lemma_skip_space(b, 29);
    lemma_two_char(b, 27, TokenView::Arrow);
    assert(lex_from(b, 27) =~= seq![
        TokSpanView { tok: TokenView::Arrow, start: 27, end: 29 },
        TokSpanView { tok: TokenView::Number(seq!['0']), start: 30, end: 31 },
        TokSpanView { tok: TokenView::RBracket, start: 31, end: 32 },
    ]);
    lemma_skip_space(b, 26);
    lemma_one_char(b, 25, TokenView::Underscore);
    assert(lex_from(b, 25) =~= seq![
        TokSpanView { tok: TokenView::Underscore, start: 25, end: 26 },
        TokSpanView { tok: TokenView::Arrow, start: 27, end: 29 },
        TokSpanView { tok: TokenView::Number(seq!['0']), start: 30, end: 31 },
        TokSpanView { tok: TokenView::RBracket, start: 31, end: 32 },
    ]);
    lemma_skip_space(b, 24);
    lemma_one_char(b, 23, TokenView::Semicolon);
    assert(lex_from(b, 23) =~= seq![
        TokSpanView { tok: TokenView::Semicolon, start: 23, end: 24 },
        TokSpanView { tok: TokenView::Underscore, start: 25, end: 26 },
        TokSpanView { tok: TokenView::Arrow, start: 27, end: 29 },
        TokSpanView { tok: TokenView::Number(seq!['0']), start: 30, end: 31 },
        TokSpanView { tok: TokenView::RBracket, start: 31, end: 32 },
    ]);
    lemma_short_number(b, 22);
    assert(lex_from(b, 22) =~= seq![
        TokSpanView { tok: TokenView::Number(seq!['1']), start: 22, end: 23 },
        TokSpanView { tok: TokenView::Semicolon, start: 23, end: 24 },
        TokSpanView { tok: TokenView::Underscore, start: 25, end: 26 },
        TokSpanView { tok: TokenView::Arrow, start: 27, end: 29 },
        TokSpanView { tok: TokenView::Number(seq!['0']), start: 30, end: 31 },
        TokSpanView { tok: TokenView::RBracket, start: 31, end: 32 },
    ]);
    lemma_one_char(b, 21, TokenView::Minus);
    assert(lex_from(b, 21) =~= seq![
        TokSpanView { tok: TokenView::Minus, start: 21, end: 22 },
        TokSpanView { tok: TokenView::Number(seq!['1']), start: 22, end: 23 },
        TokSpanView { tok: TokenView::Semicolon, start: 23, end: 24 },
        TokSpanView { tok: TokenView::Underscore, start: 25, end: 26 },
        TokSpanView { tok: TokenView::Arrow, start: 27, end: 29 },
        TokSpanView { tok: TokenView::Number(seq!['0']), start: 30, end: 31 },
        TokSpanView { tok: TokenView::RBracket, start: 31, end: 32 },
    ]);
    lemma_skip_space(b, 20);
    lemma_two_char(b, 18, TokenView::Arrow);
    assert(lex_from(b, 18) =~= seq![
        TokSpanView { tok: TokenView::Arrow, start: 18, end: 20 },
        TokSpanView { tok: TokenView::Minus, start: 21, end: 22 },
        TokSpanView { tok: TokenView::Number(seq!['1']), start: 22, end: 23 },
        TokSpanView { tok: TokenView::Semicolon, start: 23, end: 24 },
        TokSpanView { tok: TokenView::Underscore, start: 25, end: 26 },
        TokSpanView { tok: TokenView::Arrow, start: 27, end: 29 },
        TokSpanView { tok: TokenView::Number(seq!['0']), start: 30, end: 31 },
        TokSpanView { tok: TokenView::RBracket, start: 31, end: 32 },
    ]);
    lemma_skip_space(b, 17);
    lemma_one_char(b, 16, TokenView::RParen);
    assert(lex_from(b, 16) =~= seq![
        TokSpanView { tok: TokenView::RParen, start: 16, end: 17 },
        TokSpanView { tok: TokenView::Arrow, start: 18, end: 20 },
        TokSpanView { tok: TokenView::Minus, start: 21, end: 22 },
        TokSpanView { tok: TokenView::Number(seq!['1']), start: 22, end: 23 },
        TokSpanView { tok: TokenView::Semicolon, start: 23, end: 24 },
        TokSpanView { tok: TokenView::Underscore, start: 25, end: 26 },
        TokSpanView { tok: TokenView::Arrow, start: 27, end: 29 },
        TokSpanView { tok: TokenView::Number(seq!['0']), start: 30, end: 31 },
        TokSpanView { tok: TokenView::RBracket, start: 31, end: 32 },
    ]);
    lemma_short_number(b, 15);
    assert(lex_from(b, 15) =~= seq![
        TokSpanView { tok: TokenView::Number(seq!['0']), start: 15, end: 16 },
        TokSpanView { tok: TokenView::RParen, start: 16, end: 17 },
        TokSpanView { tok: TokenView::Arrow, start: 18, end: 20 },
        TokSpanView { tok: TokenView::Minus, start: 21, end: 22 },
        TokSpanView { tok: TokenView::Number(seq!['1']), start: 22, end: 23 },
        TokSpanView { tok: TokenView::Semicolon, start: 23, end: 24 },
        TokSpanView { tok: TokenView::Underscore, start: 25, end: 26 },
        TokSpanView { tok: TokenView::Arrow, start: 27, end: 29 },
        TokSpanView { tok: TokenView::Number(seq!['0']), start: 30, end: 31 },
        TokSpanView { tok: TokenView::RBracket, start: 31, end: 32 },
    ]);
    lemma_one_char(b, 14, TokenView::Gt);
    assert(lex_from(b, 14) =~= seq![
        TokSpanView { tok: TokenView::Gt, start: 14, end: 15 },
        TokSpanView { tok: TokenView::Number(seq!['0']), start: 15, end: 16 },
        TokSpanView { tok: TokenView::RParen, start: 16, end: 17 },
        TokSpanView { tok: TokenView::Arrow, start: 18, end: 20 },
        TokSpanView { tok: TokenView::Minus, start: 21, end: 22 },
        TokSpanView { tok: TokenView::Number(seq!['1']), start: 22, end: 23 },
        TokSpanView { tok: TokenView::Semicolon, start: 23, end: 24 },
        TokSpanView { tok: TokenView::Underscore, start: 25, end: 26 },
        TokSpanView { tok: TokenView::Arrow, start: 27, end: 29 },
        TokSpanView { tok: TokenView::Number(seq!['0']), start: 30, end: 31 },
        TokSpanView { tok: TokenView::RBracket, start: 31, end: 32 },
    ]);
    lemma_short_word(b, 13);
    assert(lex_from(b, 13) =~= seq![
        TokSpanView { tok: TokenView::Ident(seq!['x']), start: 13, end: 14 },
        TokSpanView { tok: TokenView::Gt, start: 14, end: 15 },
        TokSpanView { tok: TokenView::Number(seq!['0']), start: 15, end: 16 },
        TokSpanView { tok: TokenView::RParen, start: 16, end: 17 },
        TokSpanView { tok: TokenView::Arrow, start: 18, end: 20 },
        TokSpanView { tok: TokenView::Minus, start: 21, end: 22 },
        TokSpanView { tok: TokenView::Number(seq!['1']), start: 22, end: 23 },
        TokSpanView { tok: TokenView::Semicolon, start: 23, end: 24 },
        TokSpanView { tok: TokenView::Underscore, start: 25, end: 26 },
        TokSpanView { tok: TokenView::Arrow, start: 27, end: 29 },
        TokSpanView { tok: TokenView::Number(seq!['0']), start: 30, end: 31 },
        TokSpanView { tok: TokenView::RBracket, start: 31, end: 32 },
    ]);
    lemma_one_char(b, 12, TokenView::LParen);
    assert(lex_from(b, 12) =~= seq![
        TokSpanView { tok: TokenView::LParen, start: 12, end: 13 },
        TokSpanView { tok: TokenView::Ident(seq!['x']), start: 13, end: 14 },
        TokSpanView { tok: TokenView::Gt, start: 14, end: 15 },
        TokSpanView { tok: TokenView::Number(seq!['0']), start: 15, end: 16 },
        TokSpanView { tok: TokenView::RParen, start: 16, end: 17 },
        TokSpanView { tok: TokenView::Arrow, start: 18, end: 20 },
        TokSpanView { tok: TokenView::Minus, start: 21, end: 22 },
        TokSpanView { tok: TokenView::Number(seq!['1']), start: 22, end: 23 },
        TokSpanView { tok: TokenView::Semicolon, start: 23, end: 24 },
        TokSpanView { tok: TokenView::Underscore, start: 25, end: 26 },
        TokSpanView { tok: TokenView::Arrow, start: 27, end: 29 },
        TokSpanView { tok: TokenView::Number(seq!['0']), start: 30, end: 31 },
        TokSpanView { tok: TokenView::RBracket, start: 31, end: 32 },
    ]);
    lemma_one_char(b, 11, TokenView::Bang);
    assert(lex_from(b, 11) =~= seq![
        TokSpanView { tok: TokenView::Bang, start: 11, end: 12 },
        TokSpanView { tok: TokenView::LParen, start: 12, end: 13 },
        TokSpanView { tok: TokenView::Ident(seq!['x']), start: 13, end: 14 },
        TokSpanView { tok: TokenView::Gt, start: 14, end: 15 },
        TokSpanView { tok: TokenView::Number(seq!['0']), start: 15, end: 16 },
        TokSpanView { tok: TokenView::RParen, start: 16, end: 17 },
        TokSpanView { tok: TokenView::Arrow, start: 18, end: 20 },
        TokSpanView { tok: TokenView::Minus, start: 21, end: 22 },
        TokSpanView { tok: TokenView::Number(seq!['1']), start: 22, end: 23 },
        TokSpanView { tok: TokenView::Semicolon, start: 23, end: 24 },
        TokSpanView { tok: TokenView::Underscore, start: 25, end: 26 },
        TokSpanView { tok: TokenView::Arrow, start: 27, end: 29 },
        TokSpanView { tok: TokenView::Number(seq!['0']), start: 30, end: 31 },
        TokSpanView { tok: TokenView::RBracket, start: 31, end: 32 },
    ]);
    lemma_skip_space(b, 10);
    lemma_one_char(b, 9, TokenView::Semicolon);
    assert(lex_from(b, 9) =~= seq![
        TokSpanView { tok: TokenView::Semicolon, start: 9, end: 10 },
        TokSpanView { tok: TokenView::Bang, start: 11, end: 12 },
        TokSpanView { tok: TokenView::LParen, start: 12, end: 13 },
        TokSpanView { tok: TokenView::Ident(seq!['x']), start: 13, end: 14 },
        TokSpanView { tok: TokenView::Gt, start: 14, end: 15 },
        TokSpanView { tok: TokenView::Number(seq!['0']), start: 15, end: 16 },
        TokSpanView { tok: TokenView::RParen, start: 16, end: 17 },
        TokSpanView { tok: TokenView::Arrow, start: 18, end: 20 },
        TokSpanView { tok: TokenView::Minus, start: 21, end: 22 },
        TokSpanView { tok: TokenView::Number(seq!['1']), start: 22, end: 23 },
        TokSpanView { tok: TokenView::Semicolon, start: 23, end: 24 },
        TokSpanView { tok: TokenView::Underscore, start: 25, end: 26 },
        TokSpanView { tok: TokenView::Arrow, start: 27, end: 29 },
        TokSpanView { tok: TokenView::Number(seq!['0']), start: 30, end: 31 },
        TokSpanView { tok: TokenView::RBracket, start: 31, end: 32 },
    ]);
    lemma_short_number(b, 8);
    assert(lex_from(b, 8) =~= seq![
        TokSpanView { tok: TokenView::Number(seq!['1']), start: 8, end: 9 },
        TokSpanView { tok: TokenView::Semicolon, start: 9, end: 10 },
        TokSpanView { tok: TokenView::Bang, start: 11, end: 12 },
        TokSpanView { tok: TokenView::LParen, start: 12, end: 13 },
        TokSpanView { tok: TokenView::Ident(seq!['x']), start: 13, end: 14 },
        TokSpanView { tok: TokenView::Gt, start: 14, end: 15 },
        TokSpanView { tok: TokenView::Number(seq!['0']), start: 15, end: 16 },
        TokSpanView { tok: TokenView::RParen, start: 16, end: 17 },
        TokSpanView { tok: TokenView::Arrow, start: 18, end: 20 },
        TokSpanView { tok: TokenView::Minus, start: 21, end: 22 },
        TokSpanView { tok: TokenView::Number(seq!['1']), start: 22, end: 23 },
        TokSpanView { tok: TokenView::Semicolon, start: 23, end: 24 },
        TokSpanView { tok: TokenView::Underscore, start: 25, end: 26 },
        TokSpanView { tok: TokenView::Arrow, start: 27, end: 29 },
        TokSpanView { tok: TokenView::Number(seq!['0']), start: 30, end: 31 },
        TokSpanView { tok: TokenView::RBracket, start: 31, end: 32 },
    ]);
    lemma_skip_space(b, 7);
    lemma_two_char(b, 5, TokenView::Arrow);
    assert(lex_from(b, 5) =~= seq![
        TokSpanView { tok: TokenView::Arrow, start: 5, end: 7 },
        TokSpanView { tok: TokenView::Number(seq!['1']), start: 8, end: 9 },
        TokSpanView { tok: TokenView::Semicolon, start: 9, end: 10 },
        TokSpanView { tok: TokenView::Bang, start: 11, end: 12 },
        TokSpanView { tok: TokenView::LParen, start: 12, end: 13 },
        TokSpanView { tok: TokenView::Ident(seq!['x']), start: 13, end: 14 },
        TokSpanView { tok: TokenView::Gt, start: 14, end: 15 },
        TokSpanView { tok: TokenView::Number(seq!['0']), start: 15, end: 16 },
        TokSpanView { tok: TokenView::RParen, start: 16, end: 17 },
        TokSpanView { tok: TokenView::Arrow, start: 18, end: 20 },
        TokSpanView { tok: TokenView::Minus, start: 21, end: 22 },
        TokSpanView { tok: TokenView::Number(seq!['1']), start: 22, end: 23 },
        TokSpanView { tok: TokenView::Semicolon, start: 23, end: 24 },
        TokSpanView { tok: TokenView::Underscore, start: 25, end: 26 },
        TokSpanView { tok: TokenView::Arrow, start: 27, end: 29 },
        TokSpanView { tok: TokenView::Number(seq!['0']), start: 30, end: 31 },
        TokSpanView { tok: TokenView::RBracket, start: 31, end: 32 },
    ]);
    lemma_skip_space(b, 4);
    lemma_short_number(b, 3);
    assert(lex_from(b, 3) =~= seq![
        TokSpanView { tok: TokenView::Number(seq!['0']), start: 3, end: 4 },
        TokSpanView { tok: TokenView::Arrow, start: 5, end: 7 },
        TokSpanView { tok: TokenView::Number(seq!['1']), start: 8, end: 9 },
        TokSpanView { tok: TokenView::Semicolon, start: 9, end: 10 },
        TokSpanView { tok: TokenView::Bang, start: 11, end: 12 },
        TokSpanView { tok: TokenView::LParen, start: 12, end: 13 },
        TokSpanView { tok: TokenView::Ident(seq!['x']), start: 13, end: 14 },
        TokSpanView { tok: TokenView::Gt, start: 14, end: 15 },
        TokSpanView { tok: TokenView::Number(seq!['0']), start: 15, end: 16 },
        TokSpanView { tok: TokenView::RParen, start: 16, end: 17 },
        TokSpanView { tok: TokenView::Arrow, start: 18, end: 20 },
        TokSpanView { tok: TokenView::Minus, start: 21, end: 22 },
        TokSpanView { tok: TokenView::Number(seq!['1']), start: 22, end: 23 },
        TokSpanView { tok: TokenView::Semicolon, start: 23, end: 24 },
        TokSpanView { tok: TokenView::Underscore, start: 25, end: 26 },
        TokSpanView { tok: TokenView::Arrow, start: 27, end: 29 },
        TokSpanView { tok: TokenView::Number(seq!['0']), start: 30, end: 31 },
        TokSpanView { tok: TokenView::RBracket, start: 31, end: 32 },
    ]);
    lemma_one_char(b, 2, TokenView::Gt);
    assert(lex_from(b, 2) =~= seq![
        TokSpanView { tok: TokenView::Gt, start: 2, end: 3 },
        TokSpanView { tok: TokenView::Number(seq!['0']), start: 3, end: 4 },
        TokSpanView { tok: TokenView::Arrow, start: 5, end: 7 },
        TokSpanView { tok: TokenView::Number(seq!['1']), start: 8, end: 9 },
        TokSpanView { tok: TokenView::Semicolon, start: 9, end: 10 },
        TokSpanView { tok: TokenView::Bang, start: 11, end: 12 },
        TokSpanView { tok: TokenView::LParen, start: 12, end: 13 },
        TokSpanView { tok: TokenView::Ident(seq!['x']), start: 13, end: 14 },
        TokSpanView { tok: TokenView::Gt, start: 14, end: 15 },
        TokSpanView { tok: TokenView::Number(seq!['0']), start: 15, end: 16 },
        TokSpanView { tok: TokenView::RParen, start: 16, end: 17 },
        TokSpanView { tok: TokenView::Arrow, start: 18, end: 20 },
        TokSpanView { tok: TokenView::Minus, start: 21, end: 22 },
        TokSpanView { tok: TokenView::Number(seq!['1']), start: 22, end: 23 },
        TokSpanView { tok: TokenView::Semicolon, start: 23, end: 24 },
        TokSpanView { tok: TokenView::Underscore, start: 25, end: 26 },
        TokSpanView { tok: TokenView::Arrow, start: 27, end: 29 },
        TokSpanView { tok: TokenView::Number(seq!['0']), start: 30, end: 31 },
        TokSpanView { tok: TokenView::RBracket, start: 31, end: 32 },
    ]);
    lemma_short_word(b, 1);
    assert(lex_from(b, 1) =~= seq![
        TokSpanView { tok: TokenView::Ident(seq!['x']), start: 1, end: 2 },
        TokSpanView { tok: TokenView::Gt, start: 2, end: 3 },
        TokSpanView { tok: TokenView::Number(seq!['0']), start: 3, end: 4 },
        TokSpanView { tok: TokenView::Arrow, start: 5, end: 7 },
        TokSpanView { tok: TokenView::Number(seq!['1']), start: 8, end: 9 },
        TokSpanView { tok: TokenView::Semicolon, start: 9, end: 10 },
        TokSpanView { tok: TokenView::Bang, start: 11, end: 12 },
        TokSpanView { tok: TokenView::LParen, start: 12, end: 13 },
        TokSpanView { tok: TokenView::Ident(seq!['x']), start: 13, end: 14 },
        TokSpanView { tok: TokenView::Gt, start: 14, end: 15 },
        TokSpanView { tok: TokenView::Number(seq!['0']), start: 15, end: 16 },
        TokSpanView { tok: TokenView::RParen, start: 16, end: 17 },
        TokSpanView { tok: TokenView::Arrow, start: 18, end: 20 },
        TokSpanView { tok: TokenView::Minus, start: 21, end: 22 },
        TokSpanView { tok: TokenView::Number(seq!['1']), start: 22, end: 23 },
        TokSpanView { tok: TokenView::Semicolon, start: 23, end: 24 },
        TokSpanView { tok: TokenView::Underscore, start: 25, end: 26 },
        TokSpanView { tok: TokenView::Arrow, start: 27, end: 29 },
        TokSpanView { tok: TokenView::Number(seq!['0']), start: 30, end: 31 },
        TokSpanView { tok: TokenView::RBracket, start: 31, end: 32 },
    ]);
    lemma_one_char(b, 0, TokenView::LBracket);
    assert(lex_from(b, 0) =~= seq![
        TokSpanView { tok: TokenView::LBracket, start: 0, end: 1 },
        TokSpanView { tok: TokenView::Ident(seq!['x']), start: 1, end: 2 },
        TokSpanView { tok: TokenView::Gt, start: 2, end: 3 },
        TokSpanView { tok: TokenView::Number(seq!['0']), start: 3, end: 4 },
        TokSpanView { tok: TokenView::Arrow, start: 5, end: 7 },
        TokSpanView { tok: TokenView::Number(seq!['1']), start: 8, end: 9 },
        TokSpanView { tok: TokenView::Semicolon, start: 9, end: 10 },
        TokSpanView { tok: TokenView::Bang, start: 11, end: 12 },
        TokSpanView { tok: TokenView::LParen, start: 12, end: 13 },
        TokSpanView { tok: TokenView::Ident(seq!['x']), start: 13, end: 14 },
        TokSpanView { tok: TokenView::Gt, start: 14, end: 15 },
        TokSpanView { tok: TokenView::Number(seq!['0']), start: 15, end: 16 },
        TokSpanView { tok: TokenView::RParen, start: 16, end: 17 },
        TokSpanView { tok: TokenView::Arrow, start: 18, end: 20 },
        TokSpanView { tok: TokenView::Minus, start: 21, end: 22 },
        TokSpanView { tok: TokenView::Number(seq!['1']), start: 22, end: 23 },
        TokSpanView { tok: TokenView::Semicolon, start: 23, end: 24 },
        TokSpanView { tok: TokenView::Underscore, start: 25, end: 26 },
        TokSpanView { tok: TokenView::Arrow, start: 27, end: 29 },
        TokSpanView { tok: TokenView::Number(seq!['0']), start: 30, end: 31 },
        TokSpanView { tok: TokenView::RBracket, start: 31, end: 32 },
    ]);
}

/// A single digit is a numeric literal.
pub proof fn lemma_digit_is_literal(c: char)
    requires
        digit(c),
    ensures
        number_literal(seq![c]),
{
    let text = seq![c];
    assert(is_ascii_chars(text));
    is_ascii_chars_encode_utf8(text);
    let bytes = encode_utf8(text);
    assert(bytes[0] == text[0] as u8);
    assert(run_end(bytes, 1, |c: char| digit(c)) == 1);
}

/// What a name or a number at `pos` is as an expression.
pub open spec fn atom(t: Option<TokenView>) -> ExprView {
    match t {
        Some(TokenView::Ident(s)) => ExprView::Ident(s),
        Some(TokenView::Number(s)) => ExprView::Number(s),
        _ => ExprView::Bool(false),
    }
}

/// A name or a numeric literal that no `(` follows is a whole prefix
/// expression.
pub proof fn lemma_atom(toks: Seq<TokSpanView>, pos: int, depth: nat)
    requires
        tok_at(toks, pos) matches Some(t) && (t is Ident || (t matches TokenView::Number(s)
            && number_literal(s))),
        tok_at(toks, pos + 1) != Some(TokenView::LParen),
    ensures
        unary_spec(toks, pos, depth) == Ok::<(ExprView, int), ParseErrorView>(
            (atom(tok_at(toks, pos)), pos + 1),
        ),
{
    let e = atom(tok_at(toks, pos));
    assert(primary_spec(toks, pos, depth) == Ok::<(ExprView, int), ParseErrorView>((e, pos + 1)));
    assert(calls_spec(toks, pos + 1, e, depth) == Ok::<(ExprView, int), ParseErrorView>(
        (e, pos + 1),
    ));
    assert(postfix_spec(toks, pos, depth) == Ok::<(ExprView, int), ParseErrorView>((e, pos + 1)));
}

/// A prefix operator before a prefix expression.
pub proof fn lemma_prefix(toks: Seq<TokSpanView>, pos: int, depth: nat, e: ExprView, end: int)
    requires
        tok_at(toks, pos) == Some(TokenView::Minus) || tok_at(toks, pos) == Some(TokenView::Bang),
        unary_spec(toks, pos + 1, depth) == Ok::<(ExprView, int), ParseErrorView>((e, end)),
    ensures
        unary_spec(toks, pos, depth + 1) == Ok::<(ExprView, int), ParseErrorView>(
            (
                ExprView::Unary {
                    op: if tok_at(toks, pos) == Some(TokenView::Minus) {
                        UnOp::Neg
                    } else {
                        UnOp::Not
                    },
                    expr: Box::new(e),
                },
                end,
            ),
        ),
{
}

/// An expression in parentheses that no `(` follows is a whole prefix
/// expression, and is the expression itself.
pub proof fn lemma_parenthesized(
    toks: Seq<TokSpanView>,
    pos: int,
    depth: nat,
    e: ExprView,
    end: int,
)
    requires
        tok_at(toks, pos) == Some(TokenView::LParen),
        expr_spec(toks, pos + 1, depth) == Ok::<(ExprView, int), ParseErrorView>((e, end)),
        tok_at(toks, end) == Some(TokenView::RParen),
        tok_at(toks, end + 1) != Some(TokenView::LParen),
    ensures
        unary_spec(toks, pos, depth) == Ok::<(ExprView, int), ParseErrorView>((e, end + 1)),
{
    assert(primary_spec(toks, pos, depth) == Ok::<(ExprView, int), ParseErrorView>((e, end + 1)));
    assert(calls_spec(toks, end + 1, e, depth) == Ok::<(ExprView, int), ParseErrorView>(
        (e, end + 1),
    ));
    assert(postfix_spec(toks, pos, depth) == Ok::<(ExprView, int), ParseErrorView>((e, end + 1)));
}

/// A prefix expression that no `^`, `*`, `/`, `%`, `+` or `-` follows is a
/// whole sum.
pub proof fn lemma_sum(toks: Seq<TokSpanView>, pos: int, depth: nat, e: ExprView, end: int)
    requires
        unary_spec(toks, pos, depth) == Ok::<(ExprView, int), ParseErrorView>((e, end)),
        tok_at(toks, end) != Some(TokenView::Caret),
        level_op(Level::Mul, tok_at(toks, end)) is None,
        level_op(Level::Add, tok_at(toks, end)) is None,
    ensures
        binary_spec(toks, pos, Level::Add, depth) == Ok::<(ExprView, int), ParseErrorView>(
            (e, end),
        ),
{
    reveal_with_fuel(binary_spec, 3);
    reveal_with_fuel(operand_spec, 3);
    reveal_with_fuel(binary_rest_spec, 3);
}

/// Two sums with one comparison operator between them, and none behind
/// them, are a comparison.
pub proof fn lemma_comparison(
    toks: Seq<TokSpanView>,
    pos: int,
    depth: nat,
    left: ExprView,
    mid: int,
    right: ExprView,
    end: int,
)
    requires
        binary_spec(toks, pos, Level::Add, depth) == Ok::<(ExprView, int), ParseErrorView>(
            (left, mid),
        ),
        comparison_op(tok_at(toks, mid)) is Some,
        binary_spec(toks, mid + 1, Level::Add, depth) == Ok::<(ExprView, int), ParseErrorView>(
            (right, end),
        ),
        comparison_op(tok_at(toks, end)) is None,
    ensures
        comparison_spec(toks, pos, depth) == Ok::<(ExprView, int), ParseErrorView>(
            (
                ExprView::Bin {
                    op: comparison_op(tok_at(toks, mid))->Some_0,
                    left: Box::new(left),
                    right: Box::new(right),
                },
                end,
            ),
        ),
{
}

/// A sum that no comparison operator follows stands in place of a
/// comparison.
pub proof fn lemma_no_comparison(
    toks: Seq<TokSpanView>,
    pos: int,
    depth: nat,
    e: ExprView,
    end: int,
)
    requires
        binary_spec(toks, pos, Level::Add, depth) == Ok::<(ExprView, int), ParseErrorView>(
            (e, end),
        ),
        comparison_op(tok_at(toks, end)) is None,
    ensures
        comparison_spec(toks, pos, depth) == Ok::<(ExprView, int), ParseErrorView>((e, end)),
{
}

/// A comparison that neither `&&` nor `||` follows is a whole condition.
pub proof fn lemma_condition(toks: Seq<TokSpanView>, pos: int, depth: nat, e: ExprView, end: int)
    requires
        comparison_spec(toks, pos, depth) == Ok::<(ExprView, int), ParseErrorView>((e, end)),
        level_op(Level::And, tok_at(toks, end)) is None,
        level_op(Level::Or, tok_at(toks, end)) is None,
    ensures
        binary_spec(toks, pos, Level::Or, depth) == Ok::<(ExprView, int), ParseErrorView>(
            (e, end),
        ),
{
    reveal_with_fuel(binary_spec, 3);
    reveal_with_fuel(operand_spec, 3);
    reveal_with_fuel(binary_rest_spec, 3);
}

/// A condition that does not begin with `[` and that no `>>` follows is a
/// whole expression.
pub proof fn lemma_expression(toks: Seq<TokSpanView>, pos: int, depth: nat, e: ExprView, end: int)
    requires
        tok_at(toks, pos) != Some(TokenView::LBracket),
        binary_spec(toks, pos, Level::Or, depth) == Ok::<(ExprView, int), ParseErrorView>(
            (e, end),
        ),
        tok_at(toks, end) != Some(TokenView::DblGt),
    ensures
        expr_spec(toks, pos, depth + 1) == Ok::<(ExprView, int), ParseErrorView>((e, end)),
{
}

/// A prefix expression behind which nothing goes on is a whole condition.
pub proof fn lemma_simple_condition(
    toks: Seq<TokSpanView>,
    pos: int,
    depth: nat,
    e: ExprView,
    end: int,
)
    requires
        unary_spec(toks, pos, depth) == Ok::<(ExprView, int), ParseErrorView>((e, end)),
        tok_at(toks, end) != Some(TokenView::Caret),
        level_op(Level::Mul, tok_at(toks, end)) is None,
        level_op(Level::Add, tok_at(toks, end)) is None,
        comparison_op(tok_at(toks, end)) is None,
        level_op(Level::And, tok_at(toks, end)) is None,
        level_op(Level::Or, tok_at(toks, end)) is None,
    ensures
        binary_spec(toks, pos, Level::Or, depth) == Ok::<(ExprView, int), ParseErrorView>(
            (e, end),
        ),
{
    lemma_sum(toks, pos, depth, e, end);
    lemma_no_comparison(toks, pos, depth, e, end);
    lemma_condition(toks, pos, depth, e, end);
}

/// The condition `x>0`.
pub open spec fn condition_tree() -> ExprView {
    ExprView::Bin {
        op: BinOp::Gt,
        left: Box::new(ExprView::Ident(seq!['x'])),
        right: Box::new(ExprView::Number(seq!['0'])),
    }
}

/// The literal `1`.
pub open spec fn one_tree() -> ExprView {
    ExprView::Number(seq!['1'])
}

/// The expression `-1`.
pub open spec fn minus_one_tree() -> ExprView {
    ExprView::Unary { op: UnOp::Neg, expr: Box::new(one_tree()) }
}

/// The two arms that both texts spell.
pub open spec fn choice_arms() -> Seq<(ExprView, ExprView)> {
    seq![
        (condition_tree(), one_tree()),
        (ExprView::Unary { op: UnOp::Not, expr: Box::new(condition_tree()) }, minus_one_tree()),
    ]
}

/// The tree that both texts spell.
pub open spec fn choice_tree() -> ExprView {
    ExprView::Case { arms: choice_arms(), default: Box::new(ExprView::Number(seq!['0'])) }
}

/// The text with `?` and `|` parses to the tree of the two arms, and the
/// tokens end with it.
pub proof fn lemma_sugar_parses()
    ensures
        sugar_tokens().len() == 14,
        expr_spec(sugar_tokens(), 0, MAX_NESTING as nat) == Ok::<(ExprView, int), ParseErrorView>(
            (choice_tree(), 14),
        ),
{
    let t = sugar_tokens();
    let x = ExprView::Ident(seq!['x']);
    let zero = ExprView::Number(seq!['0']);
    let cond = condition_tree();
    let one = one_tree();
    let minus_one = minus_one_tree();
    lemma_digit_is_literal('0');
    lemma_digit_is_literal('1');
    // x>0
    lemma_atom(t, 1, 63);
    lemma_sum(t, 1, 63, x, 2);
    lemma_atom(t, 3, 63);
    lemma_sum(t, 3, 63, zero, 4);
    lemma_comparison(t, 1, 63, x, 2, zero, 4);
    lemma_condition(t, 1, 63, cond, 4);
    // 1
    lemma_atom(t, 5, 62);
    lemma_simple_condition(t, 5, 62, one, 6);
    lemma_expression(t, 5, 62, one, 6);
    // -1
    lemma_atom(t, 8, 61);
    lemma_prefix(t, 7, 61, one, 9);
    lemma_simple_condition(t, 7, 62, minus_one, 9);
    lemma_expression(t, 7, 62, minus_one, 9);
    // 0
    lemma_atom(t, 12, 62);
    lemma_simple_condition(t, 12, 62, zero, 13);
    lemma_expression(t, 12, 62, zero, 13);
    let none = Seq::<(ExprView, ExprView)>::empty();
    let arms = choice_arms();
    assert(none.push((cond, one)).push(
        (ExprView::Unary { op: UnOp::Not, expr: Box::new(cond) }, minus_one),
    ) =~= arms);
    assert(question_arm_spec(t, 5, none, cond, 63) == Ok::<
        (Seq<(ExprView, ExprView)>, int),
        ParseErrorView,
    >((arms, 9)));
    assert(conditional_arm_spec(t, 1, none, 63) == Ok::<
        (Seq<(ExprView, ExprView)>, int),
        ParseErrorView,
    >((arms, 9)));
    assert(default_arm_spec(t, 11, 63) == Ok::<(ExprView, int), ParseErrorView>((zero, 13)));
    assert(case_arms_spec(t, 10, arms, None, 63) == Ok::<
        ((Seq<(ExprView, ExprView)>, Option<ExprView>), int),
        ParseErrorView,
    >(((arms, Some(zero)), 13)));
    assert(case_arms_spec(t, 1, none, None, 63) == Ok::<
        ((Seq<(ExprView, ExprView)>, Option<ExprView>), int),
        ParseErrorView,
    >(((arms, Some(zero)), 13))) by {
        reveal_with_fuel(case_arms_spec, 2);
    }
    assert(case_spec(t, 0, 63) == Ok::<(ExprView, int), ParseErrorView>((choice_tree(), 14)));
}

/// The text with `->` alone parses to the same tree, and the tokens end
/// with it.
pub proof fn lemma_plain_parses()
    ensures
        plain_tokens().len() == 21,
        expr_spec(plain_tokens(), 0, MAX_NESTING as nat) == Ok::<(ExprView, int), ParseErrorView>(
            (choice_tree(), 21),
        ),
{
    let t = plain_tokens();
    let x = ExprView::Ident(seq!['x']);
    let zero = ExprView::Number(seq!['0']);
    let cond = condition_tree();
    let not_cond = ExprView::Unary { op: UnOp::Not, expr: Box::new(cond) };
    let one = one_tree();
    let minus_one = minus_one_tree();
    lemma_digit_is_literal('0');
    lemma_digit_is_literal('1');
    // x>0
    lemma_atom(t, 1, 63);
    lemma_sum(t, 1, 63, x, 2);
    lemma_atom(t, 3, 63);
    lemma_sum(t, 3, 63, zero, 4);
    lemma_comparison(t, 1, 63, x, 2, zero, 4);
    lemma_condition(t, 1, 63, cond, 4);
    // 1
    lemma_atom(t, 5, 62);
    lemma_simple_condition(t, 5, 62, one, 6);
    lemma_expression(t, 5, 62, one, 6);
    // !(x>0)
    lemma_atom(t, 9, 61);
    lemma_sum(t, 9, 61, x, 10);
    lemma_atom(t, 11, 61);
    lemma_sum(t, 11, 61, zero, 12);
    lemma_comparison(t, 9, 61, x, 10, zero, 12);
    lemma_condition(t, 9, 61, cond, 12);
    lemma_expression(t, 9, 61, cond, 12);
    lemma_parenthesized(t, 8, 62, cond, 12);
    lemma_prefix(t, 7, 62, cond, 13);
    lemma_simple_condition(t, 7, 63, not_cond, 13);
    // -1
    lemma_atom(t, 15, 61);
    lemma_prefix(t, 14, 61, one, 16);
    lemma_simple_condition(t, 14, 62, minus_one, 16);
    lemma_expression(t, 14, 62, minus_one, 16);
    // 0
    lemma_atom(t, 19, 62);
    lemma_simple_condition(t, 19, 62, zero, 20);
    lemma_expression(t, 19, 62, zero, 20);
    let none = Seq::<(ExprView, ExprView)>::empty();
    let first = seq![(cond, one)];
    let arms = choice_arms();
    assert(none.push((cond, one)) =~= first);
    assert(first.push((not_cond, minus_one)) =~= arms);
    assert(conditional_arm_spec(t, 1, none, 63) == Ok::<
        (Seq<(ExprView, ExprView)>, int),
        ParseErrorView,
    >((first, 6)));
    assert(conditional_arm_spec(t, 7, first, 63) == Ok::<
        (Seq<(ExprView, ExprView)>, int),
        ParseErrorView,
    >((arms, 16)));
    assert(default_arm_spec(t, 18, 63) == Ok::<(ExprView, int), ParseErrorView>((zero, 20)));
    assert(case_arms_spec(t, 17, arms, None, 63) == Ok::<
        ((Seq<(ExprView, ExprView)>, Option<ExprView>), int),
        ParseErrorView,
    >(((arms, Some(zero)), 20)));
    assert(case_arms_spec(t, 7, first, None, 63) == Ok::<
        ((Seq<(ExprView, ExprView)>, Option<ExprView>), int),
        ParseErrorView,
    >(((arms, Some(zero)), 20))) by {
        reveal_with_fuel(case_arms_spec, 2);
    }
    assert(case_arms_spec(t, 1, none, None, 63) == Ok::<
        ((Seq<(ExprView, ExprView)>, Option<ExprView>), int),
        ParseErrorView,
    >(((arms, Some(zero)), 20))) by {
        reveal_with_fuel(case_arms_spec, 2);
    }
    assert(case_spec(t, 0, 63) == Ok::<(ExprView, int), ParseErrorView>((choice_tree(), 21)));
}

/// The number that the kernel reads a literal as.
pub open spec fn literal_value(ctx: Context, text: Seq<char>) -> u64 {
    (ctx.kernel)(NumRequestView::Literal(text))
}

/// What the choice between `1` and `-1` on `x>0` is to give for the number
/// `x`: `1` where `x` is greater than `0`, `-1` for every other number, the
/// numbers that are no number among them.
pub open spec fn choice_value(ctx: Context, x: u64) -> Value {
    if num_lt_spec(literal_value(ctx, seq!['0']), x) {
        Value::Number(literal_value(ctx, seq!['1']))
    } else {
        Value::Number(num_neg_spec(literal_value(ctx, seq!['1'])))
    }
}

/// In a frame that binds `x` to a number, the tree of the two arms gives one
/// of the two results, never the default and never a failure.
pub proof fn lemma_choice_evaluates(ctx: Context, x: u64, depth: nat)
    requires
        depth >= 4,
    ensures
        eval_spec(ctx, frame(seq![seq!['x']], seq![Value::Number(x)]), choice_tree(), depth)
            == Ok::<Value, EvalErrorView>(choice_value(ctx, x)),
{
    let env = frame(seq![seq!['x']], seq![Value::Number(x)]);
    let cond = condition_tree();
    let zero = ExprView::Number(seq!['0']);
    lemma_digit_is_literal('0');
    lemma_digit_is_literal('1');
    reveal_strlit("inf");
    reveal_strlit("NaN");
    assert(env.dom().contains(seq!['x']) && env[seq!['x']] == Value::Number(x)) by {
        reveal_with_fuel(crate::eval::last_wins, 2);
        assert(seq!['x'].len() != "inf"@.len());
        assert(seq!['x'].len() != "NaN"@.len());
        assert(seq![seq!['x']][0] == seq!['x']);
        assert(seq![Value::Number(x)][0] == Value::Number(x));
    }
    let holds = num_lt_spec(literal_value(ctx, seq!['0']), x);
    assert forall|d: nat| d >= 2 implies #[trigger] eval_spec(ctx, env, cond, d) == Ok::<
        Value,
        EvalErrorView,
    >(Value::Bool(holds)) by {
        reveal_with_fuel(eval_spec, 2);
    }
    law_ternary_is_conditional(ctx, env, cond, one_tree(), minus_one_tree(), zero, depth);
    assert(eval_spec(ctx, env, cond, (depth - 1) as nat) == Ok::<Value, EvalErrorView>(
        Value::Bool(holds),
    ));
    assert(eval_spec(ctx, env, one_tree(), (depth - 1) as nat) == Ok::<Value, EvalErrorView>(
        Value::Number(literal_value(ctx, seq!['1'])),
    ));
    assert(eval_spec(ctx, env, minus_one_tree(), (depth - 1) as nat) == Ok::<
        Value,
        EvalErrorView,
    >(Value::Number(num_neg_spec(literal_value(ctx, seq!['1']))))) by {
        reveal_with_fuel(eval_spec, 2);
    }
}

/// A conditional arm and the two arms that it stands for are one expression:
/// the texts `[x>0 ? 1 | -1; _ -> 0]` and `[x>0 -> 1; !(x>0) -> -1; _ -> 0]`
/// are read as the same tree, each to its end, and in a frame that binds `x`
/// to a number that tree has the value `1` where `x` is greater than `0` and
/// `-1` for every other number. The default is never reached.
pub proof fn law_ternary_sugar(ctx: Context, x: u64)
    ensures
        to_the_end(
            lex_spec(encode_utf8(sugar_text())),
            expr_spec(lex_spec(encode_utf8(sugar_text())), 0, MAX_NESTING as nat),
        ) == Ok::<(ExprView, int), ParseErrorView>((choice_tree(), 14)),
        to_the_end(
            lex_spec(encode_utf8(plain_text())),
            expr_spec(lex_spec(encode_utf8(plain_text())), 0, MAX_NESTING as nat),
        ) == Ok::<(ExprView, int), ParseErrorView>((choice_tree(), 21)),
        eval_spec(ctx, frame(seq!["x"@], seq![Value::Number(x)]), choice_tree(), MAX_DEPTH as nat)
            == Ok::<Value, EvalErrorView>(choice_value(ctx, x)),
{
    lemma_sugar_lexes();
    lemma_plain_lexes();
    lemma_sugar_parses();
    lemma_plain_parses();
    lemma_choice_evaluates(ctx, x, MAX_DEPTH as nat);
    reveal_strlit("x");
    assert("x"@ =~= seq!['x']);
}

} // verus!



