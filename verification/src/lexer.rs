//! The lexer: from source bytes to spanned tokens.
//!
//! Scanning never fails. Input that is no token becomes a `Token::Error` in
//! the output, and scanning goes on behind it.

use crate::text::{byte_chars, push_bytes};
use crate::token::{span, TokSpan, TokSpanView, Token, TokenView, spans_view};
use vstd::prelude::*;
use vstd::string::*;
use vstd::utf8::*;

verus! {

/// Whether `c` may start an identifier: an ASCII letter or `_`.
pub open spec fn ident_start(c: char) -> bool {
    ('a' <= c && c <= 'z') || ('A' <= c && c <= 'Z') || c == '_'
}

/// Whether `c` may continue an identifier: an ASCII letter, a digit or `_`.
pub open spec fn ident_continue(c: char) -> bool {
    ident_start(c) || digit(c)
}

/// Whether `c` is an ASCII decimal digit.
pub open spec fn digit(c: char) -> bool {
    '0' <= c && c <= '9'
}

/// Whether `b` is ASCII whitespace: space, tab, line feed, form feed or
/// carriage return.
pub open spec fn whitespace(b: u8) -> bool {
    b == 0x20 || b == 0x09 || b == 0x0a || b == 0x0c || b == 0x0d
}

/// The operator spelled by the two characters `a`, `c`, if there is one.
pub open spec fn two_char_token(a: char, c: char) -> Option<TokenView> {
    if a == '-' && c == '>' {
        Some(TokenView::Arrow)
    } else if a == '>' && c == '>' {
        Some(TokenView::DblGt)
    } else if a == '|' && c == '|' {
        Some(TokenView::DblPipe)
    } else if a == '&' && c == '&' {
        Some(TokenView::DblAmp)
    } else if a == '=' && c == '=' {
        Some(TokenView::EqEq)
    } else if a == '!' && c == '=' {
        Some(TokenView::Neq)
    } else if a == '<' && c == '=' {
        Some(TokenView::Le)
    } else if a == '>' && c == '=' {
        Some(TokenView::Ge)
    } else {
        None
    }
}

/// The punctuation or operator spelled by the single character `c`, if there
/// is one.
pub open spec fn one_char_token(c: char) -> Option<TokenView> {
    if c == '@' {
        Some(TokenView::At)
    } else if c == '(' {
        Some(TokenView::LParen)
    } else if c == ')' {
        Some(TokenView::RParen)
    } else if c == '[' {
        Some(TokenView::LBracket)
    } else if c == ']' {
        Some(TokenView::RBracket)
    } else if c == ',' {
        Some(TokenView::Comma)
    } else if c == ';' {
        Some(TokenView::Semicolon)
    } else if c == '_' {
        Some(TokenView::Underscore)
    } else if c == '=' {
        Some(TokenView::Equal)
    } else if c == '|' {
        Some(TokenView::Pipe)
    } else if c == '?' {
        Some(TokenView::QMark)
    } else if c == '!' {
        Some(TokenView::Bang)
    } else if c == '+' {
        Some(TokenView::Plus)
    } else if c == '-' {
        Some(TokenView::Minus)
    } else if c == '*' {
        Some(TokenView::Star)
    } else if c == '/' {
        Some(TokenView::Slash)
    } else if c == '%' {
        Some(TokenView::Percent)
    } else if c == '<' {
        Some(TokenView::Lt)
    } else if c == '>' {
        Some(TokenView::Gt)
    } else if c == '^' {
        Some(TokenView::Caret)
    } else {
        None
    }
}

/// The first position at or after `i` whose byte, read as a character, does
/// not satisfy `keep`; the length of `bytes` if there is none.
pub open spec fn run_end(bytes: Seq<u8>, i: int, keep: spec_fn(char) -> bool) -> int
    decreases bytes.len() - i,
{
    if 0 <= i < bytes.len() && keep(bytes[i] as char) {
        run_end(bytes, i + 1, keep)
    } else {
        i
    }
}

/// Where the block comment ends whose content is read from `i` on, with
/// `depth` comments open: behind the `*/` that closes the outermost one, or
/// at the end of the input where it is never closed. Each `/*` inside opens
/// another comment.
pub open spec fn block_comment_end(bytes: Seq<u8>, i: int, depth: nat) -> int
    decreases bytes.len() - i,
{
    if i < 0 || i >= bytes.len() {
        i
    } else if bytes[i] as char == '/' && i + 1 < bytes.len() && bytes[i + 1] as char == '*' {
        block_comment_end(bytes, i + 2, depth + 1)
    } else if bytes[i] as char == '*' && i + 1 < bytes.len() && bytes[i + 1] as char == '/' {
        if depth <= 1 {
            i + 2
        } else {
            block_comment_end(bytes, i + 2, (depth - 1) as nat)
        }
    } else {
        block_comment_end(bytes, i + 1, depth)
    }
}

/// The character that a backslash followed by `esc` stands for in a string
/// literal: `n`, `t` and `r` give line feed, tab and carriage return, every
/// other character stands for itself.
pub open spec fn escaped(esc: char) -> char {
    if esc == 'n' {
        '\n'
    } else if esc == 't' {
        '\t'
    } else if esc == 'r' {
        '\r'
    } else {
        esc
    }
}

/// Reads the rest of a string literal from `i` on, after `text` has been read
/// of it. Gives the literal's text and the position behind its closing quote,
/// or `None` and the end of the input where no quote closes it.
pub open spec fn string_rest(bytes: Seq<u8>, i: int, text: Seq<char>) -> (Option<Seq<char>>, int)
    decreases bytes.len() - i,
{
    if i < 0 || i >= bytes.len() {
        (None, i)
    } else if bytes[i] as char == '"' {
        (Some(text), i + 1)
    } else if bytes[i] as char == '\\' && i + 1 < bytes.len() {
        string_rest(bytes, i + 2, text.push(escaped(bytes[i + 1] as char)))
    } else {
        string_rest(bytes, i + 1, text.push(bytes[i] as char))
    }
}

/// Where the numeric literal that starts at `i` ends: behind its digits, and
/// behind a `.` with the digits after it where one follows.
pub open spec fn number_end(bytes: Seq<u8>, i: int) -> int {
    let whole = run_end(bytes, i + 1, |c: char| digit(c));
    if whole < bytes.len() && bytes[whole] as char == '.' {
        run_end(bytes, whole + 1, |c: char| digit(c))
    } else {
        whole
    }
}

/// Whether `text` is a numeric literal of the language: one or more digits,
/// optionally followed by `.` and digits.
pub open spec fn number_literal(text: Seq<char>) -> bool {
    let bytes = encode_utf8(text);
    bytes.len() > 0 && digit(bytes[0] as char) && number_end(bytes, 0) == bytes.len()
}

/// The token for a word: a boolean literal for `true` and `false`, an
/// identifier otherwise.
pub open spec fn word_token(text: Seq<char>) -> TokenView {
    if text == "true"@ {
        TokenView::Bool(true)
    } else if text == "false"@ {
        TokenView::Bool(false)
    } else {
        TokenView::Ident(text)
    }
}

/// The message of the error token for a byte that starts no token.
pub open spec fn unexpected_message(c: char) -> Seq<char> {
    "unexpected character '"@.push(c).push('\'')
}

/// What stands at position `i` of the source: the token that starts there, if
/// one does, and the position behind it. Whitespace and comments give no
/// token. The rules apply in this order: whitespace, two-character operators,
/// comments, single-character tokens, string literals, words, numbers;
/// any other byte is an error token of length one.
pub open spec fn lex_at(bytes: Seq<u8>, i: int) -> (Option<TokenView>, int)
    recommends
        0 <= i < bytes.len(),
{
    let a = bytes[i] as char;
    if whitespace(bytes[i]) {
        (None, i + 1)
    } else if i + 1 < bytes.len() && two_char_token(a, bytes[i + 1] as char) is Some {
        (two_char_token(a, bytes[i + 1] as char), i + 2)
    } else if i + 1 < bytes.len() && a == '/' && bytes[i + 1] as char == '/' {
        (None, run_end(bytes, i + 2, |c: char| c != '\n'))
    } else if i + 1 < bytes.len() && a == '/' && bytes[i + 1] as char == '*' {
        (None, block_comment_end(bytes, i + 2, 1))
    } else if one_char_token(a) is Some {
        (one_char_token(a), i + 1)
    } else if a == '"' {
        let (text, end) = string_rest(bytes, i + 1, Seq::empty());
        match text {
            Some(t) => (Some(TokenView::String(t)), end),
            None => (Some(TokenView::Error("unterminated string literal"@)), end),
        }
    } else if ident_start(a) {
        let end = run_end(bytes, i + 1, |c: char| ident_continue(c));
        (Some(word_token(byte_chars(bytes.subrange(i, end)))), end)
    } else if digit(a) {
        let end = number_end(bytes, i);
        (Some(TokenView::Number(byte_chars(bytes.subrange(i, end)))), end)
    } else {
        (Some(TokenView::Error(unexpected_message(a))), i + 1)
    }
}

/// The tokens of `bytes` from position `i` on, in source order, each with the
/// byte range it was read from.
pub open spec fn lex_from(bytes: Seq<u8>, i: int) -> Seq<TokSpanView>
    decreases bytes.len() - i,
{
    if i < 0 || i >= bytes.len() {
        Seq::empty()
    } else {
        let next = lex_at(bytes, i).1;
        if next <= i || next > bytes.len() {
            Seq::empty()
        } else {
            match lex_at(bytes, i).0 {
                Some(t) => seq![TokSpanView { tok: t, start: i, end: next }] + lex_from(
                    bytes,
                    next,
                ),
                None => lex_from(bytes, next),
            }
        }
    }
}

/// The tokens of a whole source text.
pub open spec fn lex_spec(bytes: Seq<u8>) -> Seq<TokSpanView> {
    lex_from(bytes, 0)
}

/// A run ends at or after its start and within the input.
pub proof fn lemma_run_end_bounds(bytes: Seq<u8>, i: int, keep: spec_fn(char) -> bool)
    requires
        0 <= i <= bytes.len(),
    ensures
        i <= run_end(bytes, i, keep) <= bytes.len(),
    decreases bytes.len() - i,
{
    if i < bytes.len() && keep(bytes[i] as char) {
        lemma_run_end_bounds(bytes, i + 1, keep);
    }
}

/// A block comment ends at or after the position its content is read from,
/// and within the input.
pub proof fn lemma_block_comment_end_bounds(bytes: Seq<u8>, i: int, depth: nat)
    requires
        0 <= i <= bytes.len(),
    ensures
        i <= block_comment_end(bytes, i, depth) <= bytes.len(),
    decreases bytes.len() - i,
{
    if i < bytes.len() {
        if bytes[i] as char == '/' && i + 1 < bytes.len() && bytes[i + 1] as char == '*' {
            lemma_block_comment_end_bounds(bytes, i + 2, depth + 1);
        } else if bytes[i] as char == '*' && i + 1 < bytes.len() && bytes[i + 1] as char == '/' {
            if depth > 1 {
                lemma_block_comment_end_bounds(bytes, i + 2, (depth - 1) as nat);
            }
        } else {
            lemma_block_comment_end_bounds(bytes, i + 1, depth);
        }
    }
}

/// A string literal ends at or after the position its rest is read from, and
/// within the input; where it is not closed, it ends with the input.
pub proof fn lemma_string_rest_bounds(bytes: Seq<u8>, i: int, text: Seq<char>)
    requires
        0 <= i <= bytes.len(),
    ensures
        i <= string_rest(bytes, i, text).1 <= bytes.len(),
        string_rest(bytes, i, text).0 is None ==> string_rest(bytes, i, text).1 == bytes.len(),
    decreases bytes.len() - i,
{
    if i < bytes.len() {
        if bytes[i] as char == '"' {
        } else if bytes[i] as char == '\\' && i + 1 < bytes.len() {
            lemma_string_rest_bounds(bytes, i + 2, text.push(escaped(bytes[i + 1] as char)));
        } else {
            lemma_string_rest_bounds(bytes, i + 1, text.push(bytes[i] as char));
        }
    }
}

/// Every step of the lexer moves forward and stays within the input.
pub proof fn lemma_lex_at_advances(bytes: Seq<u8>, i: int)
    requires
        0 <= i < bytes.len(),
    ensures
        i < lex_at(bytes, i).1 <= bytes.len(),
{
    if i + 1 < bytes.len() {
        lemma_run_end_bounds(bytes, i + 2, |c: char| c != '\n');
        lemma_block_comment_end_bounds(bytes, i + 2, 1);
    }
    lemma_string_rest_bounds(bytes, i + 1, Seq::empty());
    lemma_run_end_bounds(bytes, i + 1, |c: char| ident_continue(c));
    let whole = run_end(bytes, i + 1, |c: char| digit(c));
    lemma_run_end_bounds(bytes, i + 1, |c: char| digit(c));
    if whole < bytes.len() {
        lemma_run_end_bounds(bytes, whole + 1, |c: char| digit(c));
    }
}

/// One step of the lexer, unfolded: the tokens from `i` on are the token at
/// `i`, where there is one, and then the tokens from behind it on.
pub proof fn lemma_lex_from_step(bytes: Seq<u8>, i: int)
    requires
        0 <= i < bytes.len(),
    ensures
        lex_from(bytes, i) == match lex_at(bytes, i).0 {
            Some(t) => seq![TokSpanView { tok: t, start: i, end: lex_at(bytes, i).1 }] + lex_from(
                bytes,
                lex_at(bytes, i).1,
            ),
            None => lex_from(bytes, lex_at(bytes, i).1),
        },
{
    lemma_lex_at_advances(bytes, i);
}

/// Whether `c` may start an identifier.
pub fn is_ident_start(c: char) -> (r: bool)
    ensures
        r == ident_start(c),
{
    ('a' <= c && c <= 'z') || ('A' <= c && c <= 'Z') || c == '_'
}

/// Whether `c` may continue an identifier.
pub fn is_ident_continue(c: char) -> (r: bool)
    ensures
        r == ident_continue(c),
{
    is_ident_start(c) || is_digit(c)
}

/// Whether `c` is an ASCII decimal digit.
pub fn is_digit(c: char) -> (r: bool)
    ensures
        r == digit(c),
{
    '0' <= c && c <= '9'
}

/// Whether `b` is ASCII whitespace.
pub fn is_whitespace(b: u8) -> (r: bool)
    ensures
        r == whitespace(b),
{
    b == 0x20 || b == 0x09 || b == 0x0a || b == 0x0c || b == 0x0d
}

/// The two characters at `i` and `i + 1`, where both lie within `bytes`.
pub fn peek2(bytes: &[u8], i: usize) -> (r: Option<(char, char)>)
    ensures
        r == (if i + 1 < bytes@.len() {
            Some((bytes@[i as int] as char, bytes@[i + 1] as char))
        } else {
            None::<(char, char)>
        }),
{
    if i >= bytes.len() || i + 1 >= bytes.len() {
        None
    } else {
        Some((bytes[i] as char, bytes[i + 1] as char))
    }
}

/// The operator spelled by two characters, if there is one.
pub fn two_char_op(a: char, c: char) -> (r: Option<Token>)
    ensures
        match r {
            Some(t) => two_char_token(a, c) == Some(t@),
            None => two_char_token(a, c) is None,
        },
{
    if a == '-' && c == '>' {
        Some(Token::Arrow)
    } else if a == '>' && c == '>' {
        Some(Token::DblGt)
    } else if a == '|' && c == '|' {
        Some(Token::DblPipe)
    } else if a == '&' && c == '&' {
        Some(Token::DblAmp)
    } else if a == '=' && c == '=' {
        Some(Token::EqEq)
    } else if a == '!' && c == '=' {
        Some(Token::Neq)
    } else if a == '<' && c == '=' {
        Some(Token::Le)
    } else if a == '>' && c == '=' {
        Some(Token::Ge)
    } else {
        None
    }
}

/// The punctuation or operator spelled by one character, if there is one.
pub fn one_char_op(c: char) -> (r: Option<Token>)
    ensures
        match r {
            Some(t) => one_char_token(c) == Some(t@),
            None => one_char_token(c) is None,
        },
{
    if c == '@' {
        Some(Token::At)
    } else if c == '(' {
        Some(Token::LParen)
    } else if c == ')' {
        Some(Token::RParen)
    } else if c == '[' {
        Some(Token::LBracket)
    } else if c == ']' {
        Some(Token::RBracket)
    } else if c == ',' {
        Some(Token::Comma)
    } else if c == ';' {
        Some(Token::Semicolon)
    } else if c == '_' {
        Some(Token::Underscore)
    } else if c == '=' {
        Some(Token::Equal)
    } else if c == '|' {
        Some(Token::Pipe)
    } else if c == '?' {
        Some(Token::QMark)
    } else if c == '!' {
        Some(Token::Bang)
    } else if c == '+' {
        Some(Token::Plus)
    } else if c == '-' {
        Some(Token::Minus)
    } else if c == '*' {
        Some(Token::Star)
    } else if c == '/' {
        Some(Token::Slash)
    } else if c == '%' {
        Some(Token::Percent)
    } else if c == '<' {
        Some(Token::Lt)
    } else if c == '>' {
        Some(Token::Gt)
    } else if c == '^' {
        Some(Token::Caret)
    } else {
        None
    }
}

/// Skips the content of a block comment. `i` is the position of the `*` that
/// opens it; the result is the position behind the comment.
pub fn consume_block_content(bytes: &[u8], i: usize) -> (r: usize)
    requires
        i < bytes@.len(),
    ensures
        r == block_comment_end(bytes@, i + 1, 1),
        i < r <= bytes@.len(),
{
    let len: usize = bytes.len();
    let mut depth: usize = 1;
    let mut j: usize = i + 1;
    proof {
        lemma_block_comment_end_bounds(bytes@, i + 1, 1);
    }
    while j < len
        invariant
            len == bytes@.len(),
            i < j <= len,
            1 <= depth <= j,
            block_comment_end(bytes@, j as int, depth as nat) == block_comment_end(
                bytes@,
                i + 1,
                1,
            ),
        decreases len - j,
    {
        let c = bytes[j] as char;
        if c == '/' && j + 1 < len && bytes[j + 1] as char == '*' {
            depth += 1;
            j += 2;
        } else if c == '*' && j + 1 < len && bytes[j + 1] as char == '/' {
            if depth == 1 {
                return j + 2;
            }
            depth -= 1;
            j += 2;
        } else {
            j += 1;
        }
    }
    j
}

/// Reads the character behind a backslash in a string literal, at position
/// `i`, and appends to `s` what the escape stands for. Gives the position
/// behind it.
pub fn process_escape_sequence(bytes: &[u8], i: usize, s: &mut String) -> (r: usize)
    requires
        i < bytes@.len(),
    ensures
        r == i + 1,
        final(s)@ == old(s)@.push(escaped(bytes@[i as int] as char)),
{
    let esc = bytes[i] as char;
    if esc == 'n' {
        s.push('\n');
    } else if esc == 't' {
        s.push('\t');
    } else if esc == 'r' {
        s.push('\r');
    } else {
        s.push(esc);
    }
    i + 1
}

/// Reads the string literal whose opening quote is at `start` and appends its
/// token to `out`: the literal's text, or an error token from the quote to the
/// end of the input where no quote closes it. Gives the position behind the
/// literal.
pub fn lex_string_literal(bytes: &[u8], _input: &str, start: usize, out: &mut Vec<TokSpan>) -> (r:
    usize)
    requires
        start < bytes@.len(),
    ensures
        r == string_rest(bytes@, start + 1, Seq::empty()).1,
        start < r <= bytes@.len(),
        spans_view(final(out)@) == spans_view(old(out)@).push(
            TokSpanView {
                tok: match string_rest(bytes@, start + 1, Seq::empty()).0 {
                    Some(t) => TokenView::String(t),
                    None => TokenView::Error("unterminated string literal"@),
                },
                start: start as int,
                end: r as int,
            },
        ),
{
    let len: usize = bytes.len();
    let mut i: usize = start + 1;
    let mut s = String::new();
    proof {
        lemma_string_rest_bounds(bytes@, start + 1, Seq::empty());
    }
    while i < len
        invariant
            len == bytes@.len(),
            start < i <= len,
            out@ == old(out)@,
            string_rest(bytes@, i as int, s@) == string_rest(bytes@, start + 1, Seq::empty()),
        decreases len - i,
    {
        let ch = bytes[i] as char;
        i += 1;
        if ch == '"' {
            let ghost before = out@;
            let t = span(Token::String(s), start, i);
            out.push(t);
            assert(spans_view(out@) =~= spans_view(before).push(t@));
            return i;
        }
        if ch == '\\' && i < len {
            i = process_escape_sequence(bytes, i, &mut s);
        } else {
            s.push(ch);
        }
    }
    let ghost before = out@;
    let t = span(Token::Error("unterminated string literal".to_owned()), start, i);
    out.push(t);
    assert(spans_view(out@) =~= spans_view(before).push(t@));
    i
}

/// The position of the first line feed at or after `i`, or the end of the
/// input.
fn line_end(bytes: &[u8], i: usize) -> (r: usize)
    requires
        i <= bytes@.len(),
    ensures
        r == run_end(bytes@, i as int, |c: char| c != '\n'),
        i <= r <= bytes@.len(),
{
    let mut j: usize = i;
    proof {
        lemma_run_end_bounds(bytes@, i as int, |c: char| c != '\n');
    }
    while j < bytes.len() && bytes[j] as char != '\n'
        invariant
            i <= j <= bytes@.len(),
            run_end(bytes@, j as int, |c: char| c != '\n') == run_end(
                bytes@,
                i as int,
                |c: char| c != '\n',
            ),
        decreases bytes@.len() - j,
    {
        j += 1;
    }
    j
}

/// The position behind the digits that stand at `i` and after.
fn digits_end(bytes: &[u8], i: usize) -> (r: usize)
    requires
        i <= bytes@.len(),
    ensures
        r == run_end(bytes@, i as int, |c: char| digit(c)),
        i <= r <= bytes@.len(),
{
    let mut j: usize = i;
    proof {
        lemma_run_end_bounds(bytes@, i as int, |c: char| digit(c));
    }
    while j < bytes.len() && is_digit(bytes[j] as char)
        invariant
            i <= j <= bytes@.len(),
            run_end(bytes@, j as int, |c: char| digit(c)) == run_end(
                bytes@,
                i as int,
                |c: char| digit(c),
            ),
        decreases bytes@.len() - j,
    {
        j += 1;
    }
    j
}

/// The position behind the numeric literal that starts at `i`.
pub fn scan_number(bytes: &[u8], i: usize) -> (r: usize)
    requires
        i < bytes@.len(),
    ensures
        r == number_end(bytes@, i as int),
        i < r <= bytes@.len(),
{
    let len: usize = bytes.len();
    let mut j: usize = digits_end(bytes, i + 1);
    if j < len && bytes[j] as char == '.' {
        j = digits_end(bytes, j + 1);
    }
    j
}

/// Whether `text` is a numeric literal of the language.
pub fn is_number_literal(text: &str) -> (r: bool)
    ensures
        r == number_literal(text@),
{
    let bytes = text.as_bytes();
    if bytes.len() == 0 {
        return false;
    }
    let first = bytes[0] as char;
    if !('0' <= first && first <= '9') {
        return false;
    }
    scan_number(bytes, 0) == bytes.len()
}

/// The position behind the identifier characters that stand at `i` and after.
fn word_end(bytes: &[u8], i: usize) -> (r: usize)
    requires
        i <= bytes@.len(),
    ensures
        r == run_end(bytes@, i as int, |c: char| ident_continue(c)),
        i <= r <= bytes@.len(),
{
    let mut j: usize = i;
    proof {
        lemma_run_end_bounds(bytes@, i as int, |c: char| ident_continue(c));
    }
    while j < bytes.len() && is_ident_continue(bytes[j] as char)
        invariant
            i <= j <= bytes@.len(),
            run_end(bytes@, j as int, |c: char| ident_continue(c)) == run_end(
                bytes@,
                i as int,
                |c: char| ident_continue(c),
            ),
        decreases bytes@.len() - j,
    {
        j += 1;
    }
    j
}

/// The token for the word `bytes[start..end]`.
fn word(bytes: &[u8], start: usize, end: usize) -> (r: Token)
    requires
        start <= end <= bytes@.len(),
    ensures
        r@ == word_token(byte_chars(bytes@.subrange(start as int, end as int))),
{
    let mut text = String::new();
    push_bytes(&mut text, bytes, start, end);
    assert(text@ =~= byte_chars(bytes@.subrange(start as int, end as int)));
    if text == "true".to_owned() {
        Token::Bool(true)
    } else if text == "false".to_owned() {
        Token::Bool(false)
    } else {
        Token::Ident(text)
    }
}

/// Splits a source text into its tokens, in source order, each with the byte
/// range it was read from. Whitespace and comments give no token; input that
/// is no token gives an error token.
pub fn lex(input: &str) -> (out: Vec<TokSpan>)
    ensures
        spans_view(out@) == lex_spec(input.spec_bytes()),
{
    let bytes = input.as_bytes();
    let len: usize = bytes.len();
    let mut i: usize = 0;
    let mut out: Vec<TokSpan> = Vec::new();
    assert(spans_view(out@) =~= Seq::empty());
    while i < len
        invariant
            len == bytes@.len(),
            i <= len,
            spans_view(out@) + lex_from(bytes@, i as int) == lex_from(bytes@, 0),
        decreases len - i,
    {
        proof {
            lemma_lex_at_advances(bytes@, i as int);
            lemma_lex_from_step(bytes@, i as int);
        }
        let ghost before = out@;
        let b = bytes[i];
        let a = b as char;
        let mut found: Option<Token> = None;
        let start: usize = i;
        if is_whitespace(b) {
            i += 1;
        } else {
            let two = match peek2(bytes, i) {
                Some((x, y)) => two_char_op(x, y),
                None => None,
            };
            let next_is_slash = i + 1 < len && bytes[i + 1] as char == '/';
            let next_is_star = i + 1 < len && bytes[i + 1] as char == '*';
            if two.is_some() {
                found = two;
                i += 2;
            } else if a == '/' && next_is_slash {
                i = line_end(bytes, i + 2);
            } else if a == '/' && next_is_star {
                i = consume_block_content(bytes, i + 1);
            } else {
                let one = one_char_op(a);
                if one.is_some() {
                    found = one;
                    i += 1;
                } else if a == '"' {
                    i = lex_string_literal(bytes, input, i, &mut out);
                } else if is_ident_start(a) {
                    i = word_end(bytes, i + 1);
                    found = Some(word(bytes, start, i));
                } else if is_digit(a) {
                    i = scan_number(bytes, i);
                    let mut text = String::new();
                    push_bytes(&mut text, bytes, start, i);
                    assert(text@ =~= byte_chars(bytes@.subrange(start as int, i as int)));
                    found = Some(Token::Number(text));
                } else {
                    let mut message = "unexpected character '".to_owned();
                    message.push(a);
                    message.push('\'');
                    found = Some(Token::Error(message));
                    i += 1;
                }
            }
        }
        match found {
            Some(t) => {
                let ts = span(t, start, i);
                out.push(ts);
                assert(spans_view(out@) =~= spans_view(before).push(ts@));
            },
            None => {},
        }
        assert(spans_view(out@) + lex_from(bytes@, i as int) =~= spans_view(before) + lex_from(
            bytes@,
            start as int,
        ));
    }
    out
}

/// Whether the spans of `toks` lie between `from` and `to`, each holds at
/// least one byte, and each begins where the one before it ends or later.
pub open spec fn spans_in_order(toks: Seq<TokSpanView>, from: int, to: int) -> bool {
    &&& forall|k: int|
        0 <= k < toks.len() ==> from <= (#[trigger] toks[k]).start < toks[k].end <= to
    &&& forall|k: int, m: int|
        0 <= k < m < toks.len() ==> (#[trigger] toks[k]).end <= (#[trigger] toks[m]).start
}

/// The tokens come out in the order of the source: the spans of the tokens
/// from `i` on lie within the source behind `i`, none is empty, and none
/// begins before the one before it ends.
pub proof fn law_spans_in_order(bytes: Seq<u8>, i: int)
    requires
        0 <= i,
    ensures
        spans_in_order(lex_from(bytes, i), i, bytes.len() as int),
    decreases bytes.len() - i,
{
    if i < bytes.len() {
        lemma_lex_at_advances(bytes, i);
        lemma_lex_from_step(bytes, i);
        let next = lex_at(bytes, i).1;
        let rest = lex_from(bytes, next);
        law_spans_in_order(bytes, next);
        match lex_at(bytes, i).0 {
            Some(t) => {
                let first = TokSpanView { tok: t, start: i, end: next };
                let all = seq![first] + rest;
                assert forall|k: int| 0 <= k < all.len() implies i <= (#[trigger] all[k]).start
                    < all[k].end <= bytes.len() by {
                    if k > 0 {
                        assert(all[k] == rest[k - 1]);
                    }
                }
                assert forall|k: int, m: int| 0 <= k < m < all.len() implies (#[trigger] all[k]).end
                    <= (#[trigger] all[m]).start by {
                    assert(all[m] == rest[m - 1]);
                    if k > 0 {
                        assert(all[k] == rest[k - 1]);
                    }
                }
            },
            None => {},
        }
    }
}

/// Every byte of a run satisfies the run's condition, and the byte behind
/// the run does not.
pub proof fn lemma_run_end_holds(bytes: Seq<u8>, i: int, keep: spec_fn(char) -> bool)
    requires
        0 <= i <= bytes.len(),
    ensures
        forall|k: int| i <= k < run_end(bytes, i, keep) ==> keep((#[trigger] bytes[k]) as char),
        run_end(bytes, i, keep) < bytes.len() ==> !keep(bytes[run_end(bytes, i, keep)] as char),
    decreases bytes.len() - i,
{
    if i < bytes.len() && keep(bytes[i] as char) {
        lemma_run_end_holds(bytes, i + 1, keep);
    }
}

/// A run that ends within a part of the bytes is the same run within that
/// part.
pub proof fn lemma_run_end_within(
    bytes: Seq<u8>,
    from: int,
    to: int,
    i: int,
    keep: spec_fn(char) -> bool,
)
    requires
        0 <= from <= i <= to <= bytes.len(),
        run_end(bytes, i, keep) <= to,
    ensures
        run_end(bytes.subrange(from, to), i - from, keep) == run_end(bytes, i, keep) - from,
    decreases to - i,
{
    let part = bytes.subrange(from, to);
    lemma_run_end_bounds(bytes, i, keep);
    if i < to {
        assert(part[i - from] == bytes[i]);
        if keep(bytes[i] as char) {
            lemma_run_end_within(bytes, from, to, i + 1, keep);
            assert(run_end(part, i - from, keep) == run_end(part, i - from + 1, keep));
        }
    }
}

/// The text of a numeric token is a numeric literal.
pub proof fn lemma_number_token_is_literal(bytes: Seq<u8>, j: int)
    requires
        0 <= j < bytes.len(),
        digit(bytes[j] as char),
    ensures
        number_literal(byte_chars(bytes.subrange(j, number_end(bytes, j)))),
{
    let is_digit = |c: char| digit(c);
    let end = number_end(bytes, j);
    let whole = run_end(bytes, j + 1, is_digit);
    lemma_run_end_bounds(bytes, j + 1, is_digit);
    lemma_run_end_holds(bytes, j + 1, is_digit);
    if whole < bytes.len() && bytes[whole] as char == '.' {
        lemma_run_end_bounds(bytes, whole + 1, is_digit);
        lemma_run_end_holds(bytes, whole + 1, is_digit);
    }
    let part = bytes.subrange(j, end);
    let text = byte_chars(part);
    assert forall|k: int| 0 <= k < text.len() implies '\0' <= #[trigger] text[k] <= '\u{7f}' by {
        let b = bytes[j + k];
        assert(part[k] == b);
        assert(digit(b as char) || b as char == '.') by {
            if k == 0 {
            } else if j + k < whole {
            } else if j + k == whole {
            } else {
            }
        }
    }
    is_ascii_chars_encode_utf8(text);
    assert(encode_utf8(text) =~= part) by {
        assert forall|k: int| 0 <= k < part.len() implies encode_utf8(text)[k] == part[k] by {
            assert(text[k] as u8 == encode_utf8(text)[k]);
            assert(text[k] == part[k] as char);
        }
    }
    lemma_run_end_within(bytes, j, end, j + 1, is_digit);
    assert(part[0] == bytes[j]);
    if whole < bytes.len() && bytes[whole] as char == '.' {
        assert(part[whole - j] == bytes[whole]);
        lemma_run_end_within(bytes, j, end, whole + 1, is_digit);
    }
}

/// A numeric token that the lexer gives holds a numeric literal: digits,
/// optionally followed by `.` and digits.
pub proof fn law_lexed_numbers_are_literals(bytes: Seq<u8>, i: int, k: int)
    requires
        0 <= i,
        0 <= k < lex_from(bytes, i).len(),
        lex_from(bytes, i)[k].tok is Number,
    ensures
        number_literal(lex_from(bytes, i)[k].tok->Number_0),
    decreases bytes.len() - i,
{
    if i < bytes.len() {
        lemma_lex_at_advances(bytes, i);
        lemma_lex_from_step(bytes, i);
        let next = lex_at(bytes, i).1;
        let rest = lex_from(bytes, next);
        match lex_at(bytes, i).0 {
            Some(t) => {
                let first = TokSpanView { tok: t, start: i, end: next };
                let all = seq![first] + rest;
                if k == 0 {
                    assert(all[0] == first);
                    assert(digit(bytes[i] as char));
                    lemma_number_token_is_literal(bytes, i);
                } else {
                    assert(all[k] == rest[k - 1]);
                    law_lexed_numbers_are_literals(bytes, next, k - 1);
                }
            },
            None => {
                law_lexed_numbers_are_literals(bytes, next, k);
            },
        }
    }
}

} // verus!



