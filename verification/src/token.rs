//! Tokens and their source spans.

use crate::text::{decimal, push_decimal, push_spaces, right_aligned, spaces};
use vstd::prelude::*;
use vstd::string::*;
use vstd::utf8::*;

verus! {

/// One lexical unit of the language.
#[derive(Debug)]
pub enum Token {
    At,
    LParen,
    RParen,
    LBracket,
    RBracket,
    Comma,
    Semicolon,
    Underscore,
    Equal,
    Arrow,
    Pipe,
    QMark,
    DblPipe,
    DblAmp,
    DblGt,
    Plus,
    Minus,
    Star,
    Slash,
    Percent,
    EqEq,
    Neq,
    Le,
    Ge,
    Lt,
    Gt,
    Bang,
    Ident(String),
    Number(String),
    Bool(bool),
    String(String),
    /// Input that is no token; the payload says why.
    Error(String),
    Caret,
}

/// The mathematical value of a [`Token`]: its kind, with text payloads as
/// character sequences.
pub ghost enum TokenView {
    At,
    LParen,
    RParen,
    LBracket,
    RBracket,
    Comma,
    Semicolon,
    Underscore,
    Equal,
    Arrow,
    Pipe,
    QMark,
    DblPipe,
    DblAmp,
    DblGt,
    Plus,
    Minus,
    Star,
    Slash,
    Percent,
    EqEq,
    Neq,
    Le,
    Ge,
    Lt,
    Gt,
    Bang,
    Ident(Seq<char>),
    Number(Seq<char>),
    Bool(bool),
    String(Seq<char>),
    Error(Seq<char>),
    Caret,
}

impl View for Token {
    type V = TokenView;

    open spec fn view(&self) -> TokenView {
        match self {
            Token::At => TokenView::At,
            Token::LParen => TokenView::LParen,
            Token::RParen => TokenView::RParen,
            Token::LBracket => TokenView::LBracket,
            Token::RBracket => TokenView::RBracket,
            Token::Comma => TokenView::Comma,
            Token::Semicolon => TokenView::Semicolon,
            Token::Underscore => TokenView::Underscore,
            Token::Equal => TokenView::Equal,
            Token::Arrow => TokenView::Arrow,
            Token::Pipe => TokenView::Pipe,
            Token::QMark => TokenView::QMark,
            Token::DblPipe => TokenView::DblPipe,
            Token::DblAmp => TokenView::DblAmp,
            Token::DblGt => TokenView::DblGt,
            Token::Plus => TokenView::Plus,
            Token::Minus => TokenView::Minus,
            Token::Star => TokenView::Star,
            Token::Slash => TokenView::Slash,
            Token::Percent => TokenView::Percent,
            Token::EqEq => TokenView::EqEq,
            Token::Neq => TokenView::Neq,
            Token::Le => TokenView::Le,
            Token::Ge => TokenView::Ge,
            Token::Lt => TokenView::Lt,
            Token::Gt => TokenView::Gt,
            Token::Bang => TokenView::Bang,
            Token::Ident(s) => TokenView::Ident(s@),
            Token::Number(s) => TokenView::Number(s@),
            Token::Bool(b) => TokenView::Bool(*b),
            Token::String(s) => TokenView::String(s@),
            Token::Error(s) => TokenView::Error(s@),
            Token::Caret => TokenView::Caret,
        }
    }
}

impl Clone for Token {
    fn clone(&self) -> (r: Self)
        ensures
            r@ == self@,
    {
        match self {
            Token::At => Token::At,
            Token::LParen => Token::LParen,
            Token::RParen => Token::RParen,
            Token::LBracket => Token::LBracket,
            Token::RBracket => Token::RBracket,
            Token::Comma => Token::Comma,
            Token::Semicolon => Token::Semicolon,
            Token::Underscore => Token::Underscore,
            Token::Equal => Token::Equal,
            Token::Arrow => Token::Arrow,
            Token::Pipe => Token::Pipe,
            Token::QMark => Token::QMark,
            Token::DblPipe => Token::DblPipe,
            Token::DblAmp => Token::DblAmp,
            Token::DblGt => Token::DblGt,
            Token::Plus => Token::Plus,
            Token::Minus => Token::Minus,
            Token::Star => Token::Star,
            Token::Slash => Token::Slash,
            Token::Percent => Token::Percent,
            Token::EqEq => Token::EqEq,
            Token::Neq => Token::Neq,
            Token::Le => Token::Le,
            Token::Ge => Token::Ge,
            Token::Lt => Token::Lt,
            Token::Gt => Token::Gt,
            Token::Bang => Token::Bang,
            Token::Ident(s) => Token::Ident(s.clone()),
            Token::Number(s) => Token::Number(s.clone()),
            Token::Bool(b) => Token::Bool(*b),
            Token::String(s) => Token::String(s.clone()),
            Token::Error(s) => Token::Error(s.clone()),
            Token::Caret => Token::Caret,
        }
    }
}

impl PartialEq for Token {
    fn eq(&self, other: &Self) -> (r: bool) {
        match (self, other) {
            (Token::At, Token::At) => true,
            (Token::LParen, Token::LParen) => true,
            (Token::RParen, Token::RParen) => true,
            (Token::LBracket, Token::LBracket) => true,
            (Token::RBracket, Token::RBracket) => true,
            (Token::Comma, Token::Comma) => true,
            (Token::Semicolon, Token::Semicolon) => true,
            (Token::Underscore, Token::Underscore) => true,
            (Token::Equal, Token::Equal) => true,
            (Token::Arrow, Token::Arrow) => true,
            (Token::Pipe, Token::Pipe) => true,
            (Token::QMark, Token::QMark) => true,
            (Token::DblPipe, Token::DblPipe) => true,
            (Token::DblAmp, Token::DblAmp) => true,
            (Token::DblGt, Token::DblGt) => true,
            (Token::Plus, Token::Plus) => true,
            (Token::Minus, Token::Minus) => true,
            (Token::Star, Token::Star) => true,
            (Token::Slash, Token::Slash) => true,
            (Token::Percent, Token::Percent) => true,
            (Token::EqEq, Token::EqEq) => true,
            (Token::Neq, Token::Neq) => true,
            (Token::Le, Token::Le) => true,
            (Token::Ge, Token::Ge) => true,
            (Token::Lt, Token::Lt) => true,
            (Token::Gt, Token::Gt) => true,
            (Token::Bang, Token::Bang) => true,
            (Token::Ident(a), Token::Ident(b)) => *a == *b,
            (Token::Number(a), Token::Number(b)) => *a == *b,
            (Token::Bool(a), Token::Bool(b)) => *a == *b,
            (Token::String(a), Token::String(b)) => *a == *b,
            (Token::Error(a), Token::Error(b)) => *a == *b,
            (Token::Caret, Token::Caret) => true,
            _ => false,
        }
    }
}

impl vstd::std_specs::cmp::PartialEqSpecImpl for Token {
    open spec fn obeys_eq_spec() -> bool {
        true
    }

    open spec fn eq_spec(&self, other: &Self) -> bool {
        self@ == other@
    }
}

/// A token with the half-open byte range `[start, end)` of the source it was
/// read from.
#[derive(Debug)]
pub struct TokSpan {
    pub tok: Token,
    pub start: usize,
    pub end: usize,
}

/// The mathematical value of a [`TokSpan`].
pub ghost struct TokSpanView {
    pub tok: TokenView,
    pub start: int,
    pub end: int,
}

impl View for TokSpan {
    type V = TokSpanView;

    open spec fn view(&self) -> TokSpanView {
        TokSpanView { tok: self.tok@, start: self.start as int, end: self.end as int }
    }
}

impl Clone for TokSpan {
    fn clone(&self) -> (r: Self)
        ensures
            r@ == self@,
    {
        TokSpan { tok: self.tok.clone(), start: self.start, end: self.end }
    }
}

/// The views of a sequence of spanned tokens, in order.
pub open spec fn spans_view(items: Seq<TokSpan>) -> Seq<TokSpanView> {
    items.map_values(|t: TokSpan| t@)
}

/// Pairs a token with its byte range.
pub fn span(tok: Token, start: usize, end: usize) -> (r: TokSpan)
    ensures
        r.tok == tok,
        r.start == start,
        r.end == end,
{
    TokSpan { tok, start, end }
}

/// The number of bytes that a character takes in UTF-8.
pub open spec fn utf8_len(c: char) -> int {
    if (c as u32) < 0x80 {
        1
    } else if (c as u32) < 0x800 {
        2
    } else if (c as u32) < 0x10000 {
        3
    } else {
        4
    }
}

/// The number of bytes that a text takes in UTF-8.
pub open spec fn byte_len(s: Seq<char>) -> int
    decreases s.len(),
{
    if s.len() == 0 {
        0
    } else {
        byte_len(s.drop_last()) + utf8_len(s.last())
    }
}

/// The number of characters of `s` that start before the byte offset `byte`.
pub open spec fn chars_before(s: Seq<char>, byte: int) -> int
    decreases s.len(),
{
    if s.len() == 0 {
        0
    } else if byte_len(s.drop_last()) < byte {
        s.len() as int
    } else {
        chars_before(s.drop_last(), byte)
    }
}

/// The number of line feeds among the first `k` characters of `s`.
pub open spec fn newlines(s: Seq<char>, k: int) -> int
    decreases k,
{
    if k <= 0 {
        0
    } else {
        newlines(s, k - 1) + if s[k - 1] == '\n' {
            1int
        } else {
            0int
        }
    }
}

/// Where the line begins that the position `k` lies in: behind the last line
/// feed among the first `k` characters, or at 0.
pub open spec fn line_start(s: Seq<char>, k: int) -> int
    decreases k,
{
    if k <= 0 {
        0
    } else if s[k - 1] == '\n' {
        k
    } else {
        line_start(s, k - 1)
    }
}

/// The position of the first line feed at or after `i`, or the length of `s`.
pub open spec fn line_stop(s: Seq<char>, i: int) -> int
    decreases s.len() - i,
{
    if 0 <= i < s.len() && s[i] != '\n' {
        line_stop(s, i + 1)
    } else {
        i
    }
}

/// The diagnostic for a failure at the byte offset `byte` of `src`, in four
/// lines: the message; the line and column of the failing position, both
/// counted from 1 and the column in characters; the line's number, at least
/// three characters wide, and its text; and a caret. The caret line is
/// indented by the width of the line's number, so that the caret stands under
/// the failing column of the text above it.
pub open spec fn caret_message_spec(src: Seq<char>, byte: int, msg: Seq<char>) -> Seq<char> {
    let k = chars_before(src, byte);
    let start = line_start(src, k);
    let line = (1 + newlines(src, k)) as nat;
    let col = (1 + k - start) as nat;
    let number = right_aligned(decimal(line), 3);
    "error: "@ + msg + " \n --> input:"@ + decimal(line) + ":"@ + decimal(col) + "\n"@ + number
        + " | "@ + src.subrange(start, line_stop(src, start)) + "\n | "@ + spaces(number.len())
        + spaces((col - 1) as nat) + "^ here"@
}

/// A longer prefix of a text takes at least as many bytes.
pub proof fn lemma_byte_len_monotonic(s: Seq<char>, a: int, b: int)
    requires
        0 <= a <= b <= s.len(),
    ensures
        0 <= byte_len(s.take(a)) <= byte_len(s.take(b)),
    decreases b,
{
    if a == 0 {
        if b > 0 {
            lemma_byte_len_monotonic(s, 0, b - 1);
            assert(s.take(b).drop_last() =~= s.take(b - 1));
        }
    } else if a < b {
        lemma_byte_len_monotonic(s, a, b - 1);
        assert(s.take(b).drop_last() =~= s.take(b - 1));
    } else {
        lemma_byte_len_monotonic(s, 0, a - 1);
        assert(s.take(a).drop_last() =~= s.take(a - 1));
    }
}

/// Where the first `n` characters start before `byte` and the next does not,
/// exactly `n` characters of any longer prefix start before `byte`.
pub proof fn lemma_chars_before_stable(s: Seq<char>, n: int, m: int, byte: int)
    requires
        0 <= n <= m <= s.len(),
        chars_before(s.take(n), byte) == n,
        byte_len(s.take(n)) >= byte,
    ensures
        chars_before(s.take(m), byte) == n,
    decreases m,
{
    if m > n {
        lemma_chars_before_stable(s, n, m - 1, byte);
        lemma_byte_len_monotonic(s, n, m - 1);
        assert(s.take(m).drop_last() =~= s.take(m - 1));
    }
}

/// Where no line feed stands between `a` and `b`, the line that holds `a`
/// stops where the line that holds `b` stops.
pub proof fn lemma_line_stop_step(s: Seq<char>, i: int)
    requires
        0 <= i < s.len(),
        s[i] != '\n',
    ensures
        line_stop(s, i) == line_stop(s, i + 1),
{
}

/// The encoding of a text with one more character is the encoding of the
/// text followed by that of the character.
pub proof fn lemma_encode_push(s: Seq<char>, c: char)
    ensures
        encode_utf8(s.push(c)) == encode_utf8(s) + encode_scalar(c as u32),
    decreases s.len(),
{
    if s.len() == 0 {
        let one = s.push(c);
        assert(one.drop_first() =~= Seq::<char>::empty());
        assert(one[0] == c);
        assert(encode_utf8(one.drop_first()) =~= Seq::<u8>::empty());
        assert(encode_utf8(s) =~= Seq::<u8>::empty());
        assert(encode_utf8(one) =~= encode_utf8(s) + encode_scalar(c as u32));
    } else {
        lemma_encode_push(s.drop_first(), c);
        let longer = s.push(c);
        assert(longer.drop_first() =~= s.drop_first().push(c));
        assert(longer[0] == s[0]);
        assert(encode_utf8(longer) == encode_scalar(s[0] as u32) + encode_utf8(
            s.drop_first().push(c),
        ));
        assert(encode_utf8(s) == encode_scalar(s[0] as u32) + encode_utf8(s.drop_first()));
        assert(encode_utf8(longer) =~= encode_utf8(s) + encode_scalar(c as u32));
    }
}

/// The byte offsets that diagnostics count in are those of the text's UTF-8
/// encoding, in which the lexer gives the spans of its tokens.
pub proof fn law_byte_len_is_encoded_length(s: Seq<char>)
    ensures
        byte_len(s) == encode_utf8(s).len(),
    decreases s.len(),
{
    if s.len() > 0 {
        let c: char = s.last();
        law_byte_len_is_encoded_length(s.drop_last());
        lemma_encode_push(s.drop_last(), c);
        assert(s.drop_last().push(c) =~= s);
        char_is_scalar(c);
        assert(encode_scalar(c as u32).len() == utf8_len(c));
    }
}

/// The number of bytes that `c` takes in UTF-8.
fn char_len(c: char) -> (r: usize)
    ensures
        r == utf8_len(c),
{
    let u: u32 = c as u32;
    if u < 0x80 {
        1
    } else if u < 0x800 {
        2
    } else if u < 0x10000 {
        3
    } else {
        4
    }
}

/// Renders the diagnostic for a failure at the byte offset `byte` of `src`.
pub fn caret_message(src: &str, byte: usize, msg: &str) -> (out: String)
    ensures
        out@ == caret_message_spec(src@, byte as int, msg@),
{
    broadcast use vstd::string::group_string_axioms;

    let total: usize = src.unicode_len();
    let ghost s = src@;
    let mut remaining: usize = byte;
    let mut passed = false;
    let mut closed = false;
    let mut line0: usize = 0;
    let mut col0: usize = 0;
    let mut text = String::new();
    let ghost mut kk: int = 0;
    let chars = src.chars();
    proof {
        assert(s.take(0) =~= Seq::<char>::empty());
        assert(text@ =~= s.subrange(0, 0));
    }
    for ch in it: chars
        invariant
            it.seq() == s,
            s == src@,
            total == s.len(),
            line0 <= it.index(),
            col0 <= it.index(),
            !passed ==> {
                &&& !closed
                &&& remaining as int == (if byte - byte_len(s.take(it.index())) > 0 {
                    byte - byte_len(s.take(it.index()))
                } else {
                    0
                })
                &&& chars_before(s.take(it.index()), byte as int) == it.index()
                &&& line0 == newlines(s, it.index())
                &&& col0 == it.index() - line_start(s, it.index())
                &&& text@ == s.subrange(line_start(s, it.index()), it.index())
                &&& line_stop(s, line_start(s, it.index())) == line_stop(s, it.index())
            },
            passed ==> {
                &&& 0 <= line_start(s, kk) <= kk <= it.index()
                &&& kk == chars_before(s, byte as int)
                &&& line0 == newlines(s, kk)
                &&& col0 == kk - line_start(s, kk)
                &&& if closed {
                    text@ == s.subrange(line_start(s, kk), line_stop(s, line_start(s, kk)))
                } else {
                    &&& text@ == s.subrange(line_start(s, kk), it.index())
                    &&& line_stop(s, line_start(s, kk)) == line_stop(s, it.index())
                }
            },
            0 <= line_start(s, it.index()) <= it.index(),
    {
        let ghost n = it.index();
        proof {
            assert(s.take(n + 1).drop_last() =~= s.take(n));
            assert(s.take(n + 1).last() == s[n]);
        }
        if !passed && remaining == 0 {
            passed = true;
            proof {
                kk = n;
                lemma_chars_before_stable(s, n, s.len() as int, byte as int);
                assert(s.take(s.len() as int) =~= s);
            }
        }
        if !passed {
            if ch == '\n' {
                line0 += 1;
                col0 = 0;
                text = String::new();
                proof {
                    assert(text@ =~= s.subrange(n + 1, n + 1));
                }
            } else {
                col0 += 1;
                let ghost before = text@;
                text.push(ch);
                proof {
                    assert(text@ =~= s.subrange(line_start(s, n), n + 1));
                    lemma_line_stop_step(s, n);
                }
            }
            let w: usize = char_len(ch);
            remaining = if remaining > w {
                remaining - w
            } else {
                0
            };
        } else if !closed {
            if ch == '\n' {
                closed = true;
            } else {
                text.push(ch);
                proof {
                    assert(text@ =~= s.subrange(line_start(s, kk), n + 1));
                    lemma_line_stop_step(s, n);
                }
            }
        }
    }
    proof {
        assert(s.take(s.len() as int) =~= s);
    }
    let line: u128 = line0 as u128 + 1;
    let col: u128 = col0 as u128 + 1;
    let mut digits = String::new();
    push_decimal(&mut digits, line);
    assert(digits@ =~= decimal(line as nat));
    let width: usize = digits.as_str().unicode_len();
    let mut out = String::new();
    out.append("error: ");
    out.append(msg);
    out.append(" \n --> input:");
    out.append(digits.as_str());
    out.append(":");
    push_decimal(&mut out, col);
    out.append("\n");
    if width < 3 {
        push_spaces(&mut out, 3 - width);
    }
    out.append(digits.as_str());
    out.append(" | ");
    out.append(text.as_str());
    out.append("\n | ");
    push_spaces(
        &mut out,
        if width < 3 {
            3
        } else {
            width
        },
    );
    push_spaces(&mut out, col0);
    out.append("^ here");
    proof {
        assert(out@ =~= caret_message_spec(src@, byte as int, msg@));
    }
    out
}

} // verus!

