//! Rewriting of mathematical symbols to the ASCII spelling that the lexer
//! reads.

use vstd::prelude::*;

verus! {

/// The ASCII spelling of a character: that of the operator or constant for
/// the symbols listed here, the character itself for every other.
pub open spec fn ascii_spelling(c: char) -> Seq<char> {
    if c == '\u{00A0}' {
        seq![' ']
    } else if c == '\u{2227}' {
        seq!['&', '&']
    } else if c == '\u{2228}' {
        seq!['|', '|']
    } else if c == '\u{00AC}' {
        seq!['!']
    } else if c == '\u{2260}' {
        seq!['!', '=']
    } else if c == '\u{2264}' {
        seq!['<', '=']
    } else if c == '\u{2265}' {
        seq!['>', '=']
    } else if c == '\u{2192}' || c == '\u{21D2}' {
        seq!['-', '>']
    } else if c == '\u{2212}' {
        seq!['-']
    } else if c == '\u{00D7}' || c == '\u{2217}' {
        seq!['*']
    } else if c == '\u{00F7}' {
        seq!['/']
    } else if c == '\u{221E}' {
        seq!['i', 'n', 'f']
    } else if c == '\u{2261}' {
        seq!['=', '=']
    } else {
        seq![c]
    }
}

/// The text in which every character is replaced by its ASCII spelling.
pub open spec fn normalize_spec(s: Seq<char>) -> Seq<char>
    decreases s.len(),
{
    if s.len() == 0 {
        Seq::empty()
    } else {
        normalize_spec(s.drop_last()) + ascii_spelling(s.last())
    }
}

/// Rewrites the symbols of `src` to ASCII: the no-break space to a space, the
/// signs for and, or, not, the comparisons, the arrows, minus, times, divided
/// by and identity to their operators, and the infinity sign to `inf`.
pub fn normalize_unicode_to_ascii(src: &str) -> (out: String)
    ensures
        out@ == normalize_spec(src@),
{
    broadcast use vstd::string::group_string_axioms;

    let mut out = String::new();
    let chars = src.chars();
    for ch in it: chars
        invariant
            it.seq() == src@,
            out@ == normalize_spec(src@.take(it.index() as int)),
    {
        let ghost before = out@;
        if ch == '\u{00A0}' {
            out.push(' ');
        } else if ch == '\u{2227}' {
            out.push('&');
            out.push('&');
        } else if ch == '\u{2228}' {
            out.push('|');
            out.push('|');
        } else if ch == '\u{00AC}' {
            out.push('!');
        } else if ch == '\u{2260}' {
            out.push('!');
            out.push('=');
        } else if ch == '\u{2264}' {
            out.push('<');
            out.push('=');
        } else if ch == '\u{2265}' {
            out.push('>');
            out.push('=');
        } else if ch == '\u{2192}' || ch == '\u{21D2}' {
            out.push('-');
            out.push('>');
        } else if ch == '\u{2212}' {
            out.push('-');
        } else if ch == '\u{00D7}' || ch == '\u{2217}' {
            out.push('*');
        } else if ch == '\u{00F7}' {
            out.push('/');
        } else if ch == '\u{221E}' {
            out.push('i');
            out.push('n');
            out.push('f');
        } else if ch == '\u{2261}' {
            out.push('=');
            out.push('=');
        } else {
            out.push(ch);
        }
        proof {
            assert(out@ =~= before + ascii_spelling(ch));
            let k = it.index() as int;
            assert(src@.take(k + 1).drop_last() =~= src@.take(k));
        }
    }
    assert(src@.take(src@.len() as int) =~= src@);
    out
}

/// Normalizing a text of two parts normalizes the parts.
pub proof fn lemma_normalize_concat(a: Seq<char>, b: Seq<char>)
    ensures
        normalize_spec(a + b) == normalize_spec(a) + normalize_spec(b),
    decreases b.len(),
{
    if b.len() == 0 {
        assert(a + b =~= a);
        assert(normalize_spec(a) + normalize_spec(b) =~= normalize_spec(a));
    } else {
        lemma_normalize_concat(a, b.drop_last());
        assert((a + b).drop_last() =~= a + b.drop_last());
        assert((a + b).last() == b.last());
        assert(normalize_spec(a + b) =~= normalize_spec(a) + normalize_spec(b));
    }
}

/// The spelling of a character holds none of the symbols that are rewritten.
proof fn lemma_spelling_is_fixed(c: char)
    ensures
        normalize_spec(ascii_spelling(c)) == ascii_spelling(c),
{
    let s = ascii_spelling(c);
    reveal_with_fuel(normalize_spec, 4);
    if s.len() == 1 {
        assert(s.drop_last() =~= Seq::<char>::empty());
        assert(normalize_spec(s) =~= s);
    } else if s.len() == 2 {
        assert(s.drop_last() =~= seq![s[0]]);
        assert(s.drop_last().drop_last() =~= Seq::<char>::empty());
        assert(normalize_spec(s) =~= s);
    } else {
        assert(s.drop_last() =~= seq![s[0], s[1]]);
        assert(s.drop_last().drop_last() =~= seq![s[0]]);
        assert(s.drop_last().drop_last().drop_last() =~= Seq::<char>::empty());
        assert(normalize_spec(s) =~= s);
    }
}

/// Normalizing is idempotent: a normalized text holds nothing that is
/// rewritten again.
pub proof fn law_normalize_idempotent(s: Seq<char>)
    ensures
        normalize_spec(normalize_spec(s)) == normalize_spec(s),
    decreases s.len(),
{
    if s.len() > 0 {
        law_normalize_idempotent(s.drop_last());
        lemma_normalize_concat(normalize_spec(s.drop_last()), ascii_spelling(s.last()));
        lemma_spelling_is_fixed(s.last());
    }
}

} // verus!

