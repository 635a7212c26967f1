//! Numbers in decimal, padding, and trimming of white space.
use vstd::prelude::*;

use crate::geometry;
use crate::text;
use crate::viewport;

verus! {

/// The decimal digit of `d`.
pub open spec fn digit(d: int) -> char {
    ('0' as int + d) as char
}

/// `n` in decimal.
pub open spec fn decimal(n: int) -> Seq<char>
    decreases n,
{
    if n < 10 {
        seq![digit(n)]
    } else {
        decimal(n / 10).push(digit(n % 10))
    }
}

/// `n` in decimal, with a sign where it is negative.
pub open spec fn signed_decimal(n: int) -> Seq<char> {
    if n < 0 {
        seq!['-'] + decimal(-n)
    } else {
        decimal(n)
    }
}

/// The digit character of `d`.
fn digit_char(d: u64) -> (c: char)
    requires
        d < 10,
    ensures
        c == digit(d as int),
{
    let byte: u8 = 48u8 + d as u8;
    byte as char
}

/// Appends `n` in decimal.
pub fn push_decimal(out: &mut String, n: u64)
    ensures
        final(out)@ == old(out)@ + decimal(n as int),
    decreases n,
{
    if n >= 10 {
        push_decimal(out, n / 10);
    }
    let ghost before = out@;
    let c: char = digit_char(n % 10);
    out.push(c);
    assert(out@ =~= old(out)@ + decimal(n as int));
}

/// Appends `n` in decimal, with its sign.
pub fn push_signed_decimal(out: &mut String, n: i32)
    ensures
        final(out)@ == old(out)@ + signed_decimal(n as int),
{
    if n < 0 {
        out.push('-');
        let wide: i64 = n as i64;
        push_decimal(out, (-wide) as u64);
        assert(out@ =~= old(out)@ + signed_decimal(n as int));
    } else {
        push_decimal(out, n as u64);
    }
}

/// `s`, at most `width` characters of it, filled up with spaces to `width`
/// characters.
pub open spec fn padded_right(s: Seq<char>, width: int) -> Seq<char> {
    let shown = s.take(geometry::least(s.len() as int, width));
    shown + viewport::spaces(width - shown.len())
}

/// `s`, at most `width` characters of it, behind enough spaces to make `width`
/// characters.
pub open spec fn padded_left(s: Seq<char>, width: int) -> Seq<char> {
    let shown = s.take(geometry::least(s.len() as int, width));
    viewport::spaces(width - shown.len()) + shown
}

/// At most the first `width` characters of `s`.
fn first_chars(s: &str, width: usize) -> (r: (String, usize))
    ensures
        r.0@ == s@.take(geometry::least(s@.len() as int, width as int)),
        r.1 == r.0@.len(),
        r.1 <= width,
{
    let mut out: String = String::new();
    let mut n: usize = 0;
    assert(out@ =~= s@.take(0));
    for c in it: s.chars()
        invariant
            it.seq() == s@,
            n <= width,
            n == geometry::least(it.index() as int, width as int),
            out@ == s@.take(n as int),
    {
        if n < width {
            out.push(c);
            assert(out@ =~= s@.take(n + 1));
            n += 1;
        }
    }
    (out, n)
}

/// `s` filled up on the right to `width` characters.
pub fn pad_right(s: &str, width: usize) -> (r: String)
    ensures
        r@ == padded_right(s@, width as int),
{
    let (mut out, n) = first_chars(s, width);
    viewport::push_spaces(&mut out, width - n);
    out
}

/// `s` filled up on the left to `width` characters.
pub fn pad_left(s: &str, width: usize) -> (r: String)
    ensures
        r@ == padded_left(s@, width as int),
{
    let (shown, n) = first_chars(s, width);
    let mut out: String = String::new();
    viewport::push_spaces(&mut out, width - n);
    out.append(shown.as_str());
    assert(out@ =~= padded_left(s@, width as int));
    out
}

/// Whether a character is white space in Unicode.
pub open spec fn white(c: char) -> bool {
    ||| ('\u{9}' <= c && c <= '\u{d}')
    ||| c == ' '
    ||| c == '\u{85}'
    ||| c == '\u{a0}'
    ||| c == '\u{1680}'
    ||| ('\u{2000}' <= c && c <= '\u{200a}')
    ||| c == '\u{2028}'
    ||| c == '\u{2029}'
    ||| c == '\u{202f}'
    ||| c == '\u{205f}'
    ||| c == '\u{3000}'
}

/// Whether a character is white space in Unicode.
pub fn is_white(c: char) -> (r: bool)
    ensures
        r == white(c),
{
    ('\u{9}' <= c && c <= '\u{d}') || c == ' ' || c == '\u{85}' || c == '\u{a0}' || c == '\u{1680}'
        || ('\u{2000}' <= c && c <= '\u{200a}') || c == '\u{2028}' || c == '\u{2029}' || c
        == '\u{202f}' || c == '\u{205f}' || c == '\u{3000}'
}

/// `s` without the white space at its end.
pub open spec fn end_trimmed(s: Seq<char>) -> Seq<char>
    decreases s.len(),
{
    if s.len() > 0 && white(s.last()) {
        end_trimmed(s.drop_last())
    } else {
        s
    }
}

/// `s` without the white space at its start.
pub open spec fn start_trimmed(s: Seq<char>) -> Seq<char>
    decreases s.len(),
{
    if s.len() > 0 && white(s[0]) {
        start_trimmed(s.drop_first())
    } else {
        s
    }
}

/// `s` without the white space at both ends.
pub open spec fn trimmed(s: Seq<char>) -> Seq<char> {
    end_trimmed(start_trimmed(s))
}

proof fn lemma_end_trimmed(s: Seq<char>, n: int)
    requires
        0 <= n <= s.len(),
        n > 0 ==> !white(s[n - 1]),
        forall|k: int| n <= k < s.len() ==> white(#[trigger] s[k]),
    ensures
        end_trimmed(s) == s.take(n),
    decreases s.len(),
{
    if n < s.len() {
        assert(white(s[s.len() - 1]));
        lemma_end_trimmed(s.drop_last(), n);
        assert(s.drop_last().take(n) =~= s.take(n));
    } else {
        assert(s.take(n) =~= s);
    }
}

proof fn lemma_start_trimmed(s: Seq<char>, n: int)
    requires
        0 <= n <= s.len(),
        n < s.len() ==> !white(s[n]),
        forall|k: int| 0 <= k < n ==> white(#[trigger] s[k]),
    ensures
        start_trimmed(s) == s.skip(n),
    decreases s.len(),
{
    if n > 0 {
        assert(white(s[0]));
        lemma_start_trimmed(s.drop_first(), n - 1);
        assert(s.drop_first().skip(n - 1) =~= s.skip(n));
    } else {
        assert(s.skip(0) =~= s);
    }
}

/// `s` without the white space at its end.
pub fn trim_end(s: &str) -> (r: &str)
    ensures
        r@ == end_trimmed(s@),
{
    let limit: usize = s.as_bytes().len();
    let mut at: usize = 0;
    let mut end: usize = 0;
    let ghost mut n: int = 0;
    proof {
        text::lemma_byte_pos_mono(s@, 0, 0);
    }
    for c in it: s.chars()
        invariant
            it.seq() == s@,
            limit == text::byte_len(s@),
            at == text::byte_pos(s@, it.index() as int),
            0 <= n <= it.index() <= s@.len(),
            end == text::byte_pos(s@, n),
            n > 0 ==> !white(s@[n - 1]),
            forall|k: int| n <= k < it.index() ==> white(#[trigger] s@[k]),
    {
        proof {
            text::lemma_byte_pos_step(s@, it.index() as int);
        }
        at = at + text::utf8_len(c);
        if !is_white(c) {
            end = at;
            proof {
                n = it.index() + 1;
            }
        }
    }
    proof {
        lemma_end_trimmed(s@, n);
        text::lemma_char_pos(s@, n);
        text::lemma_ends_on_boundary(s@);
        text::lemma_byte_pos_mono(s@, 0, n);
        assert(s@.subrange(0, n) =~= s@.take(n));
    }
    text::slice(s, 0, end)
}

/// `s` without the white space at its start.
pub fn trim_start(s: &str) -> (r: &str)
    ensures
        r@ == start_trimmed(s@),
{
    let limit: usize = s.as_bytes().len();
    let mut start: usize = 0;
    let mut inside: bool = false;
    let ghost mut n: int = 0;
    proof {
        text::lemma_byte_pos_mono(s@, 0, 0);
    }
    for c in it: s.chars()
        invariant
            it.seq() == s@,
            limit == text::byte_len(s@),
            start == text::byte_pos(s@, n),
            0 <= n <= it.index() <= s@.len(),
            !inside ==> n == it.index(),
            inside ==> n < it.index() && !white(s@[n]),
            forall|k: int| 0 <= k < n ==> white(#[trigger] s@[k]),
    {
        if !inside {
            if is_white(c) {
                proof {
                    text::lemma_byte_pos_step(s@, it.index() as int);
                    n = n + 1;
                }
                start = start + text::utf8_len(c);
            } else {
                inside = true;
            }
        }
    }
    proof {
        lemma_start_trimmed(s@, n);
        text::lemma_char_pos(s@, n);
        text::lemma_ends_on_boundary(s@);
        text::lemma_byte_pos_mono(s@, n, s@.len() as int);
        assert(s@.subrange(n, s@.len() as int) =~= s@.skip(n));
    }
    text::slice(s, start, limit)
}

/// `s` without the white space at both ends.
pub fn trim(s: &str) -> (r: &str)
    ensures
        r@ == trimmed(s@),
{
    trim_end(trim_start(s))
}

/// What a text starts with, up to its first white space.
pub open spec fn leading_word(s: Seq<char>) -> Seq<char>
    decreases s.len(),
{
    if s.len() > 0 && !white(s[0]) {
        seq![s[0]] + leading_word(s.drop_first())
    } else {
        Seq::empty()
    }
}

/// The first word of a text; empty where there is none.
pub open spec fn first_word(s: Seq<char>) -> Seq<char> {
    leading_word(start_trimmed(s))
}

pub proof fn lemma_leading_word(s: Seq<char>, n: int)
    requires
        0 <= n <= s.len(),
        n < s.len() ==> white(s[n]),
        forall|k: int| 0 <= k < n ==> !white(#[trigger] s[k]),
    ensures
        leading_word(s) == s.take(n),
    decreases s.len(),
{
    if n > 0 {
        assert(!white(s[0]));
        lemma_leading_word(s.drop_first(), n - 1);
        assert(seq![s[0]] + s.drop_first().take(n - 1) =~= s.take(n));
    } else {
        assert(s.take(0) =~= Seq::<char>::empty());
    }
}

/// The first word of a text; empty where there is none.
pub fn word(s: &str) -> (r: String)
    ensures
        r@ == first_word(s@),
{
    let rest: &str = trim_start(s);
    let mut out: String = String::new();
    let mut inside: bool = true;
    assert(out@ =~= rest@.take(0));
    for c in it: rest.chars()
        invariant
            it.seq() == rest@,
            out@.len() <= it.index() <= rest@.len(),
            out@ == rest@.take(out@.len() as int),
            inside ==> out@.len() == it.index(),
            !inside ==> out@.len() < it.index() && white(rest@[out@.len() as int]),
            forall|k: int| 0 <= k < out@.len() ==> !white(#[trigger] rest@[k]),
    {
        if inside {
            if is_white(c) {
                inside = false;
            } else {
                out.push(c);
                assert(out@ =~= rest@.take(out@.len() as int));
            }
        }
    }
    proof {
        lemma_leading_word(rest@, out@.len() as int);
    }
    out
}

/// An ASCII letter in lower case; other characters stay.
pub open spec fn lower(c: char) -> char {
    if 'A' <= c && c <= 'Z' {
        ((c as int) + 32) as char
    } else {
        c
    }
}

/// A text with its ASCII letters in lower case.
pub open spec fn lowered(s: Seq<char>) -> Seq<char> {
    s.map_values(|c: char| lower(c))
}

/// An ASCII letter in lower case.
pub fn to_lower(c: char) -> (r: char)
    ensures
        r == lower(c),
{
    if 'A' <= c && c <= 'Z' {
        let byte: u8 = c as u8;
        (byte + 32u8) as char
    } else {
        c
    }
}

/// A text with its ASCII letters in lower case.
pub fn lower_text(s: &str) -> (r: String)
    ensures
        r@ == lowered(s@),
{
    let mut out: String = String::new();
    for c in it: s.chars()
        invariant
            it.seq() == s@,
            out@ == lowered(s@).take(it.index() as int),
    {
        out.push(to_lower(c));
        assert(out@ =~= lowered(s@).take(it.index() + 1));
    }
    assert(lowered(s@).take(s@.len() as int) =~= lowered(s@));
    out
}

} // verus!
