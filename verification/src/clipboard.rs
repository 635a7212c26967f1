//! Copying text to the clipboard of the terminal.
use vstd::prelude::*;

verus! {

/// The base64 digit of `d`.
pub open spec fn base64_digit(d: int) -> char {
    if d < 26 {
        ('A' as int + d) as char
    } else if d < 52 {
        ('a' as int + d - 26) as char
    } else if d < 62 {
        ('0' as int + d - 52) as char
    } else if d == 62 {
        '+'
    } else {
        '/'
    }
}

/// Bytes in base64, with padding.
pub open spec fn base64(bytes: Seq<u8>) -> Seq<char>
    decreases bytes.len(),
{
    if bytes.len() == 0 {
        Seq::empty()
    } else {
        let a = bytes[0] as int;
        let b = if bytes.len() > 1 { bytes[1] as int } else { 0 };
        let c = if bytes.len() > 2 { bytes[2] as int } else { 0 };
        let group = seq![
            base64_digit(a / 4),
            base64_digit((a % 4) * 16 + b / 16),
            if bytes.len() > 1 { base64_digit((b % 16) * 4 + c / 64) } else { '=' },
            if bytes.len() > 2 { base64_digit(c % 64) } else { '=' },
        ];
        group + base64(bytes.skip(if bytes.len() < 3 { bytes.len() as int } else { 3 }))
    }
}

/// The sequence that makes a terminal copy some bytes.
pub open spec fn copy_sequence(content: Seq<u8>) -> Seq<char> {
    "\u{1b}]52;c;"@ + base64(content) + "\u{1b}\\"@
}

/// `write_ansi` of `crossterm::clipboard::CopyToClipboard::to_clipboard_from`:
/// the operating system command 52 for the clipboard, with the bytes in base64.
#[verifier::external_body]
fn write_ansi(content: &[u8]) -> (r: String)
    ensures
        r@ == copy_sequence(content@),
{
    let mut out = String::new();
    let command = crossterm::clipboard::CopyToClipboard::to_clipboard_from(content);
    let _ = crossterm::Command::write_ansi(&command, &mut out);
    out
}

/// The sequence that makes a terminal copy some bytes.
pub fn osc52_clipboard(content: &[u8]) -> (r: String)
    ensures
        r@ == copy_sequence(content@),
{
    write_ansi(content)
}

/// The number that a base64 digit stands for.
pub open spec fn digit_value(c: char) -> int {
    if 'A' <= c && c <= 'Z' {
        c as int - 'A' as int
    } else if 'a' <= c && c <= 'z' {
        c as int - 'a' as int + 26
    } else if '0' <= c && c <= '9' {
        c as int - '0' as int + 52
    } else if c == '+' {
        62
    } else {
        63
    }
}

/// The bytes that a text in base64 stands for: three for every four digits, or
/// fewer where the last ones are filled up.
pub open spec fn from_base64(s: Seq<char>) -> Seq<u8>
    decreases s.len(),
{
    if s.len() < 4 {
        Seq::empty()
    } else {
        let a = digit_value(s[0]);
        let b = digit_value(s[1]);
        let c = digit_value(s[2]);
        let d = digit_value(s[3]);
        let first = ((a * 4 + b / 16) % 256) as u8;
        let second = (((b % 16) * 16 + c / 4) % 256) as u8;
        let third = (((c % 4) * 64 + d) % 256) as u8;
        let group = if s[2] == '=' {
            seq![first]
        } else if s[3] == '=' {
            seq![first, second]
        } else {
            seq![first, second, third]
        };
        group + from_base64(s.skip(4))
    }
}

proof fn lemma_digit(d: int)
    requires
        0 <= d < 64,
    ensures
        digit_value(base64_digit(d)) == d,
        base64_digit(d) != '=',
{
}

proof fn lemma_group(a: int, b: int, c: int)
    requires
        0 <= a < 256,
        0 <= b < 256,
        0 <= c < 256,
    ensures
        0 <= a / 4 < 64,
        0 <= (a % 4) * 16 + b / 16 < 64,
        0 <= (b % 16) * 4 + c / 64 < 64,
        0 <= c % 64 < 64,
        ((a / 4) * 4 + ((a % 4) * 16 + b / 16) / 16) % 256 == a,
        ((((a % 4) * 16 + b / 16) % 16) * 16 + ((b % 16) * 4 + c / 64) / 4) % 256 == b,
        ((((b % 16) * 4 + c / 64) % 4) * 64 + c % 64) % 256 == c,
{
}

/// What a terminal is handed in base64 are the bytes that are to be copied.
pub proof fn law_base64_stands_for_its_bytes(bytes: Seq<u8>)
    ensures
        from_base64(base64(bytes)) == bytes,
        base64(bytes).len() % 4 == 0,
    decreases bytes.len(),
{
    if bytes.len() == 0 {
        assert(from_base64(base64(bytes)) =~= bytes);
    } else {
        let a = bytes[0] as int;
        let b = if bytes.len() > 1 {
            bytes[1] as int
        } else {
            0
        };
        let c = if bytes.len() > 2 {
            bytes[2] as int
        } else {
            0
        };
        let taken = if bytes.len() < 3 {
            bytes.len() as int
        } else {
            3
        };
        let rest = bytes.skip(taken);
        law_base64_stands_for_its_bytes(rest);
        let s = base64(bytes);
        lemma_group(a, b, c);
        lemma_digit(a / 4);
        lemma_digit((a % 4) * 16 + b / 16);
        lemma_digit((b % 16) * 4 + c / 64);
        lemma_digit(c % 64);
        let group = seq![
            base64_digit(a / 4),
            base64_digit((a % 4) * 16 + b / 16),
            if bytes.len() > 1 { base64_digit((b % 16) * 4 + c / 64) } else { '=' },
            if bytes.len() > 2 { base64_digit(c % 64) } else { '=' },
        ];
        assert(s == group + base64(rest));
        assert(s[0] == group[0] && s[1] == group[1] && s[2] == group[2] && s[3] == group[3]);
        assert(s.skip(4) =~= base64(rest));
        let front = bytes.take(taken);
        if bytes.len() == 1 {
            assert(from_base64(s) == seq![bytes[0]] + rest);
            assert(front =~= seq![bytes[0]]);
        } else if bytes.len() == 2 {
            assert(from_base64(s) == seq![bytes[0], bytes[1]] + rest);
            assert(front =~= seq![bytes[0], bytes[1]]);
        } else {
            assert(from_base64(s) == seq![bytes[0], bytes[1], bytes[2]] + rest);
            assert(front =~= seq![bytes[0], bytes[1], bytes[2]]);
        }
        assert(front + rest =~= bytes);
    }
}

/// The sequence for the terminal is the command that copies to the clipboard, with
/// the text in base64 between its start and its end.
pub proof fn law_what_the_terminal_is_handed(content: Seq<u8>)
    ensures
        ({
            let sent = copy_sequence(content);
            let n = base64(content).len() as int;
            &&& sent.len() == 7 + n + 2
            &&& sent.take(7) == seq!['\u{1b}', ']', '5', '2', ';', 'c', ';']
            &&& from_base64(sent.subrange(7, 7 + n)) == content
            &&& sent.skip(7 + n) == seq!['\u{1b}', '\\']
        }),
{
    reveal_strlit("\u{1b}]52;c;");
    reveal_strlit("\u{1b}\\");
    law_base64_stands_for_its_bytes(content);
    let sent = copy_sequence(content);
    let n = base64(content).len() as int;
    assert(sent.take(7) =~= seq!['\u{1b}', ']', '5', '2', ';', 'c', ';']);
    assert(sent.subrange(7, 7 + n) =~= base64(content));
    assert(sent.skip(7 + n) =~= seq!['\u{1b}', '\\']);
}

} // verus!
