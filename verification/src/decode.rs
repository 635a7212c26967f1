//! Incremental UTF-8 decoding.
//!
//! A byte stream is read one step at a time: a step yields a character, finds
//! an invalid sequence, or needs bytes that have not arrived yet. Invalid
//! sequences become U+FFFD, one per maximal prefix of a character encoding.
use vstd::prelude::*;
use vstd::utf8::*;


verus! {

/// What a byte stream starts with.
#[derive(Clone, Copy, Debug)]
pub enum Step {
    /// A character, encoded in `len` bytes.
    Char { value: char, len: usize },
    /// `len` bytes that start no character encoding.
    Invalid { len: usize },
    /// The start of a character encoding whose remaining bytes are missing.
    Incomplete,
}

/// The character that stands for an invalid sequence.
pub const REPLACEMENT: char = '\u{fffd}';

/// Number of bytes of an encoding that starts with `lead`, or zero where no
/// encoding starts with it.
pub open spec fn sequence_len(lead: u8) -> int {
    if lead <= 0x7f {
        1
    } else if 0xc2 <= lead <= 0xdf {
        2
    } else if 0xe0 <= lead <= 0xef {
        3
    } else if 0xf0 <= lead <= 0xf4 {
        4
    } else {
        0
    }
}

/// Whether `second` can follow `lead`: a continuation byte that makes neither
/// an overlong encoding nor a surrogate nor a value beyond U+10FFFF.
pub open spec fn second_fits(lead: u8, second: u8) -> bool {
    &&& is_continuation_byte(second)
    &&& lead == 0xe0 ==> 0xa0 <= second
    &&& lead == 0xed ==> second <= 0x9f
    &&& lead == 0xf0 ==> 0x90 <= second
    &&& lead == 0xf4 ==> second <= 0x8f
}

/// What the nonempty stream `s` starts with.
pub open spec fn first_step(s: Seq<u8>) -> Step {
    let n = sequence_len(s[0]);
    let whole = Step::Char { value: decode_first_codepoint(s) as char, len: n as usize };
    if n == 0 {
        Step::Invalid { len: 1 }
    } else if n == 1 {
        whole
    } else if s.len() < 2 {
        Step::Incomplete
    } else if !second_fits(s[0], s[1]) {
        Step::Invalid { len: 1 }
    } else if n == 2 {
        whole
    } else if s.len() < 3 {
        Step::Incomplete
    } else if !is_continuation_byte(s[2]) {
        Step::Invalid { len: 2 }
    } else if n == 3 {
        whole
    } else if s.len() < 4 {
        Step::Incomplete
    } else if !is_continuation_byte(s[3]) {
        Step::Invalid { len: 3 }
    } else {
        whole
    }
}

/// Number of bytes that a step reads.
pub open spec fn step_len(step: Step) -> int {
    match step {
        Step::Char { value, len } => len as int,
        Step::Invalid { len } => len as int,
        Step::Incomplete => 0,
    }
}

/// The character that a step yields.
pub open spec fn step_char(step: Step) -> char {
    match step {
        Step::Char { value, len } => value,
        _ => REPLACEMENT,
    }
}

/// The characters that the stream `s` decodes to.
pub open spec fn decoded(s: Seq<u8>) -> Seq<char>
    decreases s.len(),
{
    if s.len() == 0 || first_step(s) is Incomplete {
        Seq::empty()
    } else {
        let step = first_step(s);
        seq![step_char(step)] + decoded(s.skip(step_len(step)))
    }
}

/// The bytes at the end of the stream `s` that start a character and do not
/// finish it.
pub open spec fn pending(s: Seq<u8>) -> Seq<u8>
    decreases s.len(),
{
    if s.len() == 0 || first_step(s) is Incomplete {
        s
    } else {
        pending(s.skip(step_len(first_step(s))))
    }
}

/// Whether a stream holds valid UTF-8 and nothing else.
pub open spec fn all_valid(s: Seq<u8>) -> bool
    decreases s.len(),
{
    s.len() == 0 || {
        let step = first_step(s);
        step is Char && all_valid(s.skip(step_len(step)))
    }
}

/// The text of `s`, with U+FFFD for what is not valid, an unfinished end
/// included.
pub open spec fn lossy(s: Seq<u8>) -> Seq<char> {
    if pending(s).len() == 0 {
        decoded(s)
    } else {
        decoded(s).push(REPLACEMENT)
    }
}

proof fn lemma_scalar_2(b1: u8, b2: u8)
    by (bit_vector)
    requires
        0xc2 <= b1 <= 0xdf,
        0x80 <= b2 <= 0xbf,
    ensures
        0x80 <= (((b1 & 0x1F) as u32) << 6) | ((b2 & 0x3f) as u32) <= 0x7FF,
{
}

proof fn lemma_scalar_3(b1: u8, b2: u8, b3: u8)
    by (bit_vector)
    requires
        0xe0 <= b1 <= 0xef,
        0x80 <= b2 <= 0xbf,
        0x80 <= b3 <= 0xbf,
        b1 == 0xe0 ==> 0xa0 <= b2,
        b1 == 0xed ==> b2 <= 0x9f,
    ensures
        0x800 <= (((b1 & 0x0F) as u32) << 12) | (((b2 & 0x3f) as u32) << 6) | ((b3 & 0x3f) as u32)
            <= 0xFFFF,
        !(0xD800 <= (((b1 & 0x0F) as u32) << 12) | (((b2 & 0x3f) as u32) << 6) | ((b3
            & 0x3f) as u32) <= 0xDFFF),
{
}

proof fn lemma_scalar_4(b1: u8, b2: u8, b3: u8, b4: u8)
    by (bit_vector)
    requires
        0xf0 <= b1 <= 0xf4,
        0x80 <= b2 <= 0xbf,
        0x80 <= b3 <= 0xbf,
        0x80 <= b4 <= 0xbf,
        b1 == 0xf0 ==> 0x90 <= b2,
        b1 == 0xf4 ==> b2 <= 0x8f,
    ensures
        0x10000 <= (((b1 & 0x07) as u32) << 18) | (((b2 & 0x3f) as u32) << 12) | (((b3
            & 0x3f) as u32) << 6) | ((b4 & 0x3f) as u32) <= 0x10FFFF,
{
}

proof fn lemma_scalar_1(b1: u8)
    by (bit_vector)
    requires
        b1 <= 0x7f,
    ensures
        ((b1 & 0x7F) as u32) == b1 as u32,
{
}

/// A character step reads a valid encoding of its character.
pub proof fn lemma_char_step(s: Seq<u8>)
    requires
        s.len() > 0,
        first_step(s) is Char,
    ensures
        valid_first_scalar(s),
        first_step(s)->value == decode_first_scalar(s) as char,
        first_step(s)->Char_len == length_of_first_scalar(s),
        is_scalar(decode_first_codepoint(s)),
        encode_scalar(first_step(s)->value as u32) == s.take(step_len(first_step(s))),
{
    let n = sequence_len(s[0]);
    if n == 1 {
        lemma_scalar_1(s[0]);
    } else if n == 2 {
        lemma_scalar_2(s[0], s[1]);
    } else if n == 3 {
        lemma_scalar_3(s[0], s[1], s[2]);
    } else {
        lemma_scalar_4(s[0], s[1], s[2], s[3]);
    }
    let first = take_first_scalar(s);
    assert(first =~= s.take(n));
    assert(first.len() == n);
    assert(valid_utf8(pop_first_scalar(first))) by {
        assert(pop_first_scalar(first).len() == 0);
    }
    assert(valid_first_scalar(first));
    decode_utf8_first_scalar(first);
    assert(take_first_scalar(first) =~= first);
}

/// A step reads between one and four bytes, all of them there.
pub proof fn lemma_step_len(s: Seq<u8>)
    requires
        s.len() > 0,
    ensures
        !(first_step(s) is Incomplete) ==> 1 <= step_len(first_step(s)) <= s.len(),
        first_step(s) is Incomplete ==> s.len() <= 3,
{
}

proof fn lemma_fits_2(b1: u8, b2: u8)
    by (bit_vector)
    requires
        0xc0 <= b1 <= 0xdf,
        0x80 <= b2 <= 0xbf,
        0x80 <= (((b1 & 0x1F) as u32) << 6) | ((b2 & 0x3f) as u32),
    ensures
        0xc2 <= b1,
{
}

proof fn lemma_fits_3(b1: u8, b2: u8, b3: u8)
    by (bit_vector)
    requires
        0xe0 <= b1 <= 0xef,
        0x80 <= b2 <= 0xbf,
        0x80 <= b3 <= 0xbf,
        0x800 <= (((b1 & 0x0F) as u32) << 12) | (((b2 & 0x3f) as u32) << 6) | ((b3 & 0x3f) as u32),
        !(0xD800 <= (((b1 & 0x0F) as u32) << 12) | (((b2 & 0x3f) as u32) << 6) | ((b3
            & 0x3f) as u32) <= 0xDFFF),
    ensures
        b1 == 0xe0 ==> 0xa0 <= b2,
        b1 == 0xed ==> b2 <= 0x9f,
{
}

proof fn lemma_fits_4(b1: u8, b2: u8, b3: u8, b4: u8)
    by (bit_vector)
    requires
        0xf0 <= b1 <= 0xf7,
        0x80 <= b2 <= 0xbf,
        0x80 <= b3 <= 0xbf,
        0x80 <= b4 <= 0xbf,
        0x10000 <= (((b1 & 0x07) as u32) << 18) | (((b2 & 0x3f) as u32) << 12) | (((b3
            & 0x3f) as u32) << 6) | ((b4 & 0x3f) as u32) <= 0x10FFFF,
    ensures
        b1 <= 0xf4,
        b1 == 0xf0 ==> 0x90 <= b2,
        b1 == 0xf4 ==> b2 <= 0x8f,
{
}

/// A stream that starts with a valid encoding yields a character.
pub proof fn lemma_valid_first(s: Seq<u8>)
    requires
        s.len() > 0,
        valid_first_scalar(s),
    ensures
        first_step(s) is Char,
{
    if is_leading_byte_width_2(s[0]) {
        lemma_fits_2(s[0], s[1]);
    } else if is_leading_byte_width_3(s[0]) {
        lemma_fits_3(s[0], s[1], s[2]);
    } else if is_leading_byte_width_4(s[0]) {
        lemma_fits_4(s[0], s[1], s[2], s[3]);
    }
}

/// More bytes do not change a step that was finished without them.
pub proof fn lemma_step_append(s: Seq<u8>, t: Seq<u8>)
    requires
        s.len() > 0,
        !(first_step(s) is Incomplete),
    ensures
        first_step(s + t) == first_step(s),
        (s + t).skip(step_len(first_step(s))) == s.skip(step_len(first_step(s))) + t,
{
    lemma_step_len(s);
    let n = sequence_len(s[0]);
    assert((s + t)[0] == s[0]);
    if s.len() >= 2 {
        assert((s + t)[1] == s[1]);
    }
    if s.len() >= 3 {
        assert((s + t)[2] == s[2]);
    }
    if s.len() >= 4 {
        assert((s + t)[3] == s[3]);
    }
    if first_step(s) is Char {
        assert(decode_first_codepoint(s + t) == decode_first_codepoint(s));
    }
    assert((s + t).skip(step_len(first_step(s))) =~= s.skip(step_len(first_step(s))) + t);
}

/// A character is read from its own bytes: what follows them does not matter.
pub proof fn lemma_step_prefix(s: Seq<u8>, n: int)
    requires
        s.len() > 0,
        first_step(s) is Char,
        step_len(first_step(s)) <= n <= s.len(),
    ensures
        first_step(s.take(n)) == first_step(s),
{
    lemma_step_len(s);
    let front = s.take(n);
    assert(front[0] == s[0]);
    if n >= 2 {
        assert(front[1] == s[1]);
    }
    if n >= 3 {
        assert(front[2] == s[2]);
    }
    if n >= 4 {
        assert(front[3] == s[3]);
    }
    assert(decode_first_codepoint(front) == decode_first_codepoint(s));
}

/// Where a stream is cut does not matter: decoding `s`, and then what was left
/// of it together with `t`, gives what decoding all at once gives.
pub proof fn law_decode_in_pieces(s: Seq<u8>, t: Seq<u8>)
    ensures
        decoded(s + t) == decoded(s) + decoded(pending(s) + t),
        pending(s + t) == pending(pending(s) + t),
    decreases s.len(),
{
    if s.len() == 0 || first_step(s) is Incomplete {
        assert(decoded(s) + decoded(s + t) =~= decoded(s + t));
    } else {
        let step = first_step(s);
        let rest = s.skip(step_len(step));
        lemma_step_len(s);
        lemma_step_append(s, t);
        law_decode_in_pieces(rest, t);
        assert(decoded(s + t) =~= decoded(s) + decoded(pending(s) + t));
    }
}

/// Between calls at most three bytes wait for the rest of their character.
pub proof fn law_pending_is_short(s: Seq<u8>)
    ensures
        pending(s).len() <= 3,
        pending(s).len() <= s.len(),
        decoded(pending(s)) == Seq::<char>::empty(),
        pending(pending(s)) == pending(s),
    decreases s.len(),
{
    if s.len() == 0 || first_step(s) is Incomplete {
    } else {
        lemma_step_len(s);
        law_pending_is_short(s.skip(step_len(first_step(s))));
    }
}

/// Valid UTF-8 decodes to the text it encodes, with no byte left over and no
/// character replaced.
pub proof fn law_decode_valid_text(chars: Seq<char>)
    ensures
        decoded(encode_utf8(chars)) == chars,
        pending(encode_utf8(chars)) == Seq::<u8>::empty(),
        lossy(encode_utf8(chars)) == chars,
{
    encode_utf8_valid_utf8(chars);
    lemma_all_valid(encode_utf8(chars));
    lemma_decode_valid(encode_utf8(chars));
    encode_utf8_decode_utf8(chars);
}

/// A stream yields characters only, exactly where it is valid UTF-8.
pub proof fn lemma_all_valid(s: Seq<u8>)
    ensures
        all_valid(s) == valid_utf8(s),
    decreases s.len(),
{
    if s.len() > 0 {
        lemma_step_len(s);
        if first_step(s) is Char {
            lemma_char_step(s);
            lemma_all_valid(s.skip(step_len(first_step(s))));
            assert(pop_first_scalar(s) =~= s.skip(step_len(first_step(s))));
        } else if valid_first_scalar(s) {
            lemma_valid_first(s);
        }
    }
}

pub proof fn lemma_decode_valid(s: Seq<u8>)
    requires
        all_valid(s),
    ensures
        valid_utf8(s),
        decoded(s) == decode_utf8(s),
        pending(s) == Seq::<u8>::empty(),
    decreases s.len(),
{
    lemma_all_valid(s);
    if s.len() > 0 {
        lemma_step_len(s);
        lemma_char_step(s);
        let rest = s.skip(step_len(first_step(s)));
        lemma_decode_valid(rest);
        assert(pop_first_scalar(s) =~= rest);
        assert(decoded(s) =~= decode_utf8(s));
    } else {
        assert(decoded(s) =~= decode_utf8(s));
        assert(pending(s) =~= Seq::<u8>::empty());
    }
}

/// Reads one step of `bytes`, from offset `at`.
pub fn step_at(bytes: &[u8], at: usize) -> (step: Step)
    requires
        at < bytes@.len(),
    ensures
        step == first_step(bytes@.skip(at as int)),
{
    let ghost s = bytes@.skip(at as int);
    let n: usize = bytes.len() - at;
    let lead: u8 = bytes[at];
    if lead <= 0x7f {
        proof {
            lemma_scalar_1(lead);
            lemma_char_step(s);
        }
        return Step::Char { value: lead as char, len: 1 };
    }
    if lead < 0xc2 || lead > 0xf4 {
        return Step::Invalid { len: 1 };
    }
    if n < 2 {
        return Step::Incomplete;
    }
    let second: u8 = bytes[at + 1];
    if second < 0x80 || second > 0xbf || (lead == 0xe0 && second < 0xa0) || (lead == 0xed && second
        > 0x9f) || (lead == 0xf0 && second < 0x90) || (lead == 0xf4 && second > 0x8f) {
        return Step::Invalid { len: 1 };
    }
    let high: u32 = (second & 0x3f) as u32;
    if lead <= 0xdf {
        proof {
            lemma_char_step(s);
        }
        let value: u32 = (((lead & 0x1F) as u32) << 6) | high;
        return char_step(value, 2);
    }
    if n < 3 {
        return Step::Incomplete;
    }
    let third: u8 = bytes[at + 2];
    if third < 0x80 || third > 0xbf {
        return Step::Invalid { len: 2 };
    }
    let middle: u32 = (third & 0x3f) as u32;
    if lead <= 0xef {
        proof {
            lemma_char_step(s);
        }
        let value: u32 = (((lead & 0x0F) as u32) << 12) | (high << 6) | middle;
        return char_step(value, 3);
    }
    if n < 4 {
        return Step::Incomplete;
    }
    let fourth: u8 = bytes[at + 3];
    if fourth < 0x80 || fourth > 0xbf {
        return Step::Invalid { len: 3 };
    }
    proof {
        lemma_char_step(s);
    }
    let value: u32 = (((lead & 0x07) as u32) << 18) | (high << 12) | (middle << 6) | ((fourth
        & 0x3f) as u32);
    char_step(value, 4)
}

/// The step that reads the scalar `value` from `len` bytes.
fn char_step(value: u32, len: usize) -> (step: Step)
    requires
        is_scalar(value),
    ensures
        step == (Step::Char { value: value as char, len }),
{
    match char::from_u32(value) {
        Some(c) => {
            proof {
                char_u32_cast(c, value);
            }
            Step::Char { value: c, len }
        },
        None => Step::Incomplete,
    }
}

/// The text of `bytes`, with U+FFFD for every invalid sequence.
pub fn lossy_text(bytes: &[u8]) -> (r: String)
    ensures
        r@ == lossy(bytes@),
{
    let mut out: String = String::new();
    let mut at: usize = 0;
    assert(bytes@.skip(0) =~= bytes@);
    assert(out@ + decoded(bytes@) =~= decoded(bytes@));
    while at < bytes.len()
        invariant
            at <= bytes@.len(),
            decoded(bytes@) == out@ + decoded(bytes@.skip(at as int)),
            pending(bytes@) == pending(bytes@.skip(at as int)),
        decreases bytes@.len() - at,
    {
        let ghost s = bytes@.skip(at as int);
        proof {
            lemma_step_len(s);
        }
        let step: Step = step_at(bytes, at);
        proof {
            assert(s.skip(step_len(step)) =~= bytes@.skip(at + step_len(step)));
        }
        match step {
            Step::Char { value, len } => {
                proof {
                    assert(decoded(bytes@) =~= out@.push(value) + decoded(bytes@.skip(at + len)));
                }
                out.push(value);
                at += len;
            },
            Step::Invalid { len } => {
                proof {
                    assert(decoded(bytes@) =~= out@.push(REPLACEMENT) + decoded(
                        bytes@.skip(at + len),
                    ));
                }
                out.push(REPLACEMENT);
                at += len;
            },
            Step::Incomplete => {
                out.push(REPLACEMENT);
                return out;
            },
        }
    }
    out
}

} // verus!
