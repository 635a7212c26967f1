//! Strings as character sequences and as the UTF-8 bytes that encode them.
//!
//! Positions inside a text are byte offsets. The functions here relate such an
//! offset to the number of characters in front of it, and cut, compare and
//! build strings at those positions.
use vstd::prelude::*;
use vstd::utf8::*;

verus! {

/// Number of bytes of the UTF-8 encoding of `s`.
pub open spec fn byte_len(s: Seq<char>) -> nat {
    encode_utf8(s).len()
}

/// Number of bytes of the UTF-8 encoding of `c`.
pub open spec fn char_bytes(c: char) -> nat {
    encode_scalar(c as u32).len()
}

/// Byte offset at which the character with index `k` of `s` starts.
pub open spec fn byte_pos(s: Seq<char>, k: int) -> nat {
    byte_len(s.take(k))
}

/// Number of characters of `s` in front of byte offset `b`.
pub open spec fn char_pos(s: Seq<char>, b: int) -> int
    decreases s.len(),
{
    if b <= 0 || s.len() == 0 {
        0
    } else {
        1 + char_pos(s.drop_first(), b - char_bytes(s[0]))
    }
}

/// Whether byte offset `b` lies between two characters of `s`, or at an end.
pub open spec fn on_boundary(s: Seq<char>, b: int) -> bool {
    is_char_boundary(encode_utf8(s), b)
}

/// The characters of `s` whose bytes lie in `a..b`.
pub open spec fn byte_slice(s: Seq<char>, a: int, b: int) -> Seq<char> {
    s.subrange(char_pos(s, a), char_pos(s, b))
}

pub proof fn lemma_char_bytes(c: char)
    ensures
        1 <= char_bytes(c) <= 4,
        char_bytes(c) == byte_len(seq![c]),
{
    char_is_scalar(c);
    reveal_with_fuel(encode_utf8, 2);
    assert(seq![c].drop_first() =~= Seq::<char>::empty());
    assert(encode_utf8(seq![c]) =~= encode_scalar(c as u32));
}

pub proof fn lemma_encode_concat(a: Seq<char>, b: Seq<char>)
    ensures
        encode_utf8(a + b) == encode_utf8(a) + encode_utf8(b),
        byte_len(a + b) == byte_len(a) + byte_len(b),
    decreases a.len(),
{
    if a.len() == 0 {
        assert(a + b =~= b);
        assert(encode_utf8(a) =~= Seq::<u8>::empty());
        assert(encode_utf8(a) + encode_utf8(b) =~= encode_utf8(b));
    } else {
        lemma_encode_concat(a.drop_first(), b);
        assert((a + b).drop_first() =~= a.drop_first() + b);
        assert(encode_utf8(a + b) =~= encode_utf8(a) + encode_utf8(b));
    }
}

pub proof fn lemma_encode_push(a: Seq<char>, c: char)
    ensures
        encode_utf8(a.push(c)) == encode_utf8(a) + encode_scalar(c as u32),
        byte_len(a.push(c)) == byte_len(a) + char_bytes(c),
{
    lemma_encode_concat(a, seq![c]);
    lemma_char_bytes(c);
    assert(a + seq![c] =~= a.push(c));
    reveal_with_fuel(encode_utf8, 2);
    assert(seq![c].drop_first() =~= Seq::<char>::empty());
    assert(encode_utf8(seq![c]) =~= encode_scalar(c as u32));
}

/// Two texts with the same bytes are the same text.
pub proof fn lemma_encode_injective(a: Seq<char>, b: Seq<char>)
    requires
        encode_utf8(a) == encode_utf8(b),
    ensures
        a == b,
{
    encode_utf8_decode_utf8(a);
    encode_utf8_decode_utf8(b);
}

/// The byte offset of a later character is larger, by at least the number of
/// characters between them.
pub proof fn lemma_byte_pos_mono(s: Seq<char>, i: int, j: int)
    requires
        0 <= i <= j <= s.len(),
    ensures
        byte_pos(s, j) == byte_pos(s, i) + byte_len(s.subrange(i, j)),
        byte_pos(s, i) + (j - i) <= byte_pos(s, j) <= byte_pos(s, i) + 4 * (j - i),
        byte_pos(s, j) <= byte_len(s),
        byte_pos(s, 0) == 0,
        byte_pos(s, s.len() as int) == byte_len(s),
    decreases s.len() - i,
{
    assert(s.take(j) =~= s.take(i) + s.subrange(i, j));
    lemma_encode_concat(s.take(i), s.subrange(i, j));
    lemma_byte_len_bounds(s.subrange(i, j));
    assert(s =~= s.take(j) + s.skip(j));
    lemma_encode_concat(s.take(j), s.skip(j));
    assert(s.take(0) =~= Seq::<char>::empty());
    assert(s.take(s.len() as int) =~= s);
}

pub proof fn lemma_byte_len_bounds(s: Seq<char>)
    ensures
        s.len() <= byte_len(s) <= 4 * s.len(),
    decreases s.len(),
{
    if s.len() > 0 {
        lemma_char_bytes(s[0]);
        lemma_byte_len_bounds(s.drop_first());
    }
}

/// Stepping over one character moves the byte offset by that character's bytes.
pub proof fn lemma_byte_pos_step(s: Seq<char>, k: int)
    requires
        0 <= k < s.len(),
    ensures
        byte_pos(s, k + 1) == byte_pos(s, k) + char_bytes(s[k]),
        byte_pos(s, k + 1) <= byte_len(s),
{
    assert(s.take(k + 1) =~= s.take(k).push(s[k]));
    lemma_encode_push(s.take(k), s[k]);
    lemma_byte_pos_mono(s, k + 1, k + 1);
}

/// `char_pos` inverts `byte_pos`, and character starts are boundaries.
pub proof fn lemma_char_pos(s: Seq<char>, k: int)
    requires
        0 <= k <= s.len(),
    ensures
        char_pos(s, byte_pos(s, k) as int) == k,
        on_boundary(s, byte_pos(s, k) as int),
    decreases k,
{
    encode_utf8_valid_utf8(s);
    if k == 0 {
        assert(s.take(0) =~= Seq::<char>::empty());
    } else {
        let rest = s.drop_first();
        lemma_char_pos(rest, k - 1);
        lemma_char_bytes(s[0]);
        assert(s.take(k).drop_first() =~= rest.take(k - 1));
        assert(byte_pos(s, k) == char_bytes(s[0]) + byte_pos(rest, k - 1));
        encode_utf8_first_scalar(s);
        assert(pop_first_scalar(encode_utf8(s)) =~= encode_utf8(rest));
        lemma_byte_pos_mono(s, k, k);
    }
}

/// Every boundary is the start of a character, or the end.
pub proof fn lemma_boundary(s: Seq<char>, b: int)
    requires
        on_boundary(s, b),
    ensures
        0 <= char_pos(s, b) <= s.len(),
        byte_pos(s, char_pos(s, b)) == b,
        0 <= b <= byte_len(s),
    decreases s.len(),
{
    encode_utf8_valid_utf8(s);
    if b == 0 {
        assert(s.take(0) =~= Seq::<char>::empty());
    } else if s.len() == 0 {
        assert(encode_utf8(s).len() == 0);
        assert(false);
    } else {
        let rest = s.drop_first();
        encode_utf8_first_scalar(s);
        encode_utf8_valid_utf8(rest);
        assert(pop_first_scalar(encode_utf8(s)) =~= encode_utf8(rest));
        assert(on_boundary(rest, b - char_bytes(s[0])));
        lemma_boundary(rest, b - char_bytes(s[0]));
        let k = char_pos(rest, b - char_bytes(s[0]));
        assert(s.take(k + 1).drop_first() =~= rest.take(k));
        lemma_char_bytes(s[0]);
    }
}

/// Both ends of a text are boundaries.
pub proof fn lemma_ends_on_boundary(s: Seq<char>)
    ensures
        on_boundary(s, 0),
        on_boundary(s, byte_len(s) as int),
        char_pos(s, 0) == 0,
        char_pos(s, byte_len(s) as int) == s.len(),
{
    lemma_char_pos(s, 0);
    lemma_char_pos(s, s.len() as int);
    lemma_byte_pos_mono(s, 0, s.len() as int);
}

/// The bytes of a slice are the slice of the bytes.
pub proof fn lemma_byte_slice(s: Seq<char>, a: int, b: int)
    requires
        a <= b,
        on_boundary(s, a),
        on_boundary(s, b),
    ensures
        0 <= char_pos(s, a) <= char_pos(s, b) <= s.len(),
        encode_utf8(byte_slice(s, a, b)) == encode_utf8(s).subrange(a, b),
        byte_len(byte_slice(s, a, b)) == b - a,
{
    lemma_boundary(s, a);
    lemma_boundary(s, b);
    let i = char_pos(s, a);
    let j = char_pos(s, b);
    if j < i {
        lemma_byte_pos_mono(s, j, i);
    }
    lemma_byte_pos_mono(s, i, j);
    assert(s =~= s.take(i) + (s.subrange(i, j) + s.skip(j)));
    lemma_encode_concat(s.take(i), s.subrange(i, j) + s.skip(j));
    lemma_encode_concat(s.subrange(i, j), s.skip(j));
    assert(encode_utf8(s).subrange(a, b) =~= encode_utf8(s.subrange(i, j)));
}

/// Number of bytes that encode `c`.
pub fn utf8_len(c: char) -> (n: usize)
    ensures
        n == char_bytes(c),
{
    let v: u32 = c as u32;
    if v <= 0x7F {
        1
    } else if v <= 0x7FF {
        2
    } else if v <= 0xFFFF {
        3
    } else {
        4
    }
}

/// The part of `s` between two byte offsets.
pub fn slice(s: &str, a: usize, b: usize) -> (r: &str)
    requires
        a <= b,
        on_boundary(s@, a as int),
        on_boundary(s@, b as int),
    ensures
        r@ == byte_slice(s@, a as int, b as int),
{
    proof {
        lemma_byte_slice(s@, a as int, b as int);
        lemma_boundary(s@, a as int);
        lemma_boundary(s@, b as int);
        lemma_ends_on_boundary(s@);
        lemma_byte_slice(s@, 0, b as int);
        let i = char_pos(s@, a as int);
        let head = byte_slice(s@, 0, b as int);
        assert(head.take(i) =~= s@.take(i));
        lemma_char_pos(head, i);
    }
    let (head, _tail) = s.split_at(b);
    proof {
        lemma_encode_injective(head@, byte_slice(s@, 0, b as int));
    }
    let (_front, r) = head.split_at(a);
    proof {
        assert(encode_utf8(r@) =~= encode_utf8(s@).subrange(a as int, b as int));
        lemma_encode_injective(r@, byte_slice(s@, a as int, b as int));
    }
    r
}

/// Whether two texts are the same.
pub fn same_text(a: &str, b: &str) -> (r: bool)
    ensures
        r == (a@ == b@),
{
    let x: &[u8] = a.as_bytes();
    let y: &[u8] = b.as_bytes();
    if x.len() != y.len() {
        return false;
    }
    let mut i: usize = 0;
    while i < x.len()
        invariant
            x@ == encode_utf8(a@),
            y@ == encode_utf8(b@),
            x@.len() == y@.len(),
            i <= x@.len(),
            x@.take(i as int) == y@.take(i as int),
        decreases x@.len() - i,
    {
        if x[i] != y[i] {
            assert(a@ != b@);
            return false;
        }
        assert(x@.take(i + 1) =~= x@.take(i as int).push(x@[i as int]));
        assert(y@.take(i + 1) =~= y@.take(i as int).push(y@[i as int]));
        i += 1;
    }
    proof {
        assert(x@.take(i as int) =~= x@);
        assert(y@.take(i as int) =~= y@);
        lemma_encode_injective(a@, b@);
    }
    true
}

/// Texts that start alike have their common characters at the same offsets.
pub proof fn lemma_common_prefix(s: Seq<char>, t: Seq<char>, k: int)
    requires
        0 <= k <= s.len(),
        k <= t.len(),
        s.take(k) == t.take(k),
    ensures
        byte_pos(s, k) == byte_pos(t, k),
        char_pos(t, byte_pos(s, k) as int) == k,
        on_boundary(t, byte_pos(s, k) as int),
{
    lemma_char_pos(t, k);
}

/// Number of bytes of the character of `s` that starts at offset `b`.
pub fn char_len_at(s: &str, b: usize) -> (n: usize)
    requires
        on_boundary(s@, b as int),
        b < byte_len(s@),
    ensures
        char_pos(s@, b as int) < s@.len(),
        n == char_bytes(s@[char_pos(s@, b as int)]),
{
    let ghost k = char_pos(s@, b as int);
    proof {
        lemma_boundary(s@, b as int);
        lemma_byte_pos_mono(s@, k, k);
        let rest = s@.skip(k);
        assert(s@ =~= s@.take(k) + rest);
        lemma_encode_concat(s@.take(k), rest);
        assert(rest.len() > 0);
        encode_utf8_first_scalar(rest);
        assert(encode_utf8(rest)[0] == encode_utf8(s@)[b as int]);
    }
    let lead: u8 = s.as_bytes()[b];
    if lead <= 0x7f {
        1
    } else if lead <= 0xdf {
        2
    } else if lead <= 0xef {
        3
    } else {
        4
    }
}

/// Offset of the character of `s` in front of offset `b`.
pub fn previous_boundary(s: &str, b: usize) -> (r: usize)
    requires
        on_boundary(s@, b as int),
        b > 0,
    ensures
        r < b,
        on_boundary(s@, r as int),
        char_pos(s@, r as int) == char_pos(s@, b as int) - 1,
{
    let ghost k = char_pos(s@, b as int);
    proof {
        lemma_boundary(s@, b as int);
        lemma_byte_pos_mono(s@, 0, k);
        lemma_char_pos(s@, k - 1);
        lemma_byte_pos_step(s@, k - 1);
        lemma_char_bytes(s@[k - 1]);
        encode_utf8_valid_utf8(s@);
    }
    let bytes: &[u8] = s.as_bytes();
    let mut i: usize = b - 1;
    while bytes[i] >= 0x80 && bytes[i] <= 0xbf
        invariant
            i < b <= bytes@.len(),
            bytes@ == encode_utf8(s@),
            1 <= k <= s@.len(),
            byte_pos(s@, k) == b,
            byte_pos(s@, k - 1) <= i,
            on_boundary(s@, byte_pos(s@, k - 1) as int),
            valid_utf8(bytes@),
        decreases i,
    {
        proof {
            is_char_boundary_iff_not_is_continuation_byte(bytes@, i as int);
        }
        i -= 1;
    }
    proof {
        is_char_boundary_iff_not_is_continuation_byte(bytes@, i as int);
        lemma_boundary(s@, i as int);
        let j = char_pos(s@, i as int);
        if j >= k {
            lemma_byte_pos_mono(s@, k, j);
        }
        if j < k - 1 {
            lemma_byte_pos_mono(s@, j, k - 1);
        }
    }
    i
}

/// Number of characters of `s`.
pub fn char_count(s: &str) -> (n: usize)
    ensures
        n == s@.len(),
{
    let mut n: usize = 0;
    let limit: usize = s.as_bytes().len();
    proof {
        lemma_byte_len_bounds(s@);
    }
    for c in it: s.chars()
        invariant
            n == it.index(),
            it.seq() == s@,
            s@.len() <= limit,
    {
        n += 1;
    }
    n
}

/// Index of the first `c` in `s` from index `from` on, or the length of `s`.
pub open spec fn find(s: Seq<char>, c: char, from: int) -> int
    decreases s.len() - from,
{
    if from >= s.len() {
        s.len() as int
    } else if s[from] == c {
        from
    } else {
        find(s, c, from + 1)
    }
}

pub proof fn lemma_find(s: Seq<char>, c: char, from: int, at: int)
    requires
        0 <= from <= at <= s.len(),
        forall|k: int| from <= k < at ==> #[trigger] s[k] != c,
        at < s.len() ==> s[at] == c,
    ensures
        find(s, c, from) == at,
    decreases at - from,
{
    if from < at {
        assert(s[from] != c);
        lemma_find(s, c, from + 1, at);
    }
}

pub proof fn lemma_find_bounds(s: Seq<char>, c: char, from: int)
    requires
        0 <= from <= s.len(),
    ensures
        from <= find(s, c, from) <= s.len(),
        forall|k: int| from <= k < find(s, c, from) ==> #[trigger] s[k] != c,
        find(s, c, from) < s.len() ==> s[find(s, c, from)] == c,
    decreases s.len() - from,
{
    if from < s.len() && s[from] != c {
        lemma_find_bounds(s, c, from + 1);
    }
}

/// The first byte of an encoding is an ASCII byte exactly where it is the
/// encoding of that ASCII character.
proof fn lemma_ascii_lead(x: char, c: char)
    requires
        c <= '\u{7f}',
    ensures
        (encode_scalar(x as u32)[0] == c as u8) == (x == c),
        char_bytes(c) == 1,
{
    let v = c as u32;
    assert((v & 0x7F) as u8 == v as u8) by (bit_vector)
        requires
            v <= 0x7f,
    ;
    let w = x as u32;
    if w <= 0x7f {
        assert((w & 0x7F) as u8 == w as u8) by (bit_vector)
            requires
                w <= 0x7f,
        ;
    } else {
        let s = seq![x];
        encode_utf8_first_scalar(s);
        lemma_char_bytes(x);
        reveal_with_fuel(encode_utf8, 2);
        assert(s.drop_first() =~= Seq::<char>::empty());
        assert(encode_utf8(s) =~= encode_scalar(w));
    }
}

/// Offset of the first ASCII character `c` of `s` from offset `from` on, or the
/// length of `s`.
pub fn find_ascii(s: &str, c: char, from: usize) -> (r: usize)
    requires
        c <= '\u{7f}',
        on_boundary(s@, from as int),
    ensures
        from <= r <= byte_len(s@),
        on_boundary(s@, r as int),
        char_pos(s@, r as int) == find(s@, c, char_pos(s@, from as int)),
        r < byte_len(s@) ==> on_boundary(s@, r + 1) && char_pos(s@, r + 1) == char_pos(
            s@,
            r as int,
        ) + 1,
{
    let bytes: &[u8] = s.as_bytes();
    let target: u8 = c as u8;
    let ghost k0 = char_pos(s@, from as int);
    proof {
        lemma_boundary(s@, from as int);
        encode_utf8_valid_utf8(s@);
        assert forall|k: int| k0 <= k < s@.len() && byte_pos(s@, k) < from implies
            #[trigger] s@[k] != c by {
            lemma_byte_pos_mono(s@, k0, k);
        }
    }
    let mut i: usize = from;
    while i < bytes.len() && bytes[i] != target
        invariant
            c <= '\u{7f}',
            target == c as u8,
            from <= i <= bytes@.len(),
            bytes@ == encode_utf8(s@),
            0 <= k0 <= s@.len(),
            byte_pos(s@, k0) == from,
            forall|k: int|
                k0 <= k < s@.len() && byte_pos(s@, k) < i ==> #[trigger] s@[k] != c,
        decreases bytes@.len() - i,
    {
        proof {
            assert forall|k: int| k0 <= k < s@.len() && byte_pos(s@, k) < i + 1 implies
                #[trigger] s@[k] != c by {
                if byte_pos(s@, k) == i {
                    lemma_lead_at(s@, k);
                    lemma_ascii_lead(s@[k], c);
                }
            }
        }
        i += 1;
    }
    proof {
        lemma_ends_on_boundary(s@);
        if i < bytes@.len() {
            is_char_boundary_iff_not_is_continuation_byte(bytes@, i as int);
            lemma_boundary(s@, i as int);
            let k = char_pos(s@, i as int);
            lemma_byte_pos_mono(s@, k, k);
            lemma_lead_at(s@, k);
            lemma_ascii_lead(s@[k], c);
            lemma_byte_pos_step(s@, k);
            lemma_char_pos(s@, k + 1);
        }
        let k = char_pos(s@, i as int);
        lemma_boundary(s@, i as int);
        if k < k0 {
            lemma_byte_pos_mono(s@, k, k0);
        }
        assert forall|q: int| k0 <= q < k implies #[trigger] s@[q] != c by {
            lemma_byte_pos_mono(s@, q, k);
        }
        lemma_find(s@, c, k0, k);
    }
    i
}

/// The byte at a character's offset tells whether it is the ASCII character `c`.
pub proof fn lemma_ascii_byte(s: Seq<char>, k: int, c: char)
    requires
        0 <= k < s.len(),
        c <= '\u{7f}',
    ensures
        byte_pos(s, k) < byte_len(s),
        (encode_utf8(s)[byte_pos(s, k) as int] == c as u8) == (s[k] == c),
{
    lemma_lead_at(s, k);
    lemma_ascii_lead(s[k], c);
}

/// The byte at a character's offset is the first byte of its encoding.
proof fn lemma_lead_at(s: Seq<char>, k: int)
    requires
        0 <= k < s.len(),
    ensures
        byte_pos(s, k) < byte_len(s),
        encode_utf8(s)[byte_pos(s, k) as int] == encode_scalar(s[k] as u32)[0],
{
    let rest = s.skip(k);
    assert(s =~= s.take(k) + rest);
    lemma_encode_concat(s.take(k), rest);
    lemma_char_bytes(s[k]);
    assert(rest[0] == s[k]);
}

/// The value of an optional string.
pub open spec fn option_view(s: Option<String>) -> Option<Seq<char>> {
    match s {
        Some(t) => Some(t@),
        None => None,
    }
}

/// A copy of an optional string.
pub fn clone_option(s: &Option<String>) -> (r: Option<String>)
    ensures
        r == *s,
{
    match s {
        Some(t) => Some(t.clone()),
        None => None,
    }
}

} // verus!
