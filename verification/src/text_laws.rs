//! What trimming, padding, numbers and words are, by what the results hold.
use vstd::prelude::*;

use crate::formatting;
use crate::geometry;
use crate::input;
use crate::viewport;

verus! {

/// The number that a text of decimal digits is.
pub open spec fn number(s: Seq<char>) -> int
    decreases s.len(),
{
    if s.len() == 0 {
        0
    } else {
        10 * number(s.drop_last()) + (s.last() as int - '0' as int)
    }
}

/// A number in decimal is the digits that make up the number, without a zero in
/// front.
pub proof fn law_decimal_is_the_number(n: int)
    requires
        0 <= n,
    ensures
        number(formatting::decimal(n)) == n,
        formatting::decimal(n).len() > 0,
        forall|i: int|
            0 <= i < formatting::decimal(n).len() ==> '0' <= #[trigger] formatting::decimal(n)[i]
                && formatting::decimal(n)[i] <= '9',
        formatting::decimal(n)[0] == '0' ==> n == 0 && formatting::decimal(n).len() == 1,
        formatting::signed_decimal(n) == formatting::decimal(n),
        n > 0 ==> formatting::signed_decimal(-n) == seq!['-'] + formatting::decimal(n),
    decreases n,
{
    reveal_with_fuel(number, 2);
    let text = formatting::decimal(n);
    if n < 10 {
        assert(text.drop_last() =~= Seq::<char>::empty());
        assert(text.last() as int == '0' as int + n);
    } else {
        law_decimal_is_the_number(n / 10);
        assert(text.drop_last() =~= formatting::decimal(n / 10));
        assert(text.last() as int == '0' as int + n % 10);
        assert(text[0] == formatting::decimal(n / 10)[0]);
        assert forall|i: int| 0 <= i < text.len() implies '0' <= #[trigger] text[i] && text[i]
            <= '9' by {
            if i < text.len() - 1 {
                assert(text[i] == formatting::decimal(n / 10)[i]);
            }
        }
    }
}

/// Whether `part` is what stands in `s` from `i` to `j`.
pub open spec fn stands_at(s: Seq<char>, part: Seq<char>, i: int, j: int) -> bool {
    &&& 0 <= i <= j <= s.len()
    &&& part.len() == j - i
    &&& forall|k: int| 0 <= k < part.len() ==> #[trigger] part[k] == s[i + k]
}

/// Whether all characters of `s` from `i` to `j` are white space.
pub open spec fn all_white(s: Seq<char>, i: int, j: int) -> bool {
    forall|k: int| i <= k < j ==> formatting::white(#[trigger] s[k])
}

proof fn lemma_end(s: Seq<char>) -> (n: int)
    ensures
        0 <= n <= s.len(),
        formatting::end_trimmed(s) == s.take(n),
        all_white(s, n, s.len() as int),
        n > 0 ==> !formatting::white(s[n - 1]),
    decreases s.len(),
{
    if s.len() > 0 && formatting::white(s.last()) {
        let n = lemma_end(s.drop_last());
        assert(s.drop_last().take(n) =~= s.take(n));
        assert forall|k: int| n <= k < s.len() implies formatting::white(#[trigger] s[k]) by {
            if k < s.len() - 1 {
                assert(s.drop_last()[k] == s[k]);
            }
        }
        n
    } else {
        assert(s.take(s.len() as int) =~= s);
        s.len() as int
    }
}

proof fn lemma_start(s: Seq<char>) -> (n: int)
    ensures
        0 <= n <= s.len(),
        formatting::start_trimmed(s) == s.skip(n),
        all_white(s, 0, n),
        n < s.len() ==> !formatting::white(s[n]),
    decreases s.len(),
{
    if s.len() > 0 && formatting::white(s[0]) {
        let rest = s.drop_first();
        let n = lemma_start(rest);
        assert(rest.skip(n) =~= s.skip(n + 1));
        assert forall|k: int| 0 <= k < n + 1 implies formatting::white(#[trigger] s[k]) by {
            if k > 0 {
                assert(rest[k - 1] == s[k]);
            }
        }
        n + 1
    } else {
        assert(s.skip(0) =~= s);
        0
    }
}

/// Trimming takes white space away at the ends, all that stands there and
/// nothing else; trimming the end takes it away there only.
pub proof fn law_trimming(s: Seq<char>)
    ensures
        exists|i: int, j: int| {
            &&& #[trigger] stands_at(s, formatting::trimmed(s), i, j)
            &&& all_white(s, 0, i)
            &&& all_white(s, j, s.len() as int)
            &&& i < j ==> !formatting::white(s[i]) && !formatting::white(s[j - 1])
        },
        exists|j: int| {
            &&& #[trigger] stands_at(s, formatting::end_trimmed(s), 0, j)
            &&& all_white(s, j, s.len() as int)
            &&& 0 < j ==> !formatting::white(s[j - 1])
        },
{
    let i = lemma_start(s);
    let rest = s.skip(i);
    let n = lemma_end(rest);
    assert(stands_at(s, formatting::trimmed(s), i, i + n));
    assert forall|k: int| i + n <= k < s.len() implies formatting::white(#[trigger] s[k]) by {
        assert(rest[k - i] == s[k]);
    }
    let m = lemma_end(s);
    assert(stands_at(s, formatting::end_trimmed(s), 0, m));
}

/// A text is trimmed to nothing exactly where it is white space throughout.
pub proof fn law_trimmed_to_nothing(s: Seq<char>)
    ensures
        formatting::trimmed(s).len() == 0 <==> all_white(s, 0, s.len() as int),
        formatting::end_trimmed(s).len() == 0 <==> all_white(s, 0, s.len() as int),
{
    let i = lemma_start(s);
    let rest = s.skip(i);
    let n = lemma_end(rest);
    let m = lemma_end(s);
    if n > 0 {
        assert(rest[n - 1] == s[i + n - 1]);
    } else if i < s.len() {
        assert(formatting::white(rest[0]));
    }
}

/// Of the ASCII characters, the space and those from the tab to the carriage
/// return are white space. Of the others, the next line, the no-break spaces, the
/// spaces of fixed widths, and the separators of lines and paragraphs are.
pub proof fn law_white_space(c: char)
    ensures
        (c as u32) < 128 ==> (formatting::white(c) <==> c as u32 == 32 || 9 <= c as u32 <= 13),
        (c as u32) >= 128 ==> (formatting::white(c) <==> {
            let n = c as u32;
            ||| n == 0x85 || n == 0xa0 || n == 0x1680 || 0x2000 <= n <= 0x200a
            ||| n == 0x2028 || n == 0x2029 || n == 0x202f || n == 0x205f || n == 0x3000
        }),
{
}

/// A time limit is entered where more than white space is: what stands between
/// the first and the last character that is none, with both.
pub proof fn law_entered_limit(s: Seq<char>)
    ensures
        input::entered_limit(s) is Some <==> !all_white(s, 0, s.len() as int),
        input::entered_limit(s) matches Some(limit) ==> exists|i: int, j: int| {
            &&& #[trigger] stands_at(s, limit, i, j)
            &&& i < j
            &&& all_white(s, 0, i)
            &&& all_white(s, j, s.len() as int)
            &&& !formatting::white(s[i]) && !formatting::white(s[j - 1])
        },
{
    law_trimmed_to_nothing(s);
    let i = lemma_start(s);
    let rest = s.skip(i);
    let n = lemma_end(rest);
    assert forall|k: int| i + n <= k < s.len() implies formatting::white(#[trigger] s[k]) by {
        assert(rest[k - i] == s[k]);
    }
    if let Some(limit) = input::entered_limit(s) {
        assert(rest[n - 1] == s[i + n - 1]);
        assert(stands_at(s, limit, i, i + n));
    }
}

/// What is left of a text between white space is what stands between its first
/// and its last character that is none.
pub proof fn law_trimmed_part(s: Seq<char>, i: int, j: int)
    requires
        0 <= i < j <= s.len(),
        all_white(s, 0, i),
        all_white(s, j, s.len() as int),
        !formatting::white(s[i]),
        !formatting::white(s[j - 1]),
    ensures
        formatting::trimmed(s) == s.subrange(i, j),
{
    let n = lemma_start(s);
    assert(n == i) by {
        if n < i {
            assert(formatting::white(s[n]));
        } else if i < n {
            assert(formatting::white(s[i]));
        }
    }
    let rest = s.skip(i);
    let m = lemma_end(rest);
    assert(m == j - i) by {
        if m < j - i {
            assert(formatting::white(rest[j - i - 1]));
        } else if m > j - i {
            assert(rest[m - 1] == s[i + m - 1]);
            assert(formatting::white(s[i + m - 1]));
        }
    }
    assert(rest.take(m) =~= s.subrange(i, j));
}

/// A text that fits in a column is shown whole, and filled up with spaces: behind
/// it, or in front of it where it stands on the right. One that does not fit is
/// cut at the end of the column.
pub proof fn law_padding(s: Seq<char>, width: int)
    requires
        0 <= width,
    ensures
        formatting::padded_right(s, width).len() == width,
        formatting::padded_left(s, width).len() == width,
        forall|i: int|
            0 <= i < width ==> #[trigger] formatting::padded_right(s, width)[i] == if i < s.len() {
                s[i]
            } else {
                ' '
            },
        s.len() <= width ==> forall|i: int|
            0 <= i < width ==> #[trigger] formatting::padded_left(s, width)[i] == if i < width
                - s.len() {
                ' '
            } else {
                s[i - (width - s.len())]
            },
        s.len() > width ==> formatting::padded_left(s, width) == formatting::padded_right(s, width),
{
    if s.len() > width {
        assert(formatting::padded_left(s, width) =~= formatting::padded_right(s, width));
    }
}

/// The first word of a text stands behind white space only, holds none, and
/// reaches to the next white space or to the end. It is empty exactly where
/// there is no word.
pub proof fn law_first_word(s: Seq<char>)
    ensures
        exists|i: int, j: int| {
            &&& #[trigger] stands_at(s, formatting::first_word(s), i, j)
            &&& all_white(s, 0, i)
            &&& forall|k: int| i <= k < j ==> !formatting::white(#[trigger] s[k])
            &&& j < s.len() ==> formatting::white(s[j])
        },
        formatting::first_word(s).len() == 0 <==> all_white(s, 0, s.len() as int),
{
    let i = lemma_start(s);
    let rest = s.skip(i);
    let n = lemma_word(rest);
    assert(stands_at(s, formatting::first_word(s), i, i + n));
    assert forall|k: int| i <= k < i + n implies !formatting::white(#[trigger] s[k]) by {
        assert(rest[k - i] == s[k]);
    }
    if i + n < s.len() {
        assert(rest[n] == s[i + n]);
    }
}

proof fn lemma_word(s: Seq<char>) -> (n: int)
    ensures
        0 <= n <= s.len(),
        formatting::leading_word(s) == s.take(n),
        forall|k: int| 0 <= k < n ==> !formatting::white(#[trigger] s[k]),
        n < s.len() ==> formatting::white(s[n]),
    decreases s.len(),
{
    if s.len() > 0 && !formatting::white(s[0]) {
        let rest = s.drop_first();
        let n = lemma_word(rest);
        assert(formatting::leading_word(s) =~= s.take(n + 1));
        assert forall|k: int| 0 <= k < n + 1 implies !formatting::white(#[trigger] s[k]) by {
            if k > 0 {
                assert(rest[k - 1] == s[k]);
            }
        }
        n + 1
    } else {
        assert(s.take(0) =~= Seq::<char>::empty());
        0
    }
}

/// Lower case changes the ASCII capitals, each to its small letter, and no other
/// character.
pub proof fn law_lower_case(s: Seq<char>)
    ensures
        formatting::lowered(s).len() == s.len(),
        forall|i: int|
            0 <= i < s.len() ==> #[trigger] formatting::lowered(s)[i] as int == s[i] as int + if 'A'
                <= s[i] && s[i] <= 'Z' {
                'a' as int - 'A' as int
            } else {
                0
            },
{
}

/// Spaces are spaces, as many as are asked for.
pub proof fn law_spaces(n: int)
    requires
        0 <= n,
    ensures
        viewport::spaces(n).len() == n,
        forall|i: int| 0 <= i < n ==> #[trigger] viewport::spaces(n)[i] == ' ',
{
}

/// The helpers on numbers are what they are called.
pub proof fn law_numbers(a: int, b: int)
    ensures
        geometry::least(a, b) <= a && geometry::least(a, b) <= b,
        geometry::least(a, b) == a || geometry::least(a, b) == b,
        geometry::larger(a, b) >= a && geometry::larger(a, b) >= b,
        geometry::larger(a, b) == a || geometry::larger(a, b) == b,
        a >= 0 ==> geometry::floor0(a) == a,
        a < 0 ==> geometry::floor0(a) == 0,
        a <= 65535 ==> geometry::clamp16(a) == a,
        a > 65535 ==> geometry::clamp16(a) == 65535,
        a >= 0 && b >= 0 && a + b <= usize::MAX ==> viewport::capped_sum(a, b) == a + b,
        a + b > usize::MAX ==> viewport::capped_sum(a, b) == usize::MAX,
{
}

} // verus!
