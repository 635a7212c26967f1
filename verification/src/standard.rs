//! Contracts of functions of the standard library that carry none of their own.
use vstd::prelude::*;
use vstd::utf8::*;

use crate::text;

verus! {

/// `String::push` appends one character.
pub assume_specification[ String::push ](s: &mut String, c: char)
    ensures
        final(s)@ == old(s)@.push(c),
;

/// `char::from_u32` gives the character with that number, exactly where the
/// number is a Unicode scalar value.
pub assume_specification[ char::from_u32 ](i: u32) -> (res: Option<char>)
    ensures
        res is Some <==> is_scalar(i),
        res is Some ==> res->0 as u32 == i,
;

/// `String::truncate` keeps the bytes in front of `new_len`, which lies between
/// two characters, and does nothing to a string that is not longer.
pub assume_specification[ String::truncate ](s: &mut String, new_len: usize)
    requires
        new_len <= text::byte_len(old(s)@) ==> text::on_boundary(old(s)@, new_len as int),
    ensures
        new_len <= text::byte_len(old(s)@) ==> final(s)@ == text::byte_slice(
            old(s)@,
            0,
            new_len as int,
        ),
        new_len > text::byte_len(old(s)@) ==> final(s)@ == old(s)@,
;

/// `String::replace_range` puts a text in the place of the bytes `start..end`.
#[verifier::external_body]
pub(crate) fn replace_range(s: &mut String, start: usize, end: usize, with: &str)
    requires
        start <= end,
        text::on_boundary(old(s)@, start as int),
        text::on_boundary(old(s)@, end as int),
    ensures
        final(s)@ == old(s)@.take(text::char_pos(old(s)@, start as int)) + with@ + old(s)@.skip(
            text::char_pos(old(s)@, end as int),
        ),
{
    s.replace_range(start..end, with)
}

} // verus!
