//! SHA-256 checksums of downloads.
use vstd::prelude::*;
use vstd::utf8::*;

use crate::decode;
use crate::decode::Step;
use crate::formatting;
use crate::text;
use crate::updater::{UpdateError, UpdateErrorView};

verus! {

/// The SHA-256 digest of some bytes.
pub uninterp spec fn sha256(bytes: Seq<u8>) -> Seq<u8>;

/// `sha2::Sha256::digest`: the SHA-256 digest, which has 32 bytes.
#[verifier::external_body]
fn sha256_digest(bytes: &[u8]) -> (r: Vec<u8>)
    ensures
        r@ == sha256(bytes@),
        r@.len() == 32,
{
    <sha2::Sha256 as sha2::Digest>::digest(bytes).to_vec()
}

/// The hexadecimal digit of `d`, in lower case.
pub open spec fn hex_digit(d: int) -> char {
    if d < 10 {
        ('0' as int + d) as char
    } else {
        ('a' as int + d - 10) as char
    }
}

/// Bytes in hexadecimal, two digits each.
pub open spec fn hex(bytes: Seq<u8>) -> Seq<char> {
    Seq::new(
        2 * bytes.len(),
        |i: int|
            if i % 2 == 0 {
                hex_digit(bytes[i / 2] as int / 16)
            } else {
                hex_digit(bytes[i / 2] as int % 16)
            },
    )
}

/// Whether a character is a hexadecimal digit, in either case.
pub open spec fn is_hex_digit(c: char) -> bool {
    ('0' <= c && c <= '9') || ('a' <= c && c <= 'f') || ('A' <= c && c <= 'F')
}

/// Whether a word is a SHA-256 checksum.
pub open spec fn is_checksum(word: Seq<char>) -> bool {
    word.len() == 64 && forall|i: int| 0 <= i < word.len() ==> is_hex_digit(#[trigger] word[i])
}

/// Where bytes stop being UTF-8, counted from `at`: the position, and the
/// number of wrong bytes there, or `None` where a character is unfinished.
pub open spec fn fault(bytes: Seq<u8>, at: int) -> Option<(int, Option<int>)>
    decreases bytes.len(),
{
    if bytes.len() == 0 {
        None
    } else {
        match decode::first_step(bytes) {
            Step::Char { value, len } => if 0 < len <= bytes.len() {
                fault(bytes.skip(len as int), at + len)
            } else {
                None
            },
            Step::Invalid { len } => Some((at, Some(len as int))),
            Step::Incomplete => Some((at, None)),
        }
    }
}

/// What becomes of an archive whose digest in hexadecimal is `actual`, where
/// the published checksum file is `file`. The file names a checksum in its
/// first word, in either case.
pub open spec fn checksum_outcome(actual: Seq<char>, file: Seq<u8>) -> Result<
    (),
    UpdateErrorView,
> {
    match fault(file, 0) {
        Some((at, len)) => Err(UpdateErrorView::ChecksumNotText { at, len }),
        None => {
            let word = formatting::first_word(decode_utf8(file));
            if !is_checksum(word) {
                Err(UpdateErrorView::InvalidChecksum)
            } else if formatting::lowered(actual) != formatting::lowered(word) {
                Err(UpdateErrorView::Mismatch { expected: word, actual })
            } else {
                Ok(())
            }
        },
    }
}

/// The outcome that a result is.
pub open spec fn outcome_view(r: Result<(), UpdateError>) -> Result<(), UpdateErrorView> {
    match r {
        Ok(()) => Ok(()),
        Err(error) => Err(error@),
    }
}

/// Bytes stop nowhere being UTF-8 exactly where they are UTF-8.
pub proof fn lemma_fault(bytes: Seq<u8>, at: int)
    ensures
        fault(bytes, at) is None <==> valid_utf8(bytes),
    decreases bytes.len(),
{
    decode::lemma_all_valid(bytes);
    if bytes.len() > 0 {
        decode::lemma_step_len(bytes);
        match decode::first_step(bytes) {
            Step::Char { value, len } => {
                lemma_fault(bytes.skip(len as int), at + len);
                decode::lemma_all_valid(bytes.skip(len as int));
            },
            _ => {},
        }
    }
}

/// Where bytes stop being UTF-8.
fn first_fault(bytes: &[u8]) -> (r: Option<(usize, Option<usize>)>)
    ensures
        match (r, fault(bytes@, 0)) {
            (None, None) => true,
            (Some((at, None)), Some((a, None))) => at == a,
            (Some((at, Some(len))), Some((a, Some(l)))) => at == a && len == l,
            _ => false,
        },
{
    let mut at: usize = 0;
    assert(bytes@.skip(0) =~= bytes@);
    while at < bytes.len()
        invariant
            at <= bytes@.len(),
            fault(bytes@, 0) == fault(bytes@.skip(at as int), at as int),
        decreases bytes@.len() - at,
    {
        let ghost s = bytes@.skip(at as int);
        proof {
            decode::lemma_step_len(s);
        }
        match decode::step_at(bytes, at) {
            Step::Char { value: _, len } => {
                assert(s.skip(len as int) =~= bytes@.skip(at + len));
                at += len;
            },
            Step::Invalid { len } => return Some((at, Some(len))),
            Step::Incomplete => return Some((at, None)),
        }
    }
    None
}

/// The hexadecimal digit of `d`.
fn hex_char(d: u8) -> (c: char)
    requires
        d < 16,
    ensures
        c == hex_digit(d as int),
{
    let byte: u8 = if d < 10 {
        48u8 + d
    } else {
        87u8 + d
    };
    byte as char
}

/// Bytes in hexadecimal.
pub fn hex_text(bytes: &[u8]) -> (r: String)
    ensures
        r@ == hex(bytes@),
{
    let mut out: String = String::new();
    let mut i: usize = 0;
    assert(out@ =~= hex(bytes@).take(0));
    while i < bytes.len()
        invariant
            i <= bytes@.len(),
            out@ == hex(bytes@).take(2 * i),
        decreases bytes@.len() - i,
    {
        out.push(hex_char(bytes[i] / 16));
        out.push(hex_char(bytes[i] % 16));
        assert(out@ =~= hex(bytes@).take(2 * i + 2));
        i += 1;
    }
    assert(hex(bytes@).take(2 * i) =~= hex(bytes@));
    out
}

/// The SHA-256 digest of some bytes, in hexadecimal.
pub fn sha256_hex(bytes: &[u8]) -> (r: String)
    ensures
        r@ == hex(sha256(bytes@)),
        r@.len() == 64,
{
    let digest: Vec<u8> = sha256_digest(bytes);
    hex_text(digest.as_slice())
}

/// Whether a word is a SHA-256 checksum.
fn checksum_word(word: &str) -> (r: bool)
    ensures
        r == is_checksum(word@),
{
    let mut all: bool = true;
    for c in it: word.chars()
        invariant
            it.seq() == word@,
            all <==> forall|i: int| 0 <= i < it.index() ==> is_hex_digit(#[trigger] word@[i]),
    {
        let good: bool = ('0' <= c && c <= '9') || ('a' <= c && c <= 'f') || ('A' <= c && c <= 'F');
        assert(word@[it.index() as int] == c);
        if !good {
            all = false;
        }
    }
    all && text::char_count(word) == 64
}

/// What becomes of an archive whose digest in hexadecimal is `actual`, where
/// the published checksum file is `checksum_file`.
pub fn check_digest(actual: &str, checksum_file: &[u8]) -> (r: Result<(), UpdateError>)
    ensures
        outcome_view(r) == checksum_outcome(actual@, checksum_file@),
{
    match first_fault(checksum_file) {
        Some((at, len)) => return Err(UpdateError::ChecksumNotText { at, len }),
        None => {},
    }
    proof {
        lemma_fault(checksum_file@, 0);
        decode::lemma_all_valid(checksum_file@);
        decode::lemma_decode_valid(checksum_file@);
    }
    let content: String = decode::lossy_text(checksum_file);
    let expected: String = formatting::word(content.as_str());
    if !checksum_word(expected.as_str()) {
        return Err(UpdateError::InvalidChecksum);
    }
    let published: String = formatting::lower_text(expected.as_str());
    let computed: String = formatting::lower_text(actual);
    if !text::same_text(computed.as_str(), published.as_str()) {
        return Err(UpdateError::Mismatch { expected, actual: actual.to_owned() });
    }
    Ok(())
}

/// Whether an archive has the checksum that a published file names: `Ok`
/// exactly where the file is UTF-8 text whose first word is the archive's
/// SHA-256 digest in hexadecimal, in either case.
pub fn verify_sha256(archive: &[u8], checksum_file: &[u8]) -> (r: Result<(), UpdateError>)
    ensures
        outcome_view(r) == checksum_outcome(hex(sha256(archive@)), checksum_file@),
{
    let actual: String = sha256_hex(archive);
    check_digest(actual.as_str(), checksum_file)
}

proof fn lemma_hex_digit(d: int)
    requires
        0 <= d < 16,
    ensures
        is_hex_digit(hex_digit(d)),
        formatting::lower(hex_digit(d)) == hex_digit(d),
        !formatting::white(hex_digit(d)),
{
}

/// Bytes in hexadecimal are digits in small letters.
pub proof fn lemma_hex(bytes: Seq<u8>)
    ensures
        forall|i: int|
            0 <= i < hex(bytes).len() ==> is_hex_digit(#[trigger] hex(bytes)[i])
                && !formatting::white(hex(bytes)[i]),
        formatting::lowered(hex(bytes)) == hex(bytes),
{
    assert forall|i: int| 0 <= i < hex(bytes).len() implies is_hex_digit(#[trigger] hex(bytes)[i])
        && !formatting::white(hex(bytes)[i]) && formatting::lower(hex(bytes)[i]) == hex(
        bytes,
    )[i] by {
        lemma_hex_digit(bytes[i / 2] as int / 16);
        lemma_hex_digit(bytes[i / 2] as int % 16);
    }
    assert(formatting::lowered(hex(bytes)) =~= hex(bytes));
}

/// Two digests that differ differ in hexadecimal.
pub proof fn law_hex_tells_digests_apart(a: Seq<u8>, b: Seq<u8>)
    requires
        hex(a) == hex(b),
    ensures
        a == b,
{
    assert(hex(a).len() == 2 * a.len());
    assert(hex(b).len() == 2 * b.len());
    assert forall|i: int| 0 <= i < a.len() implies a[i] == b[i] by {
        assert((2 * i) / 2 == i && (2 * i + 1) / 2 == i);
        assert((2 * i) % 2 == 0 && (2 * i + 1) % 2 == 1);
        assert(hex(a)[2 * i] == hex_digit(a[i] as int / 16));
        assert(hex(b)[2 * i] == hex_digit(b[i] as int / 16));
        assert(hex(a)[2 * i + 1] == hex_digit(a[i] as int % 16));
        assert(hex(b)[2 * i + 1] == hex_digit(b[i] as int % 16));
        assert(hex_digit(a[i] as int / 16) == hex_digit(b[i] as int / 16));
        assert(hex_digit(a[i] as int % 16) == hex_digit(b[i] as int % 16));
    }
    assert(a =~= b);
}

/// A checksum file that starts with the digest of the archive, in lower case,
/// and goes on with white space and anything behind it or ends there, is
/// accepted; one that starts so with another digest is refused.
pub proof fn law_only_the_digest_is_accepted(digest: Seq<u8>, named: Seq<u8>, rest: Seq<char>)
    requires
        named.len() == 32,
        rest.len() > 0 ==> formatting::white(rest[0]),
    ensures
        checksum_outcome(hex(digest), encode_utf8(hex(named) + rest)) is Ok <==> digest == named,
{
    let text = hex(named) + rest;
    let file = encode_utf8(text);
    encode_utf8_valid_utf8(text);
    encode_utf8_decode_utf8(text);
    lemma_fault(file, 0);
    lemma_hex(named);
    lemma_hex(digest);
    assert(text[0] == hex(named)[0]);
    assert(formatting::start_trimmed(text) == text);
    assert forall|k: int| 0 <= k < 64 implies !formatting::white(#[trigger] text[k]) by {
        assert(text[k] == hex(named)[k]);
    }
    formatting::lemma_leading_word(text, 64);
    assert(text.take(64) =~= hex(named));
    if hex(digest) == hex(named) {
        law_hex_tells_digests_apart(digest, named);
    }
}

} // verus!
