//! Identifier resolution: from the text of a request to a canonical record id.
//!
//! An identifier is written in decimal or, after `0x`, in hexadecimal, and it
//! is either absolute or relative to [`BASE`]. Hexadecimal text has exactly
//! four digits (a signed 16-bit number, relative) or exactly eight (a signed
//! 32-bit number, absolute). Decimal text below [`BASE`] is relative, all
//! other decimal text is absolute.

use vstd::prelude::*;
use vstd::string::*;
use crate::decimal::{
    all_digits,
    decimal_value,
    is_digit,
    lemma_numbers_are_ascii,
    read_i32,
    signed_value,
};
use crate::error::IconError;

verus! {

/// The first canonical id. A relative identifier counts from here.
pub const BASE: i32 = 0x0600_0000;

/// True for `0`-`9`, `a`-`f` and `A`-`F`.
pub open spec fn is_hex_digit(c: char) -> bool {
    ('0' <= c <= '9') || ('a' <= c <= 'f') || ('A' <= c <= 'F')
}

/// The number from 0 to 15 that a hex digit stands for.
pub open spec fn hex_digit_value(c: char) -> int {
    if c <= '9' {
        c as int - 48
    } else if c <= 'F' {
        c as int - 55
    } else {
        c as int - 87
    }
}

/// True when every character is a hex digit.
pub open spec fn all_hex_digits(s: Seq<char>) -> bool {
    forall|i: int| 0 <= i < s.len() ==> is_hex_digit(#[trigger] s[i])
}

/// The number that a run of hex digits spells, most significant first.
pub open spec fn hex_value(s: Seq<char>) -> int
    decreases s.len(),
{
    if s.len() == 0 {
        0
    } else {
        16 * hex_value(s.drop_last()) + hex_digit_value(s.last())
    }
}

/// The byte that the `i`-th pair of hex digits spells.
pub open spec fn hex_pair(s: Seq<char>, i: int) -> u8 {
    (16 * hex_digit_value(s[2 * i]) + hex_digit_value(s[2 * i + 1])) as u8
}

/// The bytes that an even number of hex digits spell, two digits to a byte.
pub open spec fn hex_bytes(s: Seq<char>) -> Seq<u8> {
    Seq::new((s.len() / 2) as nat, |i: int| hex_pair(s, i))
}

/// The number that bytes spell, most significant first.
pub open spec fn big_endian(bytes: Seq<u8>) -> int
    decreases bytes.len(),
{
    if bytes.len() == 0 {
        0
    } else {
        256 * big_endian(bytes.drop_last()) + bytes.last() as int
    }
}

/// The signed reading of a 16-bit number in two's complement.
pub open spec fn signed16(v: int) -> int {
    if v >= 0x8000 {
        v - 0x1_0000
    } else {
        v
    }
}

/// The signed reading of a 32-bit number in two's complement.
pub open spec fn signed32(v: int) -> int {
    if v >= 0x8000_0000 {
        v - 0x1_0000_0000
    } else {
        v
    }
}

/// True when the text starts with `0x`.
pub open spec fn has_hex_prefix(text: Seq<char>) -> bool {
    text.len() >= 2 && text[0] == '0' && text[1] == 'x'
}

/// The canonical id of the hex digits that follow `0x`.
pub open spec fn hex_id(digits: Seq<char>) -> Option<int> {
    if !all_hex_digits(digits) {
        None
    } else if digits.len() == 4 {
        Some(signed16(hex_value(digits)) + BASE)
    } else if digits.len() == 8 {
        Some(signed32(hex_value(digits)))
    } else {
        None
    }
}

/// The canonical id of decimal text.
pub open spec fn decimal_id(text: Seq<char>) -> Option<int> {
    match signed_value(text, i32::MAX as int) {
        Some(v) => if v < BASE {
            Some(v + BASE)
        } else {
            Some(v)
        },
        None => None,
    }
}

/// The canonical id that `text` names, or `None` where it names none.
pub open spec fn canonical_id(text: Seq<char>) -> Option<int> {
    if has_hex_prefix(text) {
        hex_id(text.skip(2))
    } else {
        decimal_id(text)
    }
}

/// Calls `byteutils::hex_to_bytes`, which cuts the text into pairs of
/// characters and reads each pair as one byte in base 16. Claimed here: for
/// an even number of hex digits it succeeds, and the `i`-th byte is sixteen
/// times the value of digit `2i` plus the value of digit `2i + 1`. Nothing is
/// claimed for other text. ASCII is asked for because the outside function
/// cuts bytes, not characters.
#[verifier::external_body]
fn hex_to_bytes(digits: &str) -> (r: Option<Vec<u8>>)
    requires
        digits.is_ascii(),
    ensures
        r is Some <== all_hex_digits(digits@) && digits@.len() % 2 == 0,
        r matches Some(v) ==> all_hex_digits(digits@) ==> v@ == hex_bytes(digits@),
{
    byteutils::hex_to_bytes(digits).ok()
}

/// Calls `byteorder::ReadBytesExt::read_i16` with `BigEndian` on a cursor
/// over `bytes`. Claimed here: with fewer than two bytes it fails; otherwise
/// it gives the first two bytes, most significant first, read as a signed
/// 16-bit number.
#[verifier::external_body]
fn read_i16_be(bytes: &Vec<u8>) -> (r: Option<i16>)
    ensures
        bytes@.len() < 2 ==> r is None,
        bytes@.len() >= 2 ==> r == Some(signed16(big_endian(bytes@.take(2))) as i16),
{
    byteorder::ReadBytesExt::read_i16::<byteorder::BigEndian>(&mut std::io::Cursor::new(bytes)).ok()
}

/// Calls `byteorder::ReadBytesExt::read_i32` with `BigEndian` on a cursor
/// over `bytes`. Claimed here: with fewer than four bytes it fails; otherwise
/// it gives the first four bytes, most significant first, read as a signed
/// 32-bit number.
#[verifier::external_body]
fn read_i32_be(bytes: &Vec<u8>) -> (r: Option<i32>)
    ensures
        bytes@.len() < 4 ==> r is None,
        bytes@.len() >= 4 ==> r == Some(signed32(big_endian(bytes@.take(4))) as i32),
{
    byteorder::ReadBytesExt::read_i32::<byteorder::BigEndian>(&mut std::io::Cursor::new(bytes)).ok()
}

/// Four hex digits spell the same number digit by digit and byte by byte.
proof fn lemma_hex_value_4(d: Seq<char>)
    requires
        d.len() == 4,
        all_hex_digits(d),
    ensures
        0 <= hex_value(d) < 0x1_0000,
        hex_value(d) == big_endian(hex_bytes(d).take(2)),
{
    reveal_with_fuel(hex_value, 5);
    reveal_with_fuel(big_endian, 3);
    assert(is_hex_digit(d[0]) && is_hex_digit(d[1]) && is_hex_digit(d[2]) && is_hex_digit(d[3]));
    let d3 = d.drop_last();
    let d2 = d3.drop_last();
    let d1 = d2.drop_last();
    assert(d3.last() == d[2] && d2.last() == d[1] && d1.last() == d[0]);
    assert(hex_value(d) == 4096 * hex_digit_value(d[0]) + 256 * hex_digit_value(d[1]) + 16
        * hex_digit_value(d[2]) + hex_digit_value(d[3]));
    let b = hex_bytes(d).take(2);
    assert(b.len() == 2);
    assert(b[0] == hex_pair(d, 0) && b[1] == hex_pair(d, 1));
    assert(b.last() == b[1]);
    assert(b.drop_last().last() == b[0]);
    assert(b.drop_last().drop_last().len() == 0);
    assert(big_endian(b) == 256 * (b[0] as int) + b[1] as int);
}

/// Eight hex digits spell the same number digit by digit and byte by byte.
proof fn lemma_hex_value_8(d: Seq<char>)
    requires
        d.len() == 8,
        all_hex_digits(d),
    ensures
        0 <= hex_value(d) < 0x1_0000_0000,
        hex_value(d) == big_endian(hex_bytes(d).take(4)),
{
    reveal_with_fuel(hex_value, 9);
    reveal_with_fuel(big_endian, 5);
    assert(is_hex_digit(d[0]) && is_hex_digit(d[1]) && is_hex_digit(d[2]) && is_hex_digit(d[3]));
    assert(is_hex_digit(d[4]) && is_hex_digit(d[5]) && is_hex_digit(d[6]) && is_hex_digit(d[7]));
    let d7 = d.drop_last();
    let d6 = d7.drop_last();
    let d5 = d6.drop_last();
    let d4 = d5.drop_last();
    let d3 = d4.drop_last();
    let d2 = d3.drop_last();
    let d1 = d2.drop_last();
    assert(d7.last() == d[6] && d6.last() == d[5] && d5.last() == d[4] && d4.last() == d[3]);
    assert(d3.last() == d[2] && d2.last() == d[1] && d1.last() == d[0]);
    assert(hex_value(d4) == 4096 * hex_digit_value(d[0]) + 256 * hex_digit_value(d[1]) + 16
        * hex_digit_value(d[2]) + hex_digit_value(d[3]));
    assert(hex_value(d) == 65536 * hex_value(d4) + 4096 * hex_digit_value(d[4]) + 256
        * hex_digit_value(d[5]) + 16 * hex_digit_value(d[6]) + hex_digit_value(d[7]));
    let b = hex_bytes(d).take(4);
    assert(b.len() == 4);
    assert(b[0] == hex_pair(d, 0) && b[1] == hex_pair(d, 1) && b[2] == hex_pair(d, 2) && b[3]
        == hex_pair(d, 3));
    let b3 = b.drop_last();
    let b2 = b3.drop_last();
    let b1 = b2.drop_last();
    assert(b.last() == b[3] && b3.last() == b[2] && b2.last() == b[1] && b1.last() == b[0]);
    assert(b1.drop_last().len() == 0);
    assert(big_endian(b2) == 256 * (b[0] as int) + b[1] as int);
    assert(big_endian(b) == 65536 * big_endian(b2) + 256 * (b[2] as int) + b[3] as int);
}

/// Text with a character beyond ASCII names no id.
pub proof fn lemma_ids_are_ascii(text: Seq<char>)
    ensures
        canonical_id(text) is Some ==> vstd::utf8::is_ascii_chars(text),
{
    if canonical_id(text) is Some {
        if has_hex_prefix(text) {
            let digits = text.skip(2);
            assert forall|i: int| 0 <= i < text.len() implies '\0' <= #[trigger] text[i]
                <= '\u{7f}' by {
                if i >= 2 {
                    assert(is_hex_digit(digits[i - 2]));
                }
            }
        } else {
            lemma_numbers_are_ascii(text, i32::MAX as int);
        }
    }
}

/// True when the bytes of `text` from position 2 on are all hex digits.
fn hex_digits_follow(text: &str) -> (ok: bool)
    requires
        text.is_ascii(),
        text@.len() >= 2,
    ensures
        ok == all_hex_digits(text@.skip(2)),
{
    broadcast use is_ascii_spec_bytes;

    let bytes = text.as_bytes();
    let n: usize = bytes.len();
    let ghost digits = text@.skip(2);
    let mut i: usize = 2;
    while i < n
        invariant
            text.is_ascii(),
            bytes@ == text.spec_bytes(),
            n == text@.len(),
            digits == text@.skip(2),
            2 <= i <= n,
            forall|j: int| 0 <= j < i - 2 ==> is_hex_digit(#[trigger] digits[j]),
        decreases n - i,
    {
        let b: u8 = bytes[i];
        let ghost c: char = text@[i as int];
        assert(c == digits[i - 2]);
        assert(b == c as u8);
        assert('\0' <= c <= '\u{7f}');
        let hex: bool = (48 <= b && b <= 57) || (97 <= b && b <= 102) || (65 <= b && b <= 70);
        assert(hex == is_hex_digit(c));
        if !hex {
            return false;
        }
        i = i + 1;
    }
    true
}

/// Resolves the text of an identifier to its canonical id.
///
/// Hexadecimal text is `0x` and then exactly four or exactly eight hex
/// digits: four are a signed 16-bit number to which [`BASE`] is added, eight
/// are a signed 32-bit number that is used as it is. All other text is read
/// as a signed 32-bit decimal number: below [`BASE`] it is relative and
/// [`BASE`] is added, from [`BASE`] on it is used as it is. A negative
/// decimal number is accepted and is relative like any small value.
///
/// Text that is neither fails with [`IconError::InvalidIdentifier`].
pub fn parse_decimal_or_hex_string(text: &str) -> (r: Result<i32, IconError>)
    ensures
        match canonical_id(text@) {
            Some(id) => r == Ok::<i32, IconError>(id as i32) && i32::MIN <= id <= i32::MAX,
            None => r == Err::<i32, IconError>(IconError::InvalidIdentifier),
        },
{
    broadcast use is_ascii_spec_bytes;

    if !text.is_ascii() {
        proof {
            lemma_ids_are_ascii(text@);
        }
        return Err(IconError::InvalidIdentifier);
    }
    let bytes = text.as_bytes();
    let n: usize = bytes.len();
    if n >= 2 && bytes[0] == 48 && bytes[1] == 120 {
        assert(has_hex_prefix(text@)) by {
            assert(text@[0] as u8 == 48 && text@[1] as u8 == 120);
            assert('\0' <= text@[0] <= '\u{7f}' && '\0' <= text@[1] <= '\u{7f}');
        }
        let count: usize = n - 2;
        if count != 4 && count != 8 {
            return Err(IconError::InvalidIdentifier);
        }
        if !hex_digits_follow(text) {
            return Err(IconError::InvalidIdentifier);
        }
        let digits: &str = text.substring_ascii(2, n);
        assert(digits@ =~= text@.skip(2));
        let decoded: Option<Vec<u8>> = hex_to_bytes(digits);
        match decoded {
            Some(v) => {
                if count == 4 {
                    proof {
                        lemma_hex_value_4(digits@);
                    }
                    match read_i16_be(&v) {
                        Some(short) => Ok(short as i32 + BASE),
                        None => Err(IconError::InvalidIdentifier),
                    }
                } else {
                    proof {
                        lemma_hex_value_8(digits@);
                    }
                    match read_i32_be(&v) {
                        Some(long) => Ok(long),
                        None => Err(IconError::InvalidIdentifier),
                    }
                }
            },
            None => Err(IconError::InvalidIdentifier),
        }
    } else {
        assert(!has_hex_prefix(text@)) by {
            if has_hex_prefix(text@) {
                assert(text@[0] as u8 == 48 && text@[1] as u8 == 120);
            }
        }
        match read_i32(text) {
            Some(v) => {
                if v < BASE {
                    Ok(v + BASE)
                } else {
                    Ok(v)
                }
            },
            None => Err(IconError::InvalidIdentifier),
        }
    }
}

/// The four spellings of one identifier resolve to one canonical id.
///
/// Let an identifier lie `v` past [`BASE`], with `v` from 0 to `0x7FFF`. Its
/// short hex form spells `v` in four digits, its long hex form spells
/// `BASE + v` in eight, its relative decimal form spells `v` and its
/// absolute decimal form spells `BASE + v`. All four resolve to `BASE + v`.
pub proof fn lemma_four_spellings(
    short: Seq<char>,
    long: Seq<char>,
    relative: Seq<char>,
    absolute: Seq<char>,
)
    requires
        short.len() == 4 && all_hex_digits(short),
        long.len() == 8 && all_hex_digits(long),
        relative.len() > 0 && all_digits(relative),
        absolute.len() > 0 && all_digits(absolute),
        0 <= hex_value(short) <= 0x7FFF,
        hex_value(long) == BASE + hex_value(short),
        decimal_value(relative) == hex_value(short),
        decimal_value(absolute) == BASE + hex_value(short),
    ensures
        canonical_id(seq!['0', 'x'] + short) == Some(BASE + hex_value(short)),
        canonical_id(seq!['0', 'x'] + long) == Some(BASE + hex_value(short)),
        canonical_id(relative) == Some(BASE + hex_value(short)),
        canonical_id(absolute) == Some(BASE + hex_value(short)),
{
    let prefix = seq!['0', 'x'];
    assert((prefix + short).skip(2) =~= short);
    assert((prefix + long).skip(2) =~= long);
    assert(has_hex_prefix(prefix + short));
    assert(has_hex_prefix(prefix + long));
    assert(is_digit(relative[0]));
    assert(is_digit(absolute[0]));
    if relative.len() >= 2 {
        assert(is_digit(relative[1]));
    }
    if absolute.len() >= 2 {
        assert(is_digit(absolute[1]));
    }
    assert(!has_hex_prefix(relative));
    assert(!has_hex_prefix(absolute));
}

/// Decimal text that spells no negative number resolves to an id of at
/// least [`BASE`]; a negative number resolves to an id below it, as far below
/// as the number is below zero.
pub proof fn lemma_decimal_ids(text: Seq<char>)
    requires
        !has_hex_prefix(text),
        signed_value(text, i32::MAX as int) is Some,
    ensures
        canonical_id(text) is Some,
        signed_value(text, i32::MAX as int)->0 >= 0 ==> canonical_id(text)->0 >= BASE,
        signed_value(text, i32::MAX as int)->0 < 0 ==> canonical_id(text)->0 == BASE
            + signed_value(text, i32::MAX as int)->0,
        signed_value(text, i32::MAX as int)->0 >= BASE ==> canonical_id(text) == signed_value(
            text,
            i32::MAX as int,
        ),
{
}

} // verus!
