//! Decimal numbers in request text.
//!
//! A number is an optional sign followed by at least one digit `0`-`9`.
//! Nothing else is accepted: no blanks, no underscores, no empty text, and no
//! value outside the range of the type asked for.

use vstd::prelude::*;
use vstd::string::*;

verus! {

/// True for the ten decimal digits.
pub open spec fn is_digit(c: char) -> bool {
    '0' <= c <= '9'
}

/// The number that a decimal digit stands for.
pub open spec fn digit_value(c: char) -> int {
    c as int - 48
}

/// True when every character is a decimal digit.
pub open spec fn all_digits(s: Seq<char>) -> bool {
    forall|i: int| 0 <= i < s.len() ==> is_digit(#[trigger] s[i])
}

/// The number that a run of decimal digits spells, most significant first.
pub open spec fn decimal_value(s: Seq<char>) -> int
    decreases s.len(),
{
    if s.len() == 0 {
        0
    } else {
        10 * decimal_value(s.drop_last()) + digit_value(s.last())
    }
}

/// The number spelled by `s` where `s` is one or more digits and the number
/// is at most `limit`.
pub open spec fn magnitude(s: Seq<char>, limit: int) -> Option<int> {
    if s.len() > 0 && all_digits(s) && decimal_value(s) <= limit {
        Some(decimal_value(s))
    } else {
        None
    }
}

/// An unsigned number: an optional `+`, then digits, with a value of at most
/// `max`.
pub open spec fn unsigned_value(s: Seq<char>, max: int) -> Option<int> {
    if s.len() > 0 && s[0] == '+' {
        magnitude(s.skip(1), max)
    } else {
        magnitude(s, max)
    }
}

/// A signed number: an optional `+` or `-`, then digits, with a value from
/// `-(max + 1)` to `max`.
pub open spec fn signed_value(s: Seq<char>, max: int) -> Option<int> {
    if s.len() > 0 && s[0] == '-' {
        match magnitude(s.skip(1), max + 1) {
            Some(m) => Some(-m),
            None => None,
        }
    } else {
        unsigned_value(s, max)
    }
}

/// A run of digits spells no less than any of its prefixes.
pub proof fn lemma_prefix_value(s: Seq<char>, k: int)
    requires
        all_digits(s),
        0 <= k <= s.len(),
    ensures
        0 <= decimal_value(s.take(k)) <= decimal_value(s),
    decreases s.len(),
{
    if s.len() == 0 {
        assert(s.take(k) =~= s);
    } else if k == s.len() {
        assert(s.take(k) =~= s);
        lemma_prefix_value(s.drop_last(), k - 1);
        assert(is_digit(s[s.len() - 1]));
    } else {
        assert(s.drop_last().take(k) =~= s.take(k));
        lemma_prefix_value(s.drop_last(), k);
        assert(is_digit(s[s.len() - 1]));
    }
}

/// A text with a character beyond ASCII is no number.
pub proof fn lemma_numbers_are_ascii(s: Seq<char>, max: int)
    ensures
        signed_value(s, max) is Some ==> vstd::utf8::is_ascii_chars(s),
        unsigned_value(s, max) is Some ==> vstd::utf8::is_ascii_chars(s),
        magnitude(s, max) is Some ==> vstd::utf8::is_ascii_chars(s),
{
    if magnitude(s, max) is Some {
        assert forall|i: int| 0 <= i < s.len() implies '\0' <= #[trigger] s[i] <= '\u{7f}' by {
            assert(is_digit(s[i]));
        }
    }
    if s.len() > 0 && (s[0] == '+' || s[0] == '-') {
        let body = s.skip(1);
        if magnitude(body, max) is Some || magnitude(body, max + 1) is Some {
            assert forall|i: int| 0 <= i < s.len() implies '\0' <= #[trigger] s[i] <= '\u{7f}' by {
                if i > 0 {
                    assert(is_digit(body[i - 1]));
                }
            }
        }
    }
}

/// Reads the digits of `text` from position `from` to the end.
pub(crate) fn read_magnitude(text: &str, from: usize, limit: u64) -> (r: Option<u64>)
    requires
        text.is_ascii(),
        from <= text@.len(),
    ensures
        match magnitude(text@.skip(from as int), limit as int) {
            Some(v) => r == Some(v as u64) && 0 <= v <= limit,
            None => r is None,
        },
{
    broadcast use is_ascii_spec_bytes;

    let bytes = text.as_bytes();
    let n: usize = bytes.len();
    let ghost body = text@.skip(from as int);
    if from == n {
        return None;
    }
    let mut acc: u64 = 0;
    let mut i: usize = from;
    assert(body.take(0) =~= Seq::<char>::empty());
    while i < n
        invariant
            text.is_ascii(),
            bytes@ == text.spec_bytes(),
            n == text@.len(),
            body == text@.skip(from as int),
            from <= i <= n,
            all_digits(body.take(i - from)),
            acc == decimal_value(body.take(i - from)),
            acc <= limit,
        decreases n - i,
    {
        let b: u8 = bytes[i];
        let ghost c: char = text@[i as int];
        assert(c == body[i - from]);
        assert(b == c as u8);
        assert('\0' <= c <= '\u{7f}');
        if b < 48 || b > 57 {
            assert(!is_digit(c));
            return None;
        }
        let d: u64 = (b - 48) as u64;
        assert(is_digit(c) && d == digit_value(c));
        let ghost next = body.take(i - from + 1);
        assert(next.drop_last() =~= body.take(i - from));
        assert(next.last() == c);
        assert(all_digits(next)) by {
            assert forall|j: int| 0 <= j < next.len() implies is_digit(#[trigger] next[j]) by {
                if j < i - from {
                    assert(is_digit(body.take(i - from)[j]));
                }
            }
        }
        if acc > limit / 10 || (acc == limit / 10 && d > limit % 10) {
            proof {
                assert(decimal_value(next) > limit);
                if all_digits(body) {
                    lemma_prefix_value(body, i - from + 1);
                }
            }
            return None;
        }
        acc = acc * 10 + d;
        i = i + 1;
    }
    assert(body.take(i - from) =~= body);
    Some(acc)
}

/// Reads an unsigned decimal number of at most `max`.
pub(crate) fn read_unsigned(text: &str, max: u64) -> (r: Option<u64>)
    ensures
        match unsigned_value(text@, max as int) {
            Some(v) => r == Some(v as u64) && 0 <= v <= max,
            None => r is None,
        },
{
    broadcast use is_ascii_spec_bytes;

    if !text.is_ascii() {
        proof {
            lemma_numbers_are_ascii(text@, max as int);
        }
        return None;
    }
    let bytes = text.as_bytes();
    if bytes.len() > 0 && bytes[0] == 43 {
        assert(text@[0] == '+') by {
            assert(text@[0] as u8 == 43);
            assert('\0' <= text@[0] <= '\u{7f}');
        }
        read_magnitude(text, 1, max)
    } else {
        assert(!(text@.len() > 0 && text@[0] == '+')) by {
            if text@.len() > 0 && text@[0] == '+' {
                assert(text@[0] as u8 == 43);
            }
        }
        assert(text@.skip(0) =~= text@);
        read_magnitude(text, 0, max)
    }
}

/// Reads a signed 32-bit decimal number.
pub(crate) fn read_i32(text: &str) -> (r: Option<i32>)
    ensures
        match signed_value(text@, i32::MAX as int) {
            Some(v) => r == Some(v as i32) && i32::MIN <= v <= i32::MAX,
            None => r is None,
        },
{
    broadcast use is_ascii_spec_bytes;

    if !text.is_ascii() {
        proof {
            lemma_numbers_are_ascii(text@, i32::MAX as int);
        }
        return None;
    }
    let bytes = text.as_bytes();
    if bytes.len() > 0 && bytes[0] == 45 {
        assert(text@[0] == '-') by {
            assert(text@[0] as u8 == 45);
            assert('\0' <= text@[0] <= '\u{7f}');
        }
        match read_magnitude(text, 1, 0x8000_0000) {
            Some(m) => {
                let v: i64 = 0 - (m as i64);
                Some(v as i32)
            },
            None => None,
        }
    } else {
        assert(!(text@.len() > 0 && text@[0] == '-')) by {
            if text@.len() > 0 && text@[0] == '-' {
                assert(text@[0] as u8 == 45);
            }
        }
        match read_unsigned(text, 0x7fff_ffff) {
            Some(m) => Some(m as i32),
            None => None,
        }
    }
}

} // verus!
