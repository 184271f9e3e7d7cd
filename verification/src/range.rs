//! The value of an HTTP `Range` header that asks for one span of bytes.

use vstd::prelude::*;
use vstd::string::*;
use crate::decimal::{lemma_numbers_are_ascii, read_unsigned, unsigned_value};

verus! {

/// The unit that a byte range starts with, with its equals sign.
pub open spec fn range_unit() -> Seq<char> {
    seq!['b', 'y', 't', 'e', 's', '=']
}

/// The two ends of the range that `header` asks for.
///
/// The header is `bytes=`, a number, a hyphen and a number. Each number is
/// written in decimal, with an optional `+` before it, and is at most
/// `u64::MAX`. Any other text asks for nothing.
pub open spec fn range_of(header: Seq<char>) -> Option<(int, int)> {
    if header.len() >= 6 && header.take(6) == range_unit() {
        let span = header.skip(6);
        match span.index_of_first('-') {
            Some(dash) => match (
                unsigned_value(span.take(dash), u64::MAX as int),
                unsigned_value(span.skip(dash + 1), u64::MAX as int),
            ) {
                (Some(start), Some(end)) => Some((start, end)),
                _ => None,
            },
            None => None,
        }
    } else {
        None
    }
}

/// A header with a character beyond ASCII asks for nothing.
pub proof fn lemma_ranges_are_ascii(header: Seq<char>)
    ensures
        range_of(header) is Some ==> vstd::utf8::is_ascii_chars(header),
{
    if range_of(header) is Some {
        let span = header.skip(6);
        span.index_of_first_ensures('-');
        let dash = span.index_of_first('-')->0;
        let first = span.take(dash);
        let second = span.skip(dash + 1);
        lemma_numbers_are_ascii(first, u64::MAX as int);
        lemma_numbers_are_ascii(second, u64::MAX as int);
        assert forall|i: int| 0 <= i < header.len() implies '\0' <= #[trigger] header[i]
            <= '\u{7f}' by {
            if i < 6 {
                assert(header[i] == header.take(6)[i]);
            } else if i - 6 < dash {
                assert(header[i] == first[i - 6]);
            } else if i - 6 == dash {
                assert(header[i] == span[dash]);
            } else {
                assert(header[i] == second[i - 6 - dash - 1]);
            }
        }
    }
}

/// Reads the two ends of a byte range from the value of a `Range` header.
///
/// `bytes=0-499` gives `Some((0, 499))`. Text of any other shape, and a
/// number above `u64::MAX`, gives `None`. The start is not compared with the
/// end.
pub fn parse_range_header(header: &str) -> (r: Option<(u64, u64)>)
    ensures
        match range_of(header@) {
            Some((start, end)) => r == Some((start as u64, end as u64)) && 0 <= start <= u64::MAX
                && 0 <= end <= u64::MAX,
            None => r is None,
        },
{
    broadcast use is_ascii_spec_bytes;

    if !header.is_ascii() {
        proof {
            lemma_ranges_are_ascii(header@);
        }
        return None;
    }
    let bytes = header.as_bytes();
    let n: usize = bytes.len();
    if n < 6 {
        return None;
    }
    let unit: bool = bytes[0] == 98 && bytes[1] == 121 && bytes[2] == 116 && bytes[3] == 101
        && bytes[4] == 115 && bytes[5] == 61;
    proof {
        let head = header@.take(6);
        assert(forall|i: int| 0 <= i < 6 ==> head[i] == header@[i]);
        assert(forall|i: int| 0 <= i < 6 ==> '\0' <= #[trigger] header@[i] <= '\u{7f}');
        assert(forall|i: int| 0 <= i < 6 ==> bytes@[i] == #[trigger] header@[i] as u8);
        if unit {
            assert(head =~= range_unit());
        } else {
            if head == range_unit() {
                assert(head[0] == 'b' && head[1] == 'y' && head[2] == 't' && head[3] == 'e'
                    && head[4] == 's' && head[5] == '=');
                assert(false);
            }
        }
    }
    if !unit {
        return None;
    }
    let ghost span = header@.skip(6);
    let mut at: usize = 6;
    while at < n && bytes[at] != 45
        invariant
            header.is_ascii(),
            bytes@ == header.spec_bytes(),
            n == header@.len(),
            span == header@.skip(6),
            6 <= at <= n,
            forall|j: int| 0 <= j < at - 6 ==> #[trigger] span[j] != '-',
        decreases n - at,
    {
        proof {
            let c = header@[at as int];
            assert(c == span[at - 6]);
            assert(bytes@[at as int] == c as u8);
        }
        at = at + 1;
    }
    proof {
        span.index_of_first_ensures('-');
    }
    if at == n {
        proof {
            if span.contains('-') {
                let j = span.index_of_first('-')->0;
                assert(span[j] != '-');
            }
        }
        return None;
    }
    proof {
        let c = header@[at as int];
        assert(c == span[at - 6]);
        assert(bytes@[at as int] == c as u8);
        assert('\0' <= c <= '\u{7f}');
        assert(c == '-');
        assert(span.contains('-'));
        let j = span.index_of_first('-')->0;
        if j < at - 6 {
            assert(span[j] != '-');
        }
        assert(j == at - 6);
    }
    let first: &str = header.substring_ascii(6, at);
    let second: &str = header.substring_ascii(at + 1, n);
    assert(first@ =~= span.take(at - 6));
    assert(second@ =~= span.skip(at - 6 + 1));
    match read_unsigned(first, u64::MAX) {
        Some(start) => match read_unsigned(second, u64::MAX) {
            Some(end) => Some((start, end)),
            None => None,
        },
        None => None,
    }
}

} // verus!
