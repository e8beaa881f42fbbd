//! Reading the persisted high score.
//!
//! The high score is kept on disk as one decimal number in plain text.
//! The host reads the file and hands the text here; an unreadable file or
//! unparsable text falls back to a score of 0.

use vstd::prelude::*;

verus! {

use vstd::string::StringSliceAdditionalSpecFns;

/// Whether byte `b` is an ASCII decimal digit.
pub open spec fn is_digit(b: u8) -> bool {
    48 <= b <= 57
}

/// Whether every byte of `s` is an ASCII decimal digit.
pub open spec fn all_digits(s: Seq<u8>) -> bool {
    forall|k: int| 0 <= k < s.len() ==> is_digit(#[trigger] s[k])
}

/// The number the digit string `s` denotes in decimal.
pub open spec fn digits_value(s: Seq<u8>) -> int
    decreases s.len(),
{
    if s.len() == 0 {
        0
    } else {
        digits_value(s.drop_last()) * 10 + (s.last() - 48)
    }
}

/// The score that parsing the byte string `s` yields: an optional plus
/// sign (byte 43) followed by at least one digit denotes its value when
/// that value fits an unsigned 32-bit counter; any other text, including
/// an overflowing number, falls back to 0.
pub open spec fn spec_parsed_high_score(s: Seq<u8>) -> int {
    let body = if s.len() > 0 && s[0] == 43 {
        s.subrange(1, s.len() as int)
    } else {
        s
    };
    if body.len() > 0 && all_digits(body) && digits_value(body) <= u32::MAX {
        digits_value(body)
    } else {
        0
    }
}

/// A digit string denotes a non-negative number.
proof fn lemma_digits_value_nonneg(s: Seq<u8>)
    requires
        all_digits(s),
    ensures
        digits_value(s) >= 0,
    decreases s.len(),
{
    if s.len() > 0 {
        assert(all_digits(s.drop_last()));
        lemma_digits_value_nonneg(s.drop_last());
    }
}

/// A digit string denotes at least as much as any of its prefixes.
proof fn lemma_digits_prefix_le(s: Seq<u8>, k: int)
    requires
        all_digits(s),
        0 <= k <= s.len(),
    ensures
        digits_value(s.subrange(0, k)) <= digits_value(s),
    decreases s.len() - k,
{
    if k < s.len() {
        assert(all_digits(s.subrange(0, k)));
        lemma_digits_value_nonneg(s.subrange(0, k));
        assert(s.subrange(0, k + 1).drop_last() =~= s.subrange(0, k));
        assert(s.subrange(0, k + 1).last() == s[k]);
        lemma_digits_prefix_le(s, k + 1);
    } else {
        assert(s.subrange(0, k) =~= s);
    }
}

/// Parses the persisted high score: the denoted value for a decimal
/// number that fits, 0 for anything else.
pub fn parse_high_score(s: &str) -> (r: u32)
    ensures
        r == spec_parsed_high_score(s.spec_bytes()),
{
    let bytes = s.as_bytes();
    let n = bytes.len();
    let ghost bs = s.spec_bytes();
    let start: usize = if n > 0 && bytes[0] == 43 {
        1
    } else {
        0
    };
    let ghost body = if bs.len() > 0 && bs[0] == 43 {
        bs.subrange(1, bs.len() as int)
    } else {
        bs
    };
    proof {
        assert(body =~= bs.subrange(start as int, n as int));
    }
    if start >= n {
        return 0;
    }
    let mut acc: u32 = 0;
    let mut k: usize = start;
    while k < n
        invariant
            start <= k <= n,
            start <= 1,
            n == bs.len(),
            bytes@ == bs,
            bs == s.spec_bytes(),
            body == (if bs.len() > 0 && bs[0] == 43 {
                bs.subrange(1, bs.len() as int)
            } else {
                bs
            }),
            body == bs.subrange(start as int, n as int),
            all_digits(bs.subrange(start as int, k as int)),
            acc == digits_value(bs.subrange(start as int, k as int)),
        decreases n - k,
    {
        let b = bytes[k];
        if b < 48 || b > 57 {
            proof {
                assert(body[k - start] == bs[k as int]);
                assert(!is_digit(body[k - start]));
            }
            return 0;
        }
        let wide: u64 = acc as u64 * 10 + (b - 48) as u64;
        proof {
            assert(bs.subrange(start as int, k as int + 1).drop_last() =~= bs.subrange(
                start as int,
                k as int,
            ));
            assert(bs.subrange(start as int, k as int + 1).last() == bs[k as int]);
            assert(all_digits(bs.subrange(start as int, k as int + 1)));
        }
        if wide > u32::MAX as u64 {
            proof {
                if all_digits(body) {
                    lemma_digits_prefix_le(body, k as int + 1 - start);
                    assert(body.subrange(0, k as int + 1 - start) =~= bs.subrange(
                        start as int,
                        k as int + 1,
                    ));
                    assert(digits_value(body) > u32::MAX);
                }
            }
            return 0;
        }
        acc = wide as u32;
        k = k + 1;
    }
    proof {
        assert(bs.subrange(start as int, n as int) =~= body);
    }
    acc
}

} // verus!
