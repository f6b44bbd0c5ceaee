//! Unsigned decimal numbers as they are written in option values: an
//! optional `+`, then one or more ASCII digits.

use crate::text::chars_of;
use vstd::prelude::*;

verus! {

/// Whether `c` is one of `0` to `9`.
pub open spec fn is_digit(c: char) -> bool {
    '0' <= c <= '9'
}

/// The number that the digit `c` stands for.
pub open spec fn digit_value(c: char) -> nat {
    (c as u32 - '0' as u32) as nat
}

/// Whether `s` holds digits only.
pub open spec fn all_digits(s: Seq<char>) -> bool {
    forall|i: int| 0 <= i < s.len() ==> is_digit(#[trigger] s[i])
}

/// The number that the digits `s` spell, most significant digit first.
pub open spec fn digits_value(s: Seq<char>) -> nat
    decreases s.len(),
{
    if s.len() == 0 {
        0
    } else {
        digits_value(s.drop_last()) * 10 + digit_value(s.last())
    }
}

/// `s` after its sign: a single leading `+` is dropped.
pub open spec fn unsigned_digits(s: Seq<char>) -> Seq<char> {
    if s.len() > 0 && s[0] == '+' {
        s.drop_first()
    } else {
        s
    }
}

/// The number that `s` denotes, if it is an unsigned decimal number: an
/// optional `+` and then at least one digit, nothing else.
pub open spec fn decimal(s: Seq<char>) -> Option<nat> {
    let digits = unsigned_digits(s);
    if digits.len() > 0 && all_digits(digits) {
        Some(digits_value(digits))
    } else {
        None
    }
}

/// The number that `s` denotes, if it is an unsigned decimal number no
/// greater than `max`.
pub open spec fn decimal_up_to(s: Seq<char>, max: nat) -> Option<nat> {
    match decimal(s) {
        Some(n) if n <= max => Some(n),
        _ => None,
    }
}

/// Adding digits never makes the number smaller.
proof fn lemma_digits_value_grows(s: Seq<char>, k: int)
    requires
        0 <= k <= s.len(),
    ensures
        digits_value(s.take(k)) <= digits_value(s),
    decreases s.len() - k,
{
    if k < s.len() {
        assert(s.drop_last().take(k) == s.take(k));
        lemma_digits_value_grows(s.drop_last(), k);
    } else {
        assert(s.take(k) == s);
    }
}

/// Reads `chars` as an unsigned decimal number no greater than `max`.
pub fn parse_decimal(chars: &[char], max: u64) -> (number: Option<u64>)
    ensures
        match decimal_up_to(chars@, max as nat) {
            Some(n) => number == Some(n as u64),
            None => number is None,
        },
{
    let n = chars.len();
    let first: usize = if n > 0 && chars[0] == '+' {
        1
    } else {
        0
    };
    if first == n {
        return None;
    }
    let ghost digits = unsigned_digits(chars@);
    let mut value: u64 = 0;
    let mut i: usize = first;
    while i < n
        invariant
            first <= i <= n == chars@.len(),
            digits == unsigned_digits(chars@),
            digits == chars@.subrange(first as int, n as int),
            all_digits(digits.take(i - first)),
            value == digits_value(digits.take(i - first)),
            value <= max,
        decreases n - i,
    {
        let c = chars[i];
        let ghost before = digits.take(i - first);
        let ghost after = digits.take(i - first + 1);
        proof {
            assert(after.drop_last() == before);
            assert(after.last() == c);
        }
        if c < '0' || c > '9' {
            proof {
                assert(digits[i - first] == c);
            }
            return None;
        }
        let d: u64 = (c as u32 - '0' as u32) as u64;
        if d > max || value > (max - d) / 10 {
            proof {
                assert(digits_value(after) > max);
                if all_digits(digits) {
                    lemma_digits_value_grows(digits, i - first + 1);
                }
            }
            return None;
        }
        value = value * 10 + d;
        proof {
            assert forall|j: int| 0 <= j < after.len() implies is_digit(#[trigger] after[j]) by {
                if j < before.len() {
                    assert(after[j] == before[j]);
                }
            }
        }
        i += 1;
    }
    proof {
        assert(digits.take(n - first) == digits);
    }
    Some(value)
}

/// Reads `s` as a `u64` written in decimal.
pub fn parse_u64(s: &str) -> (number: Option<u64>)
    ensures
        match decimal_up_to(s@, u64::MAX as nat) {
            Some(n) => number == Some(n as u64),
            None => number is None,
        },
{
    let chars = chars_of(s);
    parse_decimal(chars.as_slice(), u64::MAX)
}

/// Reads `s` as a `u8` written in decimal.
pub fn parse_u8(s: &str) -> (number: Option<u8>)
    ensures
        match decimal_up_to(s@, u8::MAX as nat) {
            Some(n) => number == Some(n as u8),
            None => number is None,
        },
{
    let chars = chars_of(s);
    match parse_decimal(chars.as_slice(), 255) {
        Some(n) => Some(n as u8),
        None => None,
    }
}

} // verus!
