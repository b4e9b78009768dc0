//! Unsigned decimal numbers in text, read as Rust's `from_str` reads them for
//! unsigned integers: an optional `+`, then one or more ASCII digits, whose
//! value must not exceed the type's maximum.
//!
//! Text is given as a sequence of code points (`u32`): a `char` as its scalar
//! value, a UTF-16 code unit as its number.

use vstd::prelude::*;

verus! {

pub open spec fn is_digit(c: u32) -> bool {
    0x30 <= c <= 0x39
}

/// The value of a sequence of ASCII digits.
pub open spec fn digits_value(s: Seq<u32>) -> nat
    decreases s.len(),
{
    if s.len() == 0 {
        0
    } else {
        digits_value(s.drop_last()) * 10 + (s.last() - 0x30) as nat
    }
}

/// The digits of `s`: `s` without a leading `+`.
pub open spec fn unsigned_digits(s: Seq<u32>) -> Seq<u32> {
    if s.len() > 0 && s[0] == 0x2b {
        s.drop_first()
    } else {
        s
    }
}

/// The number that `s` spells, if it is one that does not exceed `max`.
pub open spec fn parsed_unsigned(s: Seq<u32>, max: nat) -> Option<nat> {
    let digits = unsigned_digits(s);
    if digits.len() > 0 && (forall|i: int| 0 <= i < digits.len() ==> is_digit(#[trigger] digits[i]))
        && digits_value(digits) <= max {
        Some(digits_value(digits))
    } else {
        None
    }
}

/// Appending a digit never makes the value smaller.
proof fn lemma_digits_value_grows(s: Seq<u32>, k: int)
    requires
        0 <= k <= s.len(),
        forall|i: int| 0 <= i < s.len() ==> is_digit(#[trigger] s[i]),
    ensures
        digits_value(s.take(k)) <= digits_value(s),
    decreases s.len() - k,
{
    if k < s.len() {
        lemma_digits_value_grows(s, k + 1);
        assert(s.take(k + 1).drop_last() == s.take(k));
    } else {
        assert(s.take(k) == s);
    }
}

/// Reads the unsigned number spelled by `s`, if it does not exceed `max`.
pub fn parse_unsigned(s: &Vec<u32>, max: u32) -> (r: Option<u32>)
    ensures
        match parsed_unsigned(s@, max as nat) {
            Some(v) => r == Some(v as u32),
            None => r is None,
        },
{
    let n: usize = s.len();
    let start: usize = if n > 0 && s[0] == 0x2b { 1 } else { 0 };
    let ghost digits = unsigned_digits(s@);
    proof {
        assert(digits == s@.skip(start as int));
    }
    if start == n {
        return None;
    }
    let mut value: u64 = 0;
    let mut i: usize = start;
    while i < n
        invariant
            start <= i <= n,
            n == s@.len(),
            digits == s@.skip(start as int),
            digits == unsigned_digits(s@),
            forall|j: int| 0 <= j < i - start ==> is_digit(#[trigger] digits[j]),
            value == digits_value(digits.take(i - start)),
            value <= max,
        decreases n - i,
    {
        let c: u32 = s[i];
        if c < 0x30 || c > 0x39 {
            proof {
                assert(!is_digit(digits[i - start]));
            }
            return None;
        }
        proof {
            assert(digits.take(i - start + 1).drop_last() == digits.take(i - start));
            assert(digits[i - start] == c);
        }
        let next: u64 = value * 10 + (c - 0x30) as u64;
        if next > max as u64 {
            proof {
                if forall|j: int| 0 <= j < digits.len() ==> is_digit(#[trigger] digits[j]) {
                    lemma_digits_value_grows(digits, i - start + 1);
                }
            }
            return None;
        }
        value = next;
        i = i + 1;
    }
    proof {
        assert(digits.take(n - start) == digits);
    }
    Some(value as u32)
}

} // verus!
