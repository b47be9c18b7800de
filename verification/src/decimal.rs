//! Decimal numbers written in ASCII digits.

use vstd::prelude::*;

verus! {

/// The digit `0`.
pub const DIGIT_ZERO: u8 = '0' as u8;

/// The digit `9`.
pub const DIGIT_NINE: u8 = '9' as u8;

/// The sign of a number that is not negative.
pub const PLUS: u8 = '+' as u8;

/// The sign of a negative number.
pub const MINUS: u8 = '-' as u8;

/// `b` is one of the ASCII digits `0` to `9`.
pub open spec fn is_digit(b: u8) -> bool {
    DIGIT_ZERO <= b <= DIGIT_NINE
}

/// Every byte of `s` is an ASCII digit.
pub open spec fn all_digits(s: Seq<u8>) -> bool {
    forall|i: int| 0 <= i < s.len() ==> is_digit(#[trigger] s[i])
}

/// The number that the digits of `s` write in base ten; 0 for no digits.
pub open spec fn digits_value(s: Seq<u8>) -> int
    decreases s.len(),
{
    if s.len() == 0 {
        0
    } else {
        10 * digits_value(s.drop_last()) + (s.last() - DIGIT_ZERO)
    }
}

/// The digits of an unsigned number: `s` without one leading `+`, if it has one.
pub open spec fn without_plus(s: Seq<u8>) -> Seq<u8> {
    if s.len() > 0 && s[0] == PLUS {
        s.skip(1)
    } else {
        s
    }
}

/// The number that `s` writes as an optional `+` and one or more digits, where
/// it fits 32 bits; `None` for every other `s`.
pub open spec fn decimal_u32(s: Seq<u8>) -> Option<u32> {
    let digits = without_plus(s);
    if digits.len() > 0 && all_digits(digits) && digits_value(digits) <= u32::MAX {
        Some(digits_value(digits) as u32)
    } else {
        None
    }
}

/// The value of digits is not negative.
pub proof fn lemma_digits_value_nonnegative(s: Seq<u8>)
    requires
        all_digits(s),
    ensures
        0 <= digits_value(s),
    decreases s.len(),
{
    if s.len() > 0 {
        let init = s.drop_last();
        lemma_digits_value_nonnegative(init);
    }
}

/// More digits never write a smaller number: the value of a prefix is at most
/// that of the whole.
pub proof fn lemma_digits_value_grows(s: Seq<u8>, n: int)
    requires
        all_digits(s),
        0 <= n <= s.len(),
    ensures
        all_digits(s.take(n)),
        0 <= digits_value(s.take(n)) <= digits_value(s),
    decreases s.len(),
{
    lemma_digits_value_nonnegative(s.take(n));
    if n == s.len() {
        assert(s.take(n) =~= s);
    } else {
        let init = s.drop_last();
        lemma_digits_value_grows(init, n);
        assert(init.take(n) =~= s.take(n));
    }
}

/// Reads an unsigned decimal number of at most 32 bits: an optional `+`, then
/// one or more digits. Leading zeros are accepted.
pub fn parse_u32(s: &[u8]) -> (value: Option<u32>)
    ensures
        value == decimal_u32(s@),
{
    let start: usize = if s.len() > 0 && s[0] == PLUS {
        1
    } else {
        0
    };
    if start == s.len() {
        return None;
    }
    let ghost digits = without_plus(s@);
    let mut acc: u64 = 0;
    let mut i: usize = start;
    while i < s.len()
        invariant
            start <= i <= s@.len(),
            digits == s@.skip(start as int),
            digits == without_plus(s@),
            all_digits(digits.take(i - start)),
            acc == digits_value(digits.take(i - start)),
            acc <= u32::MAX,
        decreases s@.len() - i,
    {
        let b = s[i];
        if b < DIGIT_ZERO || b > DIGIT_NINE {
            assert(!is_digit(digits[i - start]));
            return None;
        }
        let ghost seen = digits.take(i - start + 1);
        proof {
            assert(seen.drop_last() =~= digits.take(i - start));
        }
        acc = acc * 10 + (b - DIGIT_ZERO) as u64;
        if acc > u32::MAX as u64 {
            proof {
                if all_digits(digits) {
                    lemma_digits_value_grows(digits, i - start + 1);
                }
            }
            return None;
        }
        i += 1;
    }
    assert(digits.take(i - start) =~= digits);
    Some(acc as u32)
}

} // verus!
