//! Timezone offsets of the form `+HHMM` or `-HHMM`.

use vstd::prelude::*;
use crate::decimal::{
    all_digits, decimal_u32, digits_value, parse_u32, DIGIT_NINE, DIGIT_ZERO, MINUS, PLUS,
};
use crate::object::parsed::{parse_error, Error, ErrorView};
use crate::time::Sign;

verus! {

/// The offset in seconds of `hours` and `minutes` east of UTC for `Sign::Plus`,
/// west of it for `Sign::Minus`.
///
/// The sign applies to the minutes as it does to the hours, so that `-0130` is
/// the negation of `+0130`.
pub open spec fn offset_in_seconds(sign: Sign, hours: int, minutes: int) -> int {
    let magnitude = hours * 3600 + minutes * 60;
    if sign == Sign::Minus {
        -magnitude
    } else {
        magnitude
    }
}

/// What `parse_timezone_offset` returns for `d`.
///
/// The offset has a sign, two digits of hours, and minutes: an unsigned
/// decimal number that fills the rest of `d`. An offset that does not fit 32
/// bits is reported as a fault of the minutes.
pub open spec fn timezone_offset(d: Seq<u8>) -> Result<(i32, Sign), ErrorView> {
    if d.len() < 5 || !(d[0] == PLUS || d[0] == MINUS) {
        Err(ErrorView::ParseError("invalid timezone offset"@, d))
    } else if !all_digits(d.subrange(1, 3)) {
        Err(ErrorView::ParseError("invalid 'hours' string"@, d.take(3)))
    } else {
        let sign = if d[0] == MINUS {
            Sign::Minus
        } else {
            Sign::Plus
        };
        let hours = digits_value(d.subrange(1, 3));
        match decimal_u32(d.skip(3)) {
            Some(minutes) if i32::MIN <= offset_in_seconds(sign, hours, minutes as int)
                <= i32::MAX => Ok((offset_in_seconds(sign, hours, minutes as int) as i32, sign)),
            _ => Err(ErrorView::ParseError("invalid 'minutes' string"@, d.skip(3))),
        }
    }
}

/// Two offsets that differ in their sign alone are each the negation of the
/// other, whatever their minutes.
pub proof fn lemma_offset_negates_with_sign(east: Seq<u8>, west: Seq<u8>)
    requires
        east.len() > 0 && east[0] == PLUS,
        west.len() > 0 && west[0] == MINUS,
        east.skip(1) == west.skip(1),
        timezone_offset(east) is Ok,
        timezone_offset(west) is Ok,
    ensures
        timezone_offset(west)->Ok_0.0 == -timezone_offset(east)->Ok_0.0,
        timezone_offset(east)->Ok_0.1 == Sign::Plus,
        timezone_offset(west)->Ok_0.1 == Sign::Minus,
{
    assert(east.len() == west.len()) by {
        assert(west.skip(1).len() == west.len() - 1);
    }
    assert(east.subrange(1, 3) =~= east.skip(1).subrange(0, 2));
    assert(west.subrange(1, 3) =~= west.skip(1).subrange(0, 2));
    assert(east.skip(3) =~= east.skip(1).skip(2));
    assert(west.skip(3) =~= west.skip(1).skip(2));
}

/// Decodes a timezone offset into seconds, and keeps its sign beside it.
///
/// `d` is refused where it is shorter than five bytes or does not begin with
/// `+` or `-`. The two bytes behind the sign are the hours; the bytes behind
/// them, two in a well-formed offset, are the minutes. The error names the
/// part that is no number and carries its bytes.
pub fn parse_timezone_offset(d: &[u8]) -> (offset: Result<(i32, Sign), Error>)
    ensures
        match offset {
            Ok(found) => timezone_offset(d@) matches Ok(expected) && expected == found,
            Err(e) => timezone_offset(d@) matches Err(cause) && cause == e@,
        },
        d@.len() < 5 || (d@[0] != PLUS && d@[0] != MINUS) ==> offset is Err,
        offset matches Ok(found) ==> {
            &&& found.1 == Sign::Minus <==> d@[0] == MINUS
            &&& found.1 == Sign::Minus ==> found.0 <= 0
            &&& found.1 == Sign::Plus ==> found.0 >= 0
        },
{
    if d.len() < 5 || !(d[0] == PLUS || d[0] == MINUS) {
        return Err(parse_error("invalid timezone offset", d));
    }
    let sign = if d[0] == MINUS {
        Sign::Minus
    } else {
        Sign::Plus
    };
    let ghost hour_digits = d@.subrange(1, 3);
    if d[1] < DIGIT_ZERO || d[1] > DIGIT_NINE || d[2] < DIGIT_ZERO || d[2] > DIGIT_NINE {
        assert(hour_digits[0] == d@[1] && hour_digits[1] == d@[2]);
        return Err(parse_error("invalid 'hours' string", &d[0..3]));
    }
    let hours: i64 = (d[1] - DIGIT_ZERO) as i64 * 10 + (d[2] - DIGIT_ZERO) as i64;
    assert(hours == digits_value(hour_digits)) by {
        reveal_with_fuel(digits_value, 3);
    }
    let minute_digits = &d[3..d.len()];
    match parse_u32(minute_digits) {
        Some(minutes) => {
            let magnitude: i64 = hours * 3600 + minutes as i64 * 60;
            let seconds: i64 = if sign == Sign::Minus {
                -magnitude
            } else {
                magnitude
            };
            if seconds < i32::MIN as i64 || seconds > i32::MAX as i64 {
                Err(parse_error("invalid 'minutes' string", minute_digits))
            } else {
                Ok((seconds as i32, sign))
            }
        },
        None => Err(parse_error("invalid 'minutes' string", minute_digits)),
    }
}

} // verus!
