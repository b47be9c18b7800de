//! Identifiers of objects: 20 bytes, written as 40 hexadecimal digits.

use vstd::prelude::*;
use hex::FromHex;

verus! {

/// The identifier of an object.
pub type Id = [u8; 20];

/// The error of the `hex` crate's decoder. Nothing is known of its contents.
#[verifier::external_type_specification]
#[verifier::external_body]
pub struct ExFromHexError(hex::FromHexError);

/// `b` is a hexadecimal digit, in either case.
pub open spec fn is_hex_digit(b: u8) -> bool {
    ||| '0' as u8 <= b <= '9' as u8
    ||| 'a' as u8 <= b <= 'f' as u8
    ||| 'A' as u8 <= b <= 'F' as u8
}

/// The number from 0 to 15 that the hexadecimal digit `b` stands for.
pub open spec fn hex_digit_value(b: u8) -> int {
    if '0' as u8 <= b <= '9' as u8 {
        b - '0' as u8
    } else if 'a' as u8 <= b <= 'f' as u8 {
        b - 'a' as u8 + 10
    } else {
        b - 'A' as u8 + 10
    }
}

/// `s` is an identifier in hexadecimal: exactly 40 hexadecimal digits.
pub open spec fn is_hex_id(s: Seq<u8>) -> bool {
    s.len() == 40 && forall|i: int| 0 <= i < 40 ==> is_hex_digit(#[trigger] s[i])
}

/// The 20 bytes that the 40 hexadecimal digits of `s` write, two digits to a
/// byte, the high one first.
pub open spec fn hex_id_bytes(s: Seq<u8>) -> Seq<u8> {
    Seq::new(20, |i: int| (16 * hex_digit_value(s[2 * i]) + hex_digit_value(s[2 * i + 1])) as u8)
}

/// Calls `<[u8; 20] as hex::FromHex>::from_hex`.
///
/// Trusted: the decoder succeeds exactly on 40 hexadecimal digits of either
/// case, and then each byte of the result is sixteen times the value of one
/// digit plus the value of the next. It fails on every other length and on any
/// other byte, and it never panics.
#[verifier::external_body]
pub(crate) fn decode_hex_id(digits: &[u8]) -> (id: Result<Id, hex::FromHexError>)
    ensures
        id is Ok <==> is_hex_id(digits@),
        id matches Ok(bytes) ==> bytes@ == hex_id_bytes(digits@),
{
    <[u8; 20]>::from_hex(digits)
}

} // verus!
