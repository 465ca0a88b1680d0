//! Length and checksum rules of the tag-value encoding.

use super::error::DecodeError;
use super::header::{DIGIT_NINE, DIGIT_ZERO, EQUAL_SIGN};
use vstd::prelude::*;

verus! {

/// The length of the shortest legal message. A message holds at least
/// `BeginString <8>`, `BodyLength <9>`, `MsgType <35>` and `CheckSum <10>`;
/// with values of one byte that is `8=?|9=5|35=?|10=???|`, twenty bytes.
pub const MIN_FIX_MESSAGE_LEN_IN_BYTES: usize = 20;

/// `CheckSum <10>` always takes seven bytes: `10=`, three digits, and the
/// separator.
pub const FIELD_CHECKSUM_LEN_IN_BYTES: usize = 7;

/// The decimal digit `1`.
pub const DIGIT_ONE: u8 = 0x31;

/// The sum of all bytes of `data`.
pub open spec fn byte_sum(data: Seq<u8>) -> nat
    decreases data.len(),
{
    if data.len() == 0 {
        0
    } else {
        byte_sum(data.drop_last()) + data.last() as nat
    }
}

/// The checksum of `data`: the sum of its bytes, modulo 256.
pub open spec fn spec_checksum_10(data: Seq<u8>) -> u8 {
    (byte_sum(data) % 256) as u8
}

/// Whether `byte` is one of `'0'` to `'9'`.
pub open spec fn is_decimal_digit(byte: u8) -> bool {
    DIGIT_ZERO <= byte <= DIGIT_NINE
}

/// Whether the three bytes before the last one of `data` are decimal digits.
/// In a framed message these are the value of `CheckSum <10>`.
pub open spec fn has_checksum_digits(data: Seq<u8>) -> bool {
    &&& data.len() >= FIELD_CHECKSUM_LEN_IN_BYTES
    &&& is_decimal_digit(data[data.len() - 4])
    &&& is_decimal_digit(data[data.len() - 3])
    &&& is_decimal_digit(data[data.len() - 2])
}

/// Whether the last seven bytes of `data` form a `CheckSum <10>` field:
/// `10=`, three decimal digits, and the separator.
pub open spec fn has_checksum_field(data: Seq<u8>, separator: u8) -> bool {
    &&& has_checksum_digits(data)
    &&& data[data.len() - 7] == DIGIT_ONE
    &&& data[data.len() - 6] == DIGIT_ZERO
    &&& data[data.len() - 5] == EQUAL_SIGN
    &&& data[data.len() - 1] == separator
}

/// The number, from 0 to 999, that the three checksum digits of `data` spell.
pub open spec fn declared_checksum(data: Seq<u8>) -> int {
    (data[data.len() - 4] - DIGIT_ZERO) * 100 + (data[data.len() - 3] - DIGIT_ZERO) * 10 + (
    data[data.len() - 2] - DIGIT_ZERO)
}

/// Whether the checksum digits of `data` spell the checksum of all bytes
/// before the `CheckSum <10>` field.
pub open spec fn checksum_matches(data: Seq<u8>) -> bool {
    declared_checksum(data) == spec_checksum_10(
        data.subrange(0, data.len() - FIELD_CHECKSUM_LEN_IN_BYTES),
    )
}

/// Computes the checksum of `data`: the sum of its bytes, modulo 256.
pub fn checksum_10(data: &[u8]) -> (checksum: u8)
    ensures
        checksum == spec_checksum_10(data@),
{
    let mut value: u8 = 0;
    let mut i: usize = 0;
    while i < data.len()
        invariant
            i <= data@.len(),
            value == spec_checksum_10(data@.subrange(0, i as int)),
        decreases data@.len() - i,
    {
        assert(data@.subrange(0, i + 1).drop_last() == data@.subrange(0, i as int));
        value = value.wrapping_add(data[i]);
        i += 1;
    }
    assert(data@.subrange(0, i as int) == data@);
    value
}

/// Checks that a message of `data.len()` bytes is what its header
/// announces: a body of `nominal_body_length` bytes that starts at
/// `start_of_body`, and then `CheckSum <10>`.
pub fn verify_body_length(data: &[u8], start_of_body: usize, nominal_body_length: usize) -> (result:
    Result<(), DecodeError>)
    ensures
        result == if start_of_body + nominal_body_length + FIELD_CHECKSUM_LEN_IN_BYTES
            == data@.len() {
            Ok::<(), DecodeError>(())
        } else {
            Err(DecodeError::Length)
        },
{
    if data.len() < FIELD_CHECKSUM_LEN_IN_BYTES {
        return Err(DecodeError::Length);
    }
    let end_of_body = data.len() - FIELD_CHECKSUM_LEN_IN_BYTES;
    if start_of_body > end_of_body || nominal_body_length != end_of_body - start_of_body {
        Err(DecodeError::Length)
    } else {
        Ok(())
    }
}

/// Checks that `data` ends in a well-formed `CheckSum <10>` field, whatever
/// its value.
pub fn verify_checksum_field(data: &[u8], separator: u8) -> (result: Result<(), DecodeError>)
    ensures
        result == if has_checksum_field(data@, separator) {
            Ok::<(), DecodeError>(())
        } else {
            Err(DecodeError::Invalid)
        },
{
    let len = data.len();
    if len < FIELD_CHECKSUM_LEN_IN_BYTES {
        return Err(DecodeError::Invalid);
    }
    if data[len - 7] == DIGIT_ONE && data[len - 6] == DIGIT_ZERO && data[len - 5] == EQUAL_SIGN
        && is_digit(data[len - 4]) && is_digit(data[len - 3]) && is_digit(data[len - 2]) && data[len
        - 1] == separator {
        Ok(())
    } else {
        Err(DecodeError::Invalid)
    }
}

/// Compares the value of `CheckSum <10>` with the checksum of the bytes
/// before that field.
///
/// Fails with [`DecodeError::Invalid`] where the value is not three decimal
/// digits, and with [`DecodeError::CheckSum`] where it is not the checksum.
pub fn verify_checksum(data: &[u8]) -> (result: Result<(), DecodeError>)
    ensures
        result == if !has_checksum_digits(data@) {
            Err::<(), DecodeError>(DecodeError::Invalid)
        } else if !checksum_matches(data@) {
            Err(DecodeError::CheckSum)
        } else {
            Ok(())
        },
{
    let len = data.len();
    if len < FIELD_CHECKSUM_LEN_IN_BYTES {
        return Err(DecodeError::Invalid);
    }
    if !(is_digit(data[len - 4]) && is_digit(data[len - 3]) && is_digit(data[len - 2])) {
        return Err(DecodeError::Invalid);
    }
    let nominal: u16 = (data[len - 4] - DIGIT_ZERO) as u16 * 100 + (data[len - 3]
        - DIGIT_ZERO) as u16 * 10 + (data[len - 2] - DIGIT_ZERO) as u16;
    let actual = checksum_10(vstd::slice::slice_subrange(data, 0, len - FIELD_CHECKSUM_LEN_IN_BYTES));
    if nominal == actual as u16 {
        Ok(())
    } else {
        Err(DecodeError::CheckSum)
    }
}

/// Tells whether `byte` is a decimal digit.
fn is_digit(byte: u8) -> (digit: bool)
    ensures
        digit == is_decimal_digit(byte),
{
    DIGIT_ZERO <= byte && byte <= DIGIT_NINE
}

} // verus!
