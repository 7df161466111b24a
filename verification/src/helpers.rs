//! Reading the quote service's numbers, which come as text.

use crate::felt::{FeltError, dec_scalar, hex_scalar, parse_decimal, parse_hex};
use crate::scalar::Scalar;
use vstd::prelude::*;
use vstd::string::StrSliceExecFns;

verus! {

/// Whether a text begins with `0x`.
pub open spec fn has_hex_prefix(text: Seq<char>) -> bool {
    text.len() >= 2 && text[0] == '0' && text[1] == 'x'
}

/// The value that a number of the quote service names: hexadecimal where the
/// text begins with `0x`, decimal where it does not.
pub open spec fn felt_of_text(text: Seq<char>) -> Option<nat> {
    if has_hex_prefix(text) {
        hex_scalar(text)
    } else {
        dec_scalar(text)
    }
}

/// Reads a number of the quote service as a scalar: as hexadecimal where the
/// text begins with `0x`, as decimal where it does not.
pub fn deserialize_felt_from_string(text: &str) -> (r: Result<Scalar, FeltError>)
    ensures
        r matches Ok(scalar) ==> felt_of_text(text@) == Some(scalar@),
        r is Err ==> felt_of_text(text@) is None,
        r is Err ==> r == Err::<Scalar, FeltError>(
            if has_hex_prefix(text@) {
                FeltError::InvalidHex
            } else {
                FeltError::InvalidDecimal
            },
        ),
{
    let length: usize = text.unicode_len();
    if length >= 2 && text.get_char(0) == '0' && text.get_char(1) == 'x' {
        parse_hex(text)
    } else {
        parse_decimal(text)
    }
}

} // verus!
