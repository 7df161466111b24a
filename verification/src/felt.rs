//! What the Starknet crates compute for this library: field elements parsed
//! from text, entry point selectors and the chains' identifiers. The calls are
//! made here, on texts that are first found fit for them; what comes back is
//! handed on as a `Scalar`.

use crate::scalar::{Scalar, U256, field_prime};
use starknet_core::utils::NonAsciiNameError;
use starknet_types_core::felt::FromStrError;
use vstd::prelude::*;
use vstd::string::StrSliceExecFns;
use vstd::utf8::is_ascii_chars;

verus! {

/// The error of `starknet_types_core::felt::Felt::from_hex` and `from_dec_str`.
#[verifier::external_type_specification]
#[verifier::external_body]
pub struct ExFromStrError(FromStrError);

/// The error of `starknet_core::utils::get_selector_from_name`.
#[verifier::external_type_specification]
#[verifier::external_body]
pub struct ExNonAsciiNameError(NonAsciiNameError);

/// The selector that `get_selector_from_name` gives to an entry point's name.
pub uninterp spec fn selector_of(name: Seq<char>) -> nat;

/// Whether a character is a hexadecimal digit, in either case.
pub open spec fn is_hex_digit(c: char) -> bool {
    ('0' <= c <= '9') || ('a' <= c <= 'f') || ('A' <= c <= 'F')
}

/// The digits of a hexadecimal text: what follows a leading `0x`, where the
/// text has more than those two characters, else the whole text.
pub open spec fn hex_digits(text: Seq<char>) -> Seq<char> {
    if text.len() > 2 && text[0] == '0' && text[1] == 'x' {
        text.skip(2)
    } else {
        text
    }
}

/// Whether a text is hexadecimal digits, at most the 64 that 256 bits take,
/// after an optional `0x`.
pub open spec fn is_hex_text(text: Seq<char>) -> bool {
    &&& hex_digits(text).len() <= 64
    &&& forall|i: int| 0 <= i < hex_digits(text).len() ==> is_hex_digit(#[trigger] hex_digits(text)[i])
}

/// The number that a hexadecimal digit stands for.
pub open spec fn hex_digit_value(c: char) -> nat {
    if '0' <= c <= '9' {
        (c as int - '0' as int) as nat
    } else if 'a' <= c <= 'f' {
        (c as int - 'a' as int + 10) as nat
    } else {
        (c as int - 'A' as int + 10) as nat
    }
}

/// The number that hexadecimal digits spell, the first digit weighing most.
pub open spec fn hex_value(digits: Seq<char>) -> nat
    decreases digits.len(),
{
    if digits.len() == 0 {
        0
    } else {
        16 * hex_value(digits.drop_last()) + hex_digit_value(digits.last())
    }
}

/// Whether a character is a decimal digit.
pub open spec fn is_digit(c: char) -> bool {
    '0' <= c <= '9'
}

/// Whether every character is a decimal digit.
pub open spec fn all_digits(text: Seq<char>) -> bool {
    forall|i: int| 0 <= i < text.len() ==> is_digit(#[trigger] text[i])
}

/// The number that decimal digits spell, the first digit weighing most.
pub open spec fn dec_value(digits: Seq<char>) -> nat
    decreases digits.len(),
{
    if digits.len() == 0 {
        0
    } else {
        10 * dec_value(digits.drop_last()) + (digits.last() as int - '0' as int) as nat
    }
}

/// Whether a decimal text begins with a minus sign.
pub open spec fn is_negative(text: Seq<char>) -> bool {
    text.len() > 0 && text[0] == '-'
}

/// A decimal text without its minus sign, if it has one.
pub open spec fn dec_body(text: Seq<char>) -> Seq<char> {
    if is_negative(text) {
        text.skip(1)
    } else {
        text
    }
}

/// What is left of a text once its leading zeros are taken off.
pub open spec fn significant(text: Seq<char>) -> Seq<char>
    decreases text.len(),
{
    if text.len() > 0 && text[0] == '0' {
        significant(text.skip(1))
    } else {
        text
    }
}

/// The decimal digits of 2^256, the first number that 256 bits do not hold.
pub open spec fn limit_digits() -> Seq<char> {
    "115792089237316195423570985008687907853269984665640564039457584007913129639936"@
}

/// Whether `text` comes before `limit` in the order of the dictionary: at the
/// first place where the two differ, `text` has the lesser character.
pub open spec fn comes_before(text: Seq<char>, limit: Seq<char>) -> bool {
    exists|at: int|
        0 <= at < text.len() && at < limit.len() && #[trigger] text.subrange(0, at)
            == limit.subrange(0, at) && text[at] < limit[at]
}

/// Whether a text can be read as a decimal number without leaving 256 bits:
/// it is ASCII and, after an optional minus sign and any leading zeros, has
/// at most 77 characters, or has 78 digits that spell a number below 2^256.
pub open spec fn is_decimal_text(text: Seq<char>) -> bool {
    &&& is_ascii_chars(text)
    &&& {
        let rest = significant(dec_body(text));
        ||| rest.len() <= 77
        ||| rest.len() == 78 && all_digits(rest) && comes_before(rest, limit_digits())
    }
}

/// Whether a decimal text spells a number: it has a digit and, after an
/// optional minus sign, only digits.
pub open spec fn is_decimal_number(text: Seq<char>) -> bool {
    dec_body(text).len() > 0 && all_digits(dec_body(text))
}

/// The field element that a decimal number stands for: the number reduced by
/// the field's prime, negated in the field where the text has a minus sign.
pub open spec fn dec_felt_value(text: Seq<char>) -> nat {
    let reduced = dec_value(dec_body(text)) % field_prime();
    if is_negative(text) && reduced > 0 {
        (field_prime() - reduced) as nat
    } else {
        reduced
    }
}

/// Two to the power 250: every selector lies below it.
pub open spec fn selector_bound() -> nat {
    0x400_0000_0000_0000_0000_0000_0000_0000_0000_0000_0000_0000_0000_0000_0000_0000nat
}

/// The identifier of Starknet's main network: the text `SN_MAIN` read as a
/// number, one byte for each character.
pub open spec fn mainnet_id() -> nat {
    0x534e_5f4d_4149_4enat
}

/// The identifier of Starknet's Sepolia test network: the text `SN_SEPOLIA`
/// read as a number, one byte for each character.
pub open spec fn sepolia_id() -> nat {
    0x534e_5f53_4550_4f4c_4941nat
}

/// Why a text is no field element.
#[derive(Clone, Copy, Debug, PartialEq, Eq)]
pub enum FeltError {
    /// The text is not hexadecimal, or names no value of the field.
    InvalidHex,
    /// The text is not decimal, or names no value of the field.
    InvalidDecimal,
    /// The name has a character outside ASCII.
    NonAsciiName,
}

impl FeltError {
    /// What went wrong, in words.
    pub fn message(&self) -> (r: &'static str)
        ensures
            self is InvalidHex ==> r@ == "invalid hex string"@,
            self is InvalidDecimal ==> r@ == "invalid dec string"@,
            self is NonAsciiName ==> r@ == "the provided name contains non-ASCII characters"@,
    {
        match self {
            FeltError::InvalidHex => "invalid hex string",
            FeltError::InvalidDecimal => "invalid dec string",
            FeltError::NonAsciiName => "the provided name contains non-ASCII characters",
        }
    }
}

/// Calls `starknet_types_core::felt::Felt::from_hex` and hands the element
/// back as its two 128-bit words, read off the outside crate's own 256-bit
/// integer. Claimed: of the texts admitted it refuses the empty one only, and
/// the element is the number that the digits spell, reduced by the field's
/// prime. Texts on which the outside function would not return are left out.
#[verifier::external_body]
fn felt_from_hex(text: &str) -> (r: Result<U256, FromStrError>)
    requires
        is_hex_text(text@),
    ensures
        r is Ok <==> text@.len() > 0,
        r matches Ok(value) ==> value@ == hex_value(hex_digits(text@)) % field_prime(),
{
    match starknet_types_core::felt::Felt::from_hex(text) {
        Ok(felt) => {
            let wide = starknet_core::types::U256::from(felt);
            Ok(U256 { high: wide.high(), low: wide.low() })
        },
        Err(error) => Err(error),
    }
}

/// Calls `starknet_types_core::felt::Felt::from_dec_str` and hands the
/// element back as its two 128-bit words. Claimed: of the texts admitted it
/// accepts those that spell a number, and the element is that number reduced
/// by the field's prime, negated in the field after a minus sign. Texts that
/// would overflow the outside function's 256-bit accumulator are left out:
/// leading zeros leave the accumulator at zero, and a number below 2^256
/// never overflows it.
#[verifier::external_body]
fn felt_from_dec_str(text: &str) -> (r: Result<U256, FromStrError>)
    requires
        is_decimal_text(text@),
    ensures
        r is Ok <==> is_decimal_number(text@),
        r matches Ok(value) ==> value@ == dec_felt_value(text@),
{
    match starknet_types_core::felt::Felt::from_dec_str(text) {
        Ok(felt) => {
            let wide = starknet_core::types::U256::from(felt);
            Ok(U256 { high: wide.high(), low: wide.low() })
        },
        Err(error) => Err(error),
    }
}

/// Calls `starknet_core::utils::get_selector_from_name`. Claimed: it fails
/// exactly on names with a character outside ASCII; the selector depends on
/// the name alone and, being a hash cut to 250 bits, lies below 2^250.
#[verifier::external_body]
fn selector_from_name(name: &str) -> (r: Result<U256, NonAsciiNameError>)
    ensures
        r is Ok <==> is_ascii_chars(name@),
        r matches Ok(value) ==> value@ == selector_of(name@) && value@ < selector_bound(),
{
    match starknet_core::utils::get_selector_from_name(name) {
        Ok(felt) => {
            let wide = starknet_core::types::U256::from(felt);
            Ok(U256 { high: wide.high(), low: wide.low() })
        },
        Err(error) => Err(error),
    }
}

/// Reads the constant `starknet_core::chain_id::MAINNET`. Claimed: it is the
/// text `SN_MAIN` as a number.
#[verifier::external_body]
fn mainnet_chain_id() -> (r: U256)
    ensures
        r@ == mainnet_id(),
{
    let wide = starknet_core::types::U256::from(starknet_core::chain_id::MAINNET);
    U256 { high: wide.high(), low: wide.low() }
}

/// Reads the constant `starknet_core::chain_id::SEPOLIA`. Claimed: it is the
/// text `SN_SEPOLIA` as a number.
#[verifier::external_body]
fn sepolia_chain_id() -> (r: U256)
    ensures
        r@ == sepolia_id(),
{
    let wide = starknet_core::types::U256::from(starknet_core::chain_id::SEPOLIA);
    U256 { high: wide.high(), low: wide.low() }
}

/// Whether a character is a hexadecimal digit.
fn hex_digit(c: char) -> (r: bool)
    ensures
        r == is_hex_digit(c),
{
    (c >= '0' && c <= '9') || (c >= 'a' && c <= 'f') || (c >= 'A' && c <= 'F')
}

/// Whether a text is hexadecimal digits, at most 64, after an optional `0x`.
pub fn check_hex_text(text: &str) -> (r: bool)
    ensures
        r == is_hex_text(text@),
{
    let length: usize = text.unicode_len();
    let start: usize = if length > 2 && text.get_char(0) == '0' && text.get_char(1) == 'x' {
        2
    } else {
        0
    };
    if length - start > 64 {
        return false;
    }
    let ghost digits = hex_digits(text@);
    let mut at: usize = start;
    while at < length
        invariant
            start <= at <= length,
            length == text@.len(),
            digits == hex_digits(text@),
            digits.len() == length - start,
            forall|i: int| 0 <= i < digits.len() ==> digits[i] == text@[start + i],
            forall|i: int| 0 <= i < at - start ==> is_hex_digit(#[trigger] digits[i]),
        decreases length - at,
    {
        if !hex_digit(text.get_char(at)) {
            assert(!is_hex_digit(digits[at - start]));
            return false;
        }
        at = at + 1;
    }
    true
}

/// Whether a text is ASCII and, after an optional minus sign and any leading
/// zeros, has at most 77 characters, or 78 digits that spell a number below
/// 2^256.
pub fn check_decimal_text(text: &str) -> (r: bool)
    ensures
        r == is_decimal_text(text@),
{
    if !text.is_ascii() {
        return false;
    }
    let length: usize = text.unicode_len();
    let mut at: usize = if length > 0 && text.get_ascii(0) == 45u8 {
        1
    } else {
        0
    };
    assert(dec_body(text@) =~= text@.skip(at as int));
    while at < length && text.get_ascii(at) == 48u8
        invariant
            at <= length,
            length == text@.len(),
            text.is_ascii(),
            significant(dec_body(text@)) == significant(text@.skip(at as int)),
        decreases length - at,
    {
        assert(text@.skip(at as int).skip(1) =~= text@.skip(at + 1));
        at = at + 1;
    }
    let ghost rest = text@.skip(at as int);
    assert(significant(rest) == rest);
    if length - at <= 77 {
        return true;
    }
    if length - at != 78 {
        return false;
    }
    let limit: &str =
        "115792089237316195423570985008687907853269984665640564039457584007913129639936";
    proof {
        reveal_strlit(
            "115792089237316195423570985008687907853269984665640564039457584007913129639936",
        );
    }
    let mut digit: usize = 0;
    while digit < 78
        invariant
            digit <= 78,
            at + 78 == length,
            length == text@.len(),
            text.is_ascii(),
            rest == text@.skip(at as int),
            significant(dec_body(text@)) == rest,
            forall|i: int| 0 <= i < digit ==> is_digit(#[trigger] rest[i]),
        decreases 78 - digit,
    {
        let c: u8 = text.get_ascii(at + digit);
        if c < 48u8 || c > 57u8 {
            assert(!is_digit(rest[digit as int]));
            return false;
        }
        digit = digit + 1;
    }
    let mut same: usize = 0;
    while same < 78 && text.get_ascii(at + same) == limit.get_ascii(same)
        invariant
            same <= 78,
            at + 78 == length,
            length == text@.len(),
            text.is_ascii(),
            limit.is_ascii(),
            limit@ == limit_digits(),
            limit@.len() == 78,
            rest == text@.skip(at as int),
            rest.subrange(0, same as int) == limit@.subrange(0, same as int),
        decreases 78 - same,
    {
        assert(rest.subrange(0, same + 1) =~= rest.subrange(0, same as int).push(
            rest[same as int],
        ));
        assert(limit@.subrange(0, same + 1) =~= limit@.subrange(0, same as int).push(
            limit@[same as int],
        ));
        same = same + 1;
    }
    let below: bool = same < 78 && text.get_ascii(at + same) < limit.get_ascii(same);
    proof {
        if !below {
            assert forall|k: int|
                0 <= k < rest.len() && k < limit@.len() && #[trigger] rest.subrange(0, k)
                    == limit@.subrange(0, k) implies !(rest[k] < limit@[k]) by {
                if k < same {
                    assert(rest.subrange(0, same as int)[k] == limit@.subrange(0, same as int)[k]);
                } else if k > same {
                    assert(rest.subrange(0, k)[same as int] == limit@.subrange(0, k)[same as int]);
                }
            }
        }
    }
    below
}

/// The value that a hexadecimal text names: the number that its digits
/// spell, reduced by the field's prime. The text has a digit, at most 64 of
/// them, and nothing else after an optional `0x`.
pub open spec fn hex_scalar(text: Seq<char>) -> Option<nat> {
    if is_hex_text(text) && text.len() > 0 {
        Some(hex_value(hex_digits(text)) % field_prime())
    } else {
        None
    }
}

/// The value that a decimal text names: the number that it spells, reduced
/// by the field's prime and negated in the field after a minus sign. The
/// text is one that `is_decimal_text` admits.
pub open spec fn dec_scalar(text: Seq<char>) -> Option<nat> {
    if is_decimal_text(text) && is_decimal_number(text) {
        Some(dec_felt_value(text))
    } else {
        None
    }
}

/// Reads a hexadecimal text, with or without a leading `0x`, as a scalar.
pub fn parse_hex(text: &str) -> (r: Result<Scalar, FeltError>)
    ensures
        r matches Ok(scalar) ==> hex_scalar(text@) == Some(scalar@),
        r is Err ==> hex_scalar(text@) is None && r == Err::<Scalar, FeltError>(
            FeltError::InvalidHex,
        ),
{
    if !check_hex_text(text) {
        return Err(FeltError::InvalidHex);
    }
    match felt_from_hex(text) {
        Ok(value) => Ok(Scalar::of_field(value)),
        Err(_) => Err(FeltError::InvalidHex),
    }
}

/// Reads a decimal text, with or without a leading minus sign, as a scalar.
pub fn parse_decimal(text: &str) -> (r: Result<Scalar, FeltError>)
    ensures
        r matches Ok(scalar) ==> dec_scalar(text@) == Some(scalar@),
        r is Err ==> dec_scalar(text@) is None && r == Err::<Scalar, FeltError>(
            FeltError::InvalidDecimal,
        ),
{
    if !check_decimal_text(text) {
        return Err(FeltError::InvalidDecimal);
    }
    match felt_from_dec_str(text) {
        Ok(value) => Ok(Scalar::of_field(value)),
        Err(_) => Err(FeltError::InvalidDecimal),
    }
}

/// The selector of the entry point called `name`. Only a name with a
/// character outside ASCII has none.
pub fn selector(name: &str) -> (r: Result<Scalar, FeltError>)
    ensures
        r is Ok <==> is_ascii_chars(name@),
        r matches Ok(scalar) ==> scalar@ == selector_of(name@),
        r is Err ==> r == Err::<Scalar, FeltError>(FeltError::NonAsciiName),
{
    match selector_from_name(name) {
        Ok(value) => Ok(Scalar::of_field(value)),
        Err(_) => Err(FeltError::NonAsciiName),
    }
}

/// The identifier of the main network.
pub fn mainnet() -> (r: Scalar)
    ensures
        r@ == mainnet_id(),
{
    Scalar::of_field(mainnet_chain_id())
}

/// The identifier of the Sepolia test network.
pub fn sepolia() -> (r: Scalar)
    ensures
        r@ == sepolia_id(),
{
    Scalar::of_field(sepolia_chain_id())
}

} // verus!
