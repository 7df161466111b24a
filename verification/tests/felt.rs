use atomic_arbitrage::felt::{
    check_decimal_text, check_hex_text, mainnet, parse_decimal, parse_hex, selector, sepolia,
    FeltError,
};
use atomic_arbitrage::helpers::deserialize_felt_from_string;
use atomic_arbitrage::scalar::{Scalar, FIELD_PRIME_HIGH, U256};
use starknet_core::utils::{cairo_short_string_to_felt, get_selector_from_name};
use starknet_types_core::felt::Felt;

fn felt_words(felt: Felt) -> U256 {
    let bytes = felt.to_bytes_be();
    let mut high = [0u8; 16];
    let mut low = [0u8; 16];
    high.copy_from_slice(&bytes[..16]);
    low.copy_from_slice(&bytes[16..]);
    U256::from_words(u128::from_be_bytes(low), u128::from_be_bytes(high))
}

#[test]
fn hex_text_is_parsed() {
    assert_eq!(parse_hex("0x1"), Ok(Scalar::from_u128(1)));
    assert_eq!(parse_hex("0xff"), Ok(Scalar::from_u128(255)));
    assert_eq!(parse_hex("0xFF"), Ok(Scalar::from_u128(255)));
    assert_eq!(parse_hex("1f"), Ok(Scalar::from_u128(31)));
    assert_eq!(parse_hex("0x0"), Ok(Scalar::zero()));
    assert_eq!(
        parse_hex("0x100000000000000000000000000000000").unwrap().to_u256(),
        U256 { high: 1, low: 0 }
    );
    assert_eq!(
        parse_hex("0x49d36570d4e46f48e99674bd3fcc84644ddd6b96f7c741b1562b82f9e004dc7")
            .unwrap()
            .to_u256(),
        U256 {
            high: 0x049d36570d4e46f48e99674bd3fcc846,
            low: 0x44ddd6b96f7c741b1562b82f9e004dc7
        }
    );
}

#[test]
fn hex_text_agrees_with_the_field_crate() {
    for text in [
        "0x1",
        "0xdeadbeef",
        "0x800000000000011000000000000000000000000000000000000000000000000",
        "0x800000000000011000000000000000000000000000000000000000000000001",
        "0xffffffffffffffffffffffffffffffffffffffffffffffffffffffffffffffff",
        "abcdef",
    ] {
        let expected = felt_words(Felt::from_hex(text).unwrap());
        assert_eq!(parse_hex(text).unwrap().to_u256(), expected);
    }
}

#[test]
fn hex_text_that_is_malformed_is_refused() {
    assert_eq!(parse_hex(""), Err(FeltError::InvalidHex));
    assert_eq!(parse_hex("0x"), Err(FeltError::InvalidHex));
    assert_eq!(parse_hex("0xg1"), Err(FeltError::InvalidHex));
    assert_eq!(parse_hex("x"), Err(FeltError::InvalidHex));
    assert_eq!(parse_hex("0x12 "), Err(FeltError::InvalidHex));
    assert_eq!(parse_hex("0x0x12"), Err(FeltError::InvalidHex));
    assert_eq!(parse_hex("0xé"), Err(FeltError::InvalidHex));
    let too_long = format!("0x{}", "1".repeat(65));
    assert_eq!(parse_hex(&too_long), Err(FeltError::InvalidHex));
    let longest = format!("0x{}", "0".repeat(63) + "7");
    assert_eq!(parse_hex(&longest), Ok(Scalar::from_u128(7)));
}

#[test]
fn hex_text_check() {
    assert!(check_hex_text("0x12ab"));
    assert!(check_hex_text("12AB"));
    assert!(check_hex_text(""));
    assert!(!check_hex_text("0x"));
    assert!(!check_hex_text("0x12g"));
    assert!(check_hex_text(&"f".repeat(64)));
    assert!(!check_hex_text(&"f".repeat(65)));
    assert!(check_hex_text(&format!("0x{}", "f".repeat(64))));
}

#[test]
fn decimal_text_is_parsed() {
    assert_eq!(parse_decimal("0"), Ok(Scalar::zero()));
    assert_eq!(parse_decimal("12345"), Ok(Scalar::from_u128(12345)));
    assert_eq!(
        parse_decimal("340282366920938463463374607431768211456").unwrap().to_u256(),
        U256 { high: 1, low: 0 }
    );
    assert_eq!(parse_decimal("-1").unwrap().to_u256(), U256 { high: FIELD_PRIME_HIGH, low: 0 });
    for text in ["7", "1000000000000000000", "-5", "0000012"] {
        let expected = felt_words(Felt::from_dec_str(text).unwrap());
        assert_eq!(parse_decimal(text).unwrap().to_u256(), expected);
    }
}

#[test]
fn decimal_text_that_is_malformed_is_refused() {
    assert_eq!(parse_decimal(""), Err(FeltError::InvalidDecimal));
    assert_eq!(parse_decimal("12a"), Err(FeltError::InvalidDecimal));
    assert_eq!(parse_decimal("1.5"), Err(FeltError::InvalidDecimal));
    assert_eq!(parse_decimal("-"), Err(FeltError::InvalidDecimal));
    assert_eq!(parse_decimal("١٢"), Err(FeltError::InvalidDecimal));
    assert_eq!(parse_decimal(&"9".repeat(78)), Err(FeltError::InvalidDecimal));
    assert_eq!(parse_decimal(&"1".repeat(79)), Err(FeltError::InvalidDecimal));
    assert_eq!(parse_decimal("--5"), Err(FeltError::InvalidDecimal));
    assert_eq!(parse_decimal("+5"), Err(FeltError::InvalidDecimal));
    assert_eq!(parse_decimal("5-"), Err(FeltError::InvalidDecimal));
    assert_eq!(parse_decimal(&format!("{}x", "0".repeat(90))), Err(FeltError::InvalidDecimal));
    assert!(parse_decimal(&"9".repeat(77)).is_ok());
}

const TWO_TO_256: &str =
    "115792089237316195423570985008687907853269984665640564039457584007913129639936";

fn agrees_with_the_field_crate(text: &str) {
    let expected = felt_words(Felt::from_dec_str(text).unwrap());
    assert_eq!(parse_decimal(text).unwrap().to_u256(), expected);
}

#[test]
fn decimal_text_with_leading_zeros_is_read() {
    let padded = format!("{}1", "0".repeat(77));
    assert_eq!(parse_decimal(&padded), Ok(Scalar::from_u128(1)));
    agrees_with_the_field_crate(&padded);
    let long = format!("{}12345", "0".repeat(500));
    assert_eq!(parse_decimal(&long), Ok(Scalar::from_u128(12345)));
    assert_eq!(parse_decimal(&"0".repeat(300)), Ok(Scalar::zero()));
    assert_eq!(parse_decimal(&format!("-{}", "0".repeat(300))), Ok(Scalar::zero()));
    assert_eq!(
        parse_decimal(&format!("-{}5", "0".repeat(100))).unwrap().to_u256(),
        U256 { high: FIELD_PRIME_HIGH - 1, low: u128::MAX - 3 }
    );
}

#[test]
fn minus_with_77_digits_is_read() {
    let text = format!("-{}", "9".repeat(77));
    assert!(parse_decimal(&text).is_ok());
    agrees_with_the_field_crate(&text);
    agrees_with_the_field_crate(&format!("-{}", "1".repeat(77)));
}

#[test]
fn ten_to_the_77_is_read() {
    let text = format!("1{}", "0".repeat(77));
    assert!(parse_decimal(&text).is_ok());
    agrees_with_the_field_crate(&text);
    agrees_with_the_field_crate(&format!("-{text}"));
    agrees_with_the_field_crate(&format!("000{text}"));
}

#[test]
fn greatest_number_of_256_bits_is_read() {
    let text = "115792089237316195423570985008687907853269984665640564039457584007913129639935";
    assert_eq!(
        parse_decimal(text).unwrap().to_u256(),
        U256 { high: (1 << 123) - (527 << 64) - 1, low: u128::MAX - 31 }
    );
    agrees_with_the_field_crate(text);
    agrees_with_the_field_crate(&format!("-{text}"));
    agrees_with_the_field_crate(
        "115792089237316195423570985008687907853269984665640564039457584007913129639929",
    );
    agrees_with_the_field_crate(
        "115792089237316195423570985008687907853269984665640564039457584007913129629999",
    );
    agrees_with_the_field_crate(
        "105792089237316195423570985008687907853269984665640564039457584007913129639999",
    );
}

#[test]
fn two_to_the_256_is_refused() {
    assert_eq!(parse_decimal(TWO_TO_256), Err(FeltError::InvalidDecimal));
    assert_eq!(parse_decimal(&format!("-{TWO_TO_256}")), Err(FeltError::InvalidDecimal));
    assert_eq!(parse_decimal(&format!("00{TWO_TO_256}")), Err(FeltError::InvalidDecimal));
    for last in ["7", "8", "9"] {
        let text = format!("{}{last}", &TWO_TO_256[..77]);
        assert_eq!(parse_decimal(&text), Err(FeltError::InvalidDecimal));
    }
    assert_eq!(
        parse_decimal(
            "115792089237316195423570985008687907853269984665640564039457584007913129639940"
        ),
        Err(FeltError::InvalidDecimal)
    );
    assert_eq!(
        parse_decimal(
            "215792089237316195423570985008687907853269984665640564039457584007913129639935"
        ),
        Err(FeltError::InvalidDecimal)
    );
    assert_eq!(parse_decimal(&format!("{TWO_TO_256}0")), Err(FeltError::InvalidDecimal));
}

#[test]
fn decimal_text_check() {
    assert!(check_decimal_text(""));
    assert!(check_decimal_text("-"));
    assert!(check_decimal_text("12a"));
    assert!(check_decimal_text(&"9".repeat(77)));
    assert!(check_decimal_text(&format!("-{}{}", "0".repeat(10), "9".repeat(77))));
    assert!(!check_decimal_text(&"9".repeat(78)));
    assert!(check_decimal_text(&format!("1{}", "0".repeat(77))));
    assert!(!check_decimal_text(&format!("1{}x", "0".repeat(76))));
    assert!(!check_decimal_text(TWO_TO_256));
    assert!(!check_decimal_text("١٢"));
    assert!(!check_decimal_text(&"1".repeat(79)));
}

#[test]
fn hex_text_at_or_above_the_prime_is_reduced() {
    assert_eq!(
        parse_hex("0x800000000000011000000000000000000000000000000000000000000000001"),
        Ok(Scalar::zero())
    );
    assert_eq!(
        parse_hex("0x800000000000011000000000000000000000000000000000000000000000008"),
        Ok(Scalar::from_u128(7))
    );
    assert_eq!(
        parse_hex(&"f".repeat(64)).unwrap().to_u256(),
        U256 { high: (1 << 123) - (527 << 64) - 1, low: u128::MAX - 31 }
    );
}

#[test]
fn numbers_of_the_quote_service() {
    assert_eq!(deserialize_felt_from_string("0x10"), Ok(Scalar::from_u128(16)));
    assert_eq!(deserialize_felt_from_string("10"), Ok(Scalar::from_u128(10)));
    assert_eq!(deserialize_felt_from_string("0x"), Err(FeltError::InvalidHex));
    assert_eq!(deserialize_felt_from_string("0xzz"), Err(FeltError::InvalidHex));
    assert_eq!(deserialize_felt_from_string("ff"), Err(FeltError::InvalidDecimal));
    assert_eq!(deserialize_felt_from_string(""), Err(FeltError::InvalidDecimal));
    assert_eq!(deserialize_felt_from_string("0"), Ok(Scalar::zero()));
    assert_eq!(deserialize_felt_from_string("1050"), Ok(Scalar::from_u128(1050)));
}

#[test]
fn selectors_are_the_chain_crates() {
    assert_eq!(
        selector("transfer").unwrap().to_u256(),
        U256 {
            high: 0x0083afd3f4caedc6eebf44246fe54e38,
            low: 0xc95e3179a5ec9ea81740eca5b482d12e
        }
    );
    assert_eq!(
        selector("execute").unwrap().to_u256(),
        U256 {
            high: 0x0240060cdb34fcc260f41eac7474ee1d,
            low: 0x7c80b7e3607daff9ac67c7ea2ebb1c44
        }
    );
    for name in ["transfer", "clear_minimum", "multihop_swap", "multi_multihop_swap", "balanceOf"] {
        let expected = felt_words(get_selector_from_name(name).unwrap());
        assert_eq!(selector(name).unwrap().to_u256(), expected);
    }
    assert_eq!(selector("__default__"), Ok(Scalar::zero()));
    assert_eq!(selector("__l1_default__"), Ok(Scalar::zero()));
}

#[test]
fn selector_of_a_name_outside_ascii_is_refused() {
    assert_eq!(selector("trànsfer"), Err(FeltError::NonAsciiName));
    assert_eq!(selector("🦀"), Err(FeltError::NonAsciiName));
}

#[test]
fn chain_identifiers() {
    assert_eq!(mainnet().to_u256(), U256 { high: 0, low: 0x534e5f4d41494e });
    assert_eq!(sepolia().to_u256(), U256 { high: 0, low: 0x534e5f5345504f4c4941 });
    assert_eq!(mainnet().to_u256(), felt_words(cairo_short_string_to_felt("SN_MAIN").unwrap()));
    assert_eq!(
        sepolia().to_u256(),
        felt_words(cairo_short_string_to_felt("SN_SEPOLIA").unwrap())
    );
}

#[test]
fn felt_errors_say_what_went_wrong() {
    assert_eq!(FeltError::InvalidHex.message(), "invalid hex string");
    assert_eq!(FeltError::InvalidDecimal.message(), "invalid dec string");
    assert_eq!(
        FeltError::NonAsciiName.message(),
        "the provided name contains non-ASCII characters"
    );
}
