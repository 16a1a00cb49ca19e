//! The fixed-point decimal parser on concrete strings.

use trading_core::fixed::{parse_scaled_decimal, PRICE_SCALE};

#[test]
fn parses_plain_integer() {
    assert_eq!(parse_scaled_decimal(b"42"), Some(42 * PRICE_SCALE));
    assert_eq!(parse_scaled_decimal(b"0"), Some(0));
}

#[test]
fn parses_decimal_point() {
    assert_eq!(parse_scaled_decimal(b"1800.5"), Some(180_050_000_000));
    assert_eq!(parse_scaled_decimal(b"2.0"), Some(200_000_000));
    assert_eq!(parse_scaled_decimal(b"0.00000001"), Some(1));
    assert_eq!(parse_scaled_decimal(b"123.456"), Some(12_345_600_000));
}

#[test]
fn rejects_malformed_strings() {
    assert_eq!(parse_scaled_decimal(b""), None);
    assert_eq!(parse_scaled_decimal(b"."), None);
    assert_eq!(parse_scaled_decimal(b"1."), None);
    assert_eq!(parse_scaled_decimal(b".5"), None);
    assert_eq!(parse_scaled_decimal(b"1.2.3"), None);
    assert_eq!(parse_scaled_decimal(b"abc"), None);
    assert_eq!(parse_scaled_decimal(b"12a"), None);
    assert_eq!(parse_scaled_decimal(b"-1"), None);
    assert_eq!(parse_scaled_decimal(b"1e5"), None);
}

#[test]
fn rejects_more_than_eight_fraction_digits() {
    assert_eq!(parse_scaled_decimal(b"1.123456789"), None);
    assert_eq!(parse_scaled_decimal(b"1.12345678"), Some(112_345_678));
}

#[test]
fn boundary_of_the_representable_range() {
    // i64::MAX == 9223372036854775807 == 92233720368.54775807 scaled.
    assert_eq!(parse_scaled_decimal(b"92233720368.54775807"), Some(i64::MAX));
    assert_eq!(parse_scaled_decimal(b"92233720368.54775808"), None);
    assert_eq!(parse_scaled_decimal(b"99999999999999999999999999"), None);
}
