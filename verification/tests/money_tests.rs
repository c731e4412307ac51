use transaction_parser::common::money::{Money, MoneyParseError};

#[test]
fn test_zero() {
    assert_eq!(Money::zero(), Money::new(0));
}

#[test]
fn test_as_i64() {
    assert_eq!(Money::new(12345).as_i64(), 12345);
    assert_eq!(Money::zero().as_i64(), 0);
    assert_eq!(Money::new(-999).as_i64(), -999);
}

#[test]
fn test_from_str_valid() {
    assert_eq!(Money::from_str("1").unwrap(), Money::new(10000));
    assert_eq!(Money::from_str("1.5").unwrap(), Money::new(15000));
    assert_eq!(Money::from_str("1.2345").unwrap(), Money::new(12345));
    assert_eq!(Money::from_str("0.0001").unwrap(), Money::new(1));
    assert_eq!(Money::from_str("  2.0000 ").unwrap(), Money::new(20000));
}

#[test]
fn test_from_str_rounding() {
    assert_eq!(Money::from_str("1.99999").unwrap(), Money::new(20000));
    assert_eq!(Money::from_str("0.00001").unwrap(), Money::new(0));
}

#[test]
fn test_from_str_invalid() {
    assert!(Money::from_str("").is_err());
    assert!(Money::from_str("   ").is_err());
    assert!(Money::from_str("abc").is_err());
}

#[test]
fn test_to_string_4dp() {
    assert_eq!(Money::new(10000).to_string_4dp(), "1.0000");
    assert_eq!(Money::new(12345).to_string_4dp(), "1.2345");
    assert_eq!(Money::new(1).to_string_4dp(), "0.0001");
    assert_eq!(Money::new(0).to_string_4dp(), "0.0000");
}

#[test]
fn test_display() {
    assert_eq!(Money::new(10000).to_string_4dp(), "1.0000");
    assert_eq!(Money::new(5000).to_string_4dp(), "0.5000");
}

#[test]
fn test_add() {
    assert_eq!(Money::new(10000) + Money::new(5000), Money::new(15000));
    assert_eq!(Money::zero() + Money::new(100), Money::new(100));
}

#[test]
fn test_sub() {
    assert_eq!(Money::new(15000) - Money::new(5000), Money::new(10000));
    assert_eq!(Money::new(100) - Money::new(100), Money::zero());
}

#[test]
fn test_add_assign() {
    let mut m = Money::new(10000);
    m = m + Money::new(5000);
    assert_eq!(m, Money::new(15000));
}

#[test]
fn test_sub_assign() {
    let mut m = Money::new(15000);
    m = m - Money::new(5000);
    assert_eq!(m, Money::new(10000));
}

#[test]
fn test_ordering() {
    assert!(Money::new(10000) < Money::new(15000));
    assert!(Money::new(15000) > Money::new(10000));
    assert!(Money::new(10000) <= Money::new(10000));
    assert!(Money::new(10000) >= Money::new(10000));
}

#[test]
fn test_equality() {
    assert_eq!(Money::new(10000), Money::new(10000));
    assert_ne!(Money::new(10000), Money::new(5000));
}

#[test]
fn round_trip_exact_and_rounded() {
    assert_eq!(
        Money::from_str("1.2345").unwrap().to_string_4dp(),
        "1.2345"
    );
    assert_eq!(
        Money::from_str("1.99999").unwrap().to_string_4dp(),
        "2.0000"
    );
    assert_eq!(
        Money::from_str("0.00001").unwrap().to_string_4dp(),
        "0.0000"
    );
}

#[test]
fn round_trip_arbitrary_values() {
    for v in [0i64, 1, -1, 9999, -9999, 10000, 123456789, -123456789, i64::MAX, i64::MIN] {
        let m = Money::new(v);
        let text = m.to_string_4dp();
        assert_eq!(Money::from_str(&text).unwrap(), m, "round trip of {text}");
    }
}

#[test]
fn formats_negative_amounts() {
    assert_eq!(Money::new(-15000).to_string_4dp(), "-1.5000");
    assert_eq!(Money::new(-1).to_string_4dp(), "-0.0001");
}

#[test]
fn parses_signs_and_bare_dots() {
    assert_eq!(Money::from_str("-1.5").unwrap(), Money::new(-15000));
    assert_eq!(Money::from_str("+1.5").unwrap(), Money::new(15000));
    assert_eq!(Money::from_str(".5").unwrap(), Money::new(5000));
    assert_eq!(Money::from_str("5.").unwrap(), Money::new(50000));
    assert!(Money::from_str(".").is_err());
    assert!(Money::from_str("-").is_err());
    assert!(Money::from_str("1.2.3").is_err());
    assert!(Money::from_str("1,5").is_err());
}

#[test]
fn parse_error_variants() {
    assert_eq!(Money::from_str("  ").unwrap_err(), MoneyParseError::Empty);
    assert_eq!(Money::from_str("12x").unwrap_err(), MoneyParseError::Malformed);
    assert_eq!(
        Money::from_str("99999999999999999999").unwrap_err(),
        MoneyParseError::Overflow
    );
    assert_eq!(
        Money::from_str("-922337203685477.5809").unwrap_err(),
        MoneyParseError::Overflow
    );
}

#[test]
fn parses_the_64_bit_extremes() {
    assert_eq!(
        Money::from_str("922337203685477.5807").unwrap(),
        Money::new(i64::MAX)
    );
    assert_eq!(
        Money::from_str("-922337203685477.5808").unwrap(),
        Money::new(i64::MIN)
    );
    assert!(Money::from_str("922337203685477.5808").is_err());
}

#[test]
fn rounds_half_away_from_zero() {
    assert_eq!(Money::from_str("0.00005").unwrap(), Money::new(1));
    assert_eq!(Money::from_str("-0.00005").unwrap(), Money::new(-1));
    assert_eq!(Money::from_str("0.00004999").unwrap(), Money::new(0));
    assert_eq!(Money::from_str("2.00035").unwrap(), Money::new(20004));
}

#[test]
fn parse_error_messages() {
    assert_eq!(MoneyParseError::Empty.message(), "empty amount");
    assert_eq!(MoneyParseError::Malformed.message(), "invalid decimal");
    assert_eq!(MoneyParseError::Overflow.message(), "amount overflow");
}
