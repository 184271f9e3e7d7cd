use acdatservice::error::IconError;
use acdatservice::ident::parse_decimal_or_hex_string;

#[test]
fn test_parse_icon_id_string() {
    assert_eq!(parse_decimal_or_hex_string("0xFFFF").unwrap(), 100663295);
    assert_eq!(parse_decimal_or_hex_string("0xFFFFFFFF").unwrap(), -1);

    assert_eq!(parse_decimal_or_hex_string("26967").unwrap(), 0x6006957);
    assert_eq!(parse_decimal_or_hex_string("100690263").unwrap(), 0x6006957);
    assert_eq!(parse_decimal_or_hex_string("0x6957").unwrap(), 0x6006957);
    assert_eq!(
        parse_decimal_or_hex_string("0x06006957").unwrap(),
        0x6006957
    );

    // A negative number is accepted here; the catalog will not know it.
    assert_eq!(parse_decimal_or_hex_string("-1234").unwrap(), 100662062);

    assert_eq!(parse_decimal_or_hex_string("0x6957").unwrap(), 100690263);
    assert_eq!(
        parse_decimal_or_hex_string("0x06006957").unwrap(),
        100690263
    );
    assert_eq!(parse_decimal_or_hex_string("26967").unwrap(), 100690263);
    assert_eq!(parse_decimal_or_hex_string("100690263").unwrap(), 100690263);
}

#[test]
fn test_parse_icon_id_string_errors() {
    assert!(parse_decimal_or_hex_string("").is_err());
    assert!(parse_decimal_or_hex_string("text").is_err());
    assert!(parse_decimal_or_hex_string("12.34").is_err());
    assert!(parse_decimal_or_hex_string("0x1").is_err());
    assert!(parse_decimal_or_hex_string("0x12345").is_err());
}

#[test]
fn four_spellings_resolve_to_one_id() {
    for text in ["0x0F5A", "0x06000F5A", "3930", "100667226"] {
        assert_eq!(parse_decimal_or_hex_string(text), Ok(100667226));
    }
}

#[test]
fn malformed_identifiers_are_invalid() {
    for text in ["", "text", "12.34", "0x1", "0x12345", "0x", "0xGGGG", "0x+f+f", "0X0F5A", " 12", "12 ", "1_000", "+", "-", "2147483648", "-2147483649", "0x123456789", "\u{e9}\u{e9}"] {
        assert_eq!(parse_decimal_or_hex_string(text), Err(IconError::InvalidIdentifier), "{:?}", text);
    }
}

#[test]
fn hex_digits_in_either_case() {
    assert_eq!(parse_decimal_or_hex_string("0xabcd"), parse_decimal_or_hex_string("0xABCD"));
    assert_eq!(parse_decimal_or_hex_string("0xabcd"), Ok(0x0600_0000 + (0xabcd - 0x1_0000)));
    assert_eq!(parse_decimal_or_hex_string("0x7fff"), Ok(0x0600_7fff));
    assert_eq!(parse_decimal_or_hex_string("0x8000"), Ok(0x0600_0000 - 0x8000));
    assert_eq!(parse_decimal_or_hex_string("0x80000000"), Ok(i32::MIN));
    assert_eq!(parse_decimal_or_hex_string("0x7FFFFFFF"), Ok(i32::MAX));
    assert_eq!(parse_decimal_or_hex_string("0x00000001"), Ok(1));
}

#[test]
fn decimal_edges() {
    assert_eq!(parse_decimal_or_hex_string("0"), Ok(0x0600_0000));
    assert_eq!(parse_decimal_or_hex_string("+7"), Ok(0x0600_0007));
    assert_eq!(parse_decimal_or_hex_string("100663295"), Ok(0x0600_0000 + 100663295));
    assert_eq!(parse_decimal_or_hex_string("100663296"), Ok(100663296));
    assert_eq!(parse_decimal_or_hex_string("2147483647"), Ok(i32::MAX));
    assert_eq!(parse_decimal_or_hex_string("-2147483648"), Ok(i32::MIN + 0x0600_0000));
    assert_eq!(parse_decimal_or_hex_string("000000000000000000000012"), Ok(0x0600_000c));
}
