use game_gem::color::{parse_hex_rgba8, ColorParseError};

#[test]
fn hex_six_digits() {
    assert_eq!(parse_hex_rgba8("#FF0080").unwrap(), (255, 0, 128, 255));
    assert_eq!(parse_hex_rgba8("4a90d9").unwrap(), (0x4a, 0x90, 0xd9, 255));
}

#[test]
fn hex_eight_digits() {
    assert_eq!(parse_hex_rgba8("FF008080").unwrap(), (255, 0, 128, 128));
    assert_eq!(parse_hex_rgba8("##12345678").unwrap(), (0x12, 0x34, 0x56, 0x78));
}

#[test]
fn hex_invalid_digit() {
    match parse_hex_rgba8("#GG0000") {
        Err(ColorParseError::InvalidHex(h)) => assert_eq!(h, "GG0000"),
        other => panic!("unexpected {:?}", other),
    }
    assert!(matches!(parse_hex_rgba8(""), Err(ColorParseError::InvalidHex(_))));
    assert!(matches!(parse_hex_rgba8("#"), Err(ColorParseError::InvalidHex(_))));
    assert!(matches!(parse_hex_rgba8("+"), Err(ColorParseError::InvalidHex(_))));
    assert!(matches!(parse_hex_rgba8("-FF000"), Err(ColorParseError::InvalidHex(_))));
}

#[test]
fn hex_invalid_length() {
    match parse_hex_rgba8("FFF") {
        Err(ColorParseError::InvalidLength(n)) => assert_eq!(n, 3),
        other => panic!("unexpected {:?}", other),
    }
    match parse_hex_rgba8("000000000") {
        Err(ColorParseError::InvalidLength(n)) => assert_eq!(n, 9),
        other => panic!("unexpected {:?}", other),
    }
}

#[test]
fn hex_overflow_is_invalid_hex() {
    assert!(matches!(parse_hex_rgba8("123456789"), Err(ColorParseError::InvalidHex(_))));
}

#[test]
fn hex_plus_sign_is_invalid_hex() {
    match parse_hex_rgba8("+FFFFF") {
        Err(ColorParseError::InvalidHex(h)) => assert_eq!(h, "+FFFFF"),
        other => panic!("unexpected {:?}", other),
    }
    assert!(matches!(parse_hex_rgba8("#+FF0080"), Err(ColorParseError::InvalidHex(_))));
}

#[test]
fn hex_error_messages() {
    assert_eq!(ColorParseError::InvalidHex("zz".to_string()).message(), "Invalid hex color: zz");
    assert_eq!(
        ColorParseError::InvalidLength(9).message(),
        "Expected 6 or 8 hex digits, got 9"
    );
    assert_eq!(
        ColorParseError::InvalidLength(120).message(),
        "Expected 6 or 8 hex digits, got 120"
    );
}

#[test]
fn test_from_hex() {
    let (r, g, b, a) = parse_hex_rgba8("#FF0080").unwrap();
    let c = (r as f32 / 255.0, g as f32 / 255.0, b as f32 / 255.0, a as f32 / 255.0);
    assert!((c.0 - 1.0).abs() < 1e-6);
    assert!((c.1 - 0.0).abs() < 1e-6);
    assert!((c.2 - 0.502).abs() < 0.01);
    assert!((c.3 - 1.0).abs() < 1e-6);
}
