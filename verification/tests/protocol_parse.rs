use craps::protocol::{parse_u16, CrapsAction};

#[test]
fn parses_plain_decimal_bodies() {
    assert_eq!(parse_u16("0"), Some(0));
    assert_eq!(parse_u16("7"), Some(7));
    assert_eq!(parse_u16("007"), Some(7));
    assert_eq!(parse_u16("65535"), Some(65535));
}

#[test]
fn accepts_a_leading_plus_sign() {
    assert_eq!(parse_u16("+42"), Some(42));
    assert_eq!(parse_u16("+"), None);
}

#[test]
fn rejects_malformed_bodies() {
    assert_eq!(parse_u16(""), None);
    assert_eq!(parse_u16("hello"), None);
    assert_eq!(parse_u16(" 7"), None);
    assert_eq!(parse_u16("7 "), None);
    assert_eq!(parse_u16("-1"), None);
    assert_eq!(parse_u16("0x10"), None);
    assert_eq!(parse_u16("6 5"), None);
}

#[test]
fn rejects_values_over_sixteen_bits() {
    assert_eq!(parse_u16("65536"), None);
    assert_eq!(parse_u16("99999999999999999999"), None);
}

#[test]
fn agrees_with_the_standard_parser() {
    let cases = [
        "", "0", "7", "007", "+0", "+", "++1", "65535", "65536", "999999", "hello", " 7", "7 ",
        "-0", "1e3", "12a", "+65535", "+65536",
    ];
    for s in cases {
        assert_eq!(parse_u16(s), s.parse::<u16>().ok(), "case {:?}", s);
    }
}

#[test]
fn join_is_action_code_zero() {
    assert_eq!(CrapsAction::Join.code(), 0);
    assert_eq!(CrapsAction::from_code(0), Some(CrapsAction::Join));
    assert_eq!(CrapsAction::from_code(7), None);
    assert_eq!(CrapsAction::from_code(65535), None);
}
