use html_utils::index::parse_index;

#[test]
fn parse_index_reads_decimal_digits() {
    assert_eq!(parse_index("0"), Some(0));
    assert_eq!(parse_index("7"), Some(7));
    assert_eq!(parse_index("12"), Some(12));
    assert_eq!(parse_index("1234567890"), Some(1234567890));
}

#[test]
fn parse_index_accepts_a_plus_sign_and_leading_zeros() {
    assert_eq!(parse_index("+7"), Some(7));
    assert_eq!(parse_index("007"), Some(7));
    assert_eq!(parse_index("+000"), Some(0));
    assert_eq!(parse_index("00000000000000000001"), Some(1));
}

#[test]
fn parse_index_bounds() {
    assert_eq!(parse_index("4294967295"), Some(u32::MAX));
    assert_eq!(parse_index("4294967296"), None);
    assert_eq!(parse_index("42949672950"), None);
    assert_eq!(parse_index("99999999999999999999999999"), None);
}

#[test]
fn parse_index_rejects_what_is_no_number() {
    assert_eq!(parse_index(""), None);
    assert_eq!(parse_index("+"), None);
    assert_eq!(parse_index("-1"), None);
    assert_eq!(parse_index("-0"), None);
    assert_eq!(parse_index("++1"), None);
    assert_eq!(parse_index("1+"), None);
    assert_eq!(parse_index(" 1"), None);
    assert_eq!(parse_index("1 "), None);
    assert_eq!(parse_index("1a"), None);
    assert_eq!(parse_index("0x10"), None);
    assert_eq!(parse_index("1.0"), None);
    assert_eq!(parse_index("\u{0661}"), None);
    assert_eq!(parse_index("99999999999999999999x"), None);
}

#[test]
fn parse_index_agrees_with_std() {
    for text in ["0", "+5", "05", "", "+", "-", "-3", "4294967295", "4294967296", "12ab", "\u{ff11}"] {
        assert_eq!(parse_index(text), text.parse::<u32>().ok());
    }
}
