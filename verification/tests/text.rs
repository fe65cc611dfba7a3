use ld46::text::parse_u16;

#[test]
fn parse_u16_reads_decimal_numbers() {
    assert_eq!(parse_u16("0"), Some(0));
    assert_eq!(parse_u16("1155"), Some(1155));
    assert_eq!(parse_u16("0042"), Some(42));
    assert_eq!(parse_u16("+7"), Some(7));
    assert_eq!(parse_u16("65535"), Some(65535));
}

#[test]
fn parse_u16_refuses_what_is_no_u16() {
    assert_eq!(parse_u16(""), None);
    assert_eq!(parse_u16("+"), None);
    assert_eq!(parse_u16("-"), None);
    assert_eq!(parse_u16("-1"), None);
    assert_eq!(parse_u16("++1"), None);
    assert_eq!(parse_u16("65536"), None);
    assert_eq!(parse_u16("99999999999"), None);
    assert_eq!(parse_u16("12a"), None);
    assert_eq!(parse_u16("1 2"), None);
    assert_eq!(parse_u16("١٢"), None);
}

#[test]
fn parse_u16_agrees_with_std() {
    for text in ["", "+", "-", "0", "+0", "00", "65535", "65536", "+65535", "x1", "1x", "٣", "007", "-0"] {
        assert_eq!(parse_u16(text), text.parse::<u16>().ok(), "on {:?}", text);
    }
}
