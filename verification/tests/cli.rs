use arib_caption::cli::{parse_u16, Anchor};

#[test]
fn a_pid_is_decimal_or_hex() {
    assert_eq!(parse_u16("0x130"), Some(0x130));
    assert_eq!(parse_u16("0X130"), Some(0x130));
    assert_eq!(parse_u16("0xfF"), Some(255));
    assert_eq!(parse_u16("304"), Some(304));
    assert_eq!(parse_u16("  304\n"), Some(304));
    assert_eq!(parse_u16("+304"), Some(304));
    assert_eq!(parse_u16("65535"), Some(65535));
}

#[test]
fn a_pid_that_is_not_a_u16_is_refused() {
    assert_eq!(parse_u16(""), None);
    assert_eq!(parse_u16("0x"), None);
    assert_eq!(parse_u16("-5"), None);
    assert_eq!(parse_u16("65536"), None);
    assert_eq!(parse_u16("0x10000"), None);
    assert_eq!(parse_u16("12a"), None);
    assert_eq!(parse_u16("1 2"), None);
    assert_eq!(parse_u16("99999999999999999999999"), None);
}

#[test]
fn an_anchor_is_a_word_or_milliseconds() {
    assert_eq!(Anchor::parse("auto"), Some(Anchor::Auto));
    assert_eq!(Anchor::parse("caption"), Some(Anchor::Caption));
    assert_eq!(Anchor::parse("raw"), Some(Anchor::Raw));
    assert_eq!(Anchor::parse("none"), Some(Anchor::Raw));
    assert_eq!(Anchor::parse("1500"), Some(Anchor::Fixed(1500)));
    assert_eq!(Anchor::parse("+15"), Some(Anchor::Fixed(15)));
    assert_eq!(Anchor::parse("-20"), Some(Anchor::Fixed(-20)));
    assert_eq!(Anchor::parse("-9223372036854775808"), Some(Anchor::Fixed(i64::MIN)));
    assert_eq!(Anchor::parse("9223372036854775807"), Some(Anchor::Fixed(i64::MAX)));
}

#[test]
fn an_anchor_that_is_neither_is_refused() {
    assert_eq!(Anchor::parse("Auto"), None);
    assert_eq!(Anchor::parse(""), None);
    assert_eq!(Anchor::parse("-"), None);
    assert_eq!(Anchor::parse(" 15"), None);
    assert_eq!(Anchor::parse("9223372036854775808"), None);
}

#[test]
fn time_zero_falls_back_from_media_to_the_first_caption() {
    assert_eq!(Anchor::Auto.resolve(Some(10), Some(20)), 10);
    assert_eq!(Anchor::Auto.resolve(None, Some(20)), 20);
    assert_eq!(Anchor::Auto.resolve(None, None), 0);
    assert_eq!(Anchor::Caption.resolve(Some(10), Some(20)), 20);
    assert_eq!(Anchor::Caption.resolve(Some(10), None), 0);
    assert_eq!(Anchor::Raw.resolve(Some(10), Some(20)), 0);
    assert_eq!(Anchor::Fixed(7).resolve(Some(10), Some(20)), 7);
}
