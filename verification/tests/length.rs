use rsvg_text::error::ValueErrorKind;
use rsvg_text::length::{parse_length, UNITS_PER_USER_UNIT};

#[test]
fn whole_numbers_are_scaled() {
    assert_eq!(parse_length("10"), Ok(10 * UNITS_PER_USER_UNIT));
    assert_eq!(parse_length("0"), Ok(0));
    assert_eq!(parse_length("+7"), Ok(7 * 1024));
    assert_eq!(parse_length("-3"), Ok(-3 * 1024));
    assert_eq!(parse_length("  42 "), Ok(42 * 1024));
}

#[test]
fn fractions_are_rounded_down() {
    assert_eq!(parse_length("0.5"), Ok(512));
    assert_eq!(parse_length(".25"), Ok(256));
    assert_eq!(parse_length("1.75"), Ok(1024 + 768));
    assert_eq!(parse_length("-1.5"), Ok(-1536));
    // 0.1 * 1024 = 102.4
    assert_eq!(parse_length("0.1"), Ok(102));
    // Digits behind the ninth do not count.
    assert_eq!(parse_length("0.9999999999999"), Ok(1023));
}

#[test]
fn what_is_no_number_is_an_error() {
    for text in ["", "abc", "1.", ".", "-", "1e3", "1,5", "12px", "1.2.3", "1234567890123"] {
        assert_eq!(
            parse_length(text),
            Err(ValueErrorKind::Parse(String::from("expected a number"))),
            "{:?}",
            text
        );
    }
}

#[test]
fn the_largest_number_is_read() {
    assert_eq!(parse_length("999999999999"), Ok(999_999_999_999 * 1024));
}
