use hello_user::num::{fmt_milli_text, parse_milli_text};

#[test]
fn parses_plain_decimals() {
    assert_eq!(parse_milli_text("12.5"), Some(12_500));
    assert_eq!(parse_milli_text("10"), Some(10_000));
    assert_eq!(parse_milli_text("0.001"), Some(1));
    assert_eq!(parse_milli_text("0.25"), Some(250));
    assert_eq!(parse_milli_text("-3"), Some(-3_000));
    assert_eq!(parse_milli_text("+4.25"), Some(4_250));
    assert_eq!(parse_milli_text("0"), Some(0));
}

#[test]
fn rejects_text_that_is_not_a_quantity() {
    assert_eq!(parse_milli_text("abc"), None);
    assert_eq!(parse_milli_text(""), None);
    assert_eq!(parse_milli_text("-"), None);
    assert_eq!(parse_milli_text("12."), None);
    assert_eq!(parse_milli_text(".5"), None);
    assert_eq!(parse_milli_text("1e5"), None);
    assert_eq!(parse_milli_text("1.2345"), None);
    assert_eq!(parse_milli_text("12.5 "), None);
    assert_eq!(parse_milli_text("1,5"), None);
}

#[test]
fn rejects_more_than_thirteen_integer_digits() {
    assert_eq!(parse_milli_text("9999999999999"), Some(9_999_999_999_999_000));
    assert_eq!(parse_milli_text("10000000000000"), None);
}

#[test]
fn writes_quantities_with_trimmed_fractions() {
    assert_eq!(fmt_milli_text(22_500), "22.5");
    assert_eq!(fmt_milli_text(10_000), "10");
    assert_eq!(fmt_milli_text(0), "0");
    assert_eq!(fmt_milli_text(-1_500), "-1.5");
    assert_eq!(fmt_milli_text(1), "0.001");
    assert_eq!(fmt_milli_text(250), "0.25");
    assert_eq!(fmt_milli_text(-42), "-0.042");
}

#[test]
fn writing_then_reading_gives_the_quantity_back() {
    for v in [0i64, 1, -1, 999, 1_000, 12_500, -987_654, 1_000_000_000_000_000] {
        let text = fmt_milli_text(v);
        assert_eq!(parse_milli_text(&text), Some(v));
    }
}
