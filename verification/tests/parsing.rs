use trade_ingest::decimal::{parse_decimal, Decimal};
use trade_ingest::timestamp::parse_brazilian_datetime;

fn dec(negative: bool, mantissa: u64, scale: usize) -> Decimal {
    Decimal { negative, mantissa, scale }
}

#[test]
fn decimal_thousands_and_comma() {
    assert_eq!(parse_decimal("1.234,56"), dec(false, 123456, 2));
}

#[test]
fn decimal_price_example() {
    assert_eq!(parse_decimal("120.500,00"), dec(false, 12050000, 2));
    assert_eq!(parse_decimal("120.600,00"), dec(false, 12060000, 2));
    assert_eq!(parse_decimal("100,00"), dec(false, 10000, 2));
}

#[test]
fn decimal_plain_integer() {
    assert_eq!(parse_decimal("1"), dec(false, 1, 0));
    assert_eq!(parse_decimal("0"), dec(false, 0, 0));
}

#[test]
fn decimal_negative() {
    assert_eq!(parse_decimal("-10,5"), dec(true, 105, 1));
    assert_eq!(parse_decimal("-0,00"), dec(false, 0, 2));
}

#[test]
fn decimal_no_digits_yields_zero() {
    assert_eq!(parse_decimal(""), dec(false, 0, 0));
    assert_eq!(parse_decimal("abc"), dec(false, 0, 0));
    assert_eq!(parse_decimal("--1"), dec(false, 0, 0));
    assert_eq!(parse_decimal(","), dec(false, 0, 0));
}

#[test]
fn decimal_two_commas_yields_zero() {
    assert_eq!(parse_decimal("1,2,3"), dec(false, 0, 0));
}

#[test]
fn decimal_dots_only_group() {
    // Dots are removed before parsing, wherever they stand.
    assert_eq!(parse_decimal("1.2.3"), dec(false, 123, 0));
}

#[test]
fn datetime_reformat() {
    assert_eq!(
        parse_brazilian_datetime("15/03/2024 09:05:00"),
        "2024-03-15T09:05:00"
    );
    assert_eq!(
        parse_brazilian_datetime("01/12/1999 23:59:59"),
        "1999-12-01T23:59:59"
    );
}

#[test]
fn datetime_malformed_returned_verbatim() {
    assert_eq!(parse_brazilian_datetime("junk"), "junk");
    assert_eq!(parse_brazilian_datetime(""), "");
    assert_eq!(
        parse_brazilian_datetime("15/03/2024"),
        "15/03/2024"
    );
    assert_eq!(
        parse_brazilian_datetime("15-03-2024 09:05:00"),
        "15-03-2024 09:05:00"
    );
    assert_eq!(
        parse_brazilian_datetime("a b c"),
        "a b c"
    );
}

#[test]
fn datetime_idempotent_on_malformed() {
    let once = parse_brazilian_datetime("15-03-2024 09:05:00 extra");
    let twice = parse_brazilian_datetime(&once);
    assert_eq!(once, twice);
}
