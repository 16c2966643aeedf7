use balance_ledger::amount::format_cents;
use balance_ledger::amount::parse_amount;
use balance_ledger::date::Date;
use balance_ledger::date::format_iso;
use balance_ledger::date::format_month_day;
use balance_ledger::date::parse_date;
use balance_ledger::text::u64_to_string;
use balance_ledger::text::u64_to_two_digits;

#[test]
fn date_parses_padded_iso() {
    let d = parse_date("2024-01-02").unwrap();
    assert_eq!(d, Date { year: 2024, month: 1, day: 2 });
}

#[test]
fn date_parses_unpadded_month_and_day() {
    let d = parse_date("2024-1-2").unwrap();
    assert_eq!(d, Date { year: 2024, month: 1, day: 2 });
    let d2 = parse_date("2024-12-3").unwrap();
    assert_eq!(d2, Date { year: 2024, month: 12, day: 3 });
}

#[test]
fn date_rejects_bad_month_and_day() {
    assert!(parse_date("2024-13-01").is_none());
    assert!(parse_date("2024-00-01").is_none());
    assert!(parse_date("2024-01-32").is_none());
    assert!(parse_date("2024-04-31").is_none());
}

#[test]
fn date_knows_leap_years() {
    assert!(parse_date("2024-02-29").is_some());
    assert!(parse_date("2023-02-29").is_none());
    assert!(parse_date("1900-02-29").is_none());
    assert!(parse_date("2000-02-29").is_some());
}

#[test]
fn date_rejects_garbage() {
    assert!(parse_date("").is_none());
    assert!(parse_date("abc").is_none());
    assert!(parse_date("2024/01/02").is_none());
    assert!(parse_date("20240102").is_none());
    assert!(parse_date("2024-01-02x").is_none());
    assert!(parse_date("24-01-02").is_none());
}

#[test]
fn date_formats_zero_padded() {
    let d = Date { year: 2024, month: 1, day: 2 };
    assert_eq!(format_iso(&d), "2024-01-02");
    assert_eq!(format_month_day(&d), "01-02");
}

#[test]
fn amount_parses_two_decimals() {
    assert_eq!(parse_amount("123.45"), Some(12345));
    assert_eq!(parse_amount("0.05"), Some(5));
    assert_eq!(parse_amount("100.00"), Some(10000));
}

#[test]
fn amount_parses_short_forms() {
    assert_eq!(parse_amount("7"), Some(700));
    assert_eq!(parse_amount("0.5"), Some(50));
    assert_eq!(parse_amount("0"), Some(0));
}

#[test]
fn amount_rejects_non_numeric() {
    assert!(parse_amount("").is_none());
    assert!(parse_amount(".5").is_none());
    assert!(parse_amount("12.").is_none());
    assert!(parse_amount("12.345").is_none());
    assert!(parse_amount("1e5").is_none());
    assert!(parse_amount("-3").is_none());
    assert!(parse_amount("1 2").is_none());
}

#[test]
fn amount_caps_integer_digits() {
    assert_eq!(parse_amount("1234567890123"), Some(123456789012300));
    assert!(parse_amount("12345678901234").is_none());
}

#[test]
fn amount_formats_with_two_decimals() {
    assert_eq!(format_cents(12345), "123.45");
    assert_eq!(format_cents(5), "0.05");
    assert_eq!(format_cents(0), "0.00");
    assert_eq!(format_cents(10000), "100.00");
}

#[test]
fn amount_format_then_parse_round_trips() {
    for cents in [0u64, 5, 99, 100, 12345, 999999, 123456789012399] {
        assert_eq!(parse_amount(&format_cents(cents)), Some(cents));
    }
}

#[test]
fn date_format_then_parse_round_trips() {
    let dates = [
        Date { year: 2024, month: 1, day: 2 },
        Date { year: 1999, month: 12, day: 31 },
        Date { year: 2000, month: 2, day: 29 },
        Date { year: 1, month: 1, day: 1 },
    ];
    for d in dates {
        assert_eq!(parse_date(&format_iso(&d)), Some(d));
    }
}

#[test]
fn numbers_format_plainly() {
    assert_eq!(u64_to_string(0), "0");
    assert_eq!(u64_to_string(1234), "1234");
    assert_eq!(u64_to_two_digits(3), "03");
    assert_eq!(u64_to_two_digits(42), "42");
}
