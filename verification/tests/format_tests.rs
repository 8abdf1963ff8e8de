use actionlog::strfmt::i64_to_string;
use actionlog::strfmt::join_lines;
use actionlog::strfmt::padded_dec;
use actionlog::strfmt::str_eq;
use actionlog::strfmt::u128_to_string;
use actionlog::strfmt::u64_to_string;
use actionlog::time::Date;
use actionlog::time::date_from_epoch_day;
use actionlog::time::days_between;
use actionlog::time::days_in_month;
use actionlog::time::epoch_day_number;
use actionlog::time::format_date_dashes;
use actionlog::time::format_date_dots;
use actionlog::time::format_duration;
use actionlog::time::is_leap_year;
use actionlog::time::rfc3339_nanos;

#[test]
fn decimal_rendering() {
    assert_eq!(u128_to_string(0), "0");
    assert_eq!(u128_to_string(7), "7");
    assert_eq!(u128_to_string(120034), "120034");
    assert_eq!(u64_to_string(u64::MAX), "18446744073709551615");
    assert_eq!(i64_to_string(-45), "-45");
    assert_eq!(i64_to_string(i64::MIN), "-9223372036854775808");
    assert_eq!(i64_to_string(0), "0");
}

#[test]
fn zero_padding() {
    assert_eq!(padded_dec(7, 2), "07");
    assert_eq!(padded_dec(42, 2), "42");
    assert_eq!(padded_dec(123, 2), "123");
    assert_eq!(padded_dec(4, 9), "000000004");
    assert_eq!(padded_dec(0, 4), "0000");
}

#[test]
fn string_equality() {
    assert!(str_eq("action", "action"));
    assert!(!str_eq("action", "actions"));
    assert!(!str_eq("a", "b"));
    assert!(str_eq("", ""));
}

#[test]
fn line_joining() {
    let lines = vec!["a".to_string(), "b".to_string(), "c".to_string()];
    assert_eq!(join_lines(&lines), "a\nb\nc");
    let one = vec!["x".to_string()];
    assert_eq!(join_lines(&one), "x");
    let none: Vec<String> = Vec::new();
    assert_eq!(join_lines(&none), "");
}

#[test]
fn leap_years() {
    assert!(is_leap_year(2000));
    assert!(is_leap_year(2024));
    assert!(!is_leap_year(1900));
    assert!(!is_leap_year(2025));
    assert_eq!(days_in_month(2024, 2), 29);
    assert_eq!(days_in_month(2025, 2), 28);
    assert_eq!(days_in_month(2025, 11), 30);
}

#[test]
fn day_numbers() {
    assert_eq!(epoch_day_number(), 719528);
    let epoch = Date { year: 1970, month: 1, day: 1 };
    assert_eq!(days_between(&epoch, &epoch), 0);
    let later = Date { year: 1970, month: 2, day: 1 };
    assert_eq!(days_between(&later, &epoch), 31);
    let d1 = Date { year: 2025, month: 11, day: 5 };
    let d2 = Date { year: 2025, month: 10, day: 5 };
    assert_eq!(days_between(&d1, &d2), 31);
    assert_eq!(date_from_epoch_day(0), epoch);
    // 2025-11-05 is 20397 days after the epoch
    assert_eq!(date_from_epoch_day(20397), d1);
}

#[test]
fn date_rendering() {
    let d = Date { year: 2025, month: 11, day: 5 };
    assert_eq!(format_date_dots(&d), "2025.11.05");
    assert_eq!(format_date_dashes(&d), "2025-11-05");
    let early = Date { year: 980, month: 1, day: 31 };
    assert_eq!(format_date_dots(&early), "0980.01.31");
}

#[test]
fn rfc3339_rendering() {
    // 2025-11-05T01:02:03.000000004Z
    assert_eq!(rfc3339_nanos(1762304523000000004), "2025-11-05T01:02:03.000000004Z");
    assert_eq!(rfc3339_nanos(0), "1970-01-01T00:00:00.000000000Z");
}

#[test]
fn duration_rendering() {
    assert_eq!(format_duration(0), "0.000000000s");
    assert_eq!(format_duration(1_000_000_004), "1.000000004s");
    assert_eq!(format_duration(90_500_000_000), "90.500000000s");
}
