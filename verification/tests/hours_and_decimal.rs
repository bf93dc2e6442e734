use timesheet_report::decimal::parse_i64;
use timesheet_report::hours::{millis_to_milli_hours, MILLIS_PER_HOUR, MILLIS_PER_MILLI_HOUR};

fn hours(millis: i64) -> f64 {
    millis_to_milli_hours(millis) as f64 / 1000.0
}

#[test]
fn one_hour_and_half_a_milli_hour_is_cut_off() {
    assert_eq!(millis_to_milli_hours(3_600_000 + 1800), 1000);
    assert_eq!(hours(3_600_000 + 1800), 1.0);
}

#[test]
fn fourth_decimal_never_rounds_up() {
    assert_eq!(millis_to_milli_hours(3_603_599), 1000);
    assert_eq!(millis_to_milli_hours(3_603_600), 1001);
    assert_eq!(millis_to_milli_hours(3_599_999), 999);
    assert_eq!(hours(3_603_599), 1.0);
    assert_eq!(hours(3_603_600), 1.001);
    assert_eq!(hours(3_599_999), 0.999);
}

#[test]
fn exact_multiples_convert_exactly() {
    assert_eq!(millis_to_milli_hours(0), 0);
    assert_eq!(millis_to_milli_hours(MILLIS_PER_MILLI_HOUR), 1);
    assert_eq!(millis_to_milli_hours(MILLIS_PER_HOUR), 1000);
    assert_eq!(millis_to_milli_hours(57 * MILLIS_PER_MILLI_HOUR), 57);
    assert_eq!(millis_to_milli_hours(5_400_000), 1500);
}

#[test]
fn negative_durations_are_cut_off_towards_zero() {
    assert_eq!(millis_to_milli_hours(-1), 0);
    assert_eq!(millis_to_milli_hours(-3_599), 0);
    assert_eq!(millis_to_milli_hours(-3_600), -1);
    assert_eq!(millis_to_milli_hours(-3_601), -1);
    assert_eq!(millis_to_milli_hours(-7_200), -2);
}

#[test]
fn extreme_durations_convert() {
    assert_eq!(millis_to_milli_hours(i64::MAX), i64::MAX / 3_600);
    assert_eq!(millis_to_milli_hours(i64::MIN), i64::MIN / 3_600);
}

#[test]
fn duration_text_round_trips_to_two_hours() {
    let millis = parse_i64("7200000");
    assert_eq!(millis, Some(7_200_000));
    assert_eq!(millis_to_milli_hours(millis.unwrap()), 2000);
    assert_eq!(hours(millis.unwrap()), 2.0);
}

#[test]
fn parses_plain_and_signed_numbers() {
    assert_eq!(parse_i64("0"), Some(0));
    assert_eq!(parse_i64("5"), Some(5));
    assert_eq!(parse_i64("+5"), Some(5));
    assert_eq!(parse_i64("-5"), Some(-5));
    assert_eq!(parse_i64("-0"), Some(0));
    assert_eq!(parse_i64("0012"), Some(12));
    assert_eq!(parse_i64("-0012"), Some(-12));
    assert_eq!(parse_i64("1234567890123"), Some(1_234_567_890_123));
}

#[test]
fn rejects_what_is_no_number() {
    assert_eq!(parse_i64(""), None);
    assert_eq!(parse_i64("+"), None);
    assert_eq!(parse_i64("-"), None);
    assert_eq!(parse_i64("--5"), None);
    assert_eq!(parse_i64("+-5"), None);
    assert_eq!(parse_i64("5-"), None);
    assert_eq!(parse_i64(" 5"), None);
    assert_eq!(parse_i64("5 "), None);
    assert_eq!(parse_i64("1.5"), None);
    assert_eq!(parse_i64("1e3"), None);
    assert_eq!(parse_i64("0x10"), None);
    assert_eq!(parse_i64("12a"), None);
    assert_eq!(parse_i64("\u{ff11}"), None);
    assert_eq!(parse_i64("\u{0661}"), None);
}

#[test]
fn accepts_exactly_the_range_of_64_bits() {
    assert_eq!(parse_i64("9223372036854775807"), Some(i64::MAX));
    assert_eq!(parse_i64("+9223372036854775807"), Some(i64::MAX));
    assert_eq!(parse_i64("9223372036854775808"), None);
    assert_eq!(parse_i64("-9223372036854775808"), Some(i64::MIN));
    assert_eq!(parse_i64("-9223372036854775809"), None);
    assert_eq!(parse_i64("92233720368547758070"), None);
    assert_eq!(parse_i64("-92233720368547758080"), None);
    assert_eq!(parse_i64("000000000000000000000000009223372036854775807"), Some(i64::MAX));
    assert_eq!(parse_i64("99999999999999999999999999999999999999999999"), None);
    assert_eq!(parse_i64("18446744073709551616"), None);
    assert_eq!(parse_i64("18446744073709551621"), None);
}

#[test]
fn agrees_with_the_standard_parser() {
    let texts = [
        "", "0", "-", "+", "1", "-1", "+1", "00", "-00", "+007", "12345", "-12345", "1 2", "a",
        "9223372036854775806", "9223372036854775807", "9223372036854775808",
        "-9223372036854775807", "-9223372036854775808", "-9223372036854775809",
        "3600000", "1800000", "7200000", "٣", "1_000", "１２", "1\n", "\t1", "+-1", "-+1", "++1",
        "1844674407370955161", "18446744073709551615", "18446744073709551616",
        "36893488147419103232", "-36893488147419103232",
    ];
    for text in texts {
        assert_eq!(parse_i64(text), text.parse::<i64>().ok(), "{:?}", text);
    }
}
