use cc_pulseline::render::{format_duration, format_number, format_reset_duration};

#[test]
fn formats_zero() {
    assert_eq!(format_number(0), "0");
}

#[test]
fn formats_below_thousand() {
    assert_eq!(format_number(999), "999");
}

#[test]
fn formats_at_thousand_boundary() {
    assert_eq!(format_number(1000), "1.0k");
}

#[test]
fn formats_with_decimal_k() {
    assert_eq!(format_number(1500), "1.5k");
}

#[test]
fn formats_200k() {
    assert_eq!(format_number(200_000), "200.0k");
}

#[test]
fn formats_just_below_million() {
    assert_eq!(format_number(999_999), "1000.0k");
}

#[test]
fn formats_at_million_boundary() {
    assert_eq!(format_number(1_000_000), "1.0M");
}

#[test]
fn formats_above_million() {
    assert_eq!(format_number(1_500_000), "1.5M");
}

#[test]
fn duration_zero_minutes() {
    assert_eq!(format_duration(0), "<1m");
}

#[test]
fn duration_minutes_only() {
    assert_eq!(format_duration(45), "45m");
}

#[test]
fn duration_exactly_one_hour() {
    assert_eq!(format_duration(60), "1h");
}

#[test]
fn duration_hours_and_minutes() {
    assert_eq!(format_duration(90), "1h 30m");
}

#[test]
fn duration_exactly_one_day() {
    assert_eq!(format_duration(1440), "1d");
}

#[test]
fn duration_days_and_hours() {
    assert_eq!(format_duration(1500), "1d 1h");
}

#[test]
fn duration_days_only_no_leftover_hours() {
    assert_eq!(format_duration(2880), "2d");
}

#[test]
fn reset_duration_zero() {
    assert_eq!(format_reset_duration(0), "<1m");
}

#[test]
fn reset_duration_minutes_only() {
    assert_eq!(format_reset_duration(15), "15m");
    assert_eq!(format_reset_duration(59), "59m");
}

#[test]
fn reset_duration_exact_hour() {
    assert_eq!(format_reset_duration(60), "1h 0m");
}

#[test]
fn reset_duration_hours_and_minutes() {
    assert_eq!(format_reset_duration(90), "1h 30m");
    assert_eq!(format_reset_duration(120), "2h 0m");
    assert_eq!(format_reset_duration(1439), "23h 59m");
}

#[test]
fn reset_duration_exact_day() {
    assert_eq!(format_reset_duration(1440), "1d 0h 0m");
}

#[test]
fn reset_duration_days_with_hours() {
    assert_eq!(format_reset_duration(1500), "1d 1h 0m");
    assert_eq!(format_reset_duration(1530), "1d 1h 30m");
}

#[test]
fn reset_duration_multiple_days() {
    assert_eq!(format_reset_duration(2880), "2d 0h 0m");
    assert_eq!(format_reset_duration(10080), "7d 0h 0m");
    assert_eq!(format_reset_duration(10140), "7d 1h 0m");
}
