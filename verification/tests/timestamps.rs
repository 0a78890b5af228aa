use cc_pulseline::quota::normalize_plan_type;
use cc_pulseline::timestamp::parse_iso_to_epoch_ms;

#[test]
fn normalize_plan_type_handles_variants() {
    assert_eq!(normalize_plan_type("claude_max_2024"), "max");
    assert_eq!(normalize_plan_type("claude_pro_2024"), "pro");
    assert_eq!(normalize_plan_type("team_enterprise"), "team");
    assert_eq!(normalize_plan_type("unknown"), "unknown");
}

#[test]
fn parse_iso_timestamp() {
    let ms = parse_iso_to_epoch_ms("2025-11-04T04:59:59Z");
    assert!(ms.is_some());
    let val = ms.unwrap();
    assert!(val > 1_700_000_000_000);
    assert!(val < 1_800_000_000_000);
}

#[test]
fn parse_iso_with_timezone_offset() {
    let z_val = parse_iso_to_epoch_ms("2025-11-04T04:59:59Z");
    let offset_val = parse_iso_to_epoch_ms("2025-11-04T04:59:59+00:00");
    assert_eq!(z_val, offset_val, "Z and +00:00 should match");

    let neg_val = parse_iso_to_epoch_ms("2025-11-04T04:59:59-08:00");
    assert!(neg_val.is_some(), "negative offset should parse");
}

#[test]
fn parse_iso_with_fractional_seconds() {
    let ms = parse_iso_to_epoch_ms("2025-11-04T04:59:59.123Z");
    assert!(ms.is_some(), "should parse .123Z fractional seconds");
    let val = ms.unwrap();
    assert!(val > 1_700_000_000_000);
    assert!(val < 1_800_000_000_000);
}

#[test]
fn parse_iso_with_microsecond_fractional() {
    let ms = parse_iso_to_epoch_ms("2025-11-04T04:59:59.123456Z");
    assert!(ms.is_some(), "should parse .123456Z fractional seconds");
    let without_frac = parse_iso_to_epoch_ms("2025-11-04T04:59:59Z");
    assert_eq!(ms, without_frac, "fractional stripped — same epoch");
}

#[test]
fn parse_iso_invalid_returns_none() {
    assert!(parse_iso_to_epoch_ms("not-a-date").is_none());
    assert!(parse_iso_to_epoch_ms("").is_none());
}

#[test]
fn parse_transcript_timestamp_exact_epoch() {
    // 2026-01-18T10:58:40.895Z == 1768733920895 ms since the epoch.
    assert_eq!(
        cc_pulseline::timestamp::parse_iso_timestamp("2026-01-18T10:58:40.895Z"),
        Some(1_768_733_920_895)
    );
    assert_eq!(
        cc_pulseline::timestamp::parse_iso_timestamp("1970-01-01T00:00:00Z"),
        Some(0)
    );
    assert_eq!(cc_pulseline::timestamp::parse_iso_timestamp("garbage"), None);
}
