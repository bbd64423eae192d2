use kalicut::timecode::{format_seconds, parse_time};

#[test]
fn parse_plain_seconds() {
    assert_eq!(parse_time("12.5"), Ok(12_500));
    assert_eq!(parse_time("90"), Ok(90_000));
}

#[test]
fn parse_mm_ss() {
    assert_eq!(parse_time("1:30"), Ok(90_000));
    assert_eq!(parse_time("01:02.5"), Ok(62_500));
}

#[test]
fn parse_hh_mm_ss() {
    assert_eq!(parse_time("1:02:03"), Ok(3_723_000));
}

#[test]
fn format_roundtrip_ish() {
    assert_eq!(format_seconds(90_000), "01:30.000");
    assert_eq!(format_seconds(3_723_120), "01:02:03.120");
}

#[test]
fn parse_accepts_comma_and_spaces() {
    assert_eq!(parse_time(" 2 "), Ok(2_000));
    assert_eq!(parse_time("1,5"), Ok(1_500));
    assert_eq!(parse_time("0:00,25"), Ok(250));
}

#[test]
fn parse_rounds_to_the_nearest_millisecond() {
    assert_eq!(parse_time("0.0005"), Ok(1));
    assert_eq!(parse_time("0.0004"), Ok(0));
    assert_eq!(parse_time("1.23456"), Ok(1_235));
}

#[test]
fn parse_refusals() {
    assert_eq!(parse_time(""), Err("empty value".to_string()));
    assert_eq!(parse_time("   "), Err("empty value".to_string()));
    assert_eq!(parse_time("abc"), Err("not a number: abc".to_string()));
    assert_eq!(parse_time("-5"), Err("time < 0".to_string()));
    assert_eq!(parse_time("1:60"), Err("minutes/seconds must be < 60".to_string()));
    assert_eq!(parse_time("60:00"), Err("minutes/seconds must be < 60".to_string()));
    assert_eq!(parse_time("x:30"), Err("minutes: x".to_string()));
    assert_eq!(parse_time("1:y"), Err("seconds: y".to_string()));
    assert_eq!(parse_time("h:01:02"), Err("hours: h".to_string()));
    assert_eq!(parse_time("1:2:3:4"), Err("format: SS, MM:SS, or HH:MM:SS".to_string()));
    assert_eq!(parse_time("99999999999999999999"), Err("time too large".to_string()));
}

#[test]
fn format_shows_hours_only_from_one_hour() {
    assert_eq!(format_seconds(0), "00:00.000");
    assert_eq!(format_seconds(59_999), "00:59.999");
    assert_eq!(format_seconds(3_599_999), "59:59.999");
    assert_eq!(format_seconds(3_600_000), "01:00:00.000");
    assert_eq!(format_seconds(360_000_000), "100:00:00.000");
}

#[test]
fn format_then_parse_gives_the_time_back() {
    for ms in [0u64, 7, 1_500, 59_999, 61_001, 3_723_120, 86_399_999, 360_000_001] {
        assert_eq!(parse_time(&format_seconds(ms)), Ok(ms));
    }
}

#[test]
fn exponent_forms_are_read() {
    assert_eq!(parse_time("1e2"), Ok(100_000));
    assert_eq!(parse_time("1.5E-1"), Ok(150));
    assert_eq!(parse_time("2e-4"), Ok(0));
    assert_eq!(parse_time("1:1e1"), Ok(70_000));
    assert_eq!(parse_time("-1e2"), Err("time < 0".to_string()));
    assert_eq!(parse_time("1e400"), Err("time too large".to_string()));
    assert_eq!(parse_time("0e400"), Ok(0));
    assert_eq!(parse_time("1e-400"), Ok(0));
    assert_eq!(parse_time("1e"), Err("not a number: 1e".to_string()));
    assert!(parse_time("inf").is_err());
    assert!(parse_time("nan").is_err());
}

#[test]
fn clock_sign_is_tested_before_size() {
    assert_eq!(parse_time("-99999999999999999999:00"), Err("time < 0".to_string()));
    assert_eq!(parse_time("1:-99999999999999999999:00"), Err("time < 0".to_string()));
    assert_eq!(parse_time("-99999999999999999999999:00:00"), Err("time < 0".to_string()));
    assert_eq!(parse_time("99999999999999999999999:00:00"), Err("time too large".to_string()));
    assert_eq!(parse_time("100000000000000000000:-6000000000000000000000:00"), Ok(0));
}
