use blindtest::timecode::parse_timecode_ms;

#[test]
fn parses_valid_timecodes() {
    assert_eq!(parse_timecode_ms("00:00:00.000").unwrap(), 0);
    assert_eq!(parse_timecode_ms("00:00:01.000").unwrap(), 1_000);
    assert_eq!(parse_timecode_ms("00:01:00.000").unwrap(), 60_000);
    assert_eq!(parse_timecode_ms("01:00:00.000").unwrap(), 3_600_000);
    assert_eq!(parse_timecode_ms("01:02:03.004").unwrap(), 3_723_004);
    assert_eq!(parse_timecode_ms("99:59:59.999").unwrap(), 359_999_999);
}

#[test]
fn rejects_bad_length() {
    assert!(parse_timecode_ms("0:00:01.000").is_err());
    assert!(parse_timecode_ms("00:00:01.00").is_err());
    assert!(parse_timecode_ms("").is_err());
}

#[test]
fn rejects_bad_separators() {
    assert!(parse_timecode_ms("00-00:01.000").is_err());
    assert!(parse_timecode_ms("00:00-01.000").is_err());
    assert!(parse_timecode_ms("00:00:01,000").is_err());
}

#[test]
fn rejects_non_digits() {
    assert!(parse_timecode_ms("aa:00:01.000").is_err());
    assert!(parse_timecode_ms("00:bb:01.000").is_err());
    assert!(parse_timecode_ms("00:00:cc.000").is_err());
    assert!(parse_timecode_ms("00:00:01.xxx").is_err());
}

#[test]
fn rejects_out_of_range_minutes_seconds() {
    assert!(parse_timecode_ms("00:60:00.000").is_err());
    assert!(parse_timecode_ms("00:00:60.000").is_err());
}
