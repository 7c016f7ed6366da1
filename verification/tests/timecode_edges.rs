use blindtest::error::FormatError;
use blindtest::timecode::{parse_2_digits, parse_3_digits, parse_timecode_ms, MAX_TIMECODE_MS};

#[test]
fn each_defect_of_a_timecode_has_its_error() {
    let cases = [
        ("", FormatError::TimecodeLength),
        ("00:00:01.0000", FormatError::TimecodeLength),
        ("00:00:01.00", FormatError::TimecodeLength),
        ("00-00:01.000", FormatError::TimecodeSeparators),
        ("00:00-01.000", FormatError::TimecodeSeparators),
        ("00:00:01,000", FormatError::TimecodeSeparators),
        ("aa:00:01.000", FormatError::TimecodeHours),
        ("0a:00:01.000", FormatError::TimecodeHours),
        ("+1:00:01.000", FormatError::TimecodeHours),
        ("00:bb:01.000", FormatError::TimecodeMinutes),
        ("00:00:cc.000", FormatError::TimecodeSeconds),
        ("00:00:01.xxx", FormatError::TimecodeMillis),
        ("00:00:01.0 0", FormatError::TimecodeMillis),
        ("00:60:00.000", FormatError::MinutesOutOfRange),
        ("00:99:99.000", FormatError::MinutesOutOfRange),
        ("00:00:60.000", FormatError::SecondsOutOfRange),
    ];
    for (text, error) in cases {
        assert_eq!(parse_timecode_ms(text), Err(error), "{text}");
    }
}

#[test]
fn shape_is_checked_before_ranges() {
    assert_eq!(
        parse_timecode_ms("00:99:00.xxx"),
        Err(FormatError::TimecodeMillis)
    );
    assert_eq!(
        parse_timecode_ms("xx:99:00-000"),
        Err(FormatError::TimecodeSeparators)
    );
}

#[test]
fn length_counts_characters() {
    assert_eq!(
        parse_timecode_ms("00:00:01.00é"),
        Err(FormatError::TimecodeMillis)
    );
    assert_eq!(
        parse_timecode_ms("é0:00:01.000"),
        Err(FormatError::TimecodeHours)
    );
    assert_eq!(
        parse_timecode_ms("١٢:٠٠:٠١.٠٠٠"),
        Err(FormatError::TimecodeHours)
    );
}

#[test]
fn is_not_trimmed() {
    assert_eq!(
        parse_timecode_ms(" 00:00:01.000"),
        Err(FormatError::TimecodeLength)
    );
}

#[test]
fn hours_may_exceed_a_day() {
    assert_eq!(parse_timecode_ms("24:00:00.000"), Ok(86_400_000));
    assert_eq!(parse_timecode_ms("99:00:00.000"), Ok(356_400_000));
    assert_eq!(parse_timecode_ms("99:59:59.999"), Ok(MAX_TIMECODE_MS));
}

#[test]
fn edges_of_the_ranges() {
    assert_eq!(parse_timecode_ms("00:59:00.000"), Ok(3_540_000));
    assert_eq!(parse_timecode_ms("00:00:59.000"), Ok(59_000));
    assert_eq!(parse_timecode_ms("00:00:00.999"), Ok(999));
    assert_eq!(parse_timecode_ms("00:00:00.001"), Ok(1));
}

#[test]
fn different_timecodes_denote_different_times() {
    let texts = [
        "00:00:00.000",
        "00:00:00.001",
        "00:00:00.010",
        "00:00:00.100",
        "00:00:01.000",
        "00:00:10.000",
        "00:01:00.000",
        "00:10:00.000",
        "01:00:00.000",
        "10:00:00.000",
    ];
    for a in texts {
        for b in texts {
            if a != b {
                assert_ne!(parse_timecode_ms(a), parse_timecode_ms(b));
            }
        }
    }
}

#[test]
fn groups_of_digits() {
    assert_eq!(parse_2_digits("00"), Some(0));
    assert_eq!(parse_2_digits("07"), Some(7));
    assert_eq!(parse_2_digits("99"), Some(99));
    assert_eq!(parse_2_digits("9"), None);
    assert_eq!(parse_2_digits("999"), None);
    assert_eq!(parse_2_digits("+9"), None);
    assert_eq!(parse_2_digits("9 "), None);
    assert_eq!(parse_3_digits("000"), Some(0));
    assert_eq!(parse_3_digits("004"), Some(4));
    assert_eq!(parse_3_digits("999"), Some(999));
    assert_eq!(parse_3_digits("99"), None);
    assert_eq!(parse_3_digits("9999"), None);
    assert_eq!(parse_3_digits("9a9"), None);
}
