use blindtest::text::{
    chars_of, find_char, is_whitespace, join_strings, push_decimal, push_seconds, trim,
};

#[test]
fn trim_removes_whitespace_at_both_ends_only() {
    assert_eq!(trim("  a b  "), "a b");
    assert_eq!(trim("\t\nx\r\n"), "x");
    assert_eq!(trim("x"), "x");
    assert_eq!(trim(""), "");
    assert_eq!(trim("   "), "");
}

#[test]
fn trim_knows_whitespace_beyond_ascii() {
    assert_eq!(trim("\u{a0}a\u{3000}"), "a");
    assert_eq!(trim("\u{2028}\u{2003}é è\u{85}"), "é è");
}

#[test]
fn trim_keeps_what_is_no_whitespace() {
    assert_eq!(trim("\u{200b}a"), "\u{200b}a");
    assert_eq!(trim("_a_"), "_a_");
}

#[test]
fn trim_agrees_with_the_standard_trim() {
    let samples = [
        "",
        " ",
        "a",
        " a",
        "a ",
        " a b ",
        "\u{1680}x\u{205f}",
        "  00:00:01.000\n",
        "\u{feff}x",
    ];
    for s in samples {
        assert_eq!(trim(s), s.trim());
    }
}

#[test]
fn decimal_numerals() {
    let cases: [(u64, &str); 7] = [
        (0, "0"),
        (7, "7"),
        (10, "10"),
        (99, "99"),
        (100, "100"),
        (1920, "1920"),
        (u64::MAX, "18446744073709551615"),
    ];
    for (n, text) in cases {
        let mut s = String::new();
        push_decimal(&mut s, n);
        assert_eq!(s, text);
    }
}

#[test]
fn decimal_is_appended_to_what_is_there() {
    let mut s = String::from("n=");
    push_decimal(&mut s, 42);
    assert_eq!(s, "n=42");
}

#[test]
fn seconds_have_three_decimals() {
    let cases: [(u64, &str); 8] = [
        (0, "0.000"),
        (1, "0.001"),
        (10, "0.010"),
        (999, "0.999"),
        (1_000, "1.000"),
        (10_000, "10.000"),
        (3_723_004, "3723.004"),
        (359_999_999, "359999.999"),
    ];
    for (ms, text) in cases {
        let mut s = String::new();
        push_seconds(&mut s, ms);
        assert_eq!(s, text);
    }
}

#[test]
fn seconds_are_what_float_formatting_gives() {
    for ms in [0u64, 5, 1_500, 15_000, 86_399_999, 359_999_999, 719_999_998] {
        let mut s = String::new();
        push_seconds(&mut s, ms);
        assert_eq!(s, format!("{:.3}", (ms as f64) / 1000.0));
    }
}

#[test]
fn join_puts_the_separator_between_parts() {
    let none: Vec<String> = vec![];
    assert_eq!(join_strings(&none, ";"), "");
    assert_eq!(join_strings(&vec!["a".to_string()], ";"), "a");
    assert_eq!(
        join_strings(&vec!["a".to_string(), "".to_string(), "c".to_string()], ";"),
        "a;;c"
    );
}

#[test]
fn chars_are_read_in_order() {
    assert_eq!(chars_of("aé😀"), vec!['a', 'é', '😀']);
    assert_eq!(chars_of(""), Vec::<char>::new());
}

#[test]
fn first_position_of_a_character() {
    assert_eq!(find_char(&chars_of("1920x1080"), 'x'), Some(4));
    assert_eq!(find_char(&chars_of("1x2x3"), 'x'), Some(1));
    assert_eq!(find_char(&chars_of("1920-1080"), 'x'), None);
}

#[test]
fn whitespace_is_what_the_standard_library_calls_whitespace() {
    let mut count = 0;
    for code in 0..=0x10ffffu32 {
        if let Some(c) = char::from_u32(code) {
            assert_eq!(is_whitespace(c), c.is_whitespace(), "U+{code:04X}");
            if is_whitespace(c) {
                count += 1;
            }
        }
    }
    assert_eq!(count, 25);
}

#[test]
fn ascii_whitespace() {
    for c in [' ', '\t', '\n', '\r', '\u{b}', '\u{c}'] {
        assert!(is_whitespace(c));
    }
    for c in ['0', '9', 'a', 'x', ':', '.', '_', '\0', '\u{1f}', '\u{7f}', '\u{200b}'] {
        assert!(!is_whitespace(c));
    }
}
