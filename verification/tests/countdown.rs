use blindtest::countdown::countdown_at;

#[test]
fn countdown_shows_the_seconds_left_rounded_up() {
    assert_eq!(countdown_at(10_000, 0), 10);
    assert_eq!(countdown_at(10_000, 1), 10);
    assert_eq!(countdown_at(10_000, 999), 10);
    assert_eq!(countdown_at(10_000, 1_000), 9);
    assert_eq!(countdown_at(10_000, 1_001), 9);
    assert_eq!(countdown_at(10_000, 9_000), 1);
    assert_eq!(countdown_at(10_000, 9_999), 1);
    assert_eq!(countdown_at(10_000, 10_000), 0);
    assert_eq!(countdown_at(10_000, 10_001), 0);
    assert_eq!(countdown_at(10_000, u64::MAX), 0);
}

#[test]
fn countdown_of_a_duration_that_is_no_whole_second() {
    assert_eq!(countdown_at(7_500, 0), 8);
    assert_eq!(countdown_at(7_500, 499), 8);
    assert_eq!(countdown_at(7_500, 500), 7);
    assert_eq!(countdown_at(7_500, 7_499), 1);
    assert_eq!(countdown_at(7_500, 7_500), 0);
    assert_eq!(countdown_at(1, 0), 1);
    assert_eq!(countdown_at(0, 0), 0);
    assert_eq!(countdown_at(u64::MAX, 0), u64::MAX / 1000 + 1);
}

#[test]
fn countdown_never_rises_and_ends_at_zero_with_the_phase() {
    for guess in [1u64, 999, 1_000, 1_001, 10_000, 12_345] {
        let mut shown = countdown_at(guess, 0);
        assert_eq!(shown, (guess + 999) / 1000);
        for elapsed in 1..=guess + 2_000 {
            let next = countdown_at(guess, elapsed);
            assert!(next <= shown);
            assert!(shown - next <= 1);
            assert_eq!(next == 0, elapsed >= guess);
            shown = next;
        }
    }
}

#[test]
fn countdown_is_what_the_drawn_expression_gives() {
    for guess in [10_000u64, 7_500, 1] {
        for elapsed in [0u64, 1, 33, 499, 500, 1_000, 7_499, 7_500, 9_999, 10_000, 20_000] {
            let g = guess as f64 / 1000.0;
            let t = elapsed as f64 / 1000.0;
            let drawn = f64::max(0.0, (g - t).ceil()) as u64;
            assert_eq!(countdown_at(guess, elapsed), drawn);
        }
    }
}
