//! The timecode codec: `HH:MM:SS.mmm` to an exact count of milliseconds.

use vstd::arithmetic::div_mod::lemma_fundamental_div_mod_converse;
use vstd::prelude::*;
use vstd::string::*;
use crate::error::FormatError;
use crate::text::{all_digits, decimal_value, digit_value, is_digit};

verus! {

/// The largest count of milliseconds a timecode can denote: `99:59:59.999`.
pub const MAX_TIMECODE_MS: u64 = 359_999_999;

/// The number written by `s[from..to]`, or `None` where one of these
/// characters is no digit.
pub open spec fn digits_between(s: Seq<char>, from: int, to: int) -> Option<nat>
    recommends
        0 <= from <= to <= s.len(),
{
    if all_digits(s.subrange(from, to)) {
        Some(decimal_value(s.subrange(from, to)))
    } else {
        None
    }
}

/// What a text denotes as a timecode: the milliseconds of a well-formed
/// `HH:MM:SS.mmm`, or else the first defect in this order: length,
/// separators, digits of each group from the left, range of the minutes, range
/// of the seconds.
pub open spec fn timecode_ms(s: Seq<char>) -> Result<nat, FormatError> {
    if s.len() != 12 {
        Err(FormatError::TimecodeLength)
    } else if s[2] != ':' || s[5] != ':' || s[8] != '.' {
        Err(FormatError::TimecodeSeparators)
    } else if digits_between(s, 0, 2) is None {
        Err(FormatError::TimecodeHours)
    } else if digits_between(s, 3, 5) is None {
        Err(FormatError::TimecodeMinutes)
    } else if digits_between(s, 6, 8) is None {
        Err(FormatError::TimecodeSeconds)
    } else if digits_between(s, 9, 12) is None {
        Err(FormatError::TimecodeMillis)
    } else if digits_between(s, 3, 5)->0 > 59 {
        Err(FormatError::MinutesOutOfRange)
    } else if digits_between(s, 6, 8)->0 > 59 {
        Err(FormatError::SecondsOutOfRange)
    } else {
        Ok(
            digits_between(s, 0, 2)->0 * 3_600_000 + digits_between(s, 3, 5)->0 * 60_000
                + digits_between(s, 6, 8)->0 * 1_000 + digits_between(s, 9, 12)->0,
        )
    }
}

/// The number that the two digits of `s` at `at` write.
pub open spec fn pair_at(s: Seq<char>, at: int) -> nat
    recommends
        0 <= at,
        at + 2 <= s.len(),
{
    digit_value(s[at]) * 10 + digit_value(s[at + 1])
}

/// The number that the three digits of `s` at `at` write.
pub open spec fn triple_at(s: Seq<char>, at: int) -> nat
    recommends
        0 <= at,
        at + 3 <= s.len(),
{
    digit_value(s[at]) * 100 + digit_value(s[at + 1]) * 10 + digit_value(s[at + 2])
}

/// Whether `s` is a well-formed timecode: twelve characters, `:` at 2 and 5,
/// `.` at 8, digits everywhere else, minutes and seconds at most 59.
pub open spec fn is_timecode(s: Seq<char>) -> bool {
    &&& s.len() == 12
    &&& s[2] == ':'
    &&& s[5] == ':'
    &&& s[8] == '.'
    &&& forall|i: int| 0 <= i < 12 && i != 2 && i != 5 && i != 8 ==> is_digit(#[trigger] s[i])
    &&& pair_at(s, 3) <= 59
    &&& pair_at(s, 6) <= 59
}

/// What two or three characters that are digits write.
proof fn lemma_digits_between(s: Seq<char>, from: int, to: int)
    requires
        0 <= from <= to <= s.len(),
        to - from == 2 || to - from == 3,
    ensures
        digits_between(s, from, to) is Some <==> forall|i: int|
            from <= i < to ==> is_digit(#[trigger] s[i]),
        to - from == 2 ==> decimal_value(s.subrange(from, to)) == pair_at(s, from),
        to - from == 3 ==> decimal_value(s.subrange(from, to)) == triple_at(s, from),
{
    reveal_with_fuel(decimal_value, 4);
}

/// A text is accepted exactly where it is a well-formed timecode, and then
/// denotes hours, minutes, seconds and milliseconds added up in milliseconds,
/// without rounding.
pub proof fn lemma_timecode_exact(s: Seq<char>)
    ensures
        timecode_ms(s) is Ok <==> is_timecode(s),
        is_timecode(s) ==> timecode_ms(s) == Ok::<nat, FormatError>(
            pair_at(s, 0) * 3_600_000 + pair_at(s, 3) * 60_000 + pair_at(s, 6) * 1_000 + triple_at(
                s,
                9,
            ),
        ),
        timecode_ms(s) is Ok ==> timecode_ms(s)->Ok_0 <= MAX_TIMECODE_MS,
{
    if s.len() == 12 {
        lemma_digits_between(s, 0, 2);
        lemma_digits_between(s, 3, 5);
        lemma_digits_between(s, 6, 8);
        lemma_digits_between(s, 9, 12);
    }
}

/// A text is rejected where its length is not twelve, where a separator is
/// not in its place, where a character of a digit group is no digit, and
/// where the minutes or the seconds reach 60.
pub proof fn lemma_timecode_rejections(s: Seq<char>)
    ensures
        s.len() != 12 ==> timecode_ms(s) is Err,
        s.len() == 12 && (s[2] != ':' || s[5] != ':' || s[8] != '.') ==> timecode_ms(s) is Err,
        s.len() == 12 && (exists|i: int|
            0 <= i < 12 && i != 2 && i != 5 && i != 8 && !is_digit(#[trigger] s[i]))
            ==> timecode_ms(s) is Err,
        s.len() == 12 && pair_at(s, 3) >= 60 ==> timecode_ms(s) is Err,
        s.len() == 12 && pair_at(s, 6) >= 60 ==> timecode_ms(s) is Err,
{
    lemma_timecode_exact(s);
}

/// Hours, minutes, seconds and milliseconds can be read back from their sum
/// in milliseconds.
proof fn lemma_fields_of_ms(h: nat, m: nat, s: nat, k: nat, ms: nat)
    requires
        m <= 59,
        s <= 59,
        k <= 999,
        ms == h * 3_600_000 + m * 60_000 + s * 1_000 + k,
    ensures
        k == ms % 1000,
        s == ms / 1000 % 60,
        m == ms / 60_000 % 60,
        h == ms / 3_600_000,
{
    lemma_fundamental_div_mod_converse(ms as int, 1000, (h * 3600 + m * 60 + s) as int, k as int);
    lemma_fundamental_div_mod_converse(
        (h * 3600 + m * 60 + s) as int,
        60,
        (h * 60 + m) as int,
        s as int,
    );
    lemma_fundamental_div_mod_converse(
        ms as int,
        60_000,
        (h * 60 + m) as int,
        (s * 1000 + k) as int,
    );
    lemma_fundamental_div_mod_converse((h * 60 + m) as int, 60, h as int, m as int);
    lemma_fundamental_div_mod_converse(
        ms as int,
        3_600_000,
        h as int,
        (m * 60_000 + s * 1000 + k) as int,
    );
}

/// Two digits are determined by the number they write.
proof fn lemma_pair_determines_digits(s: Seq<char>, t: Seq<char>, at: int)
    requires
        0 <= at,
        at + 2 <= s.len(),
        at + 2 <= t.len(),
        is_digit(s[at]) && is_digit(s[at + 1]),
        is_digit(t[at]) && is_digit(t[at + 1]),
        pair_at(s, at) == pair_at(t, at),
    ensures
        s[at] == t[at],
        s[at + 1] == t[at + 1],
{
}

/// Three digits are determined by the number they write.
proof fn lemma_triple_determines_digits(s: Seq<char>, t: Seq<char>, at: int)
    requires
        0 <= at,
        at + 3 <= s.len(),
        at + 3 <= t.len(),
        is_digit(s[at]) && is_digit(s[at + 1]) && is_digit(s[at + 2]),
        is_digit(t[at]) && is_digit(t[at + 1]) && is_digit(t[at + 2]),
        triple_at(s, at) == triple_at(t, at),
    ensures
        s[at] == t[at],
        s[at + 1] == t[at + 1],
        s[at + 2] == t[at + 2],
{
}

/// Two well-formed timecodes that denote the same milliseconds are the same
/// text: nothing is lost in reading one.
pub proof fn lemma_timecode_lossless(s: Seq<char>, t: Seq<char>)
    requires
        is_timecode(s),
        is_timecode(t),
        timecode_ms(s) == timecode_ms(t),
    ensures
        s == t,
{
    lemma_timecode_exact(s);
    lemma_timecode_exact(t);
    let ms = timecode_ms(s)->Ok_0;
    lemma_fields_of_ms(pair_at(s, 0), pair_at(s, 3), pair_at(s, 6), triple_at(s, 9), ms);
    lemma_fields_of_ms(pair_at(t, 0), pair_at(t, 3), pair_at(t, 6), triple_at(t, 9), ms);
    lemma_pair_determines_digits(s, t, 0);
    lemma_pair_determines_digits(s, t, 3);
    lemma_pair_determines_digits(s, t, 6);
    lemma_triple_determines_digits(s, t, 9);
}

/// The value of a text that is exactly two digits.
pub fn parse_2_digits(s: &str) -> (r: Option<u16>)
    ensures
        r is Some <==> s@.len() == 2 && all_digits(s@),
        r matches Some(v) ==> v == decimal_value(s@) && v <= 99,
{
    if s.unicode_len() != 2 {
        return None;
    }
    let a = s.get_char(0);
    let b = s.get_char(1);
    if a >= '0' && a <= '9' && b >= '0' && b <= '9' {
        proof {
            reveal_with_fuel(decimal_value, 3);
        }
        let hi: u16 = (a as u32 - '0' as u32) as u16;
        let lo: u16 = (b as u32 - '0' as u32) as u16;
        Some(hi * 10 + lo)
    } else {
        None
    }
}

/// The value of a text that is exactly three digits.
pub fn parse_3_digits(s: &str) -> (r: Option<u16>)
    ensures
        r is Some <==> s@.len() == 3 && all_digits(s@),
        r matches Some(v) ==> v == decimal_value(s@) && v <= 999,
{
    if s.unicode_len() != 3 {
        return None;
    }
    let a = s.get_char(0);
    let b = s.get_char(1);
    let c = s.get_char(2);
    if a >= '0' && a <= '9' && b >= '0' && b <= '9' && c >= '0' && c <= '9' {
        proof {
            reveal_with_fuel(decimal_value, 4);
        }
        let hi: u16 = (a as u32 - '0' as u32) as u16;
        let mid: u16 = (b as u32 - '0' as u32) as u16;
        let lo: u16 = (c as u32 - '0' as u32) as u16;
        Some(hi * 100 + mid * 10 + lo)
    } else {
        None
    }
}

/// Parses a timecode written as `HH:MM:SS.mmm` into milliseconds.
///
/// The text must be exactly twelve characters: two digits of hours (any value
/// up to 99), `:`, two digits of minutes (at most 59), `:`, two digits of
/// seconds (at most 59), `.`, and three digits of milliseconds. The result
/// is `hours * 3_600_000 + minutes * 60_000 + seconds * 1_000 + milliseconds`.
pub fn parse_timecode_ms(s: &str) -> (r: Result<u64, FormatError>)
    ensures
        match timecode_ms(s@) {
            Ok(ms) => r == Ok::<u64, FormatError>(ms as u64) && ms <= MAX_TIMECODE_MS,
            Err(e) => r == Err::<u64, FormatError>(e),
        },
{
    if s.unicode_len() != 12 {
        return Err(FormatError::TimecodeLength);
    }
    if s.get_char(2) != ':' || s.get_char(5) != ':' || s.get_char(8) != '.' {
        return Err(FormatError::TimecodeSeparators);
    }
    let hh = match parse_2_digits(s.substring_char(0, 2)) {
        Some(v) => v,
        None => { return Err(FormatError::TimecodeHours); },
    };
    let mm = match parse_2_digits(s.substring_char(3, 5)) {
        Some(v) => v,
        None => { return Err(FormatError::TimecodeMinutes); },
    };
    let ss = match parse_2_digits(s.substring_char(6, 8)) {
        Some(v) => v,
        None => { return Err(FormatError::TimecodeSeconds); },
    };
    let mmm = match parse_3_digits(s.substring_char(9, 12)) {
        Some(v) => v,
        None => { return Err(FormatError::TimecodeMillis); },
    };
    if mm > 59 {
        return Err(FormatError::MinutesOutOfRange);
    }
    if ss > 59 {
        return Err(FormatError::SecondsOutOfRange);
    }
    Ok((hh as u64) * 3_600_000 + (mm as u64) * 60_000 + (ss as u64) * 1_000 + (mmm as u64))
}

} // verus!
