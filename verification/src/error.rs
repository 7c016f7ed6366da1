//! The two families of failure: text that does not have the required shape,
//! and projects that break a rule.

use vstd::prelude::*;
use vstd::string::*;
use crate::text::{decimal, push_decimal};

verus! {

/// A text that is not in the format its field requires.
#[derive(Clone, Copy, Debug, PartialEq, Eq, Structural)]
pub enum FormatError {
    /// The timecode is not exactly twelve characters long.
    TimecodeLength,
    /// The timecode lacks `:` at positions 2 and 5 or `.` at position 8.
    TimecodeSeparators,
    /// The hours are not two digits.
    TimecodeHours,
    /// The minutes are not two digits.
    TimecodeMinutes,
    /// The seconds are not two digits.
    TimecodeSeconds,
    /// The milliseconds are not three digits.
    TimecodeMillis,
    /// The minutes are above 59.
    MinutesOutOfRange,
    /// The seconds are above 59.
    SecondsOutOfRange,
    /// The resolution has no `x` between its two dimensions.
    ResolutionSeparator,
    /// The width is not a number that fits in 32 bits.
    ResolutionWidth,
    /// The height is not a number that fits in 32 bits.
    ResolutionHeight,
    /// A dimension of the resolution is zero.
    ResolutionZero,
}

/// A rule that a project breaks.
#[derive(Clone, Copy, Debug, PartialEq, Eq, Structural)]
pub enum ValidationError {
    /// The output path is blank.
    BlankOutputPath,
    /// The intro's background is blank.
    BlankIntroBackground,
    /// The intro's music is blank.
    BlankIntroMusic,
    /// The intro's title is blank.
    BlankIntroTitle,
    /// The intro's duration is no timecode.
    IntroDuration(FormatError),
    /// The intro's duration is zero.
    ZeroIntroDuration,
    /// The guess duration is no timecode.
    GuessDuration(FormatError),
    /// The reveal duration is no timecode.
    RevealDuration(FormatError),
    /// The guess duration is zero.
    ZeroGuessDuration,
    /// The reveal duration is zero.
    ZeroRevealDuration,
    /// There is no clip.
    NoClips,
    /// The video of the clip at this position is blank.
    BlankClipVideo(usize),
    /// The answer of the clip at this position is blank.
    BlankClipAnswer(usize),
    /// The start of the clip at this position is no timecode.
    ClipStart(usize, FormatError),
    /// The frame rate is zero.
    ZeroFps,
    /// The resolution is not two numbers above zero around an `x`.
    Resolution,
}

/// Why a project cannot be compiled into a command.
#[derive(Clone, Copy, Debug, PartialEq, Eq, Structural)]
pub enum CompileError {
    /// The resolution is malformed or has a zero dimension.
    Resolution(FormatError),
    /// The guess duration is no timecode.
    GuessDuration(FormatError),
    /// The reveal duration is no timecode.
    RevealDuration(FormatError),
    /// The guess duration or the reveal duration is zero.
    ZeroDuration,
    /// The intro duration is no timecode.
    IntroDuration(FormatError),
    /// The start of the clip at this position is no timecode.
    ClipStart(usize, FormatError),
}

impl FormatError {
    /// The sentence that describes the defect.
    pub open spec fn text(self) -> Seq<char> {
        match self {
            FormatError::TimecodeLength => "invalid timecode length (expected HH:MM:SS.mmm)"@,
            FormatError::TimecodeSeparators => "invalid timecode separators (expected HH:MM:SS.mmm)"@,
            FormatError::TimecodeHours => "invalid hours in timecode (expected 2 digits)"@,
            FormatError::TimecodeMinutes => "invalid minutes in timecode (expected 2 digits)"@,
            FormatError::TimecodeSeconds => "invalid seconds in timecode (expected 2 digits)"@,
            FormatError::TimecodeMillis => "invalid milliseconds in timecode (expected 3 digits)"@,
            FormatError::MinutesOutOfRange => "minutes out of range (0..59) in timecode"@,
            FormatError::SecondsOutOfRange => "seconds out of range (0..59) in timecode"@,
            FormatError::ResolutionSeparator => "invalid resolution, expected WIDTHxHEIGHT"@,
            FormatError::ResolutionWidth => "invalid width in resolution"@,
            FormatError::ResolutionHeight => "invalid height in resolution"@,
            FormatError::ResolutionZero => "resolution must be > 0"@,
        }
    }

    /// Describes the defect in a sentence.
    pub fn message(&self) -> (s: String)
        ensures
            s@ == self.text(),
    {
        match self {
            FormatError::TimecodeLength => String::from_str(
                "invalid timecode length (expected HH:MM:SS.mmm)",
            ),
            FormatError::TimecodeSeparators => String::from_str(
                "invalid timecode separators (expected HH:MM:SS.mmm)",
            ),
            FormatError::TimecodeHours => String::from_str(
                "invalid hours in timecode (expected 2 digits)",
            ),
            FormatError::TimecodeMinutes => String::from_str(
                "invalid minutes in timecode (expected 2 digits)",
            ),
            FormatError::TimecodeSeconds => String::from_str(
                "invalid seconds in timecode (expected 2 digits)",
            ),
            FormatError::TimecodeMillis => String::from_str(
                "invalid milliseconds in timecode (expected 3 digits)",
            ),
            FormatError::MinutesOutOfRange => String::from_str(
                "minutes out of range (0..59) in timecode",
            ),
            FormatError::SecondsOutOfRange => String::from_str(
                "seconds out of range (0..59) in timecode",
            ),
            FormatError::ResolutionSeparator => String::from_str(
                "invalid resolution, expected WIDTHxHEIGHT",
            ),
            FormatError::ResolutionWidth => String::from_str("invalid width in resolution"),
            FormatError::ResolutionHeight => String::from_str("invalid height in resolution"),
            FormatError::ResolutionZero => String::from_str("resolution must be > 0"),
        }
    }
}

/// A field that is no timecode, described: the field's name, then the defect.
pub open spec fn invalid_field_text(field: Seq<char>, cause: FormatError) -> Seq<char> {
    field + " is invalid: "@ + cause.text()
}

/// A field of the clip at position `i`, named as `clips[i].field`.
pub open spec fn clip_field_text(i: usize, field: Seq<char>) -> Seq<char> {
    "clips["@ + decimal(i as nat) + "]."@ + field
}

/// Describes a field that is no timecode.
fn invalid_field(field: String, cause: FormatError) -> (s: String)
    ensures
        s@ == invalid_field_text(field@, cause),
{
    let mut s = field;
    s.append(" is invalid: ");
    s.append(cause.message().as_str());
    s
}

/// Names a field of the clip at position `i`.
fn clip_field(i: usize, field: &str) -> (s: String)
    ensures
        s@ == clip_field_text(i, field@),
{
    let mut s = String::from_str("clips[");
    push_decimal(&mut s, i as u64);
    s.append("].");
    s.append(field);
    s
}

impl ValidationError {
    /// The sentence that names the field and the rule it breaks.
    pub open spec fn text(self) -> Seq<char> {
        match self {
            ValidationError::BlankOutputPath => "output.path must not be empty"@,
            ValidationError::BlankIntroBackground => "intro.background must not be empty"@,
            ValidationError::BlankIntroMusic => "intro.music must not be empty"@,
            ValidationError::BlankIntroTitle => "intro.title must not be empty"@,
            ValidationError::IntroDuration(e) => invalid_field_text("intro.duration"@, e),
            ValidationError::ZeroIntroDuration => "intro.duration must be > 0"@,
            ValidationError::GuessDuration(e) => invalid_field_text("timings.guess_duration"@, e),
            ValidationError::RevealDuration(e) => invalid_field_text(
                "timings.reveal_duration"@,
                e,
            ),
            ValidationError::ZeroGuessDuration => "timings.guess_duration must be > 0"@,
            ValidationError::ZeroRevealDuration => "timings.reveal_duration must be > 0"@,
            ValidationError::NoClips => "clips must not be empty"@,
            ValidationError::BlankClipVideo(i) => clip_field_text(i, "video must not be empty"@),
            ValidationError::BlankClipAnswer(i) => clip_field_text(i, "answer must not be empty"@),
            ValidationError::ClipStart(i, e) => invalid_field_text(
                clip_field_text(i, "start"@),
                e,
            ),
            ValidationError::ZeroFps => "output.fps must be > 0"@,
            ValidationError::Resolution =>
                "output.resolution must be formatted as WIDTHxHEIGHT (e.g. 1920x1080)"@,
        }
    }

    /// Names the field and the rule it breaks in a sentence.
    pub fn message(&self) -> (s: String)
        ensures
            s@ == self.text(),
    {
        match self {
            ValidationError::BlankOutputPath => String::from_str("output.path must not be empty"),
            ValidationError::BlankIntroBackground => String::from_str(
                "intro.background must not be empty",
            ),
            ValidationError::BlankIntroMusic => String::from_str("intro.music must not be empty"),
            ValidationError::BlankIntroTitle => String::from_str("intro.title must not be empty"),
            ValidationError::IntroDuration(e) => invalid_field(
                String::from_str("intro.duration"),
                *e,
            ),
            ValidationError::ZeroIntroDuration => String::from_str("intro.duration must be > 0"),
            ValidationError::GuessDuration(e) => invalid_field(
                String::from_str("timings.guess_duration"),
                *e,
            ),
            ValidationError::RevealDuration(e) => invalid_field(
                String::from_str("timings.reveal_duration"),
                *e,
            ),
            ValidationError::ZeroGuessDuration => String::from_str(
                "timings.guess_duration must be > 0",
            ),
            ValidationError::ZeroRevealDuration => String::from_str(
                "timings.reveal_duration must be > 0",
            ),
            ValidationError::NoClips => String::from_str("clips must not be empty"),
            ValidationError::BlankClipVideo(i) => clip_field(*i, "video must not be empty"),
            ValidationError::BlankClipAnswer(i) => clip_field(*i, "answer must not be empty"),
            ValidationError::ClipStart(i, e) => invalid_field(clip_field(*i, "start"), *e),
            ValidationError::ZeroFps => String::from_str("output.fps must be > 0"),
            ValidationError::Resolution => String::from_str(
                "output.resolution must be formatted as WIDTHxHEIGHT (e.g. 1920x1080)",
            ),
        }
    }
}

impl CompileError {
    /// The sentence that names the field and what prevents compiling.
    pub open spec fn text(self) -> Seq<char> {
        match self {
            CompileError::Resolution(e) => invalid_field_text("output.resolution"@, e),
            CompileError::GuessDuration(e) => invalid_field_text("timings.guess_duration"@, e),
            CompileError::RevealDuration(e) => invalid_field_text("timings.reveal_duration"@, e),
            CompileError::ZeroDuration => "guess_duration and reveal_duration must be > 0"@,
            CompileError::IntroDuration(e) => invalid_field_text("intro.duration"@, e),
            CompileError::ClipStart(i, e) => invalid_field_text(clip_field_text(i, "start"@), e),
        }
    }

    /// Names the field and what prevents compiling in a sentence.
    pub fn message(&self) -> (s: String)
        ensures
            s@ == self.text(),
    {
        match self {
            CompileError::Resolution(e) => invalid_field(String::from_str("output.resolution"), *e),
            CompileError::GuessDuration(e) => invalid_field(
                String::from_str("timings.guess_duration"),
                *e,
            ),
            CompileError::RevealDuration(e) => invalid_field(
                String::from_str("timings.reveal_duration"),
                *e,
            ),
            CompileError::ZeroDuration => String::from_str(
                "guess_duration and reveal_duration must be > 0",
            ),
            CompileError::IntroDuration(e) => invalid_field(String::from_str("intro.duration"), *e),
            CompileError::ClipStart(i, e) => invalid_field(clip_field(*i, "start"), *e),
        }
    }
}

} // verus!
