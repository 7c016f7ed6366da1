//! The project validator: the rules a project must meet before it is compiled.

use vstd::prelude::*;
use vstd::string::*;
use crate::error::{FormatError, ValidationError};
use crate::model::{ClipView, IntroView, Project, ProjectView, TimingsView};
use crate::plan::parse_field_ms;
use crate::text::{chars_of, digits_u32, find_char, is_blank, parse_digits, trim};
use crate::timecode::timecode_ms;

verus! {

/// Whether `s` is a dimension: digits only, at least one, writing a number
/// above zero that fits in 32 bits.
pub open spec fn is_dimension(s: Seq<char>) -> bool {
    digits_u32(s) is Some && digits_u32(s)->0 > 0
}

/// Whether `s` has the shape `<digits>x<digits>` with both numbers above zero.
pub open spec fn is_resolution_text(s: Seq<char>) -> bool {
    match s.index_of_first('x') {
        None => false,
        Some(k) => is_dimension(s.take(k)) && is_dimension(s.skip(k + 1)),
    }
}

/// The first rule that an intro breaks, if any: background, music and title
/// not blank, then a duration that is a timecode above zero.
pub open spec fn intro_violation(intro: IntroView) -> Option<ValidationError> {
    if is_blank(intro.background) {
        Some(ValidationError::BlankIntroBackground)
    } else if is_blank(intro.music) {
        Some(ValidationError::BlankIntroMusic)
    } else if is_blank(intro.title) {
        Some(ValidationError::BlankIntroTitle)
    } else {
        match timecode_ms(intro.duration) {
            Err(e) => Some(ValidationError::IntroDuration(e)),
            Ok(ms) => if ms == 0 {
                Some(ValidationError::ZeroIntroDuration)
            } else {
                None
            },
        }
    }
}

/// The first rule that the timings break, if any: both are timecodes, then
/// both are above zero.
pub open spec fn timings_violation(timings: TimingsView) -> Option<ValidationError> {
    match timecode_ms(timings.guess_duration) {
        Err(e) => Some(ValidationError::GuessDuration(e)),
        Ok(guess) => match timecode_ms(timings.reveal_duration) {
            Err(e) => Some(ValidationError::RevealDuration(e)),
            Ok(reveal) => if guess == 0 {
                Some(ValidationError::ZeroGuessDuration)
            } else if reveal == 0 {
                Some(ValidationError::ZeroRevealDuration)
            } else {
                None
            },
        },
    }
}

/// The first rule that the clip at position `i` breaks, if any: video and
/// answer not blank, then a start that is a timecode.
pub open spec fn clip_violation(clip: ClipView, i: int) -> Option<ValidationError> {
    if is_blank(clip.video) {
        Some(ValidationError::BlankClipVideo(i as usize))
    } else if is_blank(clip.answer) {
        Some(ValidationError::BlankClipAnswer(i as usize))
    } else {
        match timecode_ms(clip.start) {
            Err(e) => Some(ValidationError::ClipStart(i as usize, e)),
            Ok(_) => None,
        }
    }
}

/// The first rule broken among the first `n` clips, if any.
pub open spec fn clips_violation(clips: Seq<ClipView>, n: nat) -> Option<ValidationError>
    recommends
        n <= clips.len(),
    decreases n,
{
    if n == 0 {
        None
    } else {
        match clips_violation(clips, (n - 1) as nat) {
            Some(e) => Some(e),
            None => clip_violation(clips[n - 1], n - 1),
        }
    }
}

/// The first rule that a project breaks, if any. The rules are checked in
/// this order: output path, intro, timings, at least one clip, each clip in
/// order, frame rate, resolution.
pub open spec fn first_violation(p: ProjectView) -> Option<ValidationError> {
    if is_blank(p.output.path) {
        Some(ValidationError::BlankOutputPath)
    } else if p.intro is Some && intro_violation(p.intro->0) is Some {
        intro_violation(p.intro->0)
    } else if timings_violation(p.timings) is Some {
        timings_violation(p.timings)
    } else if p.clips.len() == 0 {
        Some(ValidationError::NoClips)
    } else if clips_violation(p.clips, p.clips.len()) is Some {
        clips_violation(p.clips, p.clips.len())
    } else if p.output.fps == Some(0u32) {
        Some(ValidationError::ZeroFps)
    } else if p.output.resolution is Some && !is_resolution_text(p.output.resolution->0) {
        Some(ValidationError::Resolution)
    } else {
        None
    }
}

/// Whether a project meets every rule.
pub open spec fn is_valid(p: ProjectView) -> bool {
    &&& !is_blank(p.output.path)
    &&& p.intro matches Some(intro) ==> {
        &&& !is_blank(intro.background)
        &&& !is_blank(intro.music)
        &&& !is_blank(intro.title)
        &&& timecode_ms(intro.duration) is Ok
        &&& timecode_ms(intro.duration)->Ok_0 > 0
    }
    &&& timecode_ms(p.timings.guess_duration) is Ok
    &&& timecode_ms(p.timings.guess_duration)->Ok_0 > 0
    &&& timecode_ms(p.timings.reveal_duration) is Ok
    &&& timecode_ms(p.timings.reveal_duration)->Ok_0 > 0
    &&& p.clips.len() > 0
    &&& forall|i: int|
        0 <= i < p.clips.len() ==> {
            &&& !is_blank((#[trigger] p.clips[i]).video)
            &&& !is_blank(p.clips[i].answer)
            &&& timecode_ms(p.clips[i].start) is Ok
        }
    &&& p.output.fps != Some(0u32)
    &&& p.output.resolution matches Some(r) ==> is_resolution_text(r)
}

/// No rule is broken among the first `n` clips exactly where each of them
/// breaks none.
pub proof fn lemma_clips_violation_none(clips: Seq<ClipView>, n: nat)
    requires
        n <= clips.len(),
    ensures
        clips_violation(clips, n) is None <==> forall|i: int|
            0 <= i < n ==> clip_violation(#[trigger] clips[i], i) is None,
    decreases n,
{
    if n > 0 {
        lemma_clips_violation_none(clips, (n - 1) as nat);
    }
}

/// A project breaks no rule exactly where it meets every rule.
pub proof fn lemma_valid_iff_no_violation(p: ProjectView)
    ensures
        first_violation(p) is None <==> is_valid(p),
{
    lemma_clips_violation_none(p.clips, p.clips.len());
}

/// A project is rejected where it has no clip, where the guess or the reveal
/// duration is zero, where a clip's video or answer is blank or its start is
/// no timecode, where the resolution does not have the required shape, where
/// the frame rate is zero, where the output path is blank, and where a field
/// of a present intro is blank or its duration is zero.
pub proof fn lemma_validation_rejections(p: ProjectView)
    ensures
        p.clips.len() == 0 ==> first_violation(p) is Some,
        timecode_ms(p.timings.guess_duration) == Ok::<nat, FormatError>(0) ==> first_violation(
            p,
        ) is Some,
        timecode_ms(p.timings.reveal_duration) == Ok::<nat, FormatError>(0) ==> first_violation(
            p,
        ) is Some,
        timecode_ms(p.timings.guess_duration) is Err ==> first_violation(p) is Some,
        timecode_ms(p.timings.reveal_duration) is Err ==> first_violation(p) is Some,
        forall|i: int|
            0 <= i < p.clips.len() && is_blank((#[trigger] p.clips[i]).answer) ==> first_violation(
                p,
            ) is Some,
        forall|i: int|
            0 <= i < p.clips.len() && is_blank((#[trigger] p.clips[i]).video) ==> first_violation(
                p,
            ) is Some,
        forall|i: int|
            0 <= i < p.clips.len() && timecode_ms((#[trigger] p.clips[i]).start) is Err
                ==> first_violation(p) is Some,
        p.output.resolution is Some && !is_resolution_text(p.output.resolution->0)
            ==> first_violation(p) is Some,
        p.output.fps == Some(0u32) ==> first_violation(p) is Some,
        is_blank(p.output.path) ==> first_violation(p) is Some,
        p.intro is Some && (is_blank(p.intro->0.background) || is_blank(p.intro->0.music)
            || is_blank(p.intro->0.title)) ==> first_violation(p) is Some,
        p.intro is Some && timecode_ms(p.intro->0.duration) == Ok::<nat, FormatError>(0)
            ==> first_violation(p) is Some,
        p.intro is Some && timecode_ms(p.intro->0.duration) is Err ==> first_violation(p) is Some,
{
    lemma_valid_iff_no_violation(p);
}

/// Whether `s` has the shape `<digits>x<digits>` with both numbers above
/// zero and within 32 bits.
pub fn is_resolution(s: &str) -> (b: bool)
    ensures
        b == is_resolution_text(s@),
{
    let chars = chars_of(s);
    let k = match find_char(&chars, 'x') {
        Some(k) => k,
        None => { return false; },
    };
    proof {
        chars@.index_of_first_ensures('x');
    }
    let w = match parse_digits(&chars, 0, k) {
        Some(w) => w,
        None => { return false; },
    };
    let h = match parse_digits(&chars, k + 1, chars.len()) {
        Some(h) => h,
        None => { return false; },
    };
    w > 0 && h > 0
}

/// Whether nothing but whitespace is in `s`.
fn blank(s: &str) -> (b: bool)
    ensures
        b == is_blank(s@),
{
    trim(s).as_str().is_empty()
}

/// Checks every rule of a project and reports the first one broken.
///
/// Timecodes and the resolution are read as they are written: whitespace
/// around them breaks the rule. Paths, titles and answers only must hold
/// something besides whitespace.
///
/// The rules: the output path is not blank; an intro, if present, has a
/// background, a music and a title that are not blank and a duration above
/// zero; the guess and reveal durations are timecodes above zero; there is at
/// least one clip; every clip has a video and an answer that are not blank
/// and a start that is a timecode; a frame rate, if present, is above zero; a
/// resolution, if present, is `<digits>x<digits>` with both numbers above zero.
#[verifier::loop_isolation(false)]
pub fn validate_project(p: &Project) -> (r: Result<(), ValidationError>)
    ensures
        match first_violation(p@) {
            Some(e) => r == Err::<(), ValidationError>(e),
            None => r == Ok::<(), ValidationError>(()),
        },
{
    if blank(p.output.path.as_str()) {
        return Err(ValidationError::BlankOutputPath);
    }
    match &p.intro {
        Some(intro) => {
            if blank(intro.background.as_str()) {
                return Err(ValidationError::BlankIntroBackground);
            }
            if blank(intro.music.as_str()) {
                return Err(ValidationError::BlankIntroMusic);
            }
            if blank(intro.title.as_str()) {
                return Err(ValidationError::BlankIntroTitle);
            }
            match parse_field_ms(intro.duration.as_str()) {
                Err(e) => { return Err(ValidationError::IntroDuration(e)); },
                Ok(ms) => {
                    if ms == 0 {
                        return Err(ValidationError::ZeroIntroDuration);
                    }
                },
            }
        },
        None => {},
    }
    let guess_ms = match parse_field_ms(p.timings.guess_duration.as_str()) {
        Ok(ms) => ms,
        Err(e) => { return Err(ValidationError::GuessDuration(e)); },
    };
    let reveal_ms = match parse_field_ms(p.timings.reveal_duration.as_str()) {
        Ok(ms) => ms,
        Err(e) => { return Err(ValidationError::RevealDuration(e)); },
    };
    if guess_ms == 0 {
        return Err(ValidationError::ZeroGuessDuration);
    }
    if reveal_ms == 0 {
        return Err(ValidationError::ZeroRevealDuration);
    }
    if p.clips.len() == 0 {
        return Err(ValidationError::NoClips);
    }
    let mut i: usize = 0;
    while i < p.clips.len()
        invariant
            i <= p.clips.len(),
            clips_violation(p@.clips, i as nat) is None,
        decreases p.clips.len() - i,
    {
        let clip = &p.clips[i];
        proof {
            if clip_violation(clip@, i as int) is Some {
                lemma_clips_violation_stays(p@.clips, (i + 1) as nat, p@.clips.len());
            }
        }
        if blank(clip.video.as_str()) {
            return Err(ValidationError::BlankClipVideo(i));
        }
        if blank(clip.answer.as_str()) {
            return Err(ValidationError::BlankClipAnswer(i));
        }
        match parse_field_ms(clip.start.as_str()) {
            Err(e) => { return Err(ValidationError::ClipStart(i, e)); },
            Ok(_) => {},
        }
        i = i + 1;
    }
    match p.output.fps {
        Some(fps) => {
            if fps == 0 {
                return Err(ValidationError::ZeroFps);
            }
        },
        None => {},
    }
    match &p.output.resolution {
        Some(res) => {
            if !is_resolution(res.as_str()) {
                return Err(ValidationError::Resolution);
            }
        },
        None => {},
    }
    Ok(())
}

/// Once a rule is broken among the first `n` clips, it stays the first
/// among any more of them.
proof fn lemma_clips_violation_stays(clips: Seq<ClipView>, n: nat, m: nat)
    requires
        n <= m,
        clips_violation(clips, n) is Some,
    ensures
        clips_violation(clips, m) == clips_violation(clips, n),
    decreases m,
{
    if m > n {
        lemma_clips_violation_stays(clips, n, (m - 1) as nat);
    }
}

} // verus!
