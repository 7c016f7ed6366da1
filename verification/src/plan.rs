//! The resolved parameters of a render: every timecode and the resolution
//! parsed as they are written, paths and drawn texts trimmed, every default
//! filled in.

use vstd::prelude::*;
use vstd::string::*;
use crate::error::{CompileError, FormatError};
use crate::model::{ClipView, IntroView, Project, ProjectView};
use crate::text::{chars_of, digits_u32, find_char, parse_digits, trim, trimmed};
use crate::timecode::{parse_timecode_ms, timecode_ms, MAX_TIMECODE_MS};

verus! {

/// The width used where the project names no resolution.
pub const DEFAULT_WIDTH: u32 = 1920;

/// The height used where the project names no resolution.
pub const DEFAULT_HEIGHT: u32 = 1080;

/// The frame rate used where the project names none.
pub const DEFAULT_FPS: u32 = 30;

/// A clip with its start parsed. Every timecode is below 360 000 000 ms, so
/// 32 bits hold it and the sum of two never overflows.
#[derive(Clone, Debug, PartialEq, Eq)]
pub struct ClipPlan {
    pub video: String,
    pub start_ms: u32,
    pub answer: String,
}

/// An intro with its duration parsed.
#[derive(Clone, Debug, PartialEq, Eq)]
pub struct IntroPlan {
    pub background: String,
    pub title: String,
    pub music: String,
    pub duration_ms: u32,
}

/// Everything the graph and the argument vector are built from.
#[derive(Clone, Debug, PartialEq, Eq)]
pub struct RenderPlan {
    pub width: u32,
    pub height: u32,
    pub fps: u32,
    pub guess_ms: u32,
    pub reveal_ms: u32,
    pub intro: Option<IntroPlan>,
    pub clips: Vec<ClipPlan>,
    pub output: String,
}

/// A [`ClipPlan`] as plain values.
pub struct ClipPlanView {
    pub video: Seq<char>,
    pub start_ms: u32,
    pub answer: Seq<char>,
}

/// An [`IntroPlan`] as plain values.
pub struct IntroPlanView {
    pub background: Seq<char>,
    pub title: Seq<char>,
    pub music: Seq<char>,
    pub duration_ms: u32,
}

/// A [`RenderPlan`] as plain values.
pub struct RenderPlanView {
    pub width: u32,
    pub height: u32,
    pub fps: u32,
    pub guess_ms: u32,
    pub reveal_ms: u32,
    pub intro: Option<IntroPlanView>,
    pub clips: Seq<ClipPlanView>,
    pub output: Seq<char>,
}

impl View for ClipPlan {
    type V = ClipPlanView;

    open spec fn view(&self) -> ClipPlanView {
        ClipPlanView { video: self.video@, start_ms: self.start_ms, answer: self.answer@ }
    }
}

impl View for IntroPlan {
    type V = IntroPlanView;

    open spec fn view(&self) -> IntroPlanView {
        IntroPlanView {
            background: self.background@,
            title: self.title@,
            music: self.music@,
            duration_ms: self.duration_ms,
        }
    }
}

impl View for RenderPlan {
    type V = RenderPlanView;

    open spec fn view(&self) -> RenderPlanView {
        RenderPlanView {
            width: self.width,
            height: self.height,
            fps: self.fps,
            guess_ms: self.guess_ms,
            reveal_ms: self.reveal_ms,
            intro: match self.intro {
                Some(i) => Some(i@),
                None => None,
            },
            clips: Seq::new(self.clips@.len(), |i: int| self.clips@[i]@),
            output: self.output@,
        }
    }
}

/// What a text denotes as a resolution: digits, `x`, digits and nothing
/// else, each run of digits writing a number above zero that fits in 32 bits.
pub open spec fn resolution_of(s: Seq<char>) -> Result<(u32, u32), FormatError> {
    match s.index_of_first('x') {
        None => Err(FormatError::ResolutionSeparator),
        Some(k) => match digits_u32(s.take(k)) {
            None => Err(FormatError::ResolutionWidth),
            Some(w) => match digits_u32(s.skip(k + 1)) {
                None => Err(FormatError::ResolutionHeight),
                Some(h) => if w == 0 || h == 0 {
                    Err(FormatError::ResolutionZero)
                } else {
                    Ok((w, h))
                },
            },
        },
    }
}

/// The first clip among the first `n` whose start is no timecode, with the
/// defect of that start.
pub open spec fn first_bad_start(clips: Seq<ClipView>, n: nat) -> Option<(int, FormatError)>
    recommends
        n <= clips.len(),
    decreases n,
{
    if n == 0 {
        None
    } else {
        match first_bad_start(clips, (n - 1) as nat) {
            Some(found) => Some(found),
            None => match timecode_ms(clips[n - 1].start) {
                Err(e) => Some((n - 1, e)),
                Ok(_) => None,
            },
        }
    }
}

/// The plan of a clip whose start is a timecode.
pub open spec fn clip_plan_of(clip: ClipView) -> ClipPlanView
    recommends
        timecode_ms(clip.start) is Ok,
{
    ClipPlanView {
        video: trimmed(clip.video),
        start_ms: timecode_ms(clip.start)->Ok_0 as u32,
        answer: trimmed(clip.answer),
    }
}

/// The plan of an intro whose duration is a timecode.
pub open spec fn intro_plan_of(intro: IntroView) -> IntroPlanView
    recommends
        timecode_ms(intro.duration) is Ok,
{
    IntroPlanView {
        background: trimmed(intro.background),
        title: trimmed(intro.title),
        music: trimmed(intro.music),
        duration_ms: timecode_ms(intro.duration)->Ok_0 as u32,
    }
}

/// The width and height a project asks for.
pub open spec fn resolution_wanted(p: ProjectView) -> Result<(u32, u32), FormatError> {
    match p.output.resolution {
        None => Ok((DEFAULT_WIDTH, DEFAULT_HEIGHT)),
        Some(r) => resolution_of(r),
    }
}

/// The first reason, if any, why a project has no plan. The order is:
/// resolution, guess duration, reveal duration, a zero among the two, intro
/// duration, then the clips' starts in clip order.
pub open spec fn plan_defect(p: ProjectView) -> Option<CompileError> {
    if resolution_wanted(p) is Err {
        Some(CompileError::Resolution(resolution_wanted(p)->Err_0))
    } else if timecode_ms(p.timings.guess_duration) is Err {
        Some(CompileError::GuessDuration(timecode_ms(p.timings.guess_duration)->Err_0))
    } else if timecode_ms(p.timings.reveal_duration) is Err {
        Some(CompileError::RevealDuration(timecode_ms(p.timings.reveal_duration)->Err_0))
    } else if timecode_ms(p.timings.guess_duration)->Ok_0 == 0 || timecode_ms(
        p.timings.reveal_duration,
    )->Ok_0 == 0 {
        Some(CompileError::ZeroDuration)
    } else if p.intro is Some && timecode_ms(p.intro->0.duration) is Err {
        Some(CompileError::IntroDuration(timecode_ms(p.intro->0.duration)->Err_0))
    } else {
        match first_bad_start(p.clips, p.clips.len()) {
            Some((i, e)) => Some(CompileError::ClipStart(i as usize, e)),
            None => None,
        }
    }
}

/// The plan of a project that has one: defaults filled in, paths and drawn
/// texts trimmed,
/// timecodes as milliseconds.
pub open spec fn plan_of(p: ProjectView) -> RenderPlanView
    recommends
        plan_defect(p) is None,
{
    RenderPlanView {
        width: resolution_wanted(p)->Ok_0.0,
        height: resolution_wanted(p)->Ok_0.1,
        fps: match p.output.fps {
            Some(fps) => fps,
            None => DEFAULT_FPS,
        },
        guess_ms: timecode_ms(p.timings.guess_duration)->Ok_0 as u32,
        reveal_ms: timecode_ms(p.timings.reveal_duration)->Ok_0 as u32,
        intro: match p.intro {
            Some(i) => Some(intro_plan_of(i)),
            None => None,
        },
        clips: Seq::new(p.clips.len(), |i: int| clip_plan_of(p.clips[i])),
        output: trimmed(p.output.path),
    }
}

/// What resolving a project gives: its plan, or the first reason why it has none.
pub open spec fn resolved(p: ProjectView) -> Result<RenderPlanView, CompileError> {
    match plan_defect(p) {
        Some(e) => Err(e),
        None => Ok(plan_of(p)),
    }
}

/// Parses a resolution written as `WIDTHxHEIGHT`.
///
/// The text must be digits, one `x`, and digits, with nothing before, between
/// or after them: no sign, no whitespace. Each dimension must be above zero and
/// fit in 32 bits.
pub fn parse_resolution(res: &str) -> (r: Result<(u32, u32), FormatError>)
    ensures
        r == resolution_of(res@),
{
    let chars = chars_of(res);
    let k = match find_char(&chars, 'x') {
        Some(k) => k,
        None => { return Err(FormatError::ResolutionSeparator); },
    };
    proof {
        chars@.index_of_first_ensures('x');
    }
    let w = match parse_digits(&chars, 0, k) {
        Some(w) => w,
        None => { return Err(FormatError::ResolutionWidth); },
    };
    let h = match parse_digits(&chars, k + 1, chars.len()) {
        Some(h) => h,
        None => { return Err(FormatError::ResolutionHeight); },
    };
    if w == 0 || h == 0 {
        return Err(FormatError::ResolutionZero);
    }
    Ok((w, h))
}

/// Parses a timecode field, as it is written, into milliseconds. They fit in
/// 32 bits.
pub fn parse_field_ms(field: &str) -> (r: Result<u32, FormatError>)
    ensures
        match timecode_ms(field@) {
            Ok(ms) => r == Ok::<u32, FormatError>(ms as u32) && ms <= MAX_TIMECODE_MS,
            Err(e) => r == Err::<u32, FormatError>(e),
        },
{
    match parse_timecode_ms(field) {
        Ok(ms) => Ok(ms as u32),
        Err(e) => Err(e),
    }
}

/// Resolves a project into the parameters of its render, or says what
/// prevents it. Nothing of the graph is built before every field has been read.
#[verifier::loop_isolation(false)]
pub fn resolve(p: &Project) -> (r: Result<RenderPlan, CompileError>)
    ensures
        match resolved(p@) {
            Ok(plan) => r is Ok && r->Ok_0@ == plan,
            Err(e) => r == Err::<RenderPlan, CompileError>(e),
        },
{
    let (width, height) = match &p.output.resolution {
        None => (DEFAULT_WIDTH, DEFAULT_HEIGHT),
        Some(text) => match parse_resolution(text.as_str()) {
            Ok(wh) => wh,
            Err(e) => { return Err(CompileError::Resolution(e)); },
        },
    };
    let fps = match p.output.fps {
        Some(fps) => fps,
        None => DEFAULT_FPS,
    };
    let guess_ms = match parse_field_ms(p.timings.guess_duration.as_str()) {
        Ok(ms) => ms,
        Err(e) => { return Err(CompileError::GuessDuration(e)); },
    };
    let reveal_ms = match parse_field_ms(p.timings.reveal_duration.as_str()) {
        Ok(ms) => ms,
        Err(e) => { return Err(CompileError::RevealDuration(e)); },
    };
    if guess_ms == 0 || reveal_ms == 0 {
        return Err(CompileError::ZeroDuration);
    }
    let intro = match &p.intro {
        None => None,
        Some(i) => {
            let duration_ms = match parse_field_ms(i.duration.as_str()) {
                Ok(ms) => ms,
                Err(e) => { return Err(CompileError::IntroDuration(e)); },
            };
            Some(
                IntroPlan {
                    background: trim(i.background.as_str()),
                    title: trim(i.title.as_str()),
                    music: trim(i.music.as_str()),
                    duration_ms,
                },
            )
        },
    };
    let mut clips: Vec<ClipPlan> = Vec::new();
    let mut i: usize = 0;
    while i < p.clips.len()
        invariant
            i <= p.clips.len(),
            clips.len() == i,
            first_bad_start(p@.clips, i as nat) is None,
            forall|k: int| 0 <= k < i ==> timecode_ms((#[trigger] p@.clips[k]).start) is Ok,
            forall|k: int| 0 <= k < i ==> (#[trigger] clips@[k])@ == clip_plan_of(p@.clips[k]),
        decreases p.clips.len() - i,
    {
        let clip = &p.clips[i];
        let start_ms = match parse_field_ms(clip.start.as_str()) {
            Ok(ms) => ms,
            Err(e) => {
                proof {
                    lemma_first_bad_start_stays(p@.clips, (i + 1) as nat, p@.clips.len());
                }
                return Err(CompileError::ClipStart(i, e));
            },
        };
        let planned = ClipPlan {
            video: trim(clip.video.as_str()),
            start_ms,
            answer: trim(clip.answer.as_str()),
        };
        clips.push(planned);
        i = i + 1;
    }
    let plan = RenderPlan {
        width,
        height,
        fps,
        guess_ms,
        reveal_ms,
        intro,
        clips,
        output: trim(p.output.path.as_str()),
    };
    proof {
        assert(plan@.clips == plan_of(p@).clips);
    }
    Ok(plan)
}

/// Once a bad start is found among the first `n` clips, it stays the first
/// among any more of them.
proof fn lemma_first_bad_start_stays(clips: Seq<ClipView>, n: nat, m: nat)
    requires
        n <= m,
        first_bad_start(clips, n) is Some,
    ensures
        first_bad_start(clips, m) == first_bad_start(clips, n),
    decreases m,
{
    if m > n {
        lemma_first_bad_start_stays(clips, n, (m - 1) as nat);
    }
}

} // verus!
