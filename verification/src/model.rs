//! The declarative project: what to render, before anything is parsed.
//!
//! Every text field is kept as written; timecodes and the resolution are
//! parsed where they are used.

use vstd::prelude::*;

verus! {

/// One blind-test item: where it comes from, where it starts, what the answer is.
#[derive(Debug, Clone, PartialEq, Eq)]
pub struct Clip {
    /// Path of the source video.
    pub video: String,
    /// Start timecode in the source video, `HH:MM:SS.mmm`.
    pub start: String,
    /// Answer shown during the reveal phase.
    pub answer: String,
}

/// The timings applied to every clip.
#[derive(Debug, Clone, PartialEq, Eq)]
pub struct Timings {
    /// Duration of the guess phase, `HH:MM:SS.mmm`.
    pub guess_duration: String,
    /// Duration of the reveal phase, `HH:MM:SS.mmm`.
    pub reveal_duration: String,
}

/// Where and how the result is rendered.
#[derive(Debug, Clone, PartialEq, Eq)]
pub struct Output {
    /// Path of the rendered video.
    pub path: String,
    /// Resolution as `WIDTHxHEIGHT`; 1920x1080 when absent.
    pub resolution: Option<String>,
    /// Frames per second; 30 when absent.
    pub fps: Option<u32>,
}

/// The optional intro shown before the first clip.
#[derive(Debug, Clone, PartialEq, Eq)]
pub struct Intro {
    /// Path of the background image.
    pub background: String,
    /// Title drawn over the background.
    pub title: String,
    /// Path of the music played during the intro.
    pub music: String,
    /// Duration of the intro, `HH:MM:SS.mmm`.
    pub duration: String,
}

/// A whole project. The clips are rendered in the order given.
#[derive(Debug, Clone, PartialEq, Eq)]
pub struct Project {
    /// Intro shown before the clips, if any.
    pub intro: Option<Intro>,
    /// Rendering parameters.
    pub output: Output,
    /// Guess and reveal durations, the same for every clip.
    pub timings: Timings,
    /// The clips, in playing order.
    pub clips: Vec<Clip>,
}

/// A [`Clip`] as plain sequences of characters.
pub struct ClipView {
    pub video: Seq<char>,
    pub start: Seq<char>,
    pub answer: Seq<char>,
}

/// [`Timings`] as plain sequences of characters.
pub struct TimingsView {
    pub guess_duration: Seq<char>,
    pub reveal_duration: Seq<char>,
}

/// An [`Output`] as plain values.
pub struct OutputView {
    pub path: Seq<char>,
    pub resolution: Option<Seq<char>>,
    pub fps: Option<u32>,
}

/// An [`Intro`] as plain sequences of characters.
pub struct IntroView {
    pub background: Seq<char>,
    pub title: Seq<char>,
    pub music: Seq<char>,
    pub duration: Seq<char>,
}

/// A [`Project`] as plain values.
pub struct ProjectView {
    pub intro: Option<IntroView>,
    pub output: OutputView,
    pub timings: TimingsView,
    pub clips: Seq<ClipView>,
}

impl View for Clip {
    type V = ClipView;

    open spec fn view(&self) -> ClipView {
        ClipView { video: self.video@, start: self.start@, answer: self.answer@ }
    }
}

impl View for Timings {
    type V = TimingsView;

    open spec fn view(&self) -> TimingsView {
        TimingsView {
            guess_duration: self.guess_duration@,
            reveal_duration: self.reveal_duration@,
        }
    }
}

impl View for Output {
    type V = OutputView;

    open spec fn view(&self) -> OutputView {
        OutputView {
            path: self.path@,
            resolution: match self.resolution {
                Some(r) => Some(r@),
                None => None,
            },
            fps: self.fps,
        }
    }
}

impl View for Intro {
    type V = IntroView;

    open spec fn view(&self) -> IntroView {
        IntroView {
            background: self.background@,
            title: self.title@,
            music: self.music@,
            duration: self.duration@,
        }
    }
}

/// The views of the clips of `clips`, in order.
pub open spec fn clip_views(clips: Seq<Clip>) -> Seq<ClipView> {
    Seq::new(clips.len(), |i: int| clips[i]@)
}

impl View for Project {
    type V = ProjectView;

    open spec fn view(&self) -> ProjectView {
        ProjectView {
            intro: match self.intro {
                Some(i) => Some(i@),
                None => None,
            },
            output: self.output@,
            timings: self.timings@,
            clips: clip_views(self.clips@),
        }
    }
}

} // verus!
