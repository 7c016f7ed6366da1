use blindtest::error::{FormatError, ValidationError};
use blindtest::model::{Clip, Intro, Output, Project, Timings};
use blindtest::validate::{is_resolution, validate_project};

fn sound_project() -> Project {
    Project {
        intro: Some(Intro {
            background: "assets/intro.png".into(),
            title: "Blind Test".into(),
            music: "assets/intro.mp3".into(),
            duration: "00:00:03.000".into(),
        }),
        output: Output {
            path: "render/out.mp4".into(),
            resolution: Some("1920x1080".into()),
            fps: Some(30),
        },
        timings: Timings {
            guess_duration: "00:00:10.000".into(),
            reveal_duration: "00:00:05.000".into(),
        },
        clips: vec![
            Clip {
                video: "videos/a.mp4".into(),
                start: "00:00:01.000".into(),
                answer: "Artist - Track".into(),
            },
            Clip {
                video: "videos/b.mp4".into(),
                start: "00:00:00.000".into(),
                answer: "Other - Song".into(),
            },
        ],
    }
}

fn broken(change: fn(&mut Project)) -> Result<(), ValidationError> {
    let mut p = sound_project();
    change(&mut p);
    validate_project(&p)
}

#[test]
fn sound_project_passes() {
    assert_eq!(validate_project(&sound_project()), Ok(()));
}

#[test]
fn absent_options_pass() {
    assert_eq!(
        broken(|p| {
            p.intro = None;
            p.output.resolution = None;
            p.output.fps = None;
        }),
        Ok(())
    );
}

#[test]
fn timecodes_are_read_as_they_are_written() {
    assert_eq!(
        broken(|p| p.timings.guess_duration = " 00:00:10.000".into()),
        Err(ValidationError::GuessDuration(FormatError::TimecodeLength))
    );
    assert_eq!(
        broken(|p| p.timings.reveal_duration = "00:00:05.000\n".into()),
        Err(ValidationError::RevealDuration(FormatError::TimecodeLength))
    );
    assert_eq!(
        broken(|p| p.intro.as_mut().unwrap().duration = "00:00:03.000 ".into()),
        Err(ValidationError::IntroDuration(FormatError::TimecodeLength))
    );
    assert_eq!(
        broken(|p| p.clips[0].start = "\t00:00:01.000".into()),
        Err(ValidationError::ClipStart(0, FormatError::TimecodeLength))
    );
    assert_eq!(
        broken(|p| p.clips[1].start = " 0:00:01.000".into()),
        Err(ValidationError::ClipStart(1, FormatError::TimecodeHours))
    );
}

#[test]
fn resolution_is_read_as_it_is_written() {
    for padded in [" 1280x720", "1280x720 ", "1280x720\n", "\t1280x720", "1280 x720"] {
        let mut p = sound_project();
        p.output.resolution = Some(padded.into());
        assert_eq!(
            validate_project(&p),
            Err(ValidationError::Resolution),
            "{padded:?}"
        );
    }
}

#[test]
fn paths_and_drawn_texts_may_be_padded() {
    assert_eq!(
        broken(|p| {
            p.output.path = " render/out.mp4 ".into();
            p.clips[0].video = "\tvideos/a.mp4".into();
            p.clips[0].answer = " Artist - Track\n".into();
            p.intro.as_mut().unwrap().title = "  Blind Test ".into();
        }),
        Ok(())
    );
}

#[test]
fn each_broken_rule_has_its_error() {
    assert_eq!(
        broken(|p| p.output.path = " ".into()),
        Err(ValidationError::BlankOutputPath)
    );
    assert_eq!(
        broken(|p| p.intro.as_mut().unwrap().background = "\t".into()),
        Err(ValidationError::BlankIntroBackground)
    );
    assert_eq!(
        broken(|p| p.intro.as_mut().unwrap().music = "".into()),
        Err(ValidationError::BlankIntroMusic)
    );
    assert_eq!(
        broken(|p| p.intro.as_mut().unwrap().title = "\u{a0}".into()),
        Err(ValidationError::BlankIntroTitle)
    );
    assert_eq!(
        broken(|p| p.intro.as_mut().unwrap().duration = "3s".into()),
        Err(ValidationError::IntroDuration(FormatError::TimecodeLength))
    );
    assert_eq!(
        broken(|p| p.intro.as_mut().unwrap().duration = "00:00:00.000".into()),
        Err(ValidationError::ZeroIntroDuration)
    );
    assert_eq!(
        broken(|p| p.timings.guess_duration = "00:61:00.000".into()),
        Err(ValidationError::GuessDuration(
            FormatError::MinutesOutOfRange
        ))
    );
    assert_eq!(
        broken(|p| p.timings.reveal_duration = "00:00:61.000".into()),
        Err(ValidationError::RevealDuration(
            FormatError::SecondsOutOfRange
        ))
    );
    assert_eq!(
        broken(|p| p.timings.guess_duration = "00:00:00.000".into()),
        Err(ValidationError::ZeroGuessDuration)
    );
    assert_eq!(
        broken(|p| p.timings.reveal_duration = "00:00:00.000".into()),
        Err(ValidationError::ZeroRevealDuration)
    );
    assert_eq!(broken(|p| p.clips.clear()), Err(ValidationError::NoClips));
    assert_eq!(
        broken(|p| p.clips[1].video = "  ".into()),
        Err(ValidationError::BlankClipVideo(1))
    );
    assert_eq!(
        broken(|p| p.clips[0].answer = "   ".into()),
        Err(ValidationError::BlankClipAnswer(0))
    );
    assert_eq!(
        broken(|p| p.clips[1].start = "banana".into()),
        Err(ValidationError::ClipStart(1, FormatError::TimecodeLength))
    );
    assert_eq!(
        broken(|p| p.output.fps = Some(0)),
        Err(ValidationError::ZeroFps)
    );
    assert_eq!(
        broken(|p| p.output.resolution = Some("1920-1080".into())),
        Err(ValidationError::Resolution)
    );
}

#[test]
fn the_first_broken_rule_is_reported() {
    assert_eq!(
        broken(|p| {
            p.output.path = "".into();
            p.clips.clear();
            p.output.fps = Some(0);
        }),
        Err(ValidationError::BlankOutputPath)
    );
    assert_eq!(
        broken(|p| {
            p.clips[0].answer = "".into();
            p.clips[1].video = "".into();
            p.output.fps = Some(0);
        }),
        Err(ValidationError::BlankClipAnswer(0))
    );
    assert_eq!(
        broken(|p| {
            p.timings.guess_duration = "00:00:00.000".into();
            p.timings.reveal_duration = "nope".into();
        }),
        Err(ValidationError::RevealDuration(FormatError::TimecodeLength))
    );
    assert_eq!(
        broken(|p| {
            p.output.fps = Some(0);
            p.output.resolution = Some("x".into());
        }),
        Err(ValidationError::ZeroFps)
    );
}

#[test]
fn a_clip_may_start_at_zero() {
    assert_eq!(
        broken(|p| p.clips[0].start = "00:00:00.000".into()),
        Ok(())
    );
}

#[test]
fn validation_leaves_the_project_as_it_was() {
    let p = sound_project();
    let before = p.clone();
    let _ = validate_project(&p);
    assert_eq!(p, before);
}

#[test]
fn shapes_of_a_resolution() {
    for good in ["1920x1080", "1x1", "0001x0002", "4294967295x4294967295"] {
        assert!(is_resolution(good), "{good}");
    }
    for bad in [
        "",
        "x",
        "1920x",
        "x1080",
        "1920-1080",
        "1920X1080",
        "1920 x 1080",
        " 1920x1080",
        "1920x1080x3",
        "+1920x1080",
        "-1920x1080",
        "0x1080",
        "1920x0",
        "4294967296x1",
        "1x99999999999999999999",
        "19.20x1080",
        "١٩٢٠x١٠٨٠",
    ] {
        assert!(!is_resolution(bad), "{bad}");
    }
}
