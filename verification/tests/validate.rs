use blindtest::model::{Clip, Intro, Output, Project, Timings};
use blindtest::validate::validate_project;

fn base_project() -> Project {
    Project {
        intro: None,
        output: Output {
            path: "render/out.mp4".into(),
            resolution: Some("1920x1080".into()),
            fps: Some(30),
        },
        timings: Timings {
            guess_duration: "00:00:10.000".into(),
            reveal_duration: "00:00:05.000".into(),
        },
        clips: vec![Clip {
            video: "videos/a.mp4".into(),
            start: "00:00:01.000".into(),
            answer: "Artist - Track".into(),
        }],
    }
}

#[test]
fn valid_project_passes() {
    let p = base_project();
    validate_project(&p).unwrap();
}

#[test]
fn rejects_empty_clips() {
    let mut p = base_project();
    p.clips.clear();
    assert!(validate_project(&p).is_err());
}

#[test]
fn rejects_empty_answer() {
    let mut p = base_project();
    p.clips[0].answer = "   ".into();
    assert!(validate_project(&p).is_err());
}

#[test]
fn rejects_invalid_start_timecode() {
    let mut p = base_project();
    p.clips[0].start = "banana".into();
    assert!(validate_project(&p).is_err());
}

#[test]
fn rejects_zero_durations() {
    let mut p = base_project();
    p.timings.guess_duration = "00:00:00.000".into();
    assert!(validate_project(&p).is_err());

    let mut p = base_project();
    p.timings.reveal_duration = "00:00:00.000".into();
    assert!(validate_project(&p).is_err());
}

#[test]
fn rejects_bad_resolution() {
    let mut p = base_project();
    p.output.resolution = Some("1920-1080".into());
    assert!(validate_project(&p).is_err());
}

#[test]
fn rejects_fps_zero() {
    let mut p = base_project();
    p.output.fps = Some(0);
    assert!(validate_project(&p).is_err());
}

#[test]
fn intro_valid_passes() {
    let mut p = base_project();
    p.intro = Some(Intro {
        background: "assets/intro.png".into(),
        title: "Blind Test".into(),
        music: "assets/intro.mp3".into(),
        duration: "00:00:03.000".into(),
    });
    validate_project(&p).unwrap();
}

#[test]
fn intro_rejects_zero_duration() {
    let mut p = base_project();
    p.intro = Some(Intro {
        background: "assets/intro.png".into(),
        title: "Blind Test".into(),
        music: "assets/intro.mp3".into(),
        duration: "00:00:00.000".into(),
    });
    assert!(validate_project(&p).is_err());
}

#[test]
fn intro_rejects_empty_fields() {
    let mut p = base_project();
    p.intro = Some(Intro {
        background: "   ".into(),
        title: "".into(),
        music: " ".into(),
        duration: "00:00:03.000".into(),
    });
    assert!(validate_project(&p).is_err());
}
