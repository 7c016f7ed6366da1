use blindtest::model::{Clip, Output, Timings};
use blindtest::validate::validate_project;
use blindtest::text::comes_before;
use blindtest::wizard::{
    extension_is_mp4, fps_answer, optional_answer, quick_project, sort_entries_by_path,
    timecode_answer, FolderEntry, WizardError,
};

fn entry(name: &str) -> FolderEntry {
    let (stem, extension) = match name.rsplit_once('.') {
        Some((stem, extension)) if !stem.is_empty() => {
            (Some(stem.to_string()), Some(extension.to_string()))
        }
        _ => (Some(name.to_string()), None),
    };
    FolderEntry {
        path: format!("videos/{name}"),
        extension,
        stem,
    }
}

#[test]
fn timecode_answers_are_trimmed_or_asked_again() {
    assert_eq!(
        timecode_answer("  00:00:10.000 "),
        Some("00:00:10.000".to_string())
    );
    assert_eq!(
        timecode_answer("00:00:00.000"),
        Some("00:00:00.000".to_string())
    );
    assert_eq!(timecode_answer("10s"), None);
    assert_eq!(timecode_answer(""), None);
    assert_eq!(timecode_answer("00:60:00.000"), None);
}

#[test]
fn open_answers_are_nothing_when_blank() {
    assert_eq!(optional_answer(""), None);
    assert_eq!(optional_answer("  \t"), None);
    assert_eq!(optional_answer(" 1280x720 "), Some("1280x720".to_string()));
    assert_eq!(optional_answer("anything"), Some("anything".to_string()));
}

#[test]
fn frame_rate_answers() {
    assert_eq!(fps_answer(""), Ok(None));
    assert_eq!(fps_answer("   "), Ok(None));
    assert_eq!(fps_answer("30"), Ok(Some(30)));
    assert_eq!(fps_answer(" 25\n"), Ok(Some(25)));
    assert_eq!(fps_answer("+60"), Ok(Some(60)));
    assert_eq!(fps_answer("0"), Ok(Some(0)));
    assert_eq!(fps_answer("4294967295"), Ok(Some(u32::MAX)));
    assert_eq!(fps_answer("4294967296"), Err(WizardError::InvalidFps));
    assert_eq!(fps_answer("thirty"), Err(WizardError::InvalidFps));
    assert_eq!(fps_answer("29.97"), Err(WizardError::InvalidFps));
    assert_eq!(fps_answer("-30"), Err(WizardError::InvalidFps));
    assert_eq!(fps_answer("3 0"), Err(WizardError::InvalidFps));
}

#[test]
fn frame_rate_answers_are_read_as_the_standard_parser_reads_them() {
    for text in ["30", " 30 ", "+30", "++30", "+", "030", "3_0", "1e2", "٣٠"] {
        let trimmed = text.trim();
        let expected = if trimmed.is_empty() {
            Ok(None)
        } else {
            trimmed
                .parse::<u32>()
                .map(Some)
                .map_err(|_| WizardError::InvalidFps)
        };
        assert_eq!(fps_answer(text), expected, "{text}");
    }
}

#[test]
fn mp4_in_any_case() {
    for yes in ["mp4", "MP4", "Mp4", "mP4"] {
        assert!(extension_is_mp4(yes));
        assert!(yes.eq_ignore_ascii_case("mp4"));
    }
    for no in ["", "mp3", "mp", "mp44", "mov", ".mp4", "mp4 ", "ｍp4"] {
        assert!(!extension_is_mp4(no));
        assert!(!no.eq_ignore_ascii_case("mp4"));
    }
}

#[test]
fn folder_without_videos_gives_no_project() {
    assert_eq!(
        quick_project(&vec![], false).unwrap_err(),
        WizardError::NoVideo
    );
    assert_eq!(
        quick_project(&vec![entry("notes.txt"), entry("song.mp3"), entry("mp4")], true)
            .unwrap_err(),
        WizardError::NoVideo
    );
}

#[test]
fn folder_of_videos_gives_the_default_project() {
    let entries = vec![
        entry("a.mp4"),
        entry("cover.png"),
        entry("B side.MP4"),
        entry("c.mov"),
        FolderEntry {
            path: "videos/\u{fffd}.mp4".into(),
            extension: Some("mp4".into()),
            stem: None,
        },
    ];
    let (project, path) = quick_project(&entries, false).unwrap();
    assert_eq!(path, "montage.json");
    assert_eq!(project.intro, None);
    assert_eq!(
        project.output,
        Output {
            path: "render/blindtest.mp4".into(),
            resolution: Some("1280x720".into()),
            fps: Some(30),
        }
    );
    assert_eq!(
        project.timings,
        Timings {
            guess_duration: "00:00:10.000".into(),
            reveal_duration: "00:00:05.000".into(),
        }
    );
    assert_eq!(
        project.clips,
        vec![
            Clip {
                video: "videos/a.mp4".into(),
                start: "00:00:00.000".into(),
                answer: "a".into(),
            },
            Clip {
                video: "videos/B side.MP4".into(),
                start: "00:00:00.000".into(),
                answer: "B side".into(),
            },
            Clip {
                video: "videos/\u{fffd}.mp4".into(),
                start: "00:00:00.000".into(),
                answer: "Unknown".into(),
            },
        ]
    );
    assert_eq!(validate_project(&project), Ok(()));
}

#[test]
fn shuffling_keeps_the_clips_and_changes_their_order() {
    let entries: Vec<FolderEntry> = (0..60).map(|n| entry(&format!("{n:02}.mp4"))).collect();
    let (plain, _) = quick_project(&entries, false).unwrap();
    let (shuffled, path) = quick_project(&entries, true).unwrap();
    assert_eq!(path, "montage.json");
    assert_eq!(shuffled.output, plain.output);
    assert_eq!(shuffled.timings, plain.timings);
    assert_eq!(shuffled.clips.len(), 60);
    assert_ne!(shuffled.clips, plain.clips);
    let mut sorted = shuffled.clips.clone();
    sorted.sort_by(|a, b| a.video.cmp(&b.video));
    assert_eq!(sorted, plain.clips);
}

#[test]
fn order_of_texts_is_the_order_of_strings() {
    let texts = [
        "", "a", "A", "a.mp4", "a b.mp4", "ab", "b", "videos/a.mp4", "videos/B.mp4",
        "videos/é.mp4", "videos/z.mp4", "videos/😀.mp4", "videos/a", "videos",
    ];
    for a in texts {
        assert!(!comes_before(a, a));
        for b in texts {
            assert_eq!(comes_before(a, b), a < b, "{a:?} {b:?}");
        }
    }
}

#[test]
fn entries_are_sorted_by_path() {
    let names = ["c.mp4", "a.mp4", "B.mp4", "b.mp4", "a b.mp4", "a.mp3", "é.mp4", "a.mp4"];
    let mut entries: Vec<FolderEntry> = names.iter().map(|n| entry(n)).collect();
    let mut expected = entries.clone();
    expected.sort_by(|a, b| a.path.cmp(&b.path));
    sort_entries_by_path(&mut entries);
    assert_eq!(entries, expected);
    let paths: Vec<&str> = entries.iter().map(|e| e.path.as_str()).collect();
    assert_eq!(
        paths,
        vec![
            "videos/B.mp4",
            "videos/a b.mp4",
            "videos/a.mp3",
            "videos/a.mp4",
            "videos/a.mp4",
            "videos/b.mp4",
            "videos/c.mp4",
            "videos/é.mp4",
        ]
    );
}

#[test]
fn sorting_nothing_or_one_entry_changes_nothing() {
    let mut none: Vec<FolderEntry> = vec![];
    sort_entries_by_path(&mut none);
    assert!(none.is_empty());
    let mut one = vec![entry("a.mp4")];
    sort_entries_by_path(&mut one);
    assert_eq!(one, vec![entry("a.mp4")]);
}

#[test]
fn a_sorted_folder_gives_its_clips_in_the_order_of_their_paths() {
    let mut entries: Vec<FolderEntry> =
        ["z.mp4", "m.MP4", "notes.txt", "a.mp4"].iter().map(|n| entry(n)).collect();
    sort_entries_by_path(&mut entries);
    let (project, _) = quick_project(&entries, false).unwrap();
    let videos: Vec<&str> = project.clips.iter().map(|c| c.video.as_str()).collect();
    assert_eq!(videos, vec!["videos/a.mp4", "videos/m.MP4", "videos/z.mp4"]);
}
