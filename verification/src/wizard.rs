//! The decisions of the two ways to author a project: what to make of an
//! answer typed at a prompt, and which project a folder of videos gives.
//!
//! Asking the questions and listing the folder are the caller's part.

use rand::seq::SliceRandom;
use vstd::multiset::Multiset;
use vstd::prelude::*;
use vstd::string::*;
use crate::error::FormatError;
use crate::model::{
    clip_views, Clip, ClipView, Output, OutputView, Project, ProjectView, Timings, TimingsView,
};
use crate::text::{
    chars_of, comes_before, decimal_value, is_blank, is_white_space,
    lemma_text_before_is_asymmetric, lemma_text_before_is_transitive, parse_u32, text_before,
    trim, trimmed, u32_value,
};
use crate::timecode::{lemma_timecode_exact, parse_timecode_ms, timecode_ms};
use crate::validate::{first_violation, is_resolution_text, lemma_valid_iff_no_violation};

verus! {

/// Why an answer or a folder gives no project.
#[derive(Clone, Copy, Debug, PartialEq, Eq, Structural)]
pub enum WizardError {
    /// The frame rate typed is no unsigned integer of 32 bits.
    InvalidFps,
    /// The folder holds no `.mp4` file.
    NoVideo,
}

/// One file of a folder, as the caller found it: its path, and the extension
/// and the stem of its name where it has them.
#[derive(Clone, Debug, PartialEq, Eq)]
pub struct FolderEntry {
    pub path: String,
    pub extension: Option<String>,
    pub stem: Option<String>,
}

/// A [`FolderEntry`] as plain values.
pub struct FolderEntryView {
    pub path: Seq<char>,
    pub extension: Option<Seq<char>>,
    pub stem: Option<Seq<char>>,
}

impl View for FolderEntry {
    type V = FolderEntryView;

    open spec fn view(&self) -> FolderEntryView {
        FolderEntryView {
            path: self.path@,
            extension: match self.extension {
                Some(e) => Some(e@),
                None => None,
            },
            stem: match self.stem {
                Some(s) => Some(s@),
                None => None,
            },
        }
    }
}

/// The views of the entries of `entries`, in order.
pub open spec fn entry_views(entries: Seq<FolderEntry>) -> Seq<FolderEntryView> {
    Seq::new(entries.len(), |i: int| entries[i]@)
}

/// Whether an extension is `mp4`, in any mix of upper and lower case.
pub open spec fn is_mp4(extension: Seq<char>) -> bool {
    &&& extension.len() == 3
    &&& (extension[0] == 'm' || extension[0] == 'M')
    &&& (extension[1] == 'p' || extension[1] == 'P')
    &&& extension[2] == '4'
}

/// Whether an entry is a video to play.
pub open spec fn is_video(entry: FolderEntryView) -> bool {
    entry.extension is Some && is_mp4(entry.extension->0)
}

/// The clip that a video of a folder gives: it starts at zero and its
/// answer is the stem of the file's name, or `Unknown` without one.
pub open spec fn folder_clip(entry: FolderEntryView) -> ClipView {
    ClipView {
        video: entry.path,
        start: "00:00:00.000"@,
        answer: match entry.stem {
            Some(stem) => stem,
            None => "Unknown"@,
        },
    }
}

/// The clips that the videos among the first `n` entries give, in order.
pub open spec fn folder_clips(entries: Seq<FolderEntryView>, n: nat) -> Seq<ClipView>
    recommends
        n <= entries.len(),
    decreases n,
{
    if n == 0 {
        Seq::empty()
    } else if is_video(entries[n - 1]) {
        folder_clips(entries, (n - 1) as nat).push(folder_clip(entries[n - 1]))
    } else {
        folder_clips(entries, (n - 1) as nat)
    }
}

/// The rendering parameters of a project made from a folder.
pub open spec fn folder_output() -> OutputView {
    OutputView {
        path: "render/blindtest.mp4"@,
        resolution: Some("1280x720"@),
        fps: Some(30u32),
    }
}

/// The timings of a project made from a folder.
pub open spec fn folder_timings() -> TimingsView {
    TimingsView { guess_duration: "00:00:10.000"@, reveal_duration: "00:00:05.000"@ }
}

/// A text that begins and ends with something besides whitespace is not blank.
proof fn lemma_not_blank(s: Seq<char>)
    requires
        s.len() > 0,
        !is_white_space(s.first()),
        !is_white_space(s.last()),
    ensures
        trimmed(s) == s,
        !is_blank(s),
{
}

/// A project made from a folder breaks no rule, provided that the path and
/// the answer of each of its clips hold something besides whitespace: its
/// defaults and the start of every clip are well-formed.
pub proof fn lemma_folder_project_is_valid(p: ProjectView)
    requires
        p.intro is None,
        p.output == folder_output(),
        p.timings == folder_timings(),
        p.clips.len() > 0,
        forall|i: int|
            0 <= i < p.clips.len() ==> {
                &&& (#[trigger] p.clips[i]).start == "00:00:00.000"@
                &&& !is_blank(p.clips[i].video)
                &&& !is_blank(p.clips[i].answer)
            },
    ensures
        first_violation(p) is None,
{
    let path = "render/blindtest.mp4"@;
    let resolution = "1280x720"@;
    let guess = "00:00:10.000"@;
    let reveal = "00:00:05.000"@;
    let start = "00:00:00.000"@;
    reveal_strlit("render/blindtest.mp4");
    reveal_strlit("1280x720");
    reveal_strlit("00:00:10.000");
    reveal_strlit("00:00:05.000");
    reveal_strlit("00:00:00.000");
    lemma_not_blank(path);
    lemma_timecode_exact(guess);
    lemma_timecode_exact(reveal);
    lemma_timecode_exact(start);
    assert(timecode_ms(guess) == Ok::<nat, FormatError>(10_000));
    assert(timecode_ms(reveal) == Ok::<nat, FormatError>(5_000));
    assert(timecode_ms(start) is Ok);
    assert(is_resolution_text(resolution)) by {
        resolution.index_of_first_ensures('x');
        assert(resolution[4] == 'x');
        let k = resolution.index_of_first('x')->0;
        assert(k == 4) by {
            if k < 4 {
                assert(resolution[k] != 'x');
            }
        }
        reveal_with_fuel(decimal_value, 5);
        let w = resolution.take(4);
        let h = resolution.skip(5);
        assert(w =~= seq!['1', '2', '8', '0']);
        assert(h =~= seq!['7', '2', '0']);
        assert(w.drop_last() =~= seq!['1', '2', '8']);
        assert(w.drop_last().drop_last() =~= seq!['1', '2']);
        assert(w.drop_last().drop_last().drop_last() =~= seq!['1']);
        assert(decimal_value(w) == 1280);
        assert(h.drop_last() =~= seq!['7', '2']);
        assert(h.drop_last().drop_last() =~= seq!['7']);
        assert(decimal_value(h) == 720);
    }
    lemma_valid_iff_no_violation(p);
}

/// What an answer to a question for a timecode is worth: the answer trimmed
/// where that is a timecode, nothing where the question is to be asked again.
pub fn timecode_answer(answer: &str) -> (r: Option<String>)
    ensures
        match r {
            Some(text) => text@ == trimmed(answer@) && timecode_ms(trimmed(answer@)) is Ok,
            None => timecode_ms(trimmed(answer@)) is Err,
        },
{
    let text = trim(answer);
    match parse_timecode_ms(text.as_str()) {
        Ok(_) => Some(text),
        Err(_) => None,
    }
}

/// What an answer to a question that may be left open is worth: nothing
/// where it is blank, the answer trimmed otherwise.
pub fn optional_answer(answer: &str) -> (r: Option<String>)
    ensures
        match r {
            Some(text) => text@ == trimmed(answer@) && !is_blank(answer@),
            None => is_blank(answer@),
        },
{
    let text = trim(answer);
    if text.as_str().is_empty() {
        None
    } else {
        Some(text)
    }
}

/// What an answer to the question for the frame rate is worth: nothing where
/// it is blank, the number it writes once trimmed, or a refusal where it
/// writes none.
pub fn fps_answer(answer: &str) -> (r: Result<Option<u32>, WizardError>)
    ensures
        is_blank(answer@) ==> r == Ok::<Option<u32>, WizardError>(None),
        !is_blank(answer@) ==> match u32_value(trimmed(answer@)) {
            Some(fps) => r == Ok::<Option<u32>, WizardError>(Some(fps)),
            None => r == Err::<Option<u32>, WizardError>(WizardError::InvalidFps),
        },
{
    let text = trim(answer);
    if text.as_str().is_empty() {
        return Ok(None);
    }
    let chars = chars_of(text.as_str());
    assert(chars@.subrange(0, chars@.len() as int) == chars@);
    match parse_u32(&chars, 0, chars.len()) {
        Some(fps) => Ok(Some(fps)),
        None => Err(WizardError::InvalidFps),
    }
}

/// Whether an extension is `mp4`, in any mix of upper and lower case.
pub fn extension_is_mp4(extension: &str) -> (b: bool)
    ensures
        b == is_mp4(extension@),
{
    let chars = chars_of(extension);
    chars.len() == 3 && (chars[0] == 'm' || chars[0] == 'M') && (chars[1] == 'p' || chars[1]
        == 'P') && chars[2] == '4'
}

/// Whether no entry stands after one that its path comes before.
pub open spec fn sorted_by_path(entries: Seq<FolderEntryView>) -> bool {
    forall|i: int, j: int|
        0 <= i < j < entries.len() ==> !text_before(
            (#[trigger] entries[j]).path,
            (#[trigger] entries[i]).path,
        )
}

/// No entries make the empty multiset.
proof fn lemma_nothing_in_no_entries(entries: Seq<FolderEntryView>)
    requires
        entries.len() == 0,
    ensures
        entries.to_multiset() == Multiset::<FolderEntryView>::empty(),
{
    vstd::seq_lib::to_multiset_len(entries);
    vstd::multiset::lemma_multiset_empty_len(entries.to_multiset());
}

/// Puts the entries in the order of their paths, text by text. The entries
/// stay the same, each as often as before.
pub fn sort_entries_by_path(entries: &mut Vec<FolderEntry>)
    ensures
        entry_views(final(entries)@).to_multiset() == entry_views(old(entries)@).to_multiset(),
        sorted_by_path(entry_views(final(entries)@)),
{
    broadcast use vstd::multiset::group_multiset_axioms;

    let ghost all = entry_views(entries@).to_multiset();
    let mut sorted: Vec<FolderEntry> = Vec::new();
    proof {
        lemma_nothing_in_no_entries(entry_views(sorted@));
    }
    while entries.len() > 0
        invariant
            entry_views(entries@).to_multiset().add(entry_views(sorted@).to_multiset()) == all,
            sorted_by_path(entry_views(sorted@)),
        decreases entries.len(),
    {
        let ghost left = entry_views(entries@);
        let ghost done = entry_views(sorted@);
        let entry = entries.pop().unwrap();
        let mut k: usize = 0;
        while k < sorted.len() && !comes_before(entry.path.as_str(), sorted[k].path.as_str())
            invariant
                k <= sorted.len(),
                done == entry_views(sorted@),
                forall|j: int| 0 <= j < k ==> !text_before(entry@.path, (#[trigger] done[j]).path),
            decreases sorted.len() - k,
        {
            k = k + 1;
        }
        sorted.insert(k, entry);
        proof {
            assert(left == entry_views(entries@).push(entry@));
            vstd::seq_lib::to_multiset_build(entry_views(entries@), entry@);
            assert(entry_views(sorted@) == done.insert(k as int, entry@));
            vstd::seq_lib::to_multiset_insert(done, k as int, entry@);
            assert(entry_views(entries@).to_multiset().add(entry_views(sorted@).to_multiset())
                =~= all);
            let now = entry_views(sorted@);
            assert forall|i: int, j: int| 0 <= i < j < now.len() implies !text_before(
                (#[trigger] now[j]).path,
                (#[trigger] now[i]).path,
            ) by {
                if i == k {
                    // what follows the new entry stood at or after the place found
                    let after = done[j - 1];
                    let found = done[k as int];
                    if text_before(after.path, entry@.path) {
                        lemma_text_before_is_transitive(after.path, entry@.path, found.path);
                        lemma_text_before_is_asymmetric(entry@.path, found.path);
                    }
                } else if j == k {
                    assert(now[i] == done[i]);
                } else {
                    let a = if i < k { i } else { i - 1 };
                    let b = if j < k { j } else { j - 1 };
                    assert(now[i] == done[a] && now[j] == done[b]);
                }
            }
        }
    }
    proof {
        lemma_nothing_in_no_entries(entry_views(entries@));
    }
    *entries = sorted;
}

/// `rand`'s `SliceRandom::shuffle`, fed by `rand::thread_rng`, reorders the
/// clips in place by swapping them: the clips after the call are those before
/// it, each as often as before, in an order that nothing is claimed of.
/// `thread_rng` panics where the system's source of randomness cannot be
/// read, whatever the clips are. Trusted.
#[verifier::external_body]
fn shuffle_clips(clips: &mut Vec<Clip>)
    ensures
        clip_views(final(clips)@).to_multiset() == clip_views(old(clips)@).to_multiset(),
{
    clips.shuffle(&mut rand::thread_rng());
}

/// The project that a folder of videos gives.
///
/// Every entry whose extension is `mp4`, in any case, becomes a clip that
/// starts at zero and is answered by the stem of its file name. The clips
/// keep the order of the entries, or are shuffled where `shuffle` is set: then
/// they are the same clips in some order, drawn from the thread's random
/// generator, which panics where the system's source of randomness cannot be
/// read. The project has no intro, renders
/// to `render/blindtest.mp4` at 1280x720 and 30 frames per second, and gives
/// ten seconds to guess and five to reveal. The second result is the path
/// that the project is to be saved under.
pub fn quick_project(entries: &Vec<FolderEntry>, shuffle: bool) -> (r: Result<
    (Project, String),
    WizardError,
>)
    ensures
        folder_clips(entry_views(entries@), entries@.len()).len() == 0 ==> r == Err::<
            (Project, String),
            WizardError,
        >(WizardError::NoVideo),
        folder_clips(entry_views(entries@), entries@.len()).len() > 0 ==> {
            &&& r is Ok
            &&& r->Ok_0.1@ == "montage.json"@
            &&& r->Ok_0.0@.intro is None
            &&& r->Ok_0.0@.output == folder_output()
            &&& r->Ok_0.0@.timings == folder_timings()
            &&& !shuffle ==> r->Ok_0.0@.clips == folder_clips(
                entry_views(entries@),
                entries@.len(),
            )
            &&& r->Ok_0.0@.clips.to_multiset() == folder_clips(
                entry_views(entries@),
                entries@.len(),
            ).to_multiset()
        },
{
    let mut clips: Vec<Clip> = Vec::new();
    let mut i: usize = 0;
    while i < entries.len()
        invariant
            i <= entries.len(),
            clip_views(clips@) == folder_clips(entry_views(entries@), i as nat),
        decreases entries.len() - i,
    {
        let entry = &entries[i];
        let playable = match &entry.extension {
            Some(extension) => extension_is_mp4(extension.as_str()),
            None => false,
        };
        if playable {
            let answer = match &entry.stem {
                Some(stem) => stem.clone(),
                None => String::from_str("Unknown"),
            };
            clips.push(
                Clip { video: entry.path.clone(), start: String::from_str("00:00:00.000"), answer },
            );
        }
        i = i + 1;
    }
    if clips.len() == 0 {
        return Err(WizardError::NoVideo);
    }
    if shuffle {
        shuffle_clips(&mut clips);
    }
    let project = Project {
        intro: None,
        output: Output {
            path: String::from_str("render/blindtest.mp4"),
            resolution: Some(String::from_str("1280x720")),
            fps: Some(30),
        },
        timings: Timings {
            guess_duration: String::from_str("00:00:10.000"),
            reveal_duration: String::from_str("00:00:05.000"),
        },
        clips,
    };
    Ok((project, String::from_str("montage.json")))
}

} // verus!
