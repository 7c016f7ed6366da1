use blindtest::ffmpeg_command::{build_filter_complex, build_filter_graph};
use blindtest::filter_graph::{
    chain_string, escape_drawtext_text, filter_string, label_string, labels_string, node_string,
    render_filter_graph, Filter, Label, Node, Role, Stream,
};
use blindtest::plan::{ClipPlan, IntroPlan, RenderPlan};
use std::collections::HashMap;

#[test]
fn quote_is_escaped_with_a_backslash() {
    assert_eq!(
        escape_drawtext_text("Guns N' Roses - Live"),
        "Guns N\\' Roses - Live"
    );
    assert_eq!(escape_drawtext_text("'"), "\\'");
    assert_eq!(escape_drawtext_text("''"), "\\'\\'");
}

#[test]
fn backslash_is_doubled() {
    assert_eq!(escape_drawtext_text("AC\\DC"), "AC\\\\DC");
    assert_eq!(escape_drawtext_text("\\"), "\\\\");
    assert_eq!(escape_drawtext_text("\\'"), "\\\\\\'");
    assert_eq!(escape_drawtext_text("\\\\"), "\\\\\\\\");
}

#[test]
fn nothing_else_is_escaped() {
    for text in ["", "plain", "a:b,c;d=e[f]%{g}", "\"double\"", "é😀\n"] {
        assert_eq!(escape_drawtext_text(text), text);
    }
}

#[test]
fn escaping_is_what_two_replacements_give() {
    for text in ["a'b\\c", "\\'", "'\\", "''\\\\''", "x", "\\n'"] {
        assert_eq!(
            escape_drawtext_text(text),
            text.replace('\\', r"\\").replace('\'', r"\'")
        );
    }
}

fn read_back(escaped: &str) -> Option<String> {
    let mut out = String::new();
    let mut chars = escaped.chars();
    while let Some(c) = chars.next() {
        match c {
            '\\' => out.push(chars.next()?),
            '\'' => return None,
            other => out.push(other),
        }
    }
    Some(out)
}

#[test]
fn escaped_text_reads_back_as_the_text() {
    for text in [
        "",
        "Guns N' Roses - Live",
        "AC\\DC",
        "\\'",
        "'\\",
        "a\\\\'b''",
        "':x=0:text='pwned",
        "\\",
    ] {
        assert_eq!(read_back(&escape_drawtext_text(text)), Some(text.to_string()));
    }
}

#[test]
fn labels_as_text() {
    let v = Stream::Video;
    let a = Stream::Audio;
    let cases = [
        (Label::Input { index: 0, stream: v }, "[0:v]"),
        (Label::Input { index: 12, stream: a }, "[12:a]"),
        (Label::Intro { stream: v }, "[vintro]"),
        (Label::Intro { stream: a }, "[aintro]"),
        (Label::Output { stream: v }, "[vout]"),
        (Label::Output { stream: a }, "[aout]"),
        (Label::Clip { clip: 3, role: Role::Whole, stream: v }, "[v3all]"),
        (Label::Clip { clip: 3, role: Role::Whole, stream: a }, "[a3all]"),
        (Label::Clip { clip: 3, role: Role::GuessSource, stream: a }, "[a3gsrc]"),
        (Label::Clip { clip: 3, role: Role::RevealSource, stream: a }, "[a3rsrc]"),
        (Label::Clip { clip: 3, role: Role::Guess, stream: v }, "[v3g]"),
        (Label::Clip { clip: 3, role: Role::Guess, stream: a }, "[a3g]"),
        (Label::Clip { clip: 3, role: Role::Reveal, stream: v }, "[v3r]"),
        (Label::Clip { clip: 3, role: Role::Reveal, stream: a }, "[a3r]"),
        (Label::Clip { clip: 30, role: Role::Joined, stream: v }, "[v30]"),
        (Label::Clip { clip: 30, role: Role::Joined, stream: a }, "[a30]"),
    ];
    for (label, text) in cases {
        assert_eq!(label_string(label), text);
    }
    assert_eq!(
        labels_string(&cases.iter().take(3).map(|c| c.0).collect()),
        "[0:v][12:a][vintro]"
    );
    assert_eq!(labels_string(&vec![]), "");
}

#[test]
fn no_two_labels_are_written_alike() {
    let mut all = vec![];
    for stream in [Stream::Video, Stream::Audio] {
        all.push(Label::Intro { stream });
        all.push(Label::Output { stream });
        for n in [0usize, 1, 2, 10, 11, 12, 100, 101, 110, 111] {
            all.push(Label::Input { index: n, stream });
            for role in [
                Role::Whole,
                Role::GuessSource,
                Role::RevealSource,
                Role::Guess,
                Role::Reveal,
                Role::Joined,
            ] {
                all.push(Label::Clip { clip: n, role, stream });
            }
        }
    }
    let mut seen: HashMap<String, Label> = HashMap::new();
    for label in all {
        if let Some(other) = seen.insert(label_string(label), label) {
            panic!("{other:?} and {label:?} are written alike");
        }
    }
}

#[test]
fn filters_as_text() {
    let cases = [
        (Filter::Trim { start_ms: 1_000, duration_ms: 15_000 }, "trim=start=1.000:duration=15.000"),
        (Filter::TrimTo { duration_ms: 3_000 }, "trim=duration=3.000"),
        (Filter::SetPts, "setpts=PTS-STARTPTS"),
        (Filter::Scale { width: 1280, height: 720 }, "scale=1280:720"),
        (Filter::Fps { fps: 30 }, "fps=30"),
        (Filter::SetSar, "setsar=1"),
        (Filter::AudioTrim { start_ms: 10_000, duration_ms: 5_000 }, "atrim=start=10.000:duration=5.000"),
        (Filter::AudioHead { end_ms: 10_000 }, "atrim=0:10.000"),
        (Filter::AudioSetPts, "asetpts=PTS-STARTPTS"),
        (Filter::AudioSplit, "asplit=2"),
        (
            Filter::Black { width: 1280, height: 720, fps: 30, duration_ms: 10_000 },
            "color=c=black:s=1280x720:r=30:d=10.000",
        ),
        (
            Filter::Title { text: "Blind 'Test'".into() },
            "drawtext=text='Blind \\'Test\\'':x=(w-text_w)/2:y=(h-text_h)/2:fontsize=72:fontcolor=white:borderw=4",
        ),
        (
            Filter::Countdown { from_ms: 10_000 },
            "drawtext=text='%{eif\\:max(0\\,ceil(10.000-t))\\:d}':x=(w-text_w)/2:y=(h-text_h)/2:fontsize=96:fontcolor=white:borderw=4",
        ),
        (
            Filter::Answer { text: "AC\\DC".into() },
            "drawtext=text='AC\\\\DC':x=(w-text_w)/2:y=h-(text_h*2):fontsize=48:fontcolor=white:borderw=3",
        ),
        (Filter::Concat { segments: 2 }, "concat=n=2:v=1:a=1"),
    ];
    for (filter, text) in &cases {
        assert_eq!(filter_string(filter), *text);
    }
    let chain: Vec<Filter> = cases.iter().take(3).map(|c| c.0.clone()).collect();
    assert_eq!(
        chain_string(&chain),
        "trim=start=1.000:duration=15.000,trim=duration=3.000,setpts=PTS-STARTPTS"
    );
    assert_eq!(chain_string(&vec![]), "");
}

#[test]
fn nodes_and_graphs_as_text() {
    let split = Node {
        inputs: vec![Label::Clip { clip: 0, role: Role::Whole, stream: Stream::Audio }],
        chain: vec![Filter::AudioSplit],
        outputs: vec![
            Label::Clip { clip: 0, role: Role::GuessSource, stream: Stream::Audio },
            Label::Clip { clip: 0, role: Role::RevealSource, stream: Stream::Audio },
        ],
    };
    let source = Node {
        inputs: vec![],
        chain: vec![
            Filter::Black { width: 2, height: 1, fps: 5, duration_ms: 1 },
            Filter::Countdown { from_ms: 1 },
        ],
        outputs: vec![Label::Clip { clip: 0, role: Role::Guess, stream: Stream::Video }],
    };
    assert_eq!(node_string(&split), "[a0all]asplit=2[a0gsrc][a0rsrc]");
    assert!(node_string(&source).starts_with("color=c=black:s=2x1:r=5:d=0.001,drawtext="));
    assert!(node_string(&source).ends_with("[v0g]"));
    let both = vec![split.clone(), source.clone()];
    assert_eq!(
        render_filter_graph(&both),
        format!("{};{}", node_string(&split), node_string(&source))
    );
    assert_eq!(render_filter_graph(&vec![]), "");
    assert_eq!(render_filter_graph(&vec![split.clone()]), node_string(&split));
}

fn plan(clips: usize, with_intro: bool) -> RenderPlan {
    RenderPlan {
        width: 1280,
        height: 720,
        fps: 25,
        guess_ms: 8_000,
        reveal_ms: 4_000,
        intro: if with_intro {
            Some(IntroPlan {
                background: "bg.png".into(),
                title: "Title".into(),
                music: "music.mp3".into(),
                duration_ms: 2_500,
            })
        } else {
            None
        },
        clips: (0..clips)
            .map(|n| ClipPlan {
                video: format!("{n}.mp4"),
                start_ms: 1_000 * n as u32,
                answer: format!("it's {n}"),
            })
            .collect(),
        output: "out.mp4".into(),
    }
}

#[test]
fn every_label_is_made_once_and_read_once() {
    for (clips, with_intro) in [(0usize, false), (0, true), (1, false), (3, true), (12, true)] {
        let graph = build_filter_graph(&plan(clips, with_intro));
        let mut made: HashMap<Label, usize> = HashMap::new();
        let mut read: HashMap<Label, usize> = HashMap::new();
        for (at, node) in graph.iter().enumerate() {
            for label in &node.inputs {
                assert!(!matches!(label, Label::Output { .. }));
                assert!(read.insert(*label, at).is_none(), "{label:?} is read twice");
                match label {
                    Label::Input { .. } => {}
                    other => assert!(made[other] < at, "{other:?} is read before it is made"),
                }
            }
            for label in &node.outputs {
                assert!(!matches!(label, Label::Input { .. }));
                assert!(made.insert(*label, at).is_none(), "{label:?} is made twice");
            }
        }
        for label in made.keys() {
            match label {
                Label::Output { .. } => assert!(!read.contains_key(label)),
                other => assert!(read.contains_key(other), "{other:?} is never read"),
            }
        }
        let inputs = read
            .keys()
            .filter(|l| matches!(l, Label::Input { .. }))
            .count();
        assert_eq!(inputs, 2 * clips + if with_intro { 2 } else { 0 });
        assert_eq!(
            made.keys()
                .filter(|l| matches!(l, Label::Output { .. }))
                .count(),
            2
        );
    }
}

#[test]
fn every_concat_is_fed_a_pair_for_each_segment() {
    let graph = build_filter_graph(&plan(4, true));
    let mut concats = 0;
    for node in &graph {
        for filter in &node.chain {
            if let Filter::Concat { segments } = filter {
                concats += 1;
                assert_eq!(node.inputs.len(), 2 * segments);
                assert_eq!(node.outputs.len(), 2);
            }
        }
    }
    assert_eq!(concats, 5);
}

#[test]
fn only_the_audio_split_makes_two_streams_from_one() {
    let graph = build_filter_graph(&plan(3, true));
    for node in &graph {
        if node.inputs.len() == 1 && node.outputs.len() == 2 {
            assert_eq!(node.chain, vec![Filter::AudioSplit]);
        }
        if node.chain == vec![Filter::AudioSplit] {
            assert_eq!((node.inputs.len(), node.outputs.len()), (1, 2));
        }
    }
}

#[test]
fn every_answer_is_drawn_escaped() {
    let p = plan(3, true);
    let text = build_filter_complex(&p);
    for n in 0..3 {
        assert!(text.contains(&format!("drawtext=text='it\\'s {n}':")));
    }
    assert!(text.contains("drawtext=text='Title':"));
}

#[test]
fn hand_made_plans_are_built_without_limits() {
    let mut p = plan(1, false);
    p.guess_ms = u32::MAX;
    p.reveal_ms = u32::MAX;
    p.clips[0].start_ms = u32::MAX;
    p.width = u32::MAX;
    p.height = 0;
    p.fps = 0;
    let text = build_filter_complex(&p);
    assert!(text.starts_with(
        "[0:v]trim=start=4294967.295:duration=8589934.590,setpts=PTS-STARTPTS,scale=4294967295:0,fps=0,setsar=1[v0all];"
    ));
}
