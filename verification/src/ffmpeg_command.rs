//! The compiler: from a project to the one encoder command that renders it.
//!
//! The command's filter graph has, in this order: the intro's two nodes if
//! there is an intro, eight nodes for each clip in clip order, and one last
//! node that plays the intro and the clips one after the other.

use vstd::prelude::*;
use vstd::std_specs::cmp::PartialEqSpecImpl;
use vstd::string::*;
use crate::error::CompileError;
use crate::filter_graph::{
    chain_text, escape_drawtext, filter_text, filter_texts, graph_text, label_string, label_text,
    filter_views, labels_text, lemma_escape_reads_back, node_text, node_texts, node_views,
    read_drawtext,
    render_filter_graph, Filter, FilterView, Label, Node, NodeView, Role, Stream,
};
use crate::model::{ClipView, Project, ProjectView};
use crate::plan::{
    first_bad_start, plan_defect, plan_of, resolution_of, resolve, ClipPlanView,
    IntroPlan, RenderPlan, RenderPlanView,
};
use crate::text::{
    decimal, lemma_join_ends_with_last, lemma_occurs_between,
    lemma_occurs_in_transitive, lemma_part_occurs_in_join, occurs_in, string_views, trimmed,
};
use crate::timecode::{lemma_timecode_exact, timecode_ms};
use crate::validate::{first_violation, is_resolution_text, lemma_valid_iff_no_violation};
use crate::wiring::{concats_are_fed, lemma_graph_is_well_wired, well_wired};

verus! {

/// A program and the arguments to run it with. Two commands are equal where
/// they have the same program and the same arguments in the same order.
#[derive(Debug, Clone, Eq)]
pub struct CommandSpec {
    /// The program's name.
    pub program: String,
    /// Its arguments, in order.
    pub args: Vec<String>,
}

/// A [`CommandSpec`] as plain sequences of characters.
pub struct CommandSpecView {
    pub program: Seq<char>,
    pub args: Seq<Seq<char>>,
}

impl View for CommandSpec {
    type V = CommandSpecView;

    open spec fn view(&self) -> CommandSpecView {
        CommandSpecView { program: self.program@, args: string_views(self.args@) }
    }
}

impl PartialEq for CommandSpec {
    fn eq(&self, other: &CommandSpec) -> (r: bool) {
        if !(self.program == other.program) {
            return false;
        }
        if self.args.len() != other.args.len() {
            proof {
                assert(self@.args.len() != other@.args.len());
            }
            return false;
        }
        let mut i: usize = 0;
        while i < self.args.len()
            invariant
                i <= self.args.len() == other.args.len(),
                self.program@ == other.program@,
                forall|k: int| 0 <= k < i ==> self.args@[k]@ == other.args@[k]@,
            decreases self.args.len() - i,
        {
            if !(self.args[i] == other.args[i]) {
                proof {
                    assert(self@.args[i as int] != other@.args[i as int]);
                }
                return false;
            }
            i = i + 1;
        }
        proof {
            assert(self@.args =~= other@.args);
        }
        true
    }
}

impl PartialEqSpecImpl for CommandSpec {
    open spec fn obeys_eq_spec() -> bool {
        true
    }

    open spec fn eq_spec(&self, other: &CommandSpec) -> bool {
        self@ == other@
    }
}

/// The number of the encoder input that holds the first clip: the intro, if
/// there is one, takes inputs 0 and 1.
pub open spec fn clip_base(plan: RenderPlanView) -> nat {
    if plan.intro is Some {
        2
    } else {
        0
    }
}

/// The number of segments that the last node plays: one for each clip, and
/// one more for the intro.
pub open spec fn segment_count(plan: RenderPlanView) -> nat {
    if plan.intro is Some {
        plan.clips.len() + 1
    } else {
        plan.clips.len()
    }
}

/// The two nodes of an intro: the looped image scaled, cut to the duration and
/// titled; the music cut to the duration.
pub open spec fn intro_nodes(plan: RenderPlanView) -> Seq<NodeView> {
    match plan.intro {
        None => Seq::empty(),
        Some(intro) => seq![
            NodeView {
                inputs: seq![Label::Input { index: 0, stream: Stream::Video }],
                chain: seq![
                    FilterView::Scale { width: plan.width, height: plan.height },
                    FilterView::Fps { fps: plan.fps },
                    FilterView::SetSar,
                    FilterView::TrimTo { duration_ms: intro.duration_ms as u64 },
                    FilterView::SetPts,
                    FilterView::Title { text: intro.title },
                ],
                outputs: seq![Label::Intro { stream: Stream::Video }],
            },
            NodeView {
                inputs: seq![Label::Input { index: 1, stream: Stream::Audio }],
                chain: seq![
                    FilterView::AudioHead { end_ms: intro.duration_ms as u64 },
                    FilterView::AudioSetPts,
                ],
                outputs: seq![Label::Intro { stream: Stream::Audio }],
            },
        ],
    }
}

/// The label of a stream of clip `i`.
pub open spec fn clip_label(i: int, role: Role, stream: Stream) -> Label {
    Label::Clip { clip: i as usize, role, stream }
}

/// The eight nodes of clip `i`: video and audio cut to the guess and reveal
/// window; the audio split in two; the guess phase as a black screen with a
/// countdown and the first copy's head; the reveal phase as the rest of the
/// video with the answer and the rest of the second copy; guess then reveal as
/// one segment.
pub open spec fn clip_nodes(plan: RenderPlanView, i: int) -> Seq<NodeView>
    recommends
        0 <= i < plan.clips.len(),
{
    let clip = plan.clips[i];
    let input = (clip_base(plan) + i) as usize;
    let start = clip.start_ms as u64;
    let guess = plan.guess_ms as u64;
    let reveal = plan.reveal_ms as u64;
    let total = (plan.guess_ms + plan.reveal_ms) as u64;
    seq![
        NodeView {
            inputs: seq![Label::Input { index: input, stream: Stream::Video }],
            chain: seq![
                FilterView::Trim { start_ms: start, duration_ms: total },
                FilterView::SetPts,
                FilterView::Scale { width: plan.width, height: plan.height },
                FilterView::Fps { fps: plan.fps },
                FilterView::SetSar,
            ],
            outputs: seq![clip_label(i, Role::Whole, Stream::Video)],
        },
        NodeView {
            inputs: seq![Label::Input { index: input, stream: Stream::Audio }],
            chain: seq![
                FilterView::AudioTrim { start_ms: start, duration_ms: total },
                FilterView::AudioSetPts,
            ],
            outputs: seq![clip_label(i, Role::Whole, Stream::Audio)],
        },
        NodeView {
            inputs: seq![clip_label(i, Role::Whole, Stream::Audio)],
            chain: seq![FilterView::AudioSplit],
            outputs: seq![
                clip_label(i, Role::GuessSource, Stream::Audio),
                clip_label(i, Role::RevealSource, Stream::Audio),
            ],
        },
        NodeView {
            inputs: Seq::empty(),
            chain: seq![
                FilterView::Black {
                    width: plan.width,
                    height: plan.height,
                    fps: plan.fps,
                    duration_ms: guess,
                },
                FilterView::Countdown { from_ms: guess },
            ],
            outputs: seq![clip_label(i, Role::Guess, Stream::Video)],
        },
        NodeView {
            inputs: seq![clip_label(i, Role::GuessSource, Stream::Audio)],
            chain: seq![FilterView::AudioHead { end_ms: guess }, FilterView::AudioSetPts],
            outputs: seq![clip_label(i, Role::Guess, Stream::Audio)],
        },
        NodeView {
            inputs: seq![clip_label(i, Role::Whole, Stream::Video)],
            chain: seq![
                FilterView::Trim { start_ms: guess, duration_ms: reveal },
                FilterView::SetPts,
                FilterView::Answer { text: clip.answer },
            ],
            outputs: seq![clip_label(i, Role::Reveal, Stream::Video)],
        },
        NodeView {
            inputs: seq![clip_label(i, Role::RevealSource, Stream::Audio)],
            chain: seq![
                FilterView::AudioTrim { start_ms: guess, duration_ms: reveal },
                FilterView::AudioSetPts,
            ],
            outputs: seq![clip_label(i, Role::Reveal, Stream::Audio)],
        },
        NodeView {
            inputs: seq![
                clip_label(i, Role::Guess, Stream::Video),
                clip_label(i, Role::Guess, Stream::Audio),
                clip_label(i, Role::Reveal, Stream::Video),
                clip_label(i, Role::Reveal, Stream::Audio),
            ],
            chain: seq![FilterView::Concat { segments: 2 }],
            outputs: seq![
                clip_label(i, Role::Joined, Stream::Video),
                clip_label(i, Role::Joined, Stream::Audio),
            ],
        },
    ]
}

/// The nodes of the first `n` clips, clip after clip.
pub open spec fn clips_nodes(plan: RenderPlanView, n: nat) -> Seq<NodeView>
    recommends
        n <= plan.clips.len(),
    decreases n,
{
    if n == 0 {
        Seq::empty()
    } else {
        clips_nodes(plan, (n - 1) as nat) + clip_nodes(plan, n - 1)
    }
}

/// The finished segments of the first `n` clips: video then audio, clip after clip.
pub open spec fn clip_segments(n: nat) -> Seq<Label>
    decreases n,
{
    if n == 0 {
        Seq::empty()
    } else {
        clip_segments((n - 1) as nat).push(clip_label(n - 1, Role::Joined, Stream::Video)).push(
            clip_label(n - 1, Role::Joined, Stream::Audio),
        )
    }
}

/// The streams that the last node plays in order: the intro's, if any, then
/// each clip's.
pub open spec fn final_inputs(plan: RenderPlanView) -> Seq<Label> {
    if plan.intro is Some {
        seq![Label::Intro { stream: Stream::Video }, Label::Intro { stream: Stream::Audio }]
            + clip_segments(plan.clips.len())
    } else {
        clip_segments(plan.clips.len())
    }
}

/// The last node: every segment played in order into the one output video
/// and the one output audio.
pub open spec fn final_node(plan: RenderPlanView) -> NodeView {
    NodeView {
        inputs: final_inputs(plan),
        chain: seq![FilterView::Concat { segments: segment_count(plan) as usize }],
        outputs: seq![
            Label::Output { stream: Stream::Video },
            Label::Output { stream: Stream::Audio },
        ],
    }
}

/// The whole graph of a plan.
pub open spec fn filter_graph(plan: RenderPlanView) -> Seq<NodeView> {
    intro_nodes(plan) + clips_nodes(plan, plan.clips.len()) + seq![final_node(plan)]
}

/// The arguments that declare the intro's inputs: the image, looped, then the music.
pub open spec fn intro_args(plan: RenderPlanView) -> Seq<Seq<char>> {
    match plan.intro {
        None => Seq::empty(),
        Some(intro) => seq!["-loop"@, "1"@, "-i"@, intro.background, "-i"@, intro.music],
    }
}

/// The arguments that declare the first `n` clips as inputs, in clip order.
pub open spec fn clip_args(clips: Seq<ClipPlanView>, n: nat) -> Seq<Seq<char>>
    recommends
        n <= clips.len(),
    decreases n,
{
    if n == 0 {
        Seq::empty()
    } else {
        clip_args(clips, (n - 1) as nat).push("-i"@).push(clips[n - 1].video)
    }
}

/// What follows the inputs: the graph, the mapping of its two outputs, the
/// encoders, the pixel format and the destination.
pub open spec fn output_args(plan: RenderPlanView, graph: Seq<char>) -> Seq<Seq<char>> {
    seq![
        "-filter_complex"@,
        graph,
        "-map"@,
        label_text(Label::Output { stream: Stream::Video }),
        "-map"@,
        label_text(Label::Output { stream: Stream::Audio }),
        "-c:v"@,
        "libx264"@,
        "-pix_fmt"@,
        "yuv420p"@,
        "-c:a"@,
        "aac"@,
        plan.output,
    ]
}

/// The argument vector of a plan: overwrite flag, intro inputs, clip inputs,
/// then the graph and what follows it.
pub open spec fn command_args(plan: RenderPlanView) -> Seq<Seq<char>> {
    seq!["-y"@] + intro_args(plan) + clip_args(plan.clips, plan.clips.len()) + output_args(
        plan,
        graph_text(filter_graph(plan)),
    )
}

/// The command of a plan.
pub open spec fn command_of(plan: RenderPlanView) -> CommandSpecView {
    CommandSpecView { program: "ffmpeg"@, args: command_args(plan) }
}

/// What compiling a project gives: the command of its plan, or the first
/// reason why it has no plan.
pub open spec fn compiled(p: ProjectView) -> Result<CommandSpecView, CompileError> {
    match plan_defect(p) {
        Some(e) => Err(e),
        None => Ok(command_of(plan_of(p))),
    }
}

/// Whether `r` is what compiling `p` gives: the command of its plan, the same
/// character for character, or the first reason why it has no plan.
pub open spec fn compiles_to(p: ProjectView, r: Result<CommandSpec, CompileError>) -> bool {
    match compiled(p) {
        Ok(command) => r is Ok && r->Ok_0@ == command,
        Err(e) => r == Err::<CommandSpec, CompileError>(e),
    }
}

/// Compiling the same project twice gives the same outcome: two commands
/// with the same program and the same arguments, character for character, or
/// the same refusal.
pub proof fn lemma_compile_is_deterministic(
    p: Project,
    q: Project,
    first: Result<CommandSpec, CompileError>,
    second: Result<CommandSpec, CompileError>,
)
    requires
        p@ == q@,
        compiles_to(p@, first),
        compiles_to(q@, second),
    ensures
        first is Ok <==> second is Ok,
        first is Ok ==> first->Ok_0@.program == second->Ok_0@.program && first->Ok_0@.args
            == second->Ok_0@.args,
        first is Err ==> first->Err_0 == second->Err_0,
{
}

/// A project that breaks no rule compiles, into a command whose plan has a
/// resolution, a frame rate and durations above zero.
pub proof fn lemma_valid_project_compiles(p: ProjectView)
    requires
        first_violation(p) is None,
    ensures
        compiled(p) is Ok,
        plan_of(p).width > 0 && plan_of(p).height > 0 && plan_of(p).fps > 0,
        plan_of(p).guess_ms > 0 && plan_of(p).reveal_ms > 0,
        plan_of(p).intro is Some ==> plan_of(p).intro->0.duration_ms > 0,
        plan_of(p).clips.len() > 0,
{
    lemma_valid_iff_no_violation(p);
    lemma_timecode_exact(p.timings.guess_duration);
    lemma_timecode_exact(p.timings.reveal_duration);
    if p.intro is Some {
        lemma_timecode_exact(p.intro->0.duration);
    }
    if p.output.resolution is Some {
        lemma_resolution_text_parses(p.output.resolution->0);
    }
    lemma_no_bad_start(p.clips, p.clips.len());
}

/// The validator and the compiler read a resolution alike: a text has the
/// shape `<digits>x<digits>` with both numbers above zero exactly where it
/// denotes a resolution.
pub proof fn lemma_resolution_text_parses(s: Seq<char>)
    ensures
        is_resolution_text(s) <==> resolution_of(s) is Ok,
{
}

/// Where every one of the first `n` clips starts at a timecode, none of
/// them has a bad start.
proof fn lemma_no_bad_start(clips: Seq<ClipView>, n: nat)
    requires
        n <= clips.len(),
        forall|i: int| 0 <= i < n ==> timecode_ms((#[trigger] clips[i]).start) is Ok,
    ensures
        first_bad_start(clips, n) is None,
    decreases n,
{
    if n > 0 {
        lemma_no_bad_start(clips, (n - 1) as nat);
    }
}

/// The nodes of the first `n` clips are eight for each clip.
pub proof fn lemma_clips_nodes_len(plan: RenderPlanView, n: nat)
    ensures
        clips_nodes(plan, n).len() == 8 * n,
    decreases n,
{
    if n > 0 {
        lemma_clips_nodes_len(plan, (n - 1) as nat);
    }
}

/// Node `k` of clip `i` stands in the nodes of the first `n` clips at
/// position `8 * i + k`.
pub proof fn lemma_clips_nodes_index(plan: RenderPlanView, n: nat, i: int, k: int)
    requires
        0 <= i < n,
        0 <= k < 8,
    ensures
        clips_nodes(plan, n).len() == 8 * n,
        clips_nodes(plan, n)[8 * i + k] == clip_nodes(plan, i)[k],
    decreases n,
{
    lemma_clips_nodes_len(plan, n);
    lemma_clips_nodes_len(plan, (n - 1) as nat);
    if i < n - 1 {
        lemma_clips_nodes_index(plan, (n - 1) as nat, i, k);
    }
}

/// Where each node of a graph stands: the intro's nodes first, then the
/// eight nodes of each clip in clip order, then the last node.
pub proof fn lemma_graph_layout(plan: RenderPlanView)
    ensures
        filter_graph(plan).len() == clip_base(plan) + 8 * plan.clips.len() + 1,
        intro_nodes(plan).len() == clip_base(plan),
        forall|j: int|
            0 <= j < clip_base(plan) ==> #[trigger] filter_graph(plan)[j] == intro_nodes(plan)[j],
        forall|i: int, k: int|
            0 <= i < plan.clips.len() && 0 <= k < 8 ==> filter_graph(plan)[clip_base(plan) + 8 * i
                + k] == #[trigger] clip_nodes(plan, i)[k],
        filter_graph(plan).last() == final_node(plan),
{
    let n = plan.clips.len();
    lemma_clips_nodes_len(plan, n);
    assert forall|i: int, k: int| 0 <= i < n && 0 <= k < 8 implies filter_graph(plan)[clip_base(
        plan,
    ) + 8 * i + k] == #[trigger] clip_nodes(plan, i)[k] by {
        lemma_clips_nodes_index(plan, n, i, k);
    }
}

/// The text of each filter of each node occurs in the text of the graph.
pub proof fn lemma_filter_occurs_in_graph(graph: Seq<NodeView>, j: int, f: int)
    requires
        0 <= j < graph.len(),
        0 <= f < graph[j].chain.len(),
    ensures
        occurs_in(filter_text(graph[j].chain[f]), graph_text(graph)),
{
    let node = graph[j];
    lemma_part_occurs_in_join(filter_texts(node.chain), ","@, f);
    lemma_occurs_between(labels_text(node.inputs), chain_text(node.chain), labels_text(node.outputs));
    lemma_occurs_in_transitive(filter_text(node.chain[f]), chain_text(node.chain), node_text(node));
    lemma_part_occurs_in_join(node_texts(graph), ";"@, j);
    lemma_occurs_in_transitive(filter_text(node.chain[f]), node_text(node), graph_text(graph));
}

/// The answer of every clip appears in the graph text between the quotes of
/// a drawn text, trimmed and escaped, and reads back as the trimmed answer
/// whatever quotes and backslashes it holds.
pub proof fn lemma_answer_is_drawn_escaped(p: ProjectView, i: int)
    requires
        plan_defect(p) is None,
        0 <= i < p.clips.len(),
    ensures
        occurs_in(
            "drawtext=text='"@ + escape_drawtext(trimmed(p.clips[i].answer)) + "'"@,
            graph_text(filter_graph(plan_of(p))),
        ),
        read_drawtext(escape_drawtext(trimmed(p.clips[i].answer))) == Some(
            trimmed(p.clips[i].answer),
        ),
{
    let plan = plan_of(p);
    let answer = trimmed(p.clips[i].answer);
    let graph = filter_graph(plan);
    let j = clip_base(plan) + 8 * i + 5;
    lemma_graph_layout(plan);
    assert(graph[j] == clip_nodes(plan, i)[5]);
    assert(graph[j].chain[2] == FilterView::Answer { text: answer });
    lemma_filter_occurs_in_graph(graph, j, 2);
    let tail = "':x=(w-text_w)/2:y=h-(text_h*2):fontsize=48:fontcolor=white:borderw=3"@;
    let needle = "drawtext=text='"@ + escape_drawtext(answer) + "'"@;
    reveal_strlit("':x=(w-text_w)/2:y=h-(text_h*2):fontsize=48:fontcolor=white:borderw=3");
    reveal_strlit("'");
    assert(tail == "'"@ + tail.skip(1));
    lemma_occurs_between(Seq::empty(), needle, tail.skip(1));
    assert(Seq::<char>::empty() + needle + tail.skip(1) == filter_text(graph[j].chain[2]));
    lemma_occurs_in_transitive(needle, filter_text(graph[j].chain[2]), graph_text(graph));
    lemma_escape_reads_back(answer);
}

/// The title of an intro appears in the graph text between the quotes of a
/// drawn text, trimmed and escaped, and reads back as the trimmed title.
pub proof fn lemma_title_is_drawn_escaped(p: ProjectView)
    requires
        plan_defect(p) is None,
        p.intro is Some,
    ensures
        occurs_in(
            "drawtext=text='"@ + escape_drawtext(trimmed(p.intro->0.title)) + "'"@,
            graph_text(filter_graph(plan_of(p))),
        ),
        read_drawtext(escape_drawtext(trimmed(p.intro->0.title))) == Some(
            trimmed(p.intro->0.title),
        ),
{
    let plan = plan_of(p);
    let title = trimmed(p.intro->0.title);
    let graph = filter_graph(plan);
    lemma_graph_layout(plan);
    assert(graph[0] == intro_nodes(plan)[0]);
    assert(graph[0].chain[5] == FilterView::Title { text: title });
    lemma_filter_occurs_in_graph(graph, 0, 5);
    let tail = "':x=(w-text_w)/2:y=(h-text_h)/2:fontsize=72:fontcolor=white:borderw=4"@;
    let needle = "drawtext=text='"@ + escape_drawtext(title) + "'"@;
    reveal_strlit("':x=(w-text_w)/2:y=(h-text_h)/2:fontsize=72:fontcolor=white:borderw=4");
    reveal_strlit("'");
    assert(tail == "'"@ + tail.skip(1));
    lemma_occurs_between(Seq::empty(), needle, tail.skip(1));
    assert(Seq::<char>::empty() + needle + tail.skip(1) == filter_text(graph[0].chain[5]));
    lemma_occurs_in_transitive(needle, filter_text(graph[0].chain[5]), graph_text(graph));
    lemma_escape_reads_back(title);
}

/// The finished segments of the first `n` clips are two streams for each clip.
pub proof fn lemma_clip_segments_len(n: nat)
    ensures
        clip_segments(n).len() == 2 * n,
    decreases n,
{
    if n > 0 {
        lemma_clip_segments_len((n - 1) as nat);
    }
}

/// The graph of a project with N clips ends in a node that plays N segments
/// where there is no intro and N + 1 where there is one, reading one video and
/// one audio stream for each segment and making the two output streams.
pub proof fn lemma_final_concat_count(p: ProjectView)
    requires
        plan_defect(p) is None,
    ensures
        filter_graph(plan_of(p)).len() == clip_base(plan_of(p)) + 8 * p.clips.len() + 1,
        filter_graph(plan_of(p)).last() == final_node(plan_of(p)),
        p.intro is None ==> final_node(plan_of(p)).chain == seq![
            (FilterView::Concat { segments: p.clips.len() as usize }),
        ] && final_node(plan_of(p)).inputs.len() == 2 * p.clips.len(),
        p.intro is Some ==> final_node(plan_of(p)).chain == seq![
            (FilterView::Concat { segments: (p.clips.len() + 1) as usize }),
        ] && final_node(plan_of(p)).inputs.len() == 2 * (p.clips.len() + 1),
        final_node(plan_of(p)).outputs == seq![
            (Label::Output { stream: Stream::Video }),
            (Label::Output { stream: Stream::Audio }),
        ],
{
    let plan = plan_of(p);
    lemma_clips_nodes_len(plan, plan.clips.len());
    lemma_clip_segments_len(plan.clips.len());
}

/// The text of the graph of a project with N clips, N within the machine's
/// word, ends with the last node's `concat=n=N:v=1:a=1[vout][aout]`, where N
/// counts the intro too if there is one.
pub proof fn lemma_graph_text_ends_with_count(p: ProjectView)
    requires
        plan_defect(p) is None,
        p.clips.len() < usize::MAX,
    ensures
        ("concat=n="@ + decimal(segment_count(plan_of(p))) + ":v=1:a=1[vout][aout]"@).is_suffix_of(
            graph_text(filter_graph(plan_of(p))),
        ),
        p.intro is None ==> segment_count(plan_of(p)) == p.clips.len(),
        p.intro is Some ==> segment_count(plan_of(p)) == p.clips.len() + 1,
{
    let plan = plan_of(p);
    let graph = filter_graph(plan);
    let last = final_node(plan);
    let count = segment_count(plan);
    lemma_final_concat_count(p);
    lemma_join_ends_with_last(node_texts(graph), ";"@);
    assert(node_texts(graph).last() == node_text(last));
    let concat = FilterView::Concat { segments: count as usize };
    assert(filter_texts(last.chain) == seq![filter_text(concat)]);
    assert(chain_text(last.chain) == "concat=n="@ + decimal(count) + ":v=1:a=1"@);
    reveal_with_fuel(labels_text, 3);
    assert(last.outputs.drop_last() == seq![(Label::Output { stream: Stream::Video })]);
    assert(last.outputs.drop_last().drop_last() == Seq::<Label>::empty());
    reveal_strlit("[");
    reveal_strlit("v");
    reveal_strlit("a");
    reveal_strlit("out]");
    reveal_strlit(":v=1:a=1");
    reveal_strlit(":v=1:a=1[vout][aout]");
    assert(":v=1:a=1"@ + labels_text(last.outputs) =~= ":v=1:a=1[vout][aout]"@);
    let tail = "concat=n="@ + decimal(count) + ":v=1:a=1[vout][aout]"@;
    let text = node_text(last);
    assert(text =~= labels_text(last.inputs) + tail);
    let whole = graph_text(graph);
    assert(whole.subrange(whole.len() - tail.len(), whole.len() as int) =~= whole.subrange(
        whole.len() - text.len(),
        whole.len() as int,
    ).subrange(text.len() - tail.len(), text.len() as int));
}

/// Appends to `graph` the node with these inputs, filters and outputs, whose
/// view is `expected`.
fn push_node(
    graph: &mut Vec<Node>,
    inputs: Vec<Label>,
    chain: Vec<Filter>,
    outputs: Vec<Label>,
    Ghost(expected): Ghost<NodeView>,
)
    requires
        inputs@ =~= expected.inputs,
        filter_views(chain@) =~= expected.chain,
        outputs@ =~= expected.outputs,
    ensures
        node_views(final(graph)@) == node_views(old(graph)@).push(expected),
{
    graph.push(Node { inputs, chain, outputs });
}

/// Appends the two nodes of the intro to `graph`.
fn push_intro_nodes(graph: &mut Vec<Node>, plan: &RenderPlan, intro: &IntroPlan)
    requires
        plan.intro == Some(*intro),
    ensures
        node_views(final(graph)@) == node_views(old(graph)@) + intro_nodes(plan@),
{
    let duration = intro.duration_ms as u64;
    let ghost made = intro_nodes(plan@);
    push_node(
        graph,
        vec![Label::Input { index: 0, stream: Stream::Video }],
        vec![
            Filter::Scale { width: plan.width, height: plan.height },
            Filter::Fps { fps: plan.fps },
            Filter::SetSar,
            Filter::TrimTo { duration_ms: duration },
            Filter::SetPts,
            Filter::Title { text: intro.title.clone() },
        ],
        vec![Label::Intro { stream: Stream::Video }],
        Ghost(made[0]),
    );
    push_node(
        graph,
        vec![Label::Input { index: 1, stream: Stream::Audio }],
        vec![Filter::AudioHead { end_ms: duration }, Filter::AudioSetPts],
        vec![Label::Intro { stream: Stream::Audio }],
        Ghost(made[1]),
    );
    assert(node_views(graph@) == node_views(old(graph)@) + made);
}

/// Appends the eight nodes of clip `i` to `graph`.
fn push_clip_nodes(graph: &mut Vec<Node>, plan: &RenderPlan, i: usize)
    requires
        i < plan.clips.len(),
        clip_base(plan@) + i <= usize::MAX,
    ensures
        node_views(final(graph)@) == node_views(old(graph)@) + clip_nodes(plan@, i as int),
{
    let clip = &plan.clips[i];
    assert(plan@.clips[i as int] == clip@);
    let input: usize = if plan.intro.is_some() {
        i + 2
    } else {
        i
    };
    let start = clip.start_ms as u64;
    let guess = plan.guess_ms as u64;
    let reveal = plan.reveal_ms as u64;
    let total = guess + reveal;
    let whole_video = Label::Clip { clip: i, role: Role::Whole, stream: Stream::Video };
    let whole_audio = Label::Clip { clip: i, role: Role::Whole, stream: Stream::Audio };
    let guess_source = Label::Clip { clip: i, role: Role::GuessSource, stream: Stream::Audio };
    let reveal_source = Label::Clip { clip: i, role: Role::RevealSource, stream: Stream::Audio };
    let guess_video = Label::Clip { clip: i, role: Role::Guess, stream: Stream::Video };
    let guess_audio = Label::Clip { clip: i, role: Role::Guess, stream: Stream::Audio };
    let reveal_video = Label::Clip { clip: i, role: Role::Reveal, stream: Stream::Video };
    let reveal_audio = Label::Clip { clip: i, role: Role::Reveal, stream: Stream::Audio };
    let ghost made = clip_nodes(plan@, i as int);
    push_node(
        graph,
        vec![Label::Input { index: input, stream: Stream::Video }],
        vec![
            Filter::Trim { start_ms: start, duration_ms: total },
            Filter::SetPts,
            Filter::Scale { width: plan.width, height: plan.height },
            Filter::Fps { fps: plan.fps },
            Filter::SetSar,
        ],
        vec![whole_video],
        Ghost(made[0]),
    );
    push_node(
        graph,
        vec![Label::Input { index: input, stream: Stream::Audio }],
        vec![Filter::AudioTrim { start_ms: start, duration_ms: total }, Filter::AudioSetPts],
        vec![whole_audio],
        Ghost(made[1]),
    );
    push_node(
        graph,
        vec![whole_audio],
        vec![Filter::AudioSplit],
        vec![guess_source, reveal_source],
        Ghost(made[2]),
    );
    push_node(
        graph,
        Vec::new(),
        vec![
            Filter::Black {
                width: plan.width,
                height: plan.height,
                fps: plan.fps,
                duration_ms: guess,
            },
            Filter::Countdown { from_ms: guess },
        ],
        vec![guess_video],
        Ghost(made[3]),
    );
    push_node(
        graph,
        vec![guess_source],
        vec![Filter::AudioHead { end_ms: guess }, Filter::AudioSetPts],
        vec![guess_audio],
        Ghost(made[4]),
    );
    push_node(
        graph,
        vec![whole_video],
        vec![
            Filter::Trim { start_ms: guess, duration_ms: reveal },
            Filter::SetPts,
            Filter::Answer { text: clip.answer.clone() },
        ],
        vec![reveal_video],
        Ghost(made[5]),
    );
    push_node(
        graph,
        vec![reveal_source],
        vec![Filter::AudioTrim { start_ms: guess, duration_ms: reveal }, Filter::AudioSetPts],
        vec![reveal_audio],
        Ghost(made[6]),
    );
    push_node(
        graph,
        vec![guess_video, guess_audio, reveal_video, reveal_audio],
        vec![Filter::Concat { segments: 2 }],
        vec![
            Label::Clip { clip: i, role: Role::Joined, stream: Stream::Video },
            Label::Clip { clip: i, role: Role::Joined, stream: Stream::Audio },
        ],
        Ghost(made[7]),
    );
    assert(node_views(graph@) == node_views(old(graph)@) + made);
}

/// The labels of the segments that the last node plays.
fn final_labels(plan: &RenderPlan) -> (labels: Vec<Label>)
    ensures
        labels@ == final_inputs(plan@),
{
    let mut labels: Vec<Label> = Vec::new();
    if plan.intro.is_some() {
        labels.push(Label::Intro { stream: Stream::Video });
        labels.push(Label::Intro { stream: Stream::Audio });
    }
    let ghost head = labels@;
    let mut i: usize = 0;
    while i < plan.clips.len()
        invariant
            i <= plan.clips.len(),
            labels@ == head + clip_segments(i as nat),
        decreases plan.clips.len() - i,
    {
        labels.push(Label::Clip { clip: i, role: Role::Joined, stream: Stream::Video });
        labels.push(Label::Clip { clip: i, role: Role::Joined, stream: Stream::Audio });
        i = i + 1;
    }
    labels
}

/// Builds the filter graph of a plan. The graph keeps the naming
/// discipline of [`well_wired`].
pub fn build_filter_graph(plan: &RenderPlan) -> (graph: Vec<Node>)
    ensures
        node_views(graph@) == filter_graph(plan@),
        well_wired(node_views(graph@)),
        concats_are_fed(node_views(graph@)),
{
    let mut graph: Vec<Node> = Vec::new();
    match &plan.intro {
        Some(intro) => {
            push_intro_nodes(&mut graph, plan, intro);
        },
        None => {},
    }
    assert(node_views(graph@) == intro_nodes(plan@));
    assert(graph.len() == clip_base(plan@)) by {
        assert(node_views(graph@).len() == graph@.len());
    }
    let mut i: usize = 0;
    while i < plan.clips.len()
        invariant
            i <= plan.clips.len(),
            node_views(graph@) == intro_nodes(plan@) + clips_nodes(plan@, i as nat),
            graph.len() == clip_base(plan@) + 8 * i,
        decreases plan.clips.len() - i,
    {
        let ghost before = graph@.len();
        push_clip_nodes(&mut graph, plan, i);
        assert(node_views(graph@).len() == before + 8);
        i = i + 1;
    }
    let segments: usize = if plan.intro.is_some() {
        plan.clips.len() + 1
    } else {
        plan.clips.len()
    };
    push_node(
        &mut graph,
        final_labels(plan),
        vec![Filter::Concat { segments }],
        vec![Label::Output { stream: Stream::Video }, Label::Output { stream: Stream::Audio }],
        Ghost(final_node(plan@)),
    );
    proof {
        assert(node_views(graph@) == filter_graph(plan@));
        assert(node_views(graph@).len() == graph@.len());
        lemma_clips_nodes_len(plan@, plan@.clips.len());
        lemma_graph_is_well_wired(plan@);
    }
    graph
}

/// The text of the filter graph of a plan, as the encoder reads it.
pub fn build_filter_complex(plan: &RenderPlan) -> (text: String)
    ensures
        text@ == graph_text(filter_graph(plan@)),
{
    let graph = build_filter_graph(plan);
    render_filter_graph(&graph)
}

/// Appends one argument to `args`.
fn push_arg(args: &mut Vec<String>, arg: &str)
    ensures
        string_views(final(args)@) == string_views(old(args)@).push(arg@),
{
    args.push(String::from_str(arg));
}

/// Builds the argument vector of a plan.
pub fn build_args(plan: &RenderPlan) -> (args: Vec<String>)
    ensures
        string_views(args@) == command_args(plan@),
{
    let mut args: Vec<String> = Vec::new();
    push_arg(&mut args, "-y");
    match &plan.intro {
        Some(intro) => {
            push_arg(&mut args, "-loop");
            push_arg(&mut args, "1");
            push_arg(&mut args, "-i");
            push_arg(&mut args, intro.background.as_str());
            push_arg(&mut args, "-i");
            push_arg(&mut args, intro.music.as_str());
        },
        None => {},
    }
    let ghost head = seq!["-y"@] + intro_args(plan@);
    assert(string_views(args@) == head);
    let mut i: usize = 0;
    while i < plan.clips.len()
        invariant
            i <= plan.clips.len(),
            string_views(args@) == head + clip_args(plan@.clips, i as nat),
        decreases plan.clips.len() - i,
    {
        push_arg(&mut args, "-i");
        push_arg(&mut args, plan.clips[i].video.as_str());
        assert(plan@.clips[i as int].video == plan.clips[i as int].video@);
        i = i + 1;
    }
    let ghost inputs = string_views(args@);
    let graph = build_filter_complex(plan);
    let video_out = label_string(Label::Output { stream: Stream::Video });
    let audio_out = label_string(Label::Output { stream: Stream::Audio });
    push_arg(&mut args, "-filter_complex");
    push_arg(&mut args, graph.as_str());
    push_arg(&mut args, "-map");
    push_arg(&mut args, video_out.as_str());
    push_arg(&mut args, "-map");
    push_arg(&mut args, audio_out.as_str());
    push_arg(&mut args, "-c:v");
    push_arg(&mut args, "libx264");
    push_arg(&mut args, "-pix_fmt");
    push_arg(&mut args, "yuv420p");
    push_arg(&mut args, "-c:a");
    push_arg(&mut args, "aac");
    push_arg(&mut args, plan.output.as_str());
    assert(string_views(args@) == inputs + output_args(plan@, graph@));
    args
}

/// Compiles a project into the single encoder command that renders it.
///
/// For each clip the command cuts the guess and reveal window out of the
/// source, shows a black screen with a countdown over the first part of the
/// audio, then the video with the answer over the rest, and joins the two.
/// The intro, if there is one, and the clips are then played one after the
/// other. The project is read completely before anything is built: on a
/// malformed field no command is returned. Timecodes and the resolution are
/// read as they are written; paths, the title and the answers are trimmed.
pub fn build_ffmpeg_command(p: &Project) -> (r: Result<CommandSpec, CompileError>)
    ensures
        compiles_to(p@, r),
{
    let plan = match resolve(p) {
        Ok(plan) => plan,
        Err(e) => { return Err(e); },
    };
    let args = build_args(&plan);
    Ok(CommandSpec { program: String::from_str("ffmpeg"), args })
}

} // verus!
