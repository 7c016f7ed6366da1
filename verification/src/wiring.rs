//! How the streams of a graph are wired: every stream has one node that makes
//! it and one node that reads it, and a node reads only what was made before it.

use vstd::prelude::*;
use crate::ffmpeg_command::{
    clip_base, clip_label, clip_nodes, clip_segments, filter_graph, final_inputs, final_node,
    intro_nodes, lemma_clip_segments_len, lemma_graph_layout,
};
use crate::filter_graph::{FilterView, Label, NodeView, Role, Stream};
use crate::plan::RenderPlanView;

verus! {

/// Whether node `node` of `graph` makes `label` as its output number `slot`.
pub open spec fn made_at(graph: Seq<NodeView>, label: Label, node: int, slot: int) -> bool {
    &&& 0 <= node < graph.len()
    &&& 0 <= slot < graph[node].outputs.len()
    &&& graph[node].outputs[slot] == label
}

/// Whether node `node` of `graph` reads `label` as its input number `slot`.
pub open spec fn read_at(graph: Seq<NodeView>, label: Label, node: int, slot: int) -> bool {
    &&& 0 <= node < graph.len()
    &&& 0 <= slot < graph[node].inputs.len()
    &&& graph[node].inputs[slot] == label
}

/// The naming discipline of a graph:
/// no label is made twice; no label is read twice; a label that is read is a
/// stream of an encoder input or was made by an earlier node; a label that is
/// made is a stream of the result or is read by a later node; no node makes a
/// stream of an encoder input or reads a stream of the result.
pub open spec fn well_wired(graph: Seq<NodeView>) -> bool {
    &&& forall|label: Label, a: int, x: int, b: int, y: int|
        #[trigger] made_at(graph, label, a, x) && #[trigger] made_at(graph, label, b, y) ==> a
            == b && x == y
    &&& forall|label: Label, a: int, x: int, b: int, y: int|
        #[trigger] read_at(graph, label, a, x) && #[trigger] read_at(graph, label, b, y) ==> a
            == b && x == y
    &&& forall|label: Label, b: int, y: int| #[trigger]
        read_at(graph, label, b, y) ==> label is Input || exists|a: int, x: int|
            a < b && made_at(graph, label, a, x)
    &&& forall|label: Label, a: int, x: int| #[trigger]
        made_at(graph, label, a, x) ==> label is Output || exists|b: int, y: int|
            a < b && read_at(graph, label, b, y)
    &&& forall|label: Label, a: int, x: int| #[trigger]
        made_at(graph, label, a, x) ==> !(label is Input)
    &&& forall|label: Label, b: int, y: int| #[trigger]
        read_at(graph, label, b, y) ==> !(label is Output)
}

/// Whether every node that plays segments one after the other reads one
/// video and one audio stream for each segment and makes one of each.
pub open spec fn concats_are_fed(graph: Seq<NodeView>) -> bool {
    forall|j: int, segments: usize|
        0 <= j < graph.len() && #[trigger] graph[j].chain.contains(
            FilterView::Concat { segments },
        ) ==> graph[j].inputs.len() == 2 * segments && graph[j].outputs.len() == 2
}

/// Whether the indices of a plan's graph fit in the machine's word.
pub open spec fn fits(plan: RenderPlanView) -> bool {
    clip_base(plan) + 8 * plan.clips.len() + 1 <= usize::MAX
}

/// Where the graph of `plan` makes `label`: node and output number.
pub open spec fn maker(plan: RenderPlanView, label: Label) -> (int, int) {
    let base = clip_base(plan) as int;
    match label {
        Label::Input { .. } => (-1, -1),
        Label::Intro { stream: Stream::Video } => (0, 0),
        Label::Intro { stream: Stream::Audio } => (1, 0),
        Label::Clip { clip, role, stream } => {
            let first = base + 8 * clip;
            match (role, stream) {
                (Role::Whole, Stream::Video) => (first, 0),
                (Role::Whole, Stream::Audio) => (first + 1, 0),
                (Role::GuessSource, _) => (first + 2, 0),
                (Role::RevealSource, _) => (first + 2, 1),
                (Role::Guess, Stream::Video) => (first + 3, 0),
                (Role::Guess, Stream::Audio) => (first + 4, 0),
                (Role::Reveal, Stream::Video) => (first + 5, 0),
                (Role::Reveal, Stream::Audio) => (first + 6, 0),
                (Role::Joined, Stream::Video) => (first + 7, 0),
                (Role::Joined, Stream::Audio) => (first + 7, 1),
            }
        },
        Label::Output { stream: Stream::Video } => (base + 8 * plan.clips.len(), 0),
        Label::Output { stream: Stream::Audio } => (base + 8 * plan.clips.len(), 1),
    }
}

/// Where the graph of `plan` reads `label`: node and input number.
pub open spec fn reader(plan: RenderPlanView, label: Label) -> (int, int) {
    let base = clip_base(plan) as int;
    let last = base + 8 * plan.clips.len();
    match label {
        Label::Input { index, stream } => if index < base {
            (index as int, 0)
        } else {
            match stream {
                Stream::Video => (base + 8 * (index - base), 0),
                Stream::Audio => (base + 8 * (index - base) + 1, 0),
            }
        },
        Label::Intro { stream: Stream::Video } => (last, 0),
        Label::Intro { stream: Stream::Audio } => (last, 1),
        Label::Clip { clip, role, stream } => {
            let first = base + 8 * clip;
            match (role, stream) {
                (Role::Whole, Stream::Video) => (first + 5, 0),
                (Role::Whole, Stream::Audio) => (first + 2, 0),
                (Role::GuessSource, _) => (first + 4, 0),
                (Role::RevealSource, _) => (first + 6, 0),
                (Role::Guess, Stream::Video) => (first + 7, 0),
                (Role::Guess, Stream::Audio) => (first + 7, 1),
                (Role::Reveal, Stream::Video) => (first + 7, 2),
                (Role::Reveal, Stream::Audio) => (first + 7, 3),
                (Role::Joined, Stream::Video) => (last, base + 2 * clip),
                (Role::Joined, Stream::Audio) => (last, base + 2 * clip + 1),
            }
        },
        Label::Output { .. } => (-1, -1),
    }
}

/// The finished segment of clip `c` stands among the segments of the first
/// `n` clips at `2 * c`, video first.
pub proof fn lemma_clip_segments_index(n: nat, c: int)
    requires
        0 <= c < n,
    ensures
        clip_segments(n).len() == 2 * n,
        clip_segments(n)[2 * c] == clip_label(c, Role::Joined, Stream::Video),
        clip_segments(n)[2 * c + 1] == clip_label(c, Role::Joined, Stream::Audio),
    decreases n,
{
    lemma_clip_segments_len(n);
    lemma_clip_segments_len((n - 1) as nat);
    if c < n - 1 {
        lemma_clip_segments_index((n - 1) as nat, c);
    }
}

/// Video at even positions, audio at odd ones.
pub open spec fn stream_at(position: int) -> Stream {
    if position % 2 == 0 {
        Stream::Video
    } else {
        Stream::Audio
    }
}

/// What the last node reads at its input number `y`: the intro's streams
/// first where there is an intro, then each clip's finished segment.
pub open spec fn final_input_at(plan: RenderPlanView, y: int) -> Label {
    if y < clip_base(plan) {
        Label::Intro { stream: stream_at(y) }
    } else {
        clip_label((y - clip_base(plan)) / 2, Role::Joined, stream_at(y - clip_base(plan)))
    }
}

/// What the last node reads at each of its inputs.
pub proof fn lemma_final_inputs_index(plan: RenderPlanView, y: int)
    requires
        0 <= y < final_inputs(plan).len(),
    ensures
        final_inputs(plan).len() == clip_base(plan) + 2 * plan.clips.len(),
        final_inputs(plan)[y] == final_input_at(plan, y),
{
    let n = plan.clips.len();
    lemma_clip_segments_len(n);
    if y >= clip_base(plan) {
        let c = (y - clip_base(plan)) / 2;
        lemma_clip_segments_index(n, c);
    }
}

/// The node at each position of a graph, by kind.
proof fn lemma_node_at(plan: RenderPlanView, j: int)
    requires
        0 <= j < filter_graph(plan).len(),
    ensures
        filter_graph(plan).len() == clip_base(plan) + 8 * plan.clips.len() + 1,
        j < clip_base(plan) ==> filter_graph(plan)[j] == intro_nodes(plan)[j],
        clip_base(plan) <= j < clip_base(plan) + 8 * plan.clips.len() ==> filter_graph(plan)[j]
            == clip_nodes(plan, (j - clip_base(plan)) / 8)[(j - clip_base(plan)) % 8],
        j == clip_base(plan) + 8 * plan.clips.len() ==> filter_graph(plan)[j] == final_node(plan),
{
    lemma_graph_layout(plan);
    let base = clip_base(plan);
    if base <= j < base + 8 * plan.clips.len() {
        let i = (j - base) / 8;
        let k = (j - base) % 8;
        assert(filter_graph(plan)[base + 8 * i + k] == clip_nodes(plan, i)[k]);
    }
}

/// A label is made where [`maker`] says, and nowhere else.
proof fn lemma_made_where_maker_says(plan: RenderPlanView, label: Label, a: int, x: int)
    requires
        fits(plan),
        made_at(filter_graph(plan), label, a, x),
    ensures
        maker(plan, label) == (a, x),
        !(label is Input),
{
    lemma_node_at(plan, a);
    let base = clip_base(plan);
    if base <= a < base + 8 * plan.clips.len() {
        let i = (a - base) / 8;
        let k = (a - base) % 8;
        assert(i as usize == i);
        let node = clip_nodes(plan, i)[k];
        assert(node.outputs[x] == label);
    }
}

/// A label is read where [`reader`] says, and nowhere else.
proof fn lemma_read_where_reader_says(plan: RenderPlanView, label: Label, b: int, y: int)
    requires
        fits(plan),
        read_at(filter_graph(plan), label, b, y),
    ensures
        reader(plan, label) == (b, y),
        !(label is Output),
{
    lemma_node_at(plan, b);
    let base = clip_base(plan);
    if base <= b < base + 8 * plan.clips.len() {
        let i = (b - base) / 8;
        let k = (b - base) % 8;
        assert(i as usize == i);
        assert((base + i) as usize == base + i);
        let node = clip_nodes(plan, i)[k];
        assert(node.inputs[y] == label);
    } else if b == base + 8 * plan.clips.len() {
        lemma_final_inputs_index(plan, y);
        if y >= base {
            let c = (y - base) / 2;
            assert(c as usize == c);
        }
    }
}

/// What a node reads, unless it is a stream of an encoder input, an earlier
/// node makes.
proof fn lemma_read_was_made(plan: RenderPlanView, label: Label, b: int, y: int)
    requires
        fits(plan),
        read_at(filter_graph(plan), label, b, y),
        !(label is Input),
    ensures
        maker(plan, label).0 < b,
        made_at(filter_graph(plan), label, maker(plan, label).0, maker(plan, label).1),
{
    lemma_read_where_reader_says(plan, label, b, y);
    lemma_node_at(plan, b);
    let base = clip_base(plan);
    let a = maker(plan, label).0;
    if base <= b < base + 8 * plan.clips.len() {
        let i = (b - base) / 8;
        let k = (b - base) % 8;
        assert(i as usize == i);
        let node = clip_nodes(plan, i)[k];
        assert(node.inputs[y] == label);
        assert(base + 8 * i <= a < b);
        lemma_node_at(plan, a);
        assert((a - base) / 8 == i);
        let made = clip_nodes(plan, i)[(a - base) % 8];
        assert(made.outputs[maker(plan, label).1] == label);
    } else if b == base + 8 * plan.clips.len() {
        lemma_final_inputs_index(plan, y);
        if y >= base {
            let c = (y - base) / 2;
            assert(c as usize == c);
            assert(a == base + 8 * c + 7);
            lemma_node_at(plan, a);
            assert((a - base) / 8 == c && (a - base) % 8 == 7);
            let made = clip_nodes(plan, c)[7];
            assert(made.outputs[maker(plan, label).1] == label);
        } else {
            lemma_node_at(plan, a);
        }
    }
}

/// What a node makes, unless it is a stream of the result, a later node reads.
proof fn lemma_made_is_read(plan: RenderPlanView, label: Label, a: int, x: int)
    requires
        fits(plan),
        made_at(filter_graph(plan), label, a, x),
        !(label is Output),
    ensures
        a < reader(plan, label).0,
        read_at(filter_graph(plan), label, reader(plan, label).0, reader(plan, label).1),
{
    lemma_made_where_maker_says(plan, label, a, x);
    lemma_node_at(plan, a);
    let base = clip_base(plan);
    let n = plan.clips.len();
    let b = reader(plan, label).0;
    let y = reader(plan, label).1;
    if base <= a < base + 8 * n {
        let i = (a - base) / 8;
        let k = (a - base) % 8;
        assert(i as usize == i);
        let node = clip_nodes(plan, i)[k];
        assert(node.outputs[x] == label);
        if k == 7 {
            assert(b == base + 8 * n);
            lemma_node_at(plan, b);
            lemma_clip_segments_len(n);
            assert(0 <= y < final_inputs(plan).len());
            lemma_final_inputs_index(plan, y);
            assert((y - base) / 2 == i);
        } else {
            assert(a < b < base + 8 * i + 8);
            lemma_node_at(plan, b);
            assert((b - base) / 8 == i);
            let reading = clip_nodes(plan, i)[(b - base) % 8];
            assert(reading.inputs[y] == label);
        }
    } else if a < base {
        assert(b == base + 8 * n);
        lemma_node_at(plan, b);
        lemma_clip_segments_len(n);
        lemma_final_inputs_index(plan, y);
    }
}

/// Every node that plays segments one after the other is fed one video and one
/// audio stream for each.
proof fn lemma_concats_are_fed(plan: RenderPlanView)
    requires
        fits(plan),
    ensures
        concats_are_fed(filter_graph(plan)),
{
    let graph = filter_graph(plan);
    let base = clip_base(plan);
    assert forall|j: int, segments: usize|
        0 <= j < graph.len() && #[trigger] graph[j].chain.contains(
            FilterView::Concat { segments },
        ) implies graph[j].inputs.len() == 2 * segments && graph[j].outputs.len() == 2 by {
        lemma_node_at(plan, j);
        let chain = graph[j].chain;
        let f = choose|f: int| 0 <= f < chain.len() && chain[f] == FilterView::Concat { segments };
        if base <= j < base + 8 * plan.clips.len() {
            let i = (j - base) / 8;
            let k = (j - base) % 8;
            let node = clip_nodes(plan, i)[k];
            assert(node.chain[f] == FilterView::Concat { segments });
        } else if j < base {
            assert(intro_nodes(plan)[j].chain[f] == FilterView::Concat { segments });
        } else {
            lemma_clip_segments_len(plan.clips.len());
            assert(final_node(plan).chain[f] == FilterView::Concat { segments });
        }
    }
}

/// The graph of a plan keeps the naming discipline: every label has one node
/// that makes it and one that reads it, what is read was made before, and
/// every concatenation is fed a pair of streams for each of its segments.
pub proof fn lemma_graph_is_well_wired(plan: RenderPlanView)
    requires
        fits(plan),
    ensures
        well_wired(filter_graph(plan)),
        concats_are_fed(filter_graph(plan)),
{
    let graph = filter_graph(plan);
    assert forall|label: Label, a: int, x: int, b: int, y: int|
        #[trigger] made_at(graph, label, a, x) && #[trigger] made_at(
            graph,
            label,
            b,
            y,
        ) implies a == b && x == y by {
        lemma_made_where_maker_says(plan, label, a, x);
        lemma_made_where_maker_says(plan, label, b, y);
    }
    assert forall|label: Label, a: int, x: int, b: int, y: int|
        #[trigger] read_at(graph, label, a, x) && #[trigger] read_at(
            graph,
            label,
            b,
            y,
        ) implies a == b && x == y by {
        lemma_read_where_reader_says(plan, label, a, x);
        lemma_read_where_reader_says(plan, label, b, y);
    }
    assert forall|label: Label, b: int, y: int| #[trigger]
        read_at(graph, label, b, y) implies label is Input || exists|a: int, x: int|
        a < b && made_at(graph, label, a, x) by {
        if !(label is Input) {
            lemma_read_was_made(plan, label, b, y);
            assert(made_at(graph, label, maker(plan, label).0, maker(plan, label).1));
        }
    }
    assert forall|label: Label, a: int, x: int| #[trigger]
        made_at(graph, label, a, x) implies label is Output || exists|b: int, y: int|
        a < b && read_at(graph, label, b, y) by {
        if !(label is Output) {
            lemma_made_is_read(plan, label, a, x);
            assert(read_at(graph, label, reader(plan, label).0, reader(plan, label).1));
        }
    }
    assert forall|label: Label, a: int, x: int| #[trigger]
        made_at(graph, label, a, x) implies !(label is Input) by {
        lemma_made_where_maker_says(plan, label, a, x);
    }
    assert forall|label: Label, b: int, y: int| #[trigger]
        read_at(graph, label, b, y) implies !(label is Output) by {
        lemma_read_where_reader_says(plan, label, b, y);
    }
    lemma_concats_are_fed(plan);
}

} // verus!
