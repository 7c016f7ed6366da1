//! The filter graph as data: named streams, filters, and nodes that consume
//! and produce streams, with the text the encoder reads as the last, separate
//! step.
//!
//! A graph is a sequence of [`Node`]s. Its text is the nodes joined by `;`;
//! a node's text is its input labels, its filters joined by `,`, and its
//! output labels.

use vstd::prelude::*;
use vstd::string::*;
use crate::text::{
    chars_of, decimal, join, join_strings, push_decimal, push_seconds, seconds_text,
    string_views,
};

verus! {

/// The two kinds of stream.
#[derive(Clone, Copy, Debug, PartialEq, Eq, Hash, Structural)]
pub enum Stream {
    Video,
    Audio,
}

/// What a stream of a clip is, within that clip's part of the graph.
#[derive(Clone, Copy, Debug, PartialEq, Eq, Hash, Structural)]
pub enum Role {
    /// The clip cut to the guess and reveal window.
    Whole,
    /// The copy of the audio that the guess phase is cut from.
    GuessSource,
    /// The copy of the audio that the reveal phase is cut from.
    RevealSource,
    /// The guess phase.
    Guess,
    /// The reveal phase.
    Reveal,
    /// Guess then reveal, as one segment.
    Joined,
}

/// The name of a stream. Two streams of one graph never share a label: a
/// label says which input, or which clip and which role, the stream belongs to.
#[derive(Clone, Copy, Debug, PartialEq, Eq, Hash, Structural)]
pub enum Label {
    /// A stream of the encoder's input number `index`.
    Input { index: usize, stream: Stream },
    /// A stream of the finished intro.
    Intro { stream: Stream },
    /// A stream of clip number `clip`.
    Clip { clip: usize, role: Role, stream: Stream },
    /// A stream of the result.
    Output { stream: Stream },
}

/// One filter of a chain. Times are in milliseconds.
#[derive(Clone, Debug, PartialEq, Eq)]
pub enum Filter {
    /// Keep the video from `start_ms` for `duration_ms`.
    Trim { start_ms: u64, duration_ms: u64 },
    /// Keep the first `duration_ms` of the video.
    TrimTo { duration_ms: u64 },
    /// Restart the video timestamps at zero.
    SetPts,
    /// Scale the picture to `width` by `height`.
    Scale { width: u32, height: u32 },
    /// Convert to `fps` frames per second.
    Fps { fps: u32 },
    /// Set the pixel aspect ratio to 1.
    SetSar,
    /// Keep the audio from `start_ms` for `duration_ms`.
    AudioTrim { start_ms: u64, duration_ms: u64 },
    /// Keep the audio from zero up to `end_ms`.
    AudioHead { end_ms: u64 },
    /// Restart the audio timestamps at zero.
    AudioSetPts,
    /// Duplicate the audio into two streams.
    AudioSplit,
    /// Generate black frames of `width` by `height` at `fps` frames per
    /// second for `duration_ms`.
    Black { width: u32, height: u32, fps: u32, duration_ms: u64 },
    /// Draw `text` in the centre, large.
    Title { text: String },
    /// Draw, in the centre, the whole seconds left until `from_ms`, as
    /// [`countdown_shown`](crate::countdown::countdown_shown) gives them.
    Countdown { from_ms: u64 },
    /// Draw `text` centred near the bottom.
    Answer { text: String },
    /// Play `segments` pairs of one video and one audio stream one after
    /// the other.
    Concat { segments: usize },
}

/// A [`Filter`] whose texts are plain sequences of characters.
pub enum FilterView {
    Trim { start_ms: u64, duration_ms: u64 },
    TrimTo { duration_ms: u64 },
    SetPts,
    Scale { width: u32, height: u32 },
    Fps { fps: u32 },
    SetSar,
    AudioTrim { start_ms: u64, duration_ms: u64 },
    AudioHead { end_ms: u64 },
    AudioSetPts,
    AudioSplit,
    Black { width: u32, height: u32, fps: u32, duration_ms: u64 },
    Title { text: Seq<char> },
    Countdown { from_ms: u64 },
    Answer { text: Seq<char> },
    Concat { segments: usize },
}

impl View for Filter {
    type V = FilterView;

    open spec fn view(&self) -> FilterView {
        match *self {
            Filter::Trim { start_ms, duration_ms } => FilterView::Trim { start_ms, duration_ms },
            Filter::TrimTo { duration_ms } => FilterView::TrimTo { duration_ms },
            Filter::SetPts => FilterView::SetPts,
            Filter::Scale { width, height } => FilterView::Scale { width, height },
            Filter::Fps { fps } => FilterView::Fps { fps },
            Filter::SetSar => FilterView::SetSar,
            Filter::AudioTrim { start_ms, duration_ms } => FilterView::AudioTrim {
                start_ms,
                duration_ms,
            },
            Filter::AudioHead { end_ms } => FilterView::AudioHead { end_ms },
            Filter::AudioSetPts => FilterView::AudioSetPts,
            Filter::AudioSplit => FilterView::AudioSplit,
            Filter::Black { width, height, fps, duration_ms } => FilterView::Black {
                width,
                height,
                fps,
                duration_ms,
            },
            Filter::Title { text } => FilterView::Title { text: text@ },
            Filter::Countdown { from_ms } => FilterView::Countdown { from_ms },
            Filter::Answer { text } => FilterView::Answer { text: text@ },
            Filter::Concat { segments } => FilterView::Concat { segments },
        }
    }
}

/// One node of the graph: the streams it reads, the filters it applies in
/// order, and the streams it makes.
#[derive(Clone, Debug, PartialEq, Eq)]
pub struct Node {
    pub inputs: Vec<Label>,
    pub chain: Vec<Filter>,
    pub outputs: Vec<Label>,
}

/// A [`Node`] as plain values.
pub struct NodeView {
    pub inputs: Seq<Label>,
    pub chain: Seq<FilterView>,
    pub outputs: Seq<Label>,
}

/// The views of the filters of `chain`, in order.
pub open spec fn filter_views(chain: Seq<Filter>) -> Seq<FilterView> {
    Seq::new(chain.len(), |i: int| chain[i]@)
}

impl View for Node {
    type V = NodeView;

    open spec fn view(&self) -> NodeView {
        NodeView {
            inputs: self.inputs@,
            chain: filter_views(self.chain@),
            outputs: self.outputs@,
        }
    }
}

/// The views of the nodes of `nodes`, in order.
pub open spec fn node_views(nodes: Seq<Node>) -> Seq<NodeView> {
    Seq::new(nodes.len(), |i: int| nodes[i]@)
}

/// How one character of a drawn text is written inside the single quotes of
/// a filter argument: a backslash before a backslash and before a quote.
pub open spec fn escape_char(c: char) -> Seq<char> {
    if c == '\\' {
        seq!['\\', '\\']
    } else if c == '\'' {
        seq!['\\', '\'']
    } else {
        seq![c]
    }
}

/// A drawn text as it is written inside the single quotes of a filter argument.
pub open spec fn escape_drawtext(s: Seq<char>) -> Seq<char>
    decreases s.len(),
{
    if s.len() == 0 {
        Seq::empty()
    } else {
        escape_drawtext(s.drop_last()) + escape_char(s.last())
    }
}

/// What is read back from a drawn text as it is written between single
/// quotes: a backslash makes the character after it literal and is itself
/// dropped. A quote without a backslash would end the text, and a backslash at
/// the very end has nothing after it: both are read as `None`.
pub open spec fn read_drawtext(t: Seq<char>) -> Option<Seq<char>>
    decreases t.len(),
{
    if t.len() == 0 {
        Some(Seq::empty())
    } else if t[0] == '\\' {
        if t.len() < 2 {
            None
        } else {
            match read_drawtext(t.skip(2)) {
                Some(rest) => Some(seq![t[1]] + rest),
                None => None,
            }
        }
    } else if t[0] == '\'' {
        None
    } else {
        match read_drawtext(t.skip(1)) {
            Some(rest) => Some(seq![t[0]] + rest),
            None => None,
        }
    }
}

/// An escaped text is its first character escaped, then the rest escaped.
pub proof fn lemma_escape_from_the_front(s: Seq<char>)
    requires
        s.len() > 0,
    ensures
        escape_drawtext(s) == escape_char(s.first()) + escape_drawtext(s.drop_first()),
    decreases s.len(),
{
    if s.len() == 1 {
        assert(escape_drawtext(s.drop_last()) == Seq::<char>::empty());
    } else {
        lemma_escape_from_the_front(s.drop_last());
        assert(s.drop_last().drop_first() == s.drop_first().drop_last());
    }
}

/// No text can end or alter the quoted text it is drawn in: whatever the
/// text holds, quotes and backslashes included, what is read back from its
/// escaped form is the text itself.
pub proof fn lemma_escape_reads_back(s: Seq<char>)
    ensures
        read_drawtext(escape_drawtext(s)) == Some(s),
    decreases s.len(),
{
    if s.len() > 0 {
        lemma_escape_from_the_front(s);
        lemma_escape_reads_back(s.drop_first());
        let rest = escape_drawtext(s.drop_first());
        let t = escape_drawtext(s);
        let c = s.first();
        if c == '\\' || c == '\'' {
            assert(t.skip(2) == rest);
        } else {
            assert(t.skip(1) == rest);
        }
    }
}

/// A quote is written as a backslash and the quote, a backslash as two
/// backslashes, and a text with neither is written as it is.
pub proof fn lemma_escape_examples(s: Seq<char>)
    ensures
        escape_drawtext(s.push('\'')) == escape_drawtext(s).push('\\').push('\''),
        escape_drawtext(s.push('\\')) == escape_drawtext(s).push('\\').push('\\'),
        (forall|i: int| 0 <= i < s.len() ==> s[i] != '\\' && s[i] != '\'') ==> escape_drawtext(s)
            == s,
    decreases s.len(),
{
    assert(s.push('\'').drop_last() == s);
    assert(s.push('\\').drop_last() == s);
    if s.len() > 0 {
        lemma_escape_examples(s.drop_last());
    }
}

/// The letter that starts the name of a stream of this kind.
pub open spec fn stream_letter(stream: Stream) -> Seq<char> {
    match stream {
        Stream::Video => "v"@,
        Stream::Audio => "a"@,
    }
}

/// What follows the clip's number in the name of a stream with this role.
pub open spec fn role_suffix(role: Role) -> Seq<char> {
    match role {
        Role::Whole => "all"@,
        Role::GuessSource => "gsrc"@,
        Role::RevealSource => "rsrc"@,
        Role::Guess => "g"@,
        Role::Reveal => "r"@,
        Role::Joined => ""@,
    }
}

/// The label as the graph text writes it, brackets included.
pub open spec fn label_text(label: Label) -> Seq<char> {
    match label {
        Label::Input { index, stream } => "["@ + decimal(index as nat) + ":"@ + stream_letter(
            stream,
        ) + "]"@,
        Label::Intro { stream } => "["@ + stream_letter(stream) + "intro]"@,
        Label::Clip { clip, role, stream } => "["@ + stream_letter(stream) + decimal(clip as nat)
            + role_suffix(role) + "]"@,
        Label::Output { stream } => "["@ + stream_letter(stream) + "out]"@,
    }
}

/// The labels written one after the other.
pub open spec fn labels_text(labels: Seq<Label>) -> Seq<char>
    decreases labels.len(),
{
    if labels.len() == 0 {
        Seq::empty()
    } else {
        labels_text(labels.drop_last()) + label_text(labels.last())
    }
}

/// The filter as the graph text writes it.
pub open spec fn filter_text(filter: FilterView) -> Seq<char> {
    match filter {
        FilterView::Trim { start_ms, duration_ms } => "trim=start="@ + seconds_text(
            start_ms as nat,
        ) + ":duration="@ + seconds_text(duration_ms as nat),
        FilterView::TrimTo { duration_ms } => "trim=duration="@ + seconds_text(duration_ms as nat),
        FilterView::SetPts => "setpts=PTS-STARTPTS"@,
        FilterView::Scale { width, height } => "scale="@ + decimal(width as nat) + ":"@ + decimal(
            height as nat,
        ),
        FilterView::Fps { fps } => "fps="@ + decimal(fps as nat),
        FilterView::SetSar => "setsar=1"@,
        FilterView::AudioTrim { start_ms, duration_ms } => "atrim=start="@ + seconds_text(
            start_ms as nat,
        ) + ":duration="@ + seconds_text(duration_ms as nat),
        FilterView::AudioHead { end_ms } => "atrim=0:"@ + seconds_text(end_ms as nat),
        FilterView::AudioSetPts => "asetpts=PTS-STARTPTS"@,
        FilterView::AudioSplit => "asplit=2"@,
        FilterView::Black { width, height, fps, duration_ms } => "color=c=black:s="@ + decimal(
            width as nat,
        ) + "x"@ + decimal(height as nat) + ":r="@ + decimal(fps as nat) + ":d="@ + seconds_text(
            duration_ms as nat,
        ),
        FilterView::Title { text } => "drawtext=text='"@ + escape_drawtext(text)
            + "':x=(w-text_w)/2:y=(h-text_h)/2:fontsize=72:fontcolor=white:borderw=4"@,
        FilterView::Countdown { from_ms } => "drawtext=text='%{eif\\:max(0\\,ceil("@
            + seconds_text(from_ms as nat)
            + "-t))\\:d}':x=(w-text_w)/2:y=(h-text_h)/2:fontsize=96:fontcolor=white:borderw=4"@,
        FilterView::Answer { text } => "drawtext=text='"@ + escape_drawtext(text)
            + "':x=(w-text_w)/2:y=h-(text_h*2):fontsize=48:fontcolor=white:borderw=3"@,
        FilterView::Concat { segments } => "concat=n="@ + decimal(segments as nat) + ":v=1:a=1"@,
    }
}

/// The texts of the filters of `chain`, in order.
pub open spec fn filter_texts(chain: Seq<FilterView>) -> Seq<Seq<char>> {
    Seq::new(chain.len(), |i: int| filter_text(chain[i]))
}

/// The chain as the graph text writes it: its filters joined by commas.
pub open spec fn chain_text(chain: Seq<FilterView>) -> Seq<char> {
    join(filter_texts(chain), ","@)
}

/// The node as the graph text writes it.
pub open spec fn node_text(node: NodeView) -> Seq<char> {
    labels_text(node.inputs) + chain_text(node.chain) + labels_text(node.outputs)
}

/// The texts of the nodes of `graph`, in order.
pub open spec fn node_texts(graph: Seq<NodeView>) -> Seq<Seq<char>> {
    Seq::new(graph.len(), |i: int| node_text(graph[i]))
}

/// The graph as the encoder reads it: its nodes joined by semicolons.
pub open spec fn graph_text(graph: Seq<NodeView>) -> Seq<char> {
    join(node_texts(graph), ";"@)
}

/// Escapes a text for drawing: a backslash goes before every backslash and
/// every single quote, and nothing else changes.
pub fn escape_drawtext_text(s: &str) -> (r: String)
    ensures
        r@ == escape_drawtext(s@),
{
    let chars = chars_of(s);
    let mut r = String::new();
    let mut i: usize = 0;
    while i < chars.len()
        invariant
            i <= chars.len(),
            r@ == escape_drawtext(chars@.take(i as int)),
        decreases chars.len() - i,
    {
        proof {
            assert(chars@.take(i + 1).drop_last() == chars@.take(i as int));
        }
        let c = chars[i];
        if c == '\\' || c == '\'' {
            r.push('\\');
        }
        r.push(c);
        i = i + 1;
    }
    proof {
        assert(chars@.take(i as int) == chars@);
    }
    r
}

/// The label as the graph text writes it.
pub fn label_string(label: Label) -> (s: String)
    ensures
        s@ == label_text(label),
{
    let mut s = String::from_str("[");
    match label {
        Label::Input { index, stream } => {
            push_decimal(&mut s, index as u64);
            s.append(":");
            s.append(stream_str(stream));
            s.append("]");
        },
        Label::Intro { stream } => {
            s.append(stream_str(stream));
            s.append("intro]");
        },
        Label::Clip { clip, role, stream } => {
            s.append(stream_str(stream));
            push_decimal(&mut s, clip as u64);
            s.append(role_str(role));
            s.append("]");
        },
        Label::Output { stream } => {
            s.append(stream_str(stream));
            s.append("out]");
        },
    }
    s
}

fn stream_str(stream: Stream) -> (s: &'static str)
    ensures
        s@ == stream_letter(stream),
{
    match stream {
        Stream::Video => "v",
        Stream::Audio => "a",
    }
}

fn role_str(role: Role) -> (s: &'static str)
    ensures
        s@ == role_suffix(role),
{
    match role {
        Role::Whole => "all",
        Role::GuessSource => "gsrc",
        Role::RevealSource => "rsrc",
        Role::Guess => "g",
        Role::Reveal => "r",
        Role::Joined => "",
    }
}

/// The labels written one after the other.
pub fn labels_string(labels: &Vec<Label>) -> (s: String)
    ensures
        s@ == labels_text(labels@),
{
    let mut s = String::new();
    let mut i: usize = 0;
    while i < labels.len()
        invariant
            i <= labels.len(),
            s@ == labels_text(labels@.take(i as int)),
        decreases labels.len() - i,
    {
        proof {
            assert(labels@.take(i + 1).drop_last() == labels@.take(i as int));
        }
        let one = label_string(labels[i]);
        s.append(one.as_str());
        i = i + 1;
    }
    proof {
        assert(labels@.take(i as int) == labels@);
    }
    s
}

/// The filter as the graph text writes it.
pub fn filter_string(filter: &Filter) -> (s: String)
    ensures
        s@ == filter_text(filter@),
{
    match filter {
        Filter::Trim { start_ms, duration_ms } => {
            let mut s = String::from_str("trim=start=");
            push_seconds(&mut s, *start_ms);
            s.append(":duration=");
            push_seconds(&mut s, *duration_ms);
            s
        },
        Filter::TrimTo { duration_ms } => {
            let mut s = String::from_str("trim=duration=");
            push_seconds(&mut s, *duration_ms);
            s
        },
        Filter::SetPts => String::from_str("setpts=PTS-STARTPTS"),
        Filter::Scale { width, height } => {
            let mut s = String::from_str("scale=");
            push_decimal(&mut s, *width as u64);
            s.append(":");
            push_decimal(&mut s, *height as u64);
            s
        },
        Filter::Fps { fps } => {
            let mut s = String::from_str("fps=");
            push_decimal(&mut s, *fps as u64);
            s
        },
        Filter::SetSar => String::from_str("setsar=1"),
        Filter::AudioTrim { start_ms, duration_ms } => {
            let mut s = String::from_str("atrim=start=");
            push_seconds(&mut s, *start_ms);
            s.append(":duration=");
            push_seconds(&mut s, *duration_ms);
            s
        },
        Filter::AudioHead { end_ms } => {
            let mut s = String::from_str("atrim=0:");
            push_seconds(&mut s, *end_ms);
            s
        },
        Filter::AudioSetPts => String::from_str("asetpts=PTS-STARTPTS"),
        Filter::AudioSplit => String::from_str("asplit=2"),
        Filter::Black { width, height, fps, duration_ms } => {
            let mut s = String::from_str("color=c=black:s=");
            push_decimal(&mut s, *width as u64);
            s.append("x");
            push_decimal(&mut s, *height as u64);
            s.append(":r=");
            push_decimal(&mut s, *fps as u64);
            s.append(":d=");
            push_seconds(&mut s, *duration_ms);
            s
        },
        Filter::Title { text } => {
            let mut s = String::from_str("drawtext=text='");
            let escaped = escape_drawtext_text(text.as_str());
            s.append(escaped.as_str());
            s.append("':x=(w-text_w)/2:y=(h-text_h)/2:fontsize=72:fontcolor=white:borderw=4");
            s
        },
        Filter::Countdown { from_ms } => {
            let mut s = String::from_str("drawtext=text='%{eif\\:max(0\\,ceil(");
            push_seconds(&mut s, *from_ms);
            s.append(
                "-t))\\:d}':x=(w-text_w)/2:y=(h-text_h)/2:fontsize=96:fontcolor=white:borderw=4",
            );
            s
        },
        Filter::Answer { text } => {
            let mut s = String::from_str("drawtext=text='");
            let escaped = escape_drawtext_text(text.as_str());
            s.append(escaped.as_str());
            s.append("':x=(w-text_w)/2:y=h-(text_h*2):fontsize=48:fontcolor=white:borderw=3");
            s
        },
        Filter::Concat { segments } => {
            let mut s = String::from_str("concat=n=");
            push_decimal(&mut s, *segments as u64);
            s.append(":v=1:a=1");
            s
        },
    }
}

/// The chain as the graph text writes it.
pub fn chain_string(chain: &Vec<Filter>) -> (s: String)
    ensures
        s@ == chain_text(filter_views(chain@)),
{
    let mut texts: Vec<String> = Vec::new();
    let mut i: usize = 0;
    while i < chain.len()
        invariant
            i <= chain.len(),
            texts.len() == i,
            forall|k: int| 0 <= k < i ==> (#[trigger] texts@[k])@ == filter_text(chain@[k]@),
        decreases chain.len() - i,
    {
        texts.push(filter_string(&chain[i]));
        i = i + 1;
    }
    proof {
        assert(string_views(texts@) == filter_texts(filter_views(chain@)));
    }
    join_strings(&texts, ",")
}

/// The node as the graph text writes it.
pub fn node_string(node: &Node) -> (s: String)
    ensures
        s@ == node_text(node@),
{
    let mut s = labels_string(&node.inputs);
    let chain = chain_string(&node.chain);
    s.append(chain.as_str());
    let outputs = labels_string(&node.outputs);
    s.append(outputs.as_str());
    s
}

/// The graph as the encoder reads it.
pub fn render_filter_graph(graph: &Vec<Node>) -> (s: String)
    ensures
        s@ == graph_text(node_views(graph@)),
{
    let mut texts: Vec<String> = Vec::new();
    let mut i: usize = 0;
    while i < graph.len()
        invariant
            i <= graph.len(),
            texts.len() == i,
            forall|k: int| 0 <= k < i ==> (#[trigger] texts@[k])@ == node_text(graph@[k]@),
        decreases graph.len() - i,
    {
        texts.push(node_string(&graph[i]));
        i = i + 1;
    }
    proof {
        assert(string_views(texts@) == node_texts(node_views(graph@)));
    }
    join_strings(&texts, ";")
}

} // verus!
