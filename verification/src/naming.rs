//! The names of streams in the graph text: no two labels are written alike.

use vstd::prelude::*;
use crate::filter_graph::{label_text, role_suffix, stream_letter, Label, Role, Stream};
use crate::text::{decimal, is_digit, lemma_decimal_reads_back, lemma_numeral_then_rest};

verus! {

/// What the parts of a label's text are, character by character.
proof fn lemma_label_parts()
    ensures
        "["@ == seq!['['],
        "]"@ == seq![']'],
        ":"@ == seq![':'],
        "v"@ == seq!['v'],
        "a"@ == seq!['a'],
        "intro]"@ == seq!['i', 'n', 't', 'r', 'o', ']'],
        "out]"@ == seq!['o', 'u', 't', ']'],
        "all"@ == seq!['a', 'l', 'l'],
        "gsrc"@ == seq!['g', 's', 'r', 'c'],
        "rsrc"@ == seq!['r', 's', 'r', 'c'],
        "g"@ == seq!['g'],
        "r"@ == seq!['r'],
        ""@ == Seq::<char>::empty(),
{
    reveal_strlit("[");
    reveal_strlit("]");
    reveal_strlit(":");
    reveal_strlit("v");
    reveal_strlit("a");
    reveal_strlit("intro]");
    reveal_strlit("out]");
    reveal_strlit("all");
    reveal_strlit("gsrc");
    reveal_strlit("rsrc");
    reveal_strlit("g");
    reveal_strlit("r");
    reveal_strlit("");
}

/// The letter of a stream tells which stream it is.
proof fn lemma_letter_tells_stream(s: Stream)
    ensures
        stream_letter(s).len() == 1,
        stream_letter(s)[0] == 'v' <==> s == Stream::Video,
        stream_letter(s)[0] == 'a' <==> s == Stream::Audio,
{
    lemma_label_parts();
}

/// What follows the number in a clip's label, closing bracket included,
/// never begins with a digit and tells the role.
proof fn lemma_suffix_tells_role(r: Role, q: Role)
    ensures
        (role_suffix(r) + "]"@).len() > 0,
        !is_digit((role_suffix(r) + "]"@)[0]),
        role_suffix(r) + "]"@ == role_suffix(q) + "]"@ ==> r == q,
{
    lemma_label_parts();
    let a = role_suffix(r) + "]"@;
    let b = role_suffix(q) + "]"@;
    if a == b && r != q {
        assert(a.len() == b.len());
        assert(a[0] == b[0]);
        assert(false);
    }
}

/// The text of the label of an encoder input, taken apart.
proof fn lemma_input_text(index: usize, stream: Stream)
    ensures
        label_text(Label::Input { index, stream }) == seq!['['] + (decimal(index as nat) + (
        seq![':'] + stream_letter(stream) + seq![']'])),
        is_digit(label_text(Label::Input { index, stream })[1]),
{
    lemma_label_parts();
    lemma_decimal_reads_back(index as nat);
    let t = label_text(Label::Input { index, stream });
    assert(t =~= seq!['['] + (decimal(index as nat) + (seq![':'] + stream_letter(stream)
        + seq![']'])));
    assert(t[1] == decimal(index as nat)[0]);
}

/// The text of the label of a clip's stream, taken apart.
proof fn lemma_clip_text(clip: usize, role: Role, stream: Stream)
    ensures
        label_text(Label::Clip { clip, role, stream }) == seq!['['] + stream_letter(stream) + (
        decimal(clip as nat) + (role_suffix(role) + "]"@)),
        label_text(Label::Clip { clip, role, stream })[1] == stream_letter(stream)[0],
        is_digit(label_text(Label::Clip { clip, role, stream })[2]),
{
    lemma_label_parts();
    lemma_decimal_reads_back(clip as nat);
    let t = label_text(Label::Clip { clip, role, stream });
    assert(t =~= seq!['['] + stream_letter(stream) + (decimal(clip as nat) + (role_suffix(role)
        + "]"@)));
    assert(t[2] == decimal(clip as nat)[0]);
}

/// The text of the label of an intro's or the result's stream, taken apart.
proof fn lemma_fixed_texts(stream: Stream)
    ensures
        label_text(Label::Intro { stream })[1] == stream_letter(stream)[0],
        label_text(Label::Intro { stream })[2] == 'i',
        label_text(Label::Output { stream })[1] == stream_letter(stream)[0],
        label_text(Label::Output { stream })[2] == 'o',
{
    lemma_label_parts();
}

/// Two labels that are written alike are the same label: no name in the
/// graph text stands for two streams.
pub proof fn lemma_label_text_is_injective(a: Label, b: Label)
    requires
        label_text(a) == label_text(b),
    ensures
        a == b,
{
    lemma_label_parts();
    match a {
        Label::Input { index, stream } => {
            lemma_input_text(index, stream);
            match b {
                Label::Input { index: index_b, stream: stream_b } => {
                    lemma_input_text(index_b, stream_b);
                    lemma_letter_tells_stream(stream);
                    lemma_letter_tells_stream(stream_b);
                    let rest_a = seq![':'] + stream_letter(stream) + seq![']'];
                    let rest_b = seq![':'] + stream_letter(stream_b) + seq![']'];
                    let tail_a = decimal(index as nat) + rest_a;
                    let tail_b = decimal(index_b as nat) + rest_b;
                    assert(tail_a == label_text(a).skip(1));
                    assert(tail_b == label_text(b).skip(1));
                    assert(rest_a[0] == ':' && rest_b[0] == ':');
                    lemma_numeral_then_rest(index as nat, rest_a, index_b as nat, rest_b);
                    assert(rest_a[1] == stream_letter(stream)[0]);
                    assert(rest_b[1] == stream_letter(stream_b)[0]);
                },
                Label::Intro { stream: stream_b } => {
                    lemma_fixed_texts(stream_b);
                    lemma_letter_tells_stream(stream_b);
                },
                Label::Clip { clip, role, stream: stream_b } => {
                    lemma_clip_text(clip, role, stream_b);
                    lemma_letter_tells_stream(stream_b);
                },
                Label::Output { stream: stream_b } => {
                    lemma_fixed_texts(stream_b);
                    lemma_letter_tells_stream(stream_b);
                },
            }
        },
        Label::Intro { stream } => {
            lemma_fixed_texts(stream);
            lemma_letter_tells_stream(stream);
            match b {
                Label::Input { index, stream: stream_b } => {
                    lemma_input_text(index, stream_b);
                },
                Label::Intro { stream: stream_b } => {
                    lemma_fixed_texts(stream_b);
                    lemma_letter_tells_stream(stream_b);
                },
                Label::Clip { clip, role, stream: stream_b } => {
                    lemma_clip_text(clip, role, stream_b);
                },
                Label::Output { stream: stream_b } => {
                    lemma_fixed_texts(stream_b);
                },
            }
        },
        Label::Clip { clip, role, stream } => {
            lemma_clip_text(clip, role, stream);
            lemma_letter_tells_stream(stream);
            match b {
                Label::Input { index, stream: stream_b } => {
                    lemma_input_text(index, stream_b);
                },
                Label::Intro { stream: stream_b } => {
                    lemma_fixed_texts(stream_b);
                },
                Label::Clip { clip: clip_b, role: role_b, stream: stream_b } => {
                    lemma_clip_text(clip_b, role_b, stream_b);
                    lemma_letter_tells_stream(stream_b);
                    lemma_suffix_tells_role(role, role_b);
                    lemma_suffix_tells_role(role_b, role);
                    let rest_a = role_suffix(role) + "]"@;
                    let rest_b = role_suffix(role_b) + "]"@;
                    let tail_a = decimal(clip as nat) + rest_a;
                    let tail_b = decimal(clip_b as nat) + rest_b;
                    assert(tail_a == label_text(a).skip(2));
                    assert(tail_b == label_text(b).skip(2));
                    lemma_numeral_then_rest(clip as nat, rest_a, clip_b as nat, rest_b);
                },
                Label::Output { stream: stream_b } => {
                    lemma_fixed_texts(stream_b);
                },
            }
        },
        Label::Output { stream } => {
            lemma_fixed_texts(stream);
            lemma_letter_tells_stream(stream);
            match b {
                Label::Input { index, stream: stream_b } => {
                    lemma_input_text(index, stream_b);
                },
                Label::Intro { stream: stream_b } => {
                    lemma_fixed_texts(stream_b);
                },
                Label::Clip { clip, role, stream: stream_b } => {
                    lemma_clip_text(clip, role, stream_b);
                },
                Label::Output { stream: stream_b } => {
                    lemma_fixed_texts(stream_b);
                    lemma_letter_tells_stream(stream_b);
                },
            }
        },
    }
}

} // verus!
