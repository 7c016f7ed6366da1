//! A command as one line of text, for display.
//!
//! The line is meant to be read, not parsed back.

use vstd::prelude::*;
use vstd::string::*;
use crate::ffmpeg_command::{CommandSpec, CommandSpecView};
use crate::text::{chars_of, is_white_space, is_whitespace};

verus! {

/// Whether an argument is shown between double quotes: it holds whitespace
/// or a double quote.
pub open spec fn needs_quotes(s: Seq<char>) -> bool {
    exists|i: int| 0 <= i < s.len() && (is_white_space(#[trigger] s[i]) || s[i] == '"')
}

/// `s` with a backslash before each double quote.
pub open spec fn escape_quotes(s: Seq<char>) -> Seq<char>
    decreases s.len(),
{
    if s.len() == 0 {
        Seq::empty()
    } else if s.last() == '"' {
        escape_quotes(s.drop_last()).push('\\').push('"')
    } else {
        escape_quotes(s.drop_last()).push(s.last())
    }
}

/// An argument as it is shown.
pub open spec fn quoted_arg(s: Seq<char>) -> Seq<char> {
    if needs_quotes(s) {
        seq!['"'] + escape_quotes(s) + seq!['"']
    } else {
        s
    }
}

/// The program followed by the first `n` arguments as they are shown, each
/// after one space.
pub open spec fn command_line(program: Seq<char>, args: Seq<Seq<char>>, n: nat) -> Seq<char>
    recommends
        n <= args.len(),
    decreases n,
{
    if n == 0 {
        program
    } else {
        command_line(program, args, (n - 1) as nat).push(' ') + quoted_arg(args[n - 1])
    }
}

/// A command as one line.
pub open spec fn command_text(command: CommandSpecView) -> Seq<char> {
    command_line(command.program, command.args, command.args.len())
}

/// Shows one argument: as it is, or between double quotes with its own double
/// quotes escaped where it holds whitespace or a double quote.
pub fn quote_arg(arg: &str) -> (r: String)
    ensures
        r@ == quoted_arg(arg@),
{
    let chars = chars_of(arg);
    let mut found = false;
    let mut i: usize = 0;
    while i < chars.len() && !found
        invariant
            i <= chars.len(),
            !found ==> forall|j: int|
                0 <= j < i ==> !(is_white_space(#[trigger] chars@[j]) || chars@[j] == '"'),
            found ==> needs_quotes(chars@),
        decreases chars.len() - i + if found { 0int } else { 1int },
    {
        if is_whitespace(chars[i]) || chars[i] == '"' {
            found = true;
        } else {
            i = i + 1;
        }
    }
    if !found {
        return String::from_str(arg);
    }
    let mut r = String::from_str("\"");
    let ghost open = r@;
    let mut k: usize = 0;
    while k < chars.len()
        invariant
            k <= chars.len(),
            r@ == open + escape_quotes(chars@.take(k as int)),
        decreases chars.len() - k,
    {
        proof {
            assert(chars@.take(k + 1).drop_last() == chars@.take(k as int));
        }
        if chars[k] == '"' {
            r.push('\\');
        }
        r.push(chars[k]);
        k = k + 1;
    }
    proof {
        assert(chars@.take(k as int) == chars@);
        reveal_strlit("\"");
    }
    r.push('"');
    r
}

/// Shows a command as one line: the program, then each argument after a
/// space, quoted where it needs to be.
pub fn format_command(spec: &CommandSpec) -> (s: String)
    ensures
        s@ == command_text(spec@),
{
    let mut s = spec.program.clone();
    let mut i: usize = 0;
    while i < spec.args.len()
        invariant
            i <= spec.args.len(),
            s@ == command_line(spec@.program, spec@.args, i as nat),
        decreases spec.args.len() - i,
    {
        s.push(' ');
        let shown = quote_arg(spec.args[i].as_str());
        s.append(shown.as_str());
        i = i + 1;
    }
    s
}

} // verus!
