//! The outside programs: how each is called, and what is read from its output.

use vstd::prelude::*;
use vstd::string::{StrSliceExecFns, StringExecFns};
use crate::engine::{Action, ActionView};
use crate::text::{
    chars_of, contains, decimal, holds_token, lemma_line_len, lemma_run_len, line_end, lines,
    run_end, to_decimal, words,
};

verus! {

/// A program and the arguments it is started with.
#[derive(Debug)]
pub struct Invocation {
    pub program: String,
    pub arguments: Vec<String>,
}

/// An `Invocation` with its texts as sequences of characters.
pub struct InvocationView {
    pub program: Seq<char>,
    pub arguments: Seq<Seq<char>>,
}

/// The texts of `items`, in order.
pub open spec fn texts(items: Seq<String>) -> Seq<Seq<char>> {
    Seq::new(items.len(), |i: int| items[i]@)
}

impl View for Invocation {
    type V = InvocationView;

    open spec fn view(&self) -> InvocationView {
        InvocationView { program: self.program@, arguments: texts(self.arguments@) }
    }
}

/// `convert <source> -rotate <degrees> <target>`
pub open spec fn converter_call(source: Seq<char>, degrees: nat, target: Seq<char>)
    -> InvocationView {
    InvocationView {
        program: "convert"@,
        arguments: seq![source, "-rotate"@, decimal(degrees), target],
    }
}

/// `swww img --outputs <monitor> <path>`
pub open spec fn daemon_call(monitor: Seq<char>, path: Seq<char>) -> InvocationView {
    InvocationView { program: "swww"@, arguments: seq!["img"@, "--outputs"@, monitor, path] }
}

/// `hyprctl monitors`
pub open spec fn monitor_query_call() -> InvocationView {
    InvocationView { program: "hyprctl"@, arguments: seq!["monitors"@] }
}

impl ActionView {
    /// The program to run for this step; none for a step that runs no program.
    pub open spec fn invocation(self) -> Option<InvocationView> {
        match self {
            ActionView::Rotate { source, degrees, target } => Some(
                converter_call(source, degrees, target),
            ),
            ActionView::Show { monitor, path } => Some(daemon_call(monitor, path)),
            _ => None,
        }
    }
}

/// The call that has the converter write `source`, turned by `degrees`, to `target`.
pub fn converter_invocation(source: &str, degrees: u32, target: &str) -> (call: Invocation)
    ensures
        call@ == converter_call(source@, degrees as nat, target@),
{
    let mut arguments: Vec<String> = Vec::new();
    arguments.push(String::from_str(source));
    arguments.push(String::from_str("-rotate"));
    arguments.push(to_decimal(degrees));
    arguments.push(String::from_str(target));
    let call = Invocation { program: String::from_str("convert"), arguments };
    assert(call@.arguments =~= converter_call(source@, degrees as nat, target@).arguments);
    call
}

/// The call that has the daemon show the file at `path` on `monitor` and on no other.
pub fn daemon_invocation(monitor: &str, path: &str) -> (call: Invocation)
    ensures
        call@ == daemon_call(monitor@, path@),
{
    let mut arguments: Vec<String> = Vec::new();
    arguments.push(String::from_str("img"));
    arguments.push(String::from_str("--outputs"));
    arguments.push(String::from_str(monitor));
    arguments.push(String::from_str(path));
    let call = Invocation { program: String::from_str("swww"), arguments };
    assert(call@.arguments =~= daemon_call(monitor@, path@).arguments);
    call
}

/// The call that asks the compositor for its monitors.
pub fn monitor_query() -> (call: Invocation)
    ensures
        call@ == monitor_query_call(),
{
    let mut arguments: Vec<String> = Vec::new();
    arguments.push(String::from_str("monitors"));
    let call = Invocation { program: String::from_str("hyprctl"), arguments };
    assert(call@.arguments =~= monitor_query_call().arguments);
    call
}

impl Action {
    /// The program to run for this step; none for a step that runs no program.
    pub fn invocation(&self) -> (call: Option<Invocation>)
        ensures
            match call {
                Some(call) => self@.invocation() == Some(call@),
                None => self@.invocation() is None,
            },
    {
        match self {
            Action::Rotate { source, degrees, target } => Some(
                converter_invocation(source.as_str(), *degrees, target.as_str()),
            ),
            Action::Show { monitor, path } => Some(
                daemon_invocation(monitor.as_str(), path.as_str()),
            ),
            _ => None,
        }
    }
}

/// The word by which the compositor marks a line that describes a monitor.
pub open spec fn monitor_token() -> Seq<char> {
    "Monitor"@
}

/// The monitor that `line` names: its second word, where the line holds the word
/// `Monitor` somewhere and has a second word.
pub open spec fn monitor_of(line: Seq<char>) -> Option<Seq<char>> {
    if contains(line, monitor_token()) && words(line).len() >= 2 {
        Some(words(line)[1])
    } else {
        None
    }
}

/// The monitors that `lines` name, in order.
pub open spec fn monitors_of(lines: Seq<Seq<char>>) -> Seq<Seq<char>>
    decreases lines.len(),
{
    if lines.len() == 0 {
        Seq::empty()
    } else {
        match monitor_of(lines[0]) {
            Some(monitor) => seq![monitor] + monitors_of(lines.drop_first()),
            None => monitors_of(lines.drop_first()),
        }
    }
}

/// The monitors that the compositor's answer names, in the order of its lines.
pub open spec fn monitors_in(output: Seq<char>) -> Seq<Seq<char>> {
    monitors_of(lines(output))
}

/// Where the second word of `line` stands, if it has one.
fn second_word(line: &Vec<char>) -> (bounds: Option<(usize, usize)>)
    ensures
        match bounds {
            Some((from, to)) => {
                &&& from < to <= line@.len()
                &&& words(line@).len() >= 2
                &&& words(line@)[1] == line@.subrange(from as int, to as int)
            },
            None => words(line@).len() < 2,
        },
{
    let ghost s = line@;
    let a = run_end(line, 0, true);
    let b = run_end(line, a, false);
    let c = run_end(line, b, true);
    let d = run_end(line, c, false);
    proof {
        assert(s.skip(0) =~= s);
        let first = s.skip(a as int);
        let second = s.skip(c as int);
        lemma_run_len(s, true);
        lemma_run_len(first, false);
        lemma_run_len(s.skip(b as int), true);
        lemma_run_len(second, false);
        assert(first.skip(b - a) =~= s.skip(b as int));
        assert(s.skip(b as int).skip(c - b) =~= second);
        if first.len() > 0 {
            let rest = s.skip(b as int);
            assert(words(s) == seq![first.take(b - a)] + words(rest));
            if second.len() > 0 {
                assert(second[0] == s[c as int]);
                assert(words(rest) == seq![second.take(d - c)] + words(second.skip(d - c)));
                assert(second.take(d - c) =~= s.subrange(c as int, d as int));
                assert(words(s)[1] == words(rest)[0]);
            } else {
                assert(words(rest).len() == 0);
            }
        }
    }
    if c < d {
        Some((c, d))
    } else {
        None
    }
}

/// The characters of `chars` from `from` up to `to`.
fn stretch(chars: &Vec<char>, from: usize, to: usize) -> (part: Vec<char>)
    requires
        from <= to <= chars@.len(),
    ensures
        part@ == chars@.subrange(from as int, to as int),
{
    let mut part: Vec<char> = Vec::new();
    let mut i: usize = from;
    while i < to
        invariant
            from <= i <= to <= chars@.len(),
            part@ == chars@.subrange(from as int, i as int),
        decreases to - i,
    {
        part.push(chars[i]);
        assert(part@ =~= chars@.subrange(from as int, i + 1));
        i += 1;
    }
    part
}

/// Reads the monitors from the compositor's answer to the monitor query: of every
/// line that holds the word `Monitor`, the second word.
pub fn parse_monitors(output: &str) -> (monitors: Vec<String>)
    ensures
        texts(monitors@) == monitors_in(output@),
{
    let chars = chars_of(output);
    let token = chars_of("Monitor");
    let mut monitors: Vec<String> = Vec::new();
    let mut at: usize = 0;
    proof {
        assert(chars@.skip(0) =~= chars@);
        assert(texts(monitors@) =~= Seq::<Seq<char>>::empty());
    }
    while at < chars.len()
        invariant
            at <= chars@.len(),
            chars@ == output@,
            token@ == monitor_token(),
            texts(monitors@) + monitors_in(chars@.skip(at as int)) == monitors_in(chars@),
        decreases chars@.len() - at,
    {
        let ghost rest = chars@.skip(at as int);
        let end = line_end(&chars, at);
        let line = stretch(&chars, at, end);
        let next = if end < chars.len() {
            end + 1
        } else {
            end
        };
        proof {
            lemma_line_len(rest);
            assert(line@ =~= rest.take(end - at));
            if end < chars@.len() {
                assert(rest.skip(end - at + 1) =~= chars@.skip(next as int));
                assert(lines(rest) == seq![line@] + lines(chars@.skip(next as int)));
            } else {
                assert(line@ =~= rest);
                assert(lines(chars@.skip(next as int)) =~= Seq::<Seq<char>>::empty());
                assert(lines(rest) =~= seq![line@] + lines(chars@.skip(next as int)));
            }
            assert(lines(rest).drop_first() =~= lines(chars@.skip(next as int)));
        }
        let named = holds_token(&line, &token);
        let ghost before = monitors@;
        match second_word(&line) {
            Some((from, to)) if named => {
                monitors.push(String::from_str(output.substring_char(at + from, at + to)));
                proof {
                    let monitor = line@.subrange(from as int, to as int);
                    assert(output@.subrange(at + from, at + to) =~= monitor);
                    assert(texts(monitors@) =~= texts(before).push(monitor));
                    assert(texts(monitors@) + monitors_in(chars@.skip(next as int)) =~= texts(
                        before,
                    ) + (seq![monitor] + monitors_in(chars@.skip(next as int))));
                }
            },
            _ => {},
        }
        at = next;
    }
    proof {
        assert(monitors_in(chars@.skip(at as int)) =~= Seq::<Seq<char>>::empty());
        assert(texts(monitors@) + Seq::<Seq<char>>::empty() =~= texts(monitors@));
    }
    monitors
}

} // verus!
