//! A source file as a whole: its lines, the comments in them, and the run
//! of the translator over the commands that are left.

use vstd::prelude::*;
use vstd::string::*;
use crate::command::{CommandView, TranslateError};
use crate::parser::{parse_line, parse_spans, split_words, words, ParseError};
use crate::run::{lemma_replay_first, replay, Action};
use crate::text::chars_of;
use crate::translator::{step, Context, VMTranslator};

verus! {

/// What is wrong with a line.
#[derive(Clone, Copy, Debug, PartialEq, Eq)]
pub enum Fault {
    /// The line is not a command.
    Parse(ParseError),
    /// The line is a command that cannot be translated.
    Translate(TranslateError),
}

/// The first fault of a source file, and where it lies.
#[derive(Debug, PartialEq, Eq)]
pub struct SourceError {
    /// The identifier of the file.
    pub file: String,
    /// The number of the line, counted from 1.
    pub line: usize,
    pub fault: Fault,
}

/// The first position at or after `from` that holds a line feed, or the
/// length of `s` if there is none.
pub open spec fn line_end(s: Seq<char>, from: int) -> int
    decreases s.len() - from,
{
    if from < 0 || from >= s.len() || s[from] == '\n' {
        from
    } else {
        line_end(s, from + 1)
    }
}

/// A line that begins within `s` ends within it, at or after its beginning.
pub proof fn lemma_line_end_bounds(s: Seq<char>, from: int)
    requires
        0 <= from <= s.len(),
    ensures
        from <= line_end(s, from) <= s.len(),
    decreases s.len() - from,
{
    if from < s.len() && s[from] != '\n' {
        lemma_line_end_bounds(s, from + 1);
    }
}

/// The lines of `s` that begin at or after `from`. Each line ends before a
/// line feed or with `s`; after a final line feed no further line begins.
pub open spec fn lines_from(s: Seq<char>, from: int) -> Seq<Seq<char>>
    decreases s.len() + 1 - from,
{
    if from < 0 || from >= s.len() {
        Seq::empty()
    } else {
        proof {
            lemma_line_end_bounds(s, from);
        }
        seq![s.subrange(from, line_end(s, from))] + lines_from(s, line_end(s, from) + 1)
    }
}

/// The lines of a text.
pub open spec fn lines(s: Seq<char>) -> Seq<Seq<char>> {
    lines_from(s, 0)
}

/// The first position at or after `from` where two slashes in a row begin,
/// or the length of the line if there is none.
pub open spec fn comment_start(line: Seq<char>, from: int) -> int
    decreases line.len() - from,
{
    if from < 0 || from + 1 >= line.len() {
        line.len() as int
    } else if line[from] == '/' && line[from + 1] == '/' {
        from
    } else {
        comment_start(line, from + 1)
    }
}

/// A line without its comment, which runs from the first two slashes in a
/// row to the end of the line.
pub open spec fn without_comment(line: Seq<char>) -> Seq<char> {
    line.take(comment_start(line, 0))
}

/// The state after one line: a line that holds no word once its comment is
/// gone changes nothing; any other line is parsed and translated.
pub open spec fn line_step(ctx: Context, line: Seq<char>) -> Result<Context, Fault> {
    let code = without_comment(line);
    if words(code).len() == 0 {
        Ok(ctx)
    } else {
        match parse_line(code) {
            Err(e) => Err(Fault::Parse(e)),
            Ok(c) => match step(ctx, c) {
                Err(e) => Err(Fault::Translate(e)),
                Ok(next) => Ok(next),
            },
        }
    }
}

/// The run over the lines from the one at index `k` on: the state in which
/// it ends, and the number and the fault of the line that stopped it, if one
/// did. A run stops at its first fault.
pub open spec fn run_lines(ctx: Context, text: Seq<Seq<char>>, k: int) -> (Context, Option<
    (int, Fault),
>)
    decreases text.len() - k,
{
    if k < 0 || k >= text.len() {
        (ctx, None)
    } else {
        match line_step(ctx, text[k]) {
            Err(fault) => (ctx, Some((k + 1, fault))),
            Ok(next) => run_lines(next, text, k + 1),
        }
    }
}

/// The command that a line holds, if it holds one.
pub open spec fn command_of(line: Seq<char>) -> Option<CommandView> {
    let code = without_comment(line);
    if words(code).len() == 0 {
        None
    } else {
        match parse_line(code) {
            Ok(c) => Some(c),
            Err(_) => None,
        }
    }
}

/// What is done with the translator for the lines from the one at index `k`
/// on: the command of each line that holds one is translated.
pub open spec fn actions_from(text: Seq<Seq<char>>, k: int) -> Seq<Action>
    decreases text.len() - k,
{
    if k < 0 || k >= text.len() {
        Seq::empty()
    } else {
        match command_of(text[k]) {
            Some(c) => seq![Action::Emit(c)] + actions_from(text, k + 1),
            None => actions_from(text, k + 1),
        }
    }
}

/// The run over the lines of a text that no line stops is the run of the
/// translator through the commands of the lines, in order.
pub proof fn lemma_lines_are_actions(ctx: Context, text: Seq<Seq<char>>, k: int)
    requires
        0 <= k <= text.len(),
        run_lines(ctx, text, k).1 is None,
    ensures
        replay(ctx, actions_from(text, k)) == Ok::<Context, TranslateError>(
            run_lines(ctx, text, k).0,
        ),
    decreases text.len() - k,
{
    if k < text.len() {
        let next = line_step(ctx, text[k])->Ok_0;
        lemma_lines_are_actions(next, text, k + 1);
        match command_of(text[k]) {
            Some(c) => {
                lemma_replay_first(ctx, Action::Emit(c), actions_from(text, k + 1));
            },
            None => {},
        }
    }
}

/// A line leaves the identifier of the current file as it is.
pub proof fn lemma_step_keeps_file(ctx: Context, line: Seq<char>)
    ensures
        line_step(ctx, line) matches Ok(next) ==> next.file == ctx.file,
{
}

/// Finds where the comment begins among the characters from `from` up to
/// `to`, or `to` if there is none.
fn find_comment(chars: &Vec<char>, from: usize, to: usize) -> (at: usize)
    requires
        from <= to <= chars.len(),
    ensures
        from <= at <= to,
        at - from == comment_start(chars@.subrange(from as int, to as int), 0),
{
    let ghost line = chars@.subrange(from as int, to as int);
    let mut i: usize = from;
    while to - i >= 2
        invariant
            from <= i <= to <= chars.len(),
            line == chars@.subrange(from as int, to as int),
            comment_start(line, i - from) == comment_start(line, 0),
        decreases to - i,
    {
        if chars[i] == '/' && chars[i + 1] == '/' {
            return i;
        }
        i += 1;
    }
    to
}

/// Finds where the line that begins at `from` ends.
fn find_line_end(chars: &Vec<char>, from: usize) -> (at: usize)
    requires
        from <= chars.len(),
    ensures
        from <= at <= chars.len(),
        at == line_end(chars@, from as int),
{
    let mut i: usize = from;
    while i < chars.len() && chars[i] != '\n'
        invariant
            from <= i <= chars.len(),
            line_end(chars@, i as int) == line_end(chars@, from as int),
        decreases chars.len() - i,
    {
        i += 1;
    }
    i
}

/// Translates the line made of the characters from `from` up to `to`.
fn write_line(translator: &mut VMTranslator, chars: &Vec<char>, from: usize, to: usize) -> (r:
    Result<(), Fault>)
    requires
        from <= to <= chars.len(),
    ensures
        match line_step(old(translator)@, chars@.subrange(from as int, to as int)) {
            Ok(next) => r is Ok && final(translator)@ == next,
            Err(fault) => r == Err::<(), Fault>(fault) && final(translator)@ == old(translator)@,
        },
{
    let ghost line = chars@.subrange(from as int, to as int);
    let stop = find_comment(chars, from, to);
    assert(chars@.subrange(from as int, stop as int) =~= without_comment(line));
    let spans = split_words(chars, from, stop);
    assert(words(without_comment(line)).len() == spans@.len());
    if spans.len() == 0 {
        return Ok(());
    }
    match parse_spans(chars, &spans) {
        Err(e) => Err(Fault::Parse(e)),
        Ok(command) => match translator.write_asm(command) {
            Err(e) => Err(Fault::Translate(e)),
            Ok(_) => Ok(()),
        },
    }
}

/// Translates the commands of a source text, line by line, and writes their
/// assembly.
///
/// Comments and lines without a command are passed over. The run stops at
/// the first line that is not a command or cannot be translated, and reports
/// it with its number; what the lines before it wrote stays written.
pub fn write_file_asm(translator: &mut VMTranslator, content: &str) -> (r: Result<
    (),
    SourceError,
>)
    ensures
        final(translator)@ == run_lines(old(translator)@, lines(content@), 0).0,
        match run_lines(old(translator)@, lines(content@), 0).1 {
            None => r is Ok,
            Some((number, fault)) => r is Err && r->Err_0.file@ == old(translator)@.file
                && r->Err_0.line == number && r->Err_0.fault == fault,
        },
{
    let chars = chars_of(content);
    let ghost s = content@;
    let ghost all = lines(s);
    let ghost start = translator@;
    let mut from: usize = 0;
    let mut k: usize = 0;
    assert(all.take(0) + lines_from(s, 0) =~= all);
    while from < chars.len()
        invariant
            chars@ == s,
            s == content@,
            start == old(translator)@,
            all == lines(s),
            k <= from <= chars.len(),
            k <= all.len(),
            all.take(k as int) + lines_from(s, from as int) == all,
            run_lines(translator@, all, k as int) == run_lines(start, all, 0),
            translator@.file == start.file,
        decreases chars.len() - from,
    {
        let end = find_line_end(&chars, from);
        let ghost line = s.subrange(from as int, end as int);
        let ghost before = translator@;
        proof {
            assert(lines_from(s, from as int) == seq![line] + lines_from(s, end + 1));
            assert(all.len() == k + lines_from(s, from as int).len());
            assert(all[k as int] == (all.take(k as int) + lines_from(s, from as int))[k as int]);
            assert(all[k as int] == line);
            assert(all.take(k + 1) =~= all.take(k as int) + seq![line]);
            assert(all.take(k + 1) + lines_from(s, end + 1) =~= all.take(k as int) + (seq![line]
                + lines_from(s, end + 1)));
        }
        match write_line(translator, &chars, from, end) {
            Err(fault) => {
                assert(run_lines(before, all, k as int) == (before, Some((k + 1, fault))));
                return Err(
                    SourceError { file: String::from_str(translator.file()), line: k + 1, fault },
                );
            },
            Ok(_) => {
                assert(run_lines(before, all, k as int) == run_lines(translator@, all, k + 1));
                proof {
                    lemma_step_keeps_file(before, line);
                }
            },
        }
        if end == chars.len() {
            assert(lines_from(s, end + 1) =~= lines_from(s, end as int));
            from = end;
        } else {
            from = end + 1;
        }
        k += 1;
    }
    assert(lines_from(s, from as int) =~= Seq::<Seq<char>>::empty());
    assert(all.take(k as int) =~= all);
    Ok(())
}

} // verus!
