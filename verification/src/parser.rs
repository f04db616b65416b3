//! The parser: from one line of source text to one command.
//!
//! A line is a sequence of words separated by white space. The first word
//! names the command, and the words after it are the command's arguments.

use vstd::prelude::*;
use crate::command::{Command, CommandView, MemorySegment};
use crate::text::{
    chars_of,
    is_space,
    is_whitespace,
    numeral_u16,
    parse_numeral,
    spells,
    string_of,
};

verus! {

/// Why a line is not a command.
#[derive(Clone, Copy, Debug, PartialEq, Eq)]
pub enum ParseError {
    /// The line holds no word.
    Empty,
    /// The first word names no command.
    UnknownCommand,
    /// The line ends before the command has all its arguments.
    MissingArgument,
    /// The word in the place of a segment names no segment.
    UnknownSegment,
    /// The word in the place of a number is not a 16-bit number.
    InvalidNumber,
    /// The line goes on after the command's last argument.
    ExtraArgument,
}

/// The words that name a command.
#[derive(Clone, Copy, Debug, PartialEq, Eq)]
pub enum Opcode {
    Push,
    Pop,
    Add,
    Sub,
    Neg,
    Not,
    Or,
    And,
    Eq,
    Lt,
    Gt,
    Label,
    Goto,
    IfGoto,
    Function,
    Call,
    Return,
}

/// The first position at or after `from` that holds white space, or the
/// length of `s` if there is none.
pub open spec fn word_end(s: Seq<char>, from: int) -> int
    decreases s.len() - from,
{
    if from < 0 || from >= s.len() || is_space(s[from]) {
        from
    } else {
        word_end(s, from + 1)
    }
}

/// A word that begins within `s` ends within it, at or after its beginning.
pub proof fn lemma_word_end_bounds(s: Seq<char>, from: int)
    requires
        0 <= from <= s.len(),
    ensures
        from <= word_end(s, from) <= s.len(),
    decreases s.len() - from,
{
    if from < s.len() && !is_space(s[from]) {
        lemma_word_end_bounds(s, from + 1);
    }
}

/// The words of `s` that begin at or after `from`: the maximal runs of
/// characters that are not white space, in order.
pub open spec fn words_from(s: Seq<char>, from: int) -> Seq<Seq<char>>
    decreases s.len() - from,
{
    if from < 0 || from >= s.len() {
        Seq::empty()
    } else if is_space(s[from]) {
        words_from(s, from + 1)
    } else {
        proof {
            lemma_word_end_bounds(s, from + 1);
        }
        seq![s.subrange(from, word_end(s, from + 1))] + words_from(s, word_end(s, from + 1))
    }
}

/// The words of a line.
pub open spec fn words(s: Seq<char>) -> Seq<Seq<char>> {
    words_from(s, 0)
}

/// The command that a word names.
pub open spec fn opcode_named(w: Seq<char>) -> Option<Opcode> {
    if w == "push"@ {
        Some(Opcode::Push)
    } else if w == "pop"@ {
        Some(Opcode::Pop)
    } else if w == "add"@ {
        Some(Opcode::Add)
    } else if w == "sub"@ {
        Some(Opcode::Sub)
    } else if w == "neg"@ {
        Some(Opcode::Neg)
    } else if w == "not"@ {
        Some(Opcode::Not)
    } else if w == "or"@ {
        Some(Opcode::Or)
    } else if w == "and"@ {
        Some(Opcode::And)
    } else if w == "eq"@ {
        Some(Opcode::Eq)
    } else if w == "lt"@ {
        Some(Opcode::Lt)
    } else if w == "gt"@ {
        Some(Opcode::Gt)
    } else if w == "label"@ {
        Some(Opcode::Label)
    } else if w == "goto"@ {
        Some(Opcode::Goto)
    } else if w == "if-goto"@ {
        Some(Opcode::IfGoto)
    } else if w == "function"@ {
        Some(Opcode::Function)
    } else if w == "call"@ {
        Some(Opcode::Call)
    } else if w == "return"@ {
        Some(Opcode::Return)
    } else {
        None
    }
}

/// The segment that a word names.
pub open spec fn segment_named(w: Seq<char>) -> Option<MemorySegment> {
    if w == "local"@ {
        Some(MemorySegment::Local)
    } else if w == "argument"@ {
        Some(MemorySegment::Argument)
    } else if w == "this"@ {
        Some(MemorySegment::This)
    } else if w == "that"@ {
        Some(MemorySegment::That)
    } else if w == "constant"@ {
        Some(MemorySegment::Constant)
    } else if w == "static"@ {
        Some(MemorySegment::Static)
    } else if w == "temp"@ {
        Some(MemorySegment::Temp)
    } else if w == "pointer"@ {
        Some(MemorySegment::Pointer)
    } else {
        None
    }
}

/// The command `c`, which takes `n` words, unless the line has more.
pub open spec fn complete(w: Seq<Seq<char>>, n: int, c: CommandView) -> Result<
    CommandView,
    ParseError,
> {
    if w.len() > n {
        Err(ParseError::ExtraArgument)
    } else {
        Ok(c)
    }
}

/// A command that takes a segment and an offset.
pub open spec fn memory_access(op: Opcode, w: Seq<Seq<char>>) -> Result<CommandView, ParseError> {
    if w.len() < 2 {
        Err(ParseError::MissingArgument)
    } else {
        match segment_named(w[1]) {
            None => Err(ParseError::UnknownSegment),
            Some(segment) => if w.len() < 3 {
                Err(ParseError::MissingArgument)
            } else {
                match numeral_u16(w[2]) {
                    None => Err(ParseError::InvalidNumber),
                    Some(offset) => complete(
                        w,
                        3,
                        if op == Opcode::Push {
                            CommandView::Push(segment, offset)
                        } else {
                            CommandView::Pop(segment, offset)
                        },
                    ),
                }
            },
        }
    }
}

/// A command that takes a label.
pub open spec fn branching(op: Opcode, w: Seq<Seq<char>>) -> Result<CommandView, ParseError> {
    if w.len() < 2 {
        Err(ParseError::MissingArgument)
    } else {
        complete(
            w,
            2,
            match op {
                Opcode::Label => CommandView::Label(w[1]),
                Opcode::Goto => CommandView::Goto(w[1]),
                _ => CommandView::IfGoto(w[1]),
            },
        )
    }
}

/// A command that takes the name of a function and a count.
pub open spec fn function_use(op: Opcode, w: Seq<Seq<char>>) -> Result<CommandView, ParseError> {
    if w.len() < 3 {
        Err(ParseError::MissingArgument)
    } else {
        match numeral_u16(w[2]) {
            None => Err(ParseError::InvalidNumber),
            Some(count) => complete(
                w,
                3,
                if op == Opcode::Function {
                    CommandView::Function(w[1], count)
                } else {
                    CommandView::Call(w[1], count)
                },
            ),
        }
    }
}

/// The command that a sequence of words spells, or the first fault met when
/// the words are read from left to right.
pub open spec fn parse_words(w: Seq<Seq<char>>) -> Result<CommandView, ParseError> {
    if w.len() == 0 {
        Err(ParseError::Empty)
    } else {
        match opcode_named(w[0]) {
            None => Err(ParseError::UnknownCommand),
            Some(op) => match op {
                Opcode::Push | Opcode::Pop => memory_access(op, w),
                Opcode::Add => complete(w, 1, CommandView::Add),
                Opcode::Sub => complete(w, 1, CommandView::Sub),
                Opcode::Neg => complete(w, 1, CommandView::Neg),
                Opcode::Not => complete(w, 1, CommandView::Not),
                Opcode::Or => complete(w, 1, CommandView::Or),
                Opcode::And => complete(w, 1, CommandView::And),
                Opcode::Eq => complete(w, 1, CommandView::Eq),
                Opcode::Lt => complete(w, 1, CommandView::Lt),
                Opcode::Gt => complete(w, 1, CommandView::Gt),
                Opcode::Return => complete(w, 1, CommandView::Return),
                Opcode::Label | Opcode::Goto | Opcode::IfGoto => branching(op, w),
                Opcode::Function | Opcode::Call => function_use(op, w),
            },
        }
    }
}

/// The command that a line spells, or why it spells none.
pub open spec fn parse_line(line: Seq<char>) -> Result<CommandView, ParseError> {
    parse_words(words(line))
}

/// The words that the given spans cut out of `chars`.
pub open spec fn span_words(chars: Seq<char>, spans: Seq<(usize, usize)>) -> Seq<Seq<char>> {
    Seq::new(spans.len(), |k: int| chars.subrange(spans[k].0 as int, spans[k].1 as int))
}

/// Whether every span lies within the characters from `from` up to `to`.
pub open spec fn spans_within(spans: Seq<(usize, usize)>, from: int, to: int) -> bool {
    forall|k: int| 0 <= k < spans.len() ==> from <= (#[trigger] spans[k]).0 <= spans[k].1 <= to
}

/// Finds the words among the characters from `from` up to `to`, each as
/// the positions where it begins and ends.
pub(crate) fn split_words(chars: &Vec<char>, from: usize, to: usize) -> (spans: Vec<(usize, usize)>)
    requires
        from <= to <= chars.len(),
    ensures
        spans_within(spans@, from as int, to as int),
        span_words(chars@, spans@) == words(chars@.subrange(from as int, to as int)),
{
    let ghost s = chars@.subrange(from as int, to as int);
    let mut spans: Vec<(usize, usize)> = Vec::new();
    let mut i: usize = from;
    assert(span_words(chars@, spans@) + words_from(s, 0) =~= words(s));
    while i < to
        invariant
            from <= i <= to <= chars.len(),
            s == chars@.subrange(from as int, to as int),
            spans_within(spans@, from as int, to as int),
            span_words(chars@, spans@) + words_from(s, i - from) == words(s),
        decreases to - i,
    {
        if is_whitespace(chars[i]) {
            i += 1;
        } else {
            let mut j: usize = i + 1;
            while j < to && !is_whitespace(chars[j])
                invariant
                    from <= i < j <= to <= chars.len(),
                    s == chars@.subrange(from as int, to as int),
                    word_end(s, j - from) == word_end(s, i + 1 - from),
                decreases to - j,
            {
                j += 1;
            }
            proof {
                let found = span_words(chars@, spans@);
                let word = s.subrange(i - from, j - from);
                assert(word_end(s, j - from) == j - from);
                assert(words_from(s, i - from) == seq![word] + words_from(s, j - from));
                assert(word =~= chars@.subrange(i as int, j as int));
                assert(span_words(chars@, spans@.push((i, j))) =~= found + seq![word]);
                assert((found + seq![word]) + words_from(s, j - from) =~= found + (seq![word]
                    + words_from(s, j - from)));
            }
            spans.push((i, j));
            i = j;
        }
    }
    assert(span_words(chars@, spans@) + words_from(s, to - from) =~= span_words(chars@, spans@));
    spans
}

fn opcode(chars: &Vec<char>, from: usize, to: usize) -> (r: Option<Opcode>)
    requires
        from <= to <= chars.len(),
    ensures
        r == opcode_named(chars@.subrange(from as int, to as int)),
{
    if spells(chars, from, to, "push") {
        Some(Opcode::Push)
    } else if spells(chars, from, to, "pop") {
        Some(Opcode::Pop)
    } else if spells(chars, from, to, "add") {
        Some(Opcode::Add)
    } else if spells(chars, from, to, "sub") {
        Some(Opcode::Sub)
    } else if spells(chars, from, to, "neg") {
        Some(Opcode::Neg)
    } else if spells(chars, from, to, "not") {
        Some(Opcode::Not)
    } else if spells(chars, from, to, "or") {
        Some(Opcode::Or)
    } else if spells(chars, from, to, "and") {
        Some(Opcode::And)
    } else if spells(chars, from, to, "eq") {
        Some(Opcode::Eq)
    } else if spells(chars, from, to, "lt") {
        Some(Opcode::Lt)
    } else if spells(chars, from, to, "gt") {
        Some(Opcode::Gt)
    } else if spells(chars, from, to, "label") {
        Some(Opcode::Label)
    } else if spells(chars, from, to, "goto") {
        Some(Opcode::Goto)
    } else if spells(chars, from, to, "if-goto") {
        Some(Opcode::IfGoto)
    } else if spells(chars, from, to, "function") {
        Some(Opcode::Function)
    } else if spells(chars, from, to, "call") {
        Some(Opcode::Call)
    } else if spells(chars, from, to, "return") {
        Some(Opcode::Return)
    } else {
        None
    }
}

fn segment(chars: &Vec<char>, from: usize, to: usize) -> (r: Option<MemorySegment>)
    requires
        from <= to <= chars.len(),
    ensures
        r == segment_named(chars@.subrange(from as int, to as int)),
{
    if spells(chars, from, to, "local") {
        Some(MemorySegment::Local)
    } else if spells(chars, from, to, "argument") {
        Some(MemorySegment::Argument)
    } else if spells(chars, from, to, "this") {
        Some(MemorySegment::This)
    } else if spells(chars, from, to, "that") {
        Some(MemorySegment::That)
    } else if spells(chars, from, to, "constant") {
        Some(MemorySegment::Constant)
    } else if spells(chars, from, to, "static") {
        Some(MemorySegment::Static)
    } else if spells(chars, from, to, "temp") {
        Some(MemorySegment::Temp)
    } else if spells(chars, from, to, "pointer") {
        Some(MemorySegment::Pointer)
    } else {
        None
    }
}

impl MemorySegment {
    /// The segment that `s` names.
    pub fn from_str(s: &str) -> (r: Result<MemorySegment, ParseError>)
        ensures
            match segment_named(s@) {
                Some(segment) => r == Ok::<MemorySegment, ParseError>(segment),
                None => r == Err::<MemorySegment, ParseError>(ParseError::UnknownSegment),
            },
    {
        let chars = chars_of(s);
        assert(chars@.subrange(0, chars@.len() as int) =~= s@);
        match segment(&chars, 0, chars.len()) {
            Some(segment) => Ok(segment),
            None => Err(ParseError::UnknownSegment),
        }
    }
}

/// Whether a parser's answer is the one that the grammar gives.
pub open spec fn agrees(r: Result<Command, ParseError>, expected: Result<CommandView, ParseError>) -> bool {
    match expected {
        Ok(c) => r is Ok && r->Ok_0@ == c,
        Err(e) => r is Err && r->Err_0 == e,
    }
}

/// Reads the words that `spans` cuts out of `chars` as one command.
pub(crate) fn parse_spans(chars: &Vec<char>, spans: &Vec<(usize, usize)>) -> (r: Result<
    Command,
    ParseError,
>)
    requires
        spans_within(spans@, 0, chars@.len() as int),
    ensures
        agrees(r, parse_words(span_words(chars@, spans@))),
{
    let ghost w = span_words(chars@, spans@);
    let n: usize = spans.len();
    assert(forall|k: int| 0 <= k < n ==> 0 <= (#[trigger] spans@[k]).0 <= spans@[k].1 <= chars@.len());
    if n == 0 {
        return Err(ParseError::Empty);
    }
    let op = match opcode(chars, spans[0].0, spans[0].1) {
        None => {
            return Err(ParseError::UnknownCommand);
        },
        Some(op) => op,
    };
    match op {
        Opcode::Push | Opcode::Pop => {
            if n < 2 {
                return Err(ParseError::MissingArgument);
            }
            let place = match segment(chars, spans[1].0, spans[1].1) {
                None => {
                    return Err(ParseError::UnknownSegment);
                },
                Some(place) => place,
            };
            if n < 3 {
                return Err(ParseError::MissingArgument);
            }
            let offset: u16 = match parse_numeral(chars, spans[2].0, spans[2].1) {
                None => {
                    return Err(ParseError::InvalidNumber);
                },
                Some(offset) => offset,
            };
            if n > 3 {
                return Err(ParseError::ExtraArgument);
            }
            match op {
                Opcode::Push => Ok(Command::Push(place, offset)),
                _ => Ok(Command::Pop(place, offset)),
            }
        },
        Opcode::Label | Opcode::Goto | Opcode::IfGoto => {
            if n < 2 {
                return Err(ParseError::MissingArgument);
            }
            if n > 2 {
                return Err(ParseError::ExtraArgument);
            }
            let name = string_of(chars, spans[1].0, spans[1].1);
            match op {
                Opcode::Label => Ok(Command::Label(name)),
                Opcode::Goto => Ok(Command::Goto(name)),
                _ => Ok(Command::IfGoto(name)),
            }
        },
        Opcode::Function | Opcode::Call => {
            if n < 3 {
                return Err(ParseError::MissingArgument);
            }
            let count: u16 = match parse_numeral(chars, spans[2].0, spans[2].1) {
                None => {
                    return Err(ParseError::InvalidNumber);
                },
                Some(count) => count,
            };
            if n > 3 {
                return Err(ParseError::ExtraArgument);
            }
            let name = string_of(chars, spans[1].0, spans[1].1);
            match op {
                Opcode::Function => Ok(Command::Function(name, count)),
                _ => Ok(Command::Call(name, count)),
            }
        },
        _ => {
            if n > 1 {
                return Err(ParseError::ExtraArgument);
            }
            match op {
                Opcode::Add => Ok(Command::Add),
                Opcode::Sub => Ok(Command::Sub),
                Opcode::Neg => Ok(Command::Neg),
                Opcode::Not => Ok(Command::Not),
                Opcode::Or => Ok(Command::Or),
                Opcode::And => Ok(Command::And),
                Opcode::Eq => Ok(Command::Eq),
                Opcode::Lt => Ok(Command::Lt),
                Opcode::Gt => Ok(Command::Gt),
                _ => Ok(Command::Return),
            }
        },
    }
}

/// Reads the characters from `from` up to `to` as one command.
pub fn parse_chars(chars: &Vec<char>, from: usize, to: usize) -> (r: Result<Command, ParseError>)
    requires
        from <= to <= chars.len(),
    ensures
        agrees(r, parse_line(chars@.subrange(from as int, to as int))),
{
    let spans = split_words(chars, from, to);
    parse_spans(chars, &spans)
}

/// Reads one line as one command.
///
/// The words of the line are read from left to right, and the first fault
/// met is the one reported.
pub fn parse(line: &str) -> (r: Result<Command, ParseError>)
    ensures
        agrees(r, parse_line(line@)),
{
    let chars = chars_of(line);
    assert(chars@.subrange(0, chars@.len() as int) =~= line@);
    parse_chars(&chars, 0, chars.len())
}

} // verus!
