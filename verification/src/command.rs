//! The commands of the virtual machine, the memory segments that they name,
//! and the way a segment and an offset select a place in memory.

use vstd::prelude::*;
use crate::assembly::Reg;

verus! {

/// A named region of the virtual machine's memory.
#[derive(Clone, Copy, Debug, PartialEq, Eq)]
pub enum MemorySegment {
    Local,
    Argument,
    This,
    That,
    Constant,
    Static,
    Temp,
    Pointer,
}

/// One instruction of the virtual machine.
#[derive(Debug, PartialEq, Eq)]
pub enum Command {
    /// `push <segment> <offset>`
    Push(MemorySegment, u16),
    /// `pop <segment> <offset>`
    Pop(MemorySegment, u16),
    Add,
    Sub,
    Neg,
    Not,
    Or,
    And,
    Eq,
    Lt,
    Gt,
    /// `label <name>`
    Label(String),
    /// `goto <name>`
    Goto(String),
    /// `if-goto <name>`
    IfGoto(String),
    /// `function <name> <number of local variables>`
    Function(String, u16),
    /// `call <name> <number of arguments>`
    Call(String, u16),
    Return,
}

/// A command as a mathematical value: names are sequences of characters.
pub enum CommandView {
    Push(MemorySegment, u16),
    Pop(MemorySegment, u16),
    Add,
    Sub,
    Neg,
    Not,
    Or,
    And,
    Eq,
    Lt,
    Gt,
    Label(Seq<char>),
    Goto(Seq<char>),
    IfGoto(Seq<char>),
    Function(Seq<char>, u16),
    Call(Seq<char>, u16),
    Return,
}

impl View for Command {
    type V = CommandView;

    open spec fn view(&self) -> CommandView {
        match self {
            Command::Push(segment, offset) => CommandView::Push(*segment, *offset),
            Command::Pop(segment, offset) => CommandView::Pop(*segment, *offset),
            Command::Add => CommandView::Add,
            Command::Sub => CommandView::Sub,
            Command::Neg => CommandView::Neg,
            Command::Not => CommandView::Not,
            Command::Or => CommandView::Or,
            Command::And => CommandView::And,
            Command::Eq => CommandView::Eq,
            Command::Lt => CommandView::Lt,
            Command::Gt => CommandView::Gt,
            Command::Label(name) => CommandView::Label(name@),
            Command::Goto(name) => CommandView::Goto(name@),
            Command::IfGoto(name) => CommandView::IfGoto(name@),
            Command::Function(name, locals) => CommandView::Function(name@, *locals),
            Command::Call(name, args) => CommandView::Call(name@, *args),
            Command::Return => CommandView::Return,
        }
    }
}

/// Why a command cannot be turned into assembly.
#[derive(Clone, Copy, Debug, PartialEq, Eq)]
pub enum TranslateError {
    /// The offset lies outside the segment: a range error.
    OffsetOutOfRange,
    /// `pop` names the constant segment, which is no place to store to: a
    /// semantic error.
    PopConstant,
    /// The counter that numbers the generated labels has no value left.
    LabelsExhausted,
}

/// How a place in memory is reached.
#[derive(Clone, Copy, Debug, PartialEq, Eq)]
pub enum Addressing {
    /// The cell at the given offset from the address that a base pointer holds.
    Indirect(Reg, u16),
    /// No cell: the number itself.
    Immediate(u16),
    /// The cell at a fixed address.
    Fixed(u16),
    /// A cell that the assembly language knows by name.
    Register(Reg),
    /// The cell of a symbol that belongs to the current file, by its number.
    Symbol(u16),
}

/// The address of the first of the eight cells of the temp segment.
pub const TEMP_BASE: u16 = 5;

/// The greatest offset into the temp segment.
pub const TEMP_MAX: u16 = 7;

/// The greatest offset into the pointer segment.
pub const POINTER_MAX: u16 = 1;

/// The greatest offset into the static segment.
pub const STATIC_MAX: u16 = 238;

impl MemorySegment {
    /// Whether the segment has a cell at `offset`.
    pub open spec fn admits(self, offset: u16) -> bool {
        match self {
            MemorySegment::Static => offset <= STATIC_MAX,
            MemorySegment::Temp => offset <= TEMP_MAX,
            MemorySegment::Pointer => offset <= POINTER_MAX,
            _ => true,
        }
    }

    /// How the cell at `offset` of the segment is reached.
    pub open spec fn addressing(self, offset: u16) -> Addressing {
        match self {
            MemorySegment::Local => Addressing::Indirect(Reg::LCL, offset),
            MemorySegment::Argument => Addressing::Indirect(Reg::ARG, offset),
            MemorySegment::This => Addressing::Indirect(Reg::THIS, offset),
            MemorySegment::That => Addressing::Indirect(Reg::THAT, offset),
            MemorySegment::Constant => Addressing::Immediate(offset),
            MemorySegment::Static => Addressing::Symbol(offset),
            MemorySegment::Temp => Addressing::Fixed((TEMP_BASE + offset) as u16),
            MemorySegment::Pointer => if offset == 0 {
                Addressing::Register(Reg::THIS)
            } else {
                Addressing::Register(Reg::THAT)
            },
        }
    }

    /// Whether `offset` lies within the segment.
    pub fn contains(&self, offset: u16) -> (r: bool)
        ensures
            r == self.admits(offset),
    {
        match self {
            MemorySegment::Static => offset <= STATIC_MAX,
            MemorySegment::Temp => offset <= TEMP_MAX,
            MemorySegment::Pointer => offset <= POINTER_MAX,
            _ => true,
        }
    }

    /// Finds how the cell at `offset` of the segment is reached.
    pub fn resolve(&self, offset: u16) -> (a: Addressing)
        requires
            self.admits(offset),
        ensures
            a == self.addressing(offset),
    {
        match self {
            MemorySegment::Local => Addressing::Indirect(Reg::LCL, offset),
            MemorySegment::Argument => Addressing::Indirect(Reg::ARG, offset),
            MemorySegment::This => Addressing::Indirect(Reg::THIS, offset),
            MemorySegment::That => Addressing::Indirect(Reg::THAT, offset),
            MemorySegment::Constant => Addressing::Immediate(offset),
            MemorySegment::Static => Addressing::Symbol(offset),
            MemorySegment::Temp => Addressing::Fixed(TEMP_BASE + offset),
            MemorySegment::Pointer => if offset == 0 {
                Addressing::Register(Reg::THIS)
            } else {
                Addressing::Register(Reg::THAT)
            },
        }
    }
}

impl CommandView {
    /// Whether the command is `eq`, `lt` or `gt`.
    pub open spec fn is_comparison(self) -> bool {
        self is Eq || self is Lt || self is Gt
    }

    /// Whether the command names an offset that its segment does not have.
    pub open spec fn out_of_range(self) -> bool {
        match self {
            CommandView::Push(segment, offset) => !segment.admits(offset),
            CommandView::Pop(segment, offset) => !segment.admits(offset),
            _ => false,
        }
    }
}

impl Command {
    /// Rejects a `push` or `pop` whose offset lies outside its segment.
    pub fn verify_offset(&self) -> (r: Result<(), TranslateError>)
        ensures
            self@.out_of_range() ==> r == Err::<(), TranslateError>(
                TranslateError::OffsetOutOfRange,
            ),
            !self@.out_of_range() ==> r is Ok,
    {
        match self {
            Command::Push(segment, offset) | Command::Pop(segment, offset) => {
                if segment.contains(*offset) {
                    Ok(())
                } else {
                    Err(TranslateError::OffsetOutOfRange)
                }
            },
            _ => Ok(()),
        }
    }
}

} // verus!
