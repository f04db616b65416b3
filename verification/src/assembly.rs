//! The assembly language of the target machine: the instructions that the
//! translator emits, the text in which they are written, and a writer that
//! keeps the text and the instructions in step.

use vstd::prelude::*;
use vstd::string::*;
use crate::text::{decimal, push_decimal};

verus! {

/// The memory cells that the assembly language knows by name: the stack
/// pointer, the four segment base pointers and two scratch cells.
#[derive(Clone, Copy, Debug, PartialEq, Eq)]
pub enum Reg {
    SP,
    LCL,
    ARG,
    THIS,
    THAT,
    R13,
    R14,
}

/// Where a computed value is stored.
#[derive(Clone, Copy, Debug, PartialEq, Eq)]
pub enum Dest {
    Null,
    A,
    D,
    M,
}

/// What a compute instruction computes. `M` is the memory cell that the
/// address register selects.
#[derive(Clone, Copy, Debug, PartialEq, Eq)]
pub enum Comp {
    Zero,
    MinusOne,
    D,
    A,
    M,
    NotM,
    NegM,
    MPlusOne,
    MMinusOne,
    DPlusM,
    DMinusA,
    MMinusD,
    DAndM,
    DOrM,
}

/// The condition on the computed value under which control jumps to the
/// instruction that the address register selects.
#[derive(Clone, Copy, Debug, PartialEq, Eq)]
pub enum Jump {
    Null,
    JGT,
    JEQ,
    JLT,
    JNE,
    JMP,
}

/// One line of assembly.
pub enum Instr {
    /// `@n`: load a number into the address register.
    AtNum(u16),
    /// `@SP` and the like: load the address of a named cell.
    AtReg(Reg),
    /// `@name`: load the value that the assembler gives to a symbol.
    AtName(Seq<char>),
    /// `dest=comp;jump`
    Compute(Dest, Comp, Jump),
    /// `(name)`: give the address of the next instruction a name.
    Label(Seq<char>),
}

/// A computation whose value is stored and after which control goes on.
pub open spec fn assign(dest: Dest, comp: Comp) -> Instr {
    Instr::Compute(dest, comp, Jump::Null)
}

/// A computation whose value is only tested for a jump.
pub open spec fn branch(comp: Comp, jump: Jump) -> Instr {
    Instr::Compute(Dest::Null, comp, jump)
}

/// The name of a cell.
pub open spec fn reg_name(r: Reg) -> Seq<char> {
    match r {
        Reg::SP => "SP"@,
        Reg::LCL => "LCL"@,
        Reg::ARG => "ARG"@,
        Reg::THIS => "THIS"@,
        Reg::THAT => "THAT"@,
        Reg::R13 => "R13"@,
        Reg::R14 => "R14"@,
    }
}

/// The text of a destination, with its `=`.
pub open spec fn dest_text(d: Dest) -> Seq<char> {
    match d {
        Dest::Null => ""@,
        Dest::A => "A="@,
        Dest::D => "D="@,
        Dest::M => "M="@,
    }
}

/// The text of a computation.
pub open spec fn comp_text(c: Comp) -> Seq<char> {
    match c {
        Comp::Zero => "0"@,
        Comp::MinusOne => "-1"@,
        Comp::D => "D"@,
        Comp::A => "A"@,
        Comp::M => "M"@,
        Comp::NotM => "!M"@,
        Comp::NegM => "-M"@,
        Comp::MPlusOne => "M+1"@,
        Comp::MMinusOne => "M-1"@,
        Comp::DPlusM => "D+M"@,
        Comp::DMinusA => "D-A"@,
        Comp::MMinusD => "M-D"@,
        Comp::DAndM => "D&M"@,
        Comp::DOrM => "D|M"@,
    }
}

/// The text of a jump, with its `;`.
pub open spec fn jump_text(j: Jump) -> Seq<char> {
    match j {
        Jump::Null => ""@,
        Jump::JGT => ";JGT"@,
        Jump::JEQ => ";JEQ"@,
        Jump::JLT => ";JLT"@,
        Jump::JNE => ";JNE"@,
        Jump::JMP => ";JMP"@,
    }
}

/// The text of one instruction, without the end of the line.
pub open spec fn line(i: Instr) -> Seq<char> {
    match i {
        Instr::AtNum(n) => seq!['@'] + decimal(n as nat),
        Instr::AtReg(r) => seq!['@'] + reg_name(r),
        Instr::AtName(name) => seq!['@'] + name,
        Instr::Compute(dest, comp, jump) => dest_text(dest) + comp_text(comp) + jump_text(jump),
        Instr::Label(name) => seq!['('] + name + seq![')'],
    }
}

/// The text of a sequence of instructions: one line each, every line ended
/// by a line feed.
pub open spec fn listing(code: Seq<Instr>) -> Seq<char>
    decreases code.len(),
{
    if code.len() == 0 {
        Seq::empty()
    } else {
        listing(code.drop_last()) + line(code.last()).push('\n')
    }
}

/// Whether the sequence gives the name `name` to one of its places.
pub open spec fn defines(code: Seq<Instr>, name: Seq<char>) -> bool {
    exists|k: int| 0 <= k < code.len() && #[trigger] code[k] == Instr::Label(name)
}

/// Two sequences in a row define the names that the one or the other defines.
pub proof fn lemma_defines_concat(a: Seq<Instr>, b: Seq<Instr>, name: Seq<char>)
    ensures
        defines(a + b, name) <==> defines(a, name) || defines(b, name),
{
    if defines(a, name) {
        let k = choose|k: int| 0 <= k < a.len() && #[trigger] a[k] == Instr::Label(name);
        assert((a + b)[k] == Instr::Label(name));
    }
    if defines(b, name) {
        let k = choose|k: int| 0 <= k < b.len() && #[trigger] b[k] == Instr::Label(name);
        assert((a + b)[a.len() + k] == Instr::Label(name));
    }
    if defines(a + b, name) {
        let k = choose|k: int| 0 <= k < (a + b).len() && #[trigger] (a + b)[k] == Instr::Label(name);
        if k < a.len() {
            assert(a[k] == Instr::Label(name));
        } else {
            assert(b[k - a.len()] == Instr::Label(name));
        }
    }
}

/// The listing of a sequence ends with the line of its last instruction.
pub proof fn lemma_listing_push(code: Seq<Instr>, i: Instr)
    ensures
        listing(code.push(i)) == listing(code) + line(i).push('\n'),
{
    assert(code.push(i).drop_last() =~= code);
}

/// The listing of two sequences in a row is their listings in a row.
pub proof fn lemma_listing_concat(a: Seq<Instr>, b: Seq<Instr>)
    ensures
        listing(a + b) == listing(a) + listing(b),
    decreases b.len(),
{
    if b.len() == 0 {
        assert(a + b =~= a);
        assert(listing(a) + listing(b) =~= listing(a));
    } else {
        lemma_listing_concat(a, b.drop_last());
        assert((a + b).drop_last() =~= a + b.drop_last());
        assert(listing(a + b) =~= listing(a) + listing(b));
    }
}

fn reg_str(r: Reg) -> (s: &'static str)
    ensures
        s@ == reg_name(r),
{
    match r {
        Reg::SP => "SP",
        Reg::LCL => "LCL",
        Reg::ARG => "ARG",
        Reg::THIS => "THIS",
        Reg::THAT => "THAT",
        Reg::R13 => "R13",
        Reg::R14 => "R14",
    }
}

fn dest_str(d: Dest) -> (s: &'static str)
    ensures
        s@ == dest_text(d),
{
    match d {
        Dest::Null => "",
        Dest::A => "A=",
        Dest::D => "D=",
        Dest::M => "M=",
    }
}

fn comp_str(c: Comp) -> (s: &'static str)
    ensures
        s@ == comp_text(c),
{
    match c {
        Comp::Zero => "0",
        Comp::MinusOne => "-1",
        Comp::D => "D",
        Comp::A => "A",
        Comp::M => "M",
        Comp::NotM => "!M",
        Comp::NegM => "-M",
        Comp::MPlusOne => "M+1",
        Comp::MMinusOne => "M-1",
        Comp::DPlusM => "D+M",
        Comp::DMinusA => "D-A",
        Comp::MMinusD => "M-D",
        Comp::DAndM => "D&M",
        Comp::DOrM => "D|M",
    }
}

fn jump_str(j: Jump) -> (s: &'static str)
    ensures
        s@ == jump_text(j),
{
    match j {
        Jump::Null => "",
        Jump::JGT => ";JGT",
        Jump::JEQ => ";JEQ",
        Jump::JLT => ";JLT",
        Jump::JNE => ";JNE",
        Jump::JMP => ";JMP",
    }
}

/// Assembly text under construction, together with the instructions that it
/// is the listing of.
pub struct Emitter {
    text: String,
    code: Ghost<Seq<Instr>>,
}

impl Emitter {
    /// The instructions written so far.
    pub closed spec fn code(&self) -> Seq<Instr> {
        self.code@
    }

    /// The text written so far.
    pub closed spec fn text(&self) -> Seq<char> {
        self.text@
    }

    /// The text is the listing of the instructions.
    pub open spec fn wf(&self) -> bool {
        self.text() == listing(self.code())
    }

    /// A writer that has written nothing.
    pub fn new() -> (e: Self)
        ensures
            e.wf(),
            e.code() == Seq::<Instr>::empty(),
    {
        Emitter { text: String::new(), code: Ghost(Seq::empty()) }
    }

    /// Writes `@n`.
    pub fn at_num(&mut self, n: u16)
        requires
            old(self).wf(),
        ensures
            final(self).wf(),
            final(self).code() == old(self).code().push(Instr::AtNum(n)),
    {
        self.text.push('@');
        push_decimal(&mut self.text, n);
        self.text.push('\n');
        proof {
            lemma_listing_push(self.code@, Instr::AtNum(n));
            self.code@ = self.code@.push(Instr::AtNum(n));
            assert(self.text@ =~= listing(self.code@));
        }
    }

    /// Writes `@` and the name of a cell.
    pub fn at_reg(&mut self, r: Reg)
        requires
            old(self).wf(),
        ensures
            final(self).wf(),
            final(self).code() == old(self).code().push(Instr::AtReg(r)),
    {
        self.text.push('@');
        self.text.append(reg_str(r));
        self.text.push('\n');
        proof {
            lemma_listing_push(self.code@, Instr::AtReg(r));
            self.code@ = self.code@.push(Instr::AtReg(r));
            assert(self.text@ =~= listing(self.code@));
        }
    }

    /// Writes `@` and a symbol.
    pub fn at_name(&mut self, name: &str)
        requires
            old(self).wf(),
        ensures
            final(self).wf(),
            final(self).code() == old(self).code().push(Instr::AtName(name@)),
    {
        self.text.push('@');
        self.text.append(name);
        self.text.push('\n');
        proof {
            lemma_listing_push(self.code@, Instr::AtName(name@));
            self.code@ = self.code@.push(Instr::AtName(name@));
            assert(self.text@ =~= listing(self.code@));
        }
    }

    /// Writes a compute instruction.
    pub fn compute(&mut self, dest: Dest, comp: Comp, jump: Jump)
        requires
            old(self).wf(),
        ensures
            final(self).wf(),
            final(self).code() == old(self).code().push(Instr::Compute(dest, comp, jump)),
    {
        self.text.append(dest_str(dest));
        self.text.append(comp_str(comp));
        self.text.append(jump_str(jump));
        self.text.push('\n');
        proof {
            lemma_listing_push(self.code@, Instr::Compute(dest, comp, jump));
            self.code@ = self.code@.push(Instr::Compute(dest, comp, jump));
            assert(self.text@ =~= listing(self.code@));
        }
    }

    /// Writes a compute instruction that stores its value and does not jump.
    pub fn assign(&mut self, dest: Dest, comp: Comp)
        requires
            old(self).wf(),
        ensures
            final(self).wf(),
            final(self).code() == old(self).code().push(assign(dest, comp)),
    {
        self.compute(dest, comp, Jump::Null);
    }

    /// Writes `(name)`.
    pub fn label(&mut self, name: &str)
        requires
            old(self).wf(),
        ensures
            final(self).wf(),
            final(self).code() == old(self).code().push(Instr::Label(name@)),
    {
        self.text.push('(');
        self.text.append(name);
        self.text.push(')');
        self.text.push('\n');
        proof {
            lemma_listing_push(self.code@, Instr::Label(name@));
            self.code@ = self.code@.push(Instr::Label(name@));
            assert(self.text@ =~= listing(self.code@));
        }
    }

    /// The text written.
    pub fn finish(self) -> (s: String)
        requires
            self.wf(),
        ensures
            s@ == listing(self.code()),
    {
        self.text
    }
}

} // verus!
