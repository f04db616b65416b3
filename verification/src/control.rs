//! Where control goes: the instruction memory of the target machine, the
//! steps that the machine takes through it, and what the assembler has to
//! make of the labels of a piece of code for its jumps to land.
//!
//! Nothing here is executed. The model serves to state, and to prove, what
//! the generated code does.

use vstd::prelude::*;
use crate::assembly::{Instr, Jump};
use crate::machine::{execute, run, straight, value, Machine, Symbols};

verus! {

/// Whether a jump is made on the computed value `v`. A word from 0x8000 on
/// stands for a negative number.
pub open spec fn taken(jump: Jump, v: int) -> bool {
    match jump {
        Jump::Null => false,
        Jump::JGT => 0 < v < 0x8000,
        Jump::JEQ => v == 0,
        Jump::JLT => 0x8000 <= v,
        Jump::JNE => v != 0,
        Jump::JMP => true,
    }
}

/// Whether the instruction, executed in the state `s`, makes control jump.
pub open spec fn jumps(i: Instr, s: Machine) -> bool {
    i matches Instr::Compute(_, comp, jump) && taken(jump, value(comp, s))
}

/// The instructions of a piece of code that take a place in the instruction
/// memory: all but the labels, in order.
pub open spec fn rom_of(code: Seq<Instr>) -> Seq<Instr>
    decreases code.len(),
{
    if code.len() == 0 {
        Seq::empty()
    } else if code.last() is Label {
        rom_of(code.drop_last())
    } else {
        rom_of(code.drop_last()).push(code.last())
    }
}

/// The number of places that a piece of code takes in the instruction
/// memory.
pub open spec fn size(code: Seq<Instr>) -> int {
    rom_of(code).len() as int
}

/// The whole state of the machine: the place of the next instruction, and
/// the registers and the memory.
pub struct Cpu {
    /// The address of the next instruction.
    pub pc: int,
    /// The registers and the memory.
    pub state: Machine,
}

/// One step of the machine: the instruction at the program counter is
/// executed, and control goes to the address that the address register held
/// if the instruction jumps, and to the next instruction if not. Outside the
/// instruction memory the machine stands still.
pub open spec fn step(rom: Seq<Instr>, symbols: Symbols, c: Cpu) -> Cpu {
    if 0 <= c.pc < rom.len() {
        Cpu {
            pc: if jumps(rom[c.pc], c.state) {
                c.state.a
            } else {
                c.pc + 1
            },
            state: execute(rom[c.pc], c.state, symbols),
        }
    } else {
        c
    }
}

/// The state after `n` steps.
pub open spec fn steps(rom: Seq<Instr>, symbols: Symbols, c: Cpu, n: nat) -> Cpu
    decreases n,
{
    if n == 0 {
        c
    } else {
        step(rom, symbols, steps(rom, symbols, c, (n - 1) as nat))
    }
}

/// Whether the machine comes from the one state to the other in some number
/// of steps.
pub open spec fn reaches(rom: Seq<Instr>, symbols: Symbols, from: Cpu, to: Cpu) -> bool {
    exists|n: nat| steps(rom, symbols, from, n) == to
}

/// Whether a piece of code lies in the instruction memory from the address
/// `base` on, and every label that the code defines stands for the address
/// of the instruction that follows it.
pub open spec fn placed(code: Seq<Instr>, base: int, rom: Seq<Instr>, symbols: Symbols) -> bool {
    &&& 0 <= base
    &&& base + size(code) <= rom.len()
    &&& forall|i: int| 0 <= i < size(code) ==> rom[base + i] == #[trigger] rom_of(code)[i]
    &&& forall|p: int|
        0 <= p < code.len() ==> (#[trigger] code[p] matches Instr::Label(name) ==> symbols(name)
            == base + size(code.take(p)))
}

/// The places of two pieces of code in a row are those of the one and then
/// those of the other.
pub proof fn lemma_rom_concat(a: Seq<Instr>, b: Seq<Instr>)
    ensures
        rom_of(a + b) == rom_of(a) + rom_of(b),
    decreases b.len(),
{
    if b.len() == 0 {
        assert(a + b =~= a);
        assert(rom_of(a) + rom_of(b) =~= rom_of(a));
    } else {
        lemma_rom_concat(a, b.drop_last());
        assert((a + b).drop_last() =~= a + b.drop_last());
        assert((a + b).last() == b.last());
        assert(rom_of(a + b) =~= rom_of(a) + rom_of(b));
    }
}

/// Code without labels takes one place for each of its instructions.
pub proof fn lemma_rom_without_labels(code: Seq<Instr>)
    requires
        forall|k: int| 0 <= k < code.len() ==> !(#[trigger] code[k] is Label),
    ensures
        rom_of(code) == code,
    decreases code.len(),
{
    if code.len() > 0 {
        lemma_rom_without_labels(code.drop_last());
        assert(code.drop_last().push(code.last()) =~= code);
    }
}

/// Where two pieces of code in a row are placed, the first is placed at the
/// same address and the second behind it.
pub proof fn lemma_placed_concat(
    a: Seq<Instr>,
    b: Seq<Instr>,
    base: int,
    rom: Seq<Instr>,
    symbols: Symbols,
)
    requires
        placed(a + b, base, rom, symbols),
    ensures
        placed(a, base, rom, symbols),
        placed(b, base + size(a), rom, symbols),
        size(a + b) == size(a) + size(b),
{
    lemma_rom_concat(a, b);
    assert forall|i: int| 0 <= i < size(a) implies rom[base + i] == #[trigger] rom_of(a)[i] by {
        assert(rom_of(a + b)[i] == rom_of(a)[i]);
    }
    assert forall|p: int| 0 <= p < a.len() implies (#[trigger] a[p] matches Instr::Label(name)
        ==> symbols(name) == base + size(a.take(p))) by {
        assert((a + b)[p] == a[p]);
        assert((a + b).take(p) =~= a.take(p));
    }
    assert forall|i: int| 0 <= i < size(b) implies rom[base + size(a) + i] == #[trigger] rom_of(
        b,
    )[i] by {
        assert(rom_of(a + b)[size(a) + i] == rom_of(b)[i]);
    }
    assert forall|p: int| 0 <= p < b.len() implies (#[trigger] b[p] matches Instr::Label(name)
        ==> symbols(name) == base + size(a) + size(b.take(p))) by {
        assert((a + b)[a.len() + p] == b[p]);
        assert((a + b).take(a.len() + p) =~= a + b.take(p));
        lemma_rom_concat(a, b.take(p));
    }
}

/// Steps add up.
pub proof fn lemma_steps_add(rom: Seq<Instr>, symbols: Symbols, c: Cpu, m: nat, n: nat)
    ensures
        steps(rom, symbols, c, m + n) == steps(rom, symbols, steps(rom, symbols, c, m), n),
    decreases n,
{
    if n > 0 {
        lemma_steps_add(rom, symbols, c, m, (n - 1) as nat);
        assert((m + n - 1) as nat == m + (n - 1) as nat);
    }
}

/// The machine comes to the state that follows in one step.
pub proof fn lemma_reaches_next(rom: Seq<Instr>, symbols: Symbols, c: Cpu)
    ensures
        reaches(rom, symbols, c, step(rom, symbols, c)),
{
    assert(steps(rom, symbols, c, 0) == c);
    assert(steps(rom, symbols, c, 1) == step(rom, symbols, c));
}

/// From where the machine comes to, it comes on.
pub proof fn lemma_reaches_on(rom: Seq<Instr>, symbols: Symbols, a: Cpu, b: Cpu, c: Cpu)
    requires
        reaches(rom, symbols, a, b),
        reaches(rom, symbols, b, c),
    ensures
        reaches(rom, symbols, a, c),
{
    let m = choose|m: nat| steps(rom, symbols, a, m) == b;
    let n = choose|n: nat| steps(rom, symbols, b, n) == c;
    lemma_steps_add(rom, symbols, a, m, n);
    assert(steps(rom, symbols, a, m + n) == c);
}

/// Control falls through code that does not jump: from its first
/// instruction the machine comes to the instruction behind it, in the state
/// that the code leaves.
pub proof fn lemma_falls_through(
    code: Seq<Instr>,
    base: int,
    rom: Seq<Instr>,
    symbols: Symbols,
    s: Machine,
)
    requires
        placed(code, base, rom, symbols),
        straight(code),
    ensures
        steps(rom, symbols, Cpu { pc: base, state: s }, size(code) as nat) == (Cpu {
            pc: base + size(code),
            state: run(code, s, symbols),
        }),
        reaches(
            rom,
            symbols,
            Cpu { pc: base, state: s },
            Cpu { pc: base + size(code), state: run(code, s, symbols) },
        ),
    decreases code.len(),
{
    let from = Cpu { pc: base, state: s };
    if code.len() > 0 {
        let init = code.drop_last();
        let last = code.last();
        assert(code =~= init + seq![last]);
        lemma_placed_concat(init, seq![last], base, rom, symbols);
        assert forall|k: int| 0 <= k < init.len() implies (#[trigger] init[k] matches Instr::Compute(
            _,
            _,
            jump,
        ) ==> jump == Jump::Null) by {
            assert(init[k] == code[k]);
        }
        lemma_falls_through(init, base, rom, symbols, s);
        if !(last is Label) {
            let at = steps(rom, symbols, from, size(init) as nat);
            assert(rom_of(code)[size(init)] == last);
            assert(rom[base + size(init)] == last);
            assert(code[code.len() - 1] == last);
            assert(!jumps(last, at.state));
            assert(size(code) == size(init) + 1);
            assert(steps(rom, symbols, from, size(code) as nat) == step(rom, symbols, at));
        }
    }
    assert(steps(rom, symbols, from, size(code) as nat) == (Cpu {
        pc: base + size(code),
        state: run(code, s, symbols),
    }));
}

/// Whether no name is defined at two places of the code.
pub open spec fn labels_differ(code: Seq<Instr>) -> bool {
    forall|p: int, q: int|
        0 <= p < code.len() && 0 <= q < code.len() && #[trigger] code[p] is Label && code[p]
            == #[trigger] code[q] ==> p == q
}

/// The value that the assembler gives to a name that the code defines: the
/// address of the instruction that follows the label, when the code lies at
/// the beginning of the instruction memory.
pub open spec fn address_of(code: Seq<Instr>, name: Seq<char>) -> int {
    size(code.take(choose|p: int| 0 <= p < code.len() && #[trigger] code[p] == Instr::Label(name)))
}

/// Code that defines no name twice can be placed: it lies in the memory that
/// holds its instructions, with every label standing for its place.
pub proof fn lemma_can_be_placed(code: Seq<Instr>)
    requires
        labels_differ(code),
    ensures
        placed(code, 0, rom_of(code), |name: Seq<char>| address_of(code, name)),
{
    let symbols = |name: Seq<char>| address_of(code, name);
    assert forall|p: int| 0 <= p < code.len() implies (#[trigger] code[p] matches Instr::Label(name)
        ==> symbols(name) == size(code.take(p))) by {
        if let Instr::Label(name) = code[p] {
            let q = choose|q: int| 0 <= q < code.len() && #[trigger] code[q] == Instr::Label(name);
            assert(code[p] == code[q]);
        }
    }
}

} // verus!
