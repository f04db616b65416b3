//! The meaning of the assembly that the translator writes: what a sequence
//! of instructions does to the registers and the memory of the target
//! machine when control falls through it.
//!
//! Nothing here is executed. The model serves to state, and to prove, what
//! the generated code does.

use vstd::prelude::*;
use crate::assembly::{Comp, Dest, Instr, Jump, Reg};
use crate::codegen::{
    binary_code,
    enter_arguments,
    enter_locals,
    fetch,
    goto_code,
    hand_back,
    keep_frame,
    on_top,
    pop_code,
    pop_d,
    push_address,
    push_code,
    push_d,
    restore,
    resume,
    save,
    stage_address,
    static_symbol,
    store_staged,
    unary_code,
    STACK_BASE,
};
use crate::command::Addressing;

verus! {

/// The registers and the memory of the target machine. Registers and cells
/// hold 16-bit words, here the numbers from 0 to 65535.
pub struct Machine {
    /// The address register.
    pub a: int,
    /// The data register.
    pub d: int,
    /// The content of the memory, by address.
    pub ram: Map<int, int>,
}

/// The number of values that a word can take.
pub open spec fn modulus() -> int {
    0x10000
}

/// Whether `x` is a word.
pub open spec fn fits(x: int) -> bool {
    0 <= x < modulus()
}

/// The word that `x` is cut down to by 16-bit arithmetic.
pub open spec fn word(x: int) -> int {
    x % modulus()
}

/// The address of a cell that the assembly language knows by name.
pub open spec fn address(r: Reg) -> int {
    match r {
        Reg::SP => 0,
        Reg::LCL => 1,
        Reg::ARG => 2,
        Reg::THIS => 3,
        Reg::THAT => 4,
        Reg::R13 => 13,
        Reg::R14 => 14,
    }
}

/// The values that the assembler gives to the symbols of a program.
pub type Symbols = spec_fn(Seq<char>) -> int;

/// Whether every symbol stands for a word.
pub open spec fn symbols_fit(symbols: Symbols) -> bool {
    forall|name: Seq<char>| fits(#[trigger] symbols(name))
}

impl Machine {
    /// The cell that the address register selects.
    pub open spec fn m(self) -> int {
        self.ram[self.a]
    }

    /// The address of the first free cell above the stack.
    pub open spec fn sp(self) -> int {
        self.ram[address(Reg::SP)]
    }

    /// Whether the registers and every cell hold words.
    pub open spec fn valid(self) -> bool {
        &&& fits(self.a)
        &&& fits(self.d)
        &&& forall|x: int| self.ram.dom().contains(x)
        &&& forall|x: int| fits(#[trigger] self.ram[x])
    }

    /// Whether the stack pointer lies at or above the base of the stack, and
    /// so above the cells that have names and those of the static variables.
    pub open spec fn stack_in_place(self) -> bool {
        self.sp() >= STACK_BASE
    }

    /// The machine with `v` in the cell at `x`.
    pub open spec fn store(self, x: int, v: int) -> Machine {
        Machine { ram: self.ram.insert(x, v), ..self }
    }
}

/// The value that a computation gives from what the two registers hold and
/// what the cell holds that the address register selects.
pub open spec fn compute(c: Comp, a: int, d: int, m: int) -> int {
    match c {
        Comp::Zero => 0,
        Comp::MinusOne => modulus() - 1,
        Comp::D => d,
        Comp::A => a,
        Comp::M => m,
        Comp::NotM => modulus() - 1 - m,
        Comp::NegM => word(-m),
        Comp::MPlusOne => word(m + 1),
        Comp::MMinusOne => word(m - 1),
        Comp::DPlusM => word(d + m),
        Comp::DMinusA => word(d - a),
        Comp::MMinusD => word(m - d),
        Comp::DAndM => ((d as u16) & (m as u16)) as int,
        Comp::DOrM => ((d as u16) | (m as u16)) as int,
    }
}

/// The value that a computation gives in the state `s`.
pub open spec fn value(c: Comp, s: Machine) -> int {
    compute(c, s.a, s.d, s.m())
}

/// What one instruction does to the registers and the memory. Where control
/// goes next is no part of this.
pub open spec fn execute(i: Instr, s: Machine, symbols: Symbols) -> Machine {
    match i {
        Instr::AtNum(n) => Machine { a: n as int, ..s },
        Instr::AtReg(r) => Machine { a: address(r), ..s },
        Instr::AtName(name) => Machine { a: symbols(name), ..s },
        Instr::Compute(dest, comp, _) => match dest {
            Dest::Null => s,
            Dest::A => Machine { a: value(comp, s), ..s },
            Dest::D => Machine { d: value(comp, s), ..s },
            Dest::M => s.store(s.a, value(comp, s)),
        },
        Instr::Label(_) => s,
    }
}

/// Whether control falls through the whole sequence: no instruction of it
/// jumps.
pub open spec fn straight(code: Seq<Instr>) -> bool {
    forall|k: int|
        0 <= k < code.len() ==> (#[trigger] code[k] matches Instr::Compute(_, _, jump) ==> jump
            == Jump::Null)
}

/// What a sequence of instructions does when control falls through it.
pub open spec fn run(code: Seq<Instr>, s: Machine, symbols: Symbols) -> Machine
    decreases code.len(),
{
    if code.len() == 0 {
        s
    } else {
        execute(code.last(), run(code.drop_last(), s, symbols), symbols)
    }
}

/// Two sequences in a row: the second begins where the first has ended.
pub proof fn lemma_run_concat(a: Seq<Instr>, b: Seq<Instr>, s: Machine, symbols: Symbols)
    ensures
        run(a + b, s, symbols) == run(b, run(a, s, symbols), symbols),
    decreases b.len(),
{
    if b.len() == 0 {
        assert(a + b =~= a);
    } else {
        lemma_run_concat(a, b.drop_last(), s, symbols);
        assert((a + b).drop_last() =~= a + b.drop_last());
    }
}

/// The address of the cell that `a` reaches in the state `s`. An immediate
/// number reaches none.
pub open spec fn cell(a: Addressing, file: Seq<char>, s: Machine, symbols: Symbols) -> int {
    match a {
        Addressing::Indirect(base, offset) => word(offset + s.ram[address(base)]),
        Addressing::Immediate(_) => -1,
        Addressing::Fixed(x) => x as int,
        Addressing::Register(r) => address(r),
        Addressing::Symbol(k) => symbols(static_symbol(file, k)),
    }
}

/// The value that `a` reaches in the state `s`.
pub open spec fn operand(a: Addressing, file: Seq<char>, s: Machine, symbols: Symbols) -> int {
    match a {
        Addressing::Immediate(v) => v as int,
        _ => s.ram[cell(a, file, s, symbols)],
    }
}

/// `push_d` stores the data register at the top of the stack and advances
/// the stack pointer by one.
pub proof fn lemma_push_d(s: Machine, symbols: Symbols)
    requires
        s.valid(),
        s.sp() != 0,
    ensures
        run(push_d(), s, symbols).valid(),
        run(push_d(), s, symbols).ram == s.ram.insert(s.sp(), s.d).insert(0, word(s.sp() + 1)),
{
    reveal_with_fuel(run, 6);
}

/// `pop_d` moves the stack pointer back by one and loads the cell that it
/// now selects into the data register.
pub proof fn lemma_pop_d(s: Machine, symbols: Symbols)
    requires
        s.valid(),
    ensures
        run(pop_d(), s, symbols).valid(),
        run(pop_d(), s, symbols).ram == s.ram.insert(0, word(s.sp() - 1)),
        run(pop_d(), s, symbols).d == s.ram.insert(0, word(s.sp() - 1))[word(s.sp() - 1)],
{
    reveal_with_fuel(run, 5);
}

/// `fetch` loads the value that `a` reaches into the data register and
/// leaves the memory as it was.
pub proof fn lemma_fetch(a: Addressing, file: Seq<char>, s: Machine, symbols: Symbols)
    requires
        s.valid(),
        symbols_fit(symbols),
    ensures
        run(fetch(a, file), s, symbols).valid(),
        run(fetch(a, file), s, symbols).d == operand(a, file, s, symbols),
        run(fetch(a, file), s, symbols).ram == s.ram,
{
    match a {
        Addressing::Indirect(_, _) => {
            reveal_with_fuel(run, 6);
        },
        _ => {
            reveal_with_fuel(run, 3);
        },
    }
}

/// `stage_address` leaves in `R13` the address of the cell at `offset` from
/// the address that `base` holds, and changes no other cell.
pub proof fn lemma_stage_address(base: Reg, offset: u16, s: Machine, symbols: Symbols)
    requires
        s.valid(),
        base != Reg::R13,
    ensures
        run(stage_address(base, offset), s, symbols).valid(),
        run(stage_address(base, offset), s, symbols).ram == s.ram.insert(
            13,
            s.ram[address(base)],
        ).insert(13, word(offset + s.ram[address(base)])),
{
    reveal_with_fuel(run, 9);
}

/// `store_staged` stores the data register in the cell whose address `R13`
/// holds.
pub proof fn lemma_store_staged(s: Machine, symbols: Symbols)
    requires
        s.valid(),
    ensures
        run(store_staged(), s, symbols).valid(),
        run(store_staged(), s, symbols).ram == s.ram.insert(s.ram[13], s.d),
{
    reveal_with_fuel(run, 4);
}

/// `on_top` puts the value of `comp` in the place of the topmost value of a
/// stack that holds one, and leaves the stack pointer where it was.
pub proof fn lemma_on_top(comp: Comp, s: Machine, symbols: Symbols)
    requires
        s.valid(),
        s.sp() > STACK_BASE,
    ensures
        ({
            let top = s.sp() - 1;
            &&& run(on_top(comp), s, symbols).valid()
            &&& run(on_top(comp), s, symbols).ram == s.ram.insert(0, top).insert(
                top,
                compute(comp, top, s.d, s.ram[top]),
            ).insert(0, s.sp())
        }),
{
    reveal_with_fuel(run, 7);
}

/// A unary operation on a stack that holds a value: the value of `comp`
/// takes the place of the topmost value, which is its `M`; the stack pointer
/// and every other cell are what they were.
pub proof fn lemma_unary(comp: Comp, s: Machine, symbols: Symbols)
    requires
        s.valid(),
        s.sp() > STACK_BASE,
    ensures
        ({
            let after = run(unary_code(comp), s, symbols);
            let top = s.sp() - 1;
            &&& after.valid()
            &&& after.sp() == s.sp()
            &&& after.ram[top] == compute(comp, top, s.d, s.ram[top])
            &&& forall|x: int| x != top ==> after.ram[x] == s.ram[x]
        }),
{
    lemma_on_top(comp, s, symbols);
}

/// A binary operation on a stack that holds two values: the stack pointer
/// moves back by one, and the value of `comp` takes the place of the lower of
/// the two values, which is its `M`, while the topmost is its `D`; every
/// other cell is what it was.
pub proof fn lemma_binary(comp: Comp, s: Machine, symbols: Symbols)
    requires
        s.valid(),
        s.sp() > STACK_BASE + 1,
    ensures
        ({
            let after = run(binary_code(comp), s, symbols);
            let top = s.sp() - 1;
            let below = s.sp() - 2;
            &&& after.valid()
            &&& after.sp() == top
            &&& after.ram[below] == compute(comp, below, s.ram[top], s.ram[below])
            &&& forall|x: int| x != 0 && x != below ==> after.ram[x] == s.ram[x]
        }),
{
    let popped = run(pop_d(), s, symbols);
    lemma_pop_d(s, symbols);
    lemma_on_top(comp, popped, symbols);
    lemma_run_concat(pop_d(), on_top(comp), s, symbols);
}

/// `push`: the value that `a` reaches is stored at the top of the stack,
/// and the stack pointer advances by one.
pub proof fn lemma_push(a: Addressing, file: Seq<char>, s: Machine, symbols: Symbols)
    requires
        s.valid(),
        s.sp() != 0,
        symbols_fit(symbols),
    ensures
        run(push_code(a, file), s, symbols).valid(),
        run(push_code(a, file), s, symbols).ram == s.ram.insert(
            s.sp(),
            operand(a, file, s, symbols),
        ).insert(0, word(s.sp() + 1)),
{
    lemma_fetch(a, file, s, symbols);
    lemma_push_d(run(fetch(a, file), s, symbols), symbols);
    lemma_run_concat(fetch(a, file), push_d(), s, symbols);
}

/// `pop` to a cell with an address of its own: the stack pointer moves back
/// by one, and the cell takes the value that the stack pointer now selects.
pub proof fn lemma_pop_direct(a: Addressing, file: Seq<char>, s: Machine, symbols: Symbols)
    requires
        a is Fixed || a is Register || a is Symbol,
        s.valid(),
        symbols_fit(symbols),
    ensures
        ({
            let top = word(s.sp() - 1);
            let ram = s.ram.insert(0, top);
            &&& run(pop_code(a, file), s, symbols).valid()
            &&& run(pop_code(a, file), s, symbols).ram == ram.insert(
                cell(a, file, s, symbols),
                ram[top],
            )
        }),
{
    let rest = pop_code(a, file).skip(pop_d().len() as int);
    assert(pop_code(a, file) =~= pop_d() + rest);
    lemma_pop_d(s, symbols);
    lemma_run_concat(pop_d(), rest, s, symbols);
    assert(rest.len() == 2);
    reveal_with_fuel(run, 3);
}

/// `pop` to a cell that a base pointer leads to: the address of the cell is
/// kept in `R13`, the stack pointer moves back by one, and the cell takes
/// the value that the stack pointer now selects.
pub proof fn lemma_pop_indirect(base: Reg, offset: u16, file: Seq<char>, s: Machine, symbols:
    Symbols)
    requires
        base != Reg::R13,
        s.valid(),
    ensures
        ({
            let place = word(offset + s.ram[address(base)]);
            let staged = s.ram.insert(13, s.ram[address(base)]).insert(13, place);
            let top = word(staged[0] - 1);
            let ram = staged.insert(0, top);
            &&& run(pop_code(Addressing::Indirect(base, offset), file), s, symbols).valid()
            &&& run(pop_code(Addressing::Indirect(base, offset), file), s, symbols).ram
                == ram.insert(ram[13], ram[top])
        }),
{
    let s1 = run(stage_address(base, offset), s, symbols);
    let s2 = run(pop_d(), s1, symbols);
    lemma_stage_address(base, offset, s, symbols);
    lemma_pop_d(s1, symbols);
    lemma_store_staged(s2, symbols);
    lemma_run_concat(stage_address(base, offset), pop_d(), s, symbols);
    lemma_run_concat(stage_address(base, offset) + pop_d(), store_staged(), s, symbols);
}

/// The code of a `push` and of a `pop` holds no jump.
pub proof fn lemma_access_is_straight(a: Addressing, file: Seq<char>)
    ensures
        straight(push_code(a, file)),
        straight(pop_code(a, file)),
        straight(push_code(a, file) + pop_code(a, file)),
{
    lemma_straight_concat(push_code(a, file), pop_code(a, file));
}

/// Of two sequences without a jump, the one after the other has none.
pub proof fn lemma_straight_concat(a: Seq<Instr>, b: Seq<Instr>)
    requires
        straight(a),
        straight(b),
    ensures
        straight(a + b),
{
    assert forall|k: int| 0 <= k < (a + b).len() implies (#[trigger] (a + b)[k] matches Instr::Compute(
        _,
        _,
        jump,
    ) ==> jump == Jump::Null) by {
        if k < a.len() {
            assert((a + b)[k] == a[k]);
        } else {
            assert((a + b)[k] == b[k - a.len()]);
        }
    }
}

/// Going one up and one down within the words leads back.
pub proof fn lemma_up_and_down(x: int)
    requires
        fits(x),
    ensures
        word(word(x + 1) - 1) == x,
{
}

/// What a `push` and, at once after it, a `pop` through the same addressing
/// do, on a machine whose stack is in place: the stack pointer is what it
/// was; the cell that the addressing reaches holds what it held, wherever it
/// lies; and so does every other cell but the one above the stack and the
/// scratch cell `R13`.
pub proof fn lemma_push_pop(a: Addressing, file: Seq<char>, s: Machine, symbols: Symbols)
    requires
        !(a is Immediate),
        a matches Addressing::Indirect(base, _) ==> base != Reg::SP && base != Reg::R13,
        s.valid(),
        s.stack_in_place(),
        symbols_fit(symbols),
    ensures
        ({
            let after = run(push_code(a, file) + pop_code(a, file), s, symbols);
            let place = cell(a, file, s, symbols);
            &&& after.valid()
            &&& after.sp() == s.sp()
            &&& after.ram[place] == s.ram[place]
            &&& forall|x: int| x != s.sp() && x != 13 ==> after.ram[x] == s.ram[x]
        }),
{
    let pushed = run(push_code(a, file), s, symbols);
    lemma_push(a, file, s, symbols);
    lemma_run_concat(push_code(a, file), pop_code(a, file), s, symbols);
    lemma_up_and_down(s.sp());
    match a {
        Addressing::Indirect(base, offset) => {
            lemma_pop_indirect(base, offset, file, pushed, symbols);
        },
        _ => {
            lemma_pop_direct(a, file, pushed, symbols);
        },
    }
}

/// `push_address` stores the address that the label stands for at the top of
/// the stack and advances the stack pointer by one.
pub proof fn lemma_push_address(name: Seq<char>, s: Machine, symbols: Symbols)
    requires
        s.valid(),
        s.sp() != 0,
        symbols_fit(symbols),
    ensures
        run(push_address(name), s, symbols).valid(),
        run(push_address(name), s, symbols).ram == s.ram.insert(s.sp(), symbols(name)).insert(
            0,
            word(s.sp() + 1),
        ),
{
    let head = push_address(name).take(2);
    assert(push_address(name) =~= head + push_d());
    assert(run(head, s, symbols) == Machine { a: symbols(name), d: symbols(name), ram: s.ram }) by {
        reveal_with_fuel(run, 3);
    }
    lemma_push_d(run(head, s, symbols), symbols);
    lemma_run_concat(head, push_d(), s, symbols);
}

/// `save` stores the content of a named cell at the top of the stack and
/// advances the stack pointer by one.
pub proof fn lemma_save(r: Reg, s: Machine, symbols: Symbols)
    requires
        s.valid(),
        s.sp() != 0,
        symbols_fit(symbols),
    ensures
        run(save(r), s, symbols).valid(),
        run(save(r), s, symbols).ram == s.ram.insert(s.sp(), s.ram[address(r)]).insert(
            0,
            word(s.sp() + 1),
        ),
{
    assert(save(r) == push_code(Addressing::Register(r), Seq::<char>::empty()));
    lemma_push(Addressing::Register(r), Seq::<char>::empty(), s, symbols);
}

/// `enter_locals` gives the local base pointer the value of the stack
/// pointer.
pub proof fn lemma_enter_locals(s: Machine, symbols: Symbols)
    requires
        s.valid(),
    ensures
        run(enter_locals(), s, symbols).valid(),
        run(enter_locals(), s, symbols).ram == s.ram.insert(1, s.sp()),
{
    reveal_with_fuel(run, 5);
}

/// `enter_arguments` gives the argument base pointer the value of the stack
/// pointer less the number of arguments and the size of the frame.
pub proof fn lemma_enter_arguments(args: u16, s: Machine, symbols: Symbols)
    requires
        s.valid(),
    ensures
        run(enter_arguments(args), s, symbols).valid(),
        run(enter_arguments(args), s, symbols).ram == s.ram.insert(
            2,
            word(word(s.sp() - args) - 5),
        ),
{
    reveal_with_fuel(run, 9);
}

/// `goto` leaves the memory as it is, with the address of the label in the
/// address register, where the jump takes it from.
pub proof fn lemma_goto(name: Seq<char>, s: Machine, symbols: Symbols)
    ensures
        run(goto_code(name), s, symbols) == (Machine { a: symbols(name), ..s }),
{
    reveal_with_fuel(run, 3);
}

/// `keep_frame` leaves the value of the local base pointer in `R13` and the
/// content of the cell five below that address in `R14`.
pub proof fn lemma_keep_frame(s: Machine, symbols: Symbols)
    requires
        s.valid(),
    ensures
        ({
            let frame = s.ram[1];
            let kept = s.ram.insert(13, frame);
            &&& run(keep_frame(), s, symbols).valid()
            &&& run(keep_frame(), s, symbols).ram == kept.insert(14, kept[word(frame - 5)])
        }),
{
    reveal_with_fuel(run, 11);
}

/// `hand_back` takes the topmost value from the stack, stores it in the cell
/// that the argument base pointer leads to, and makes the stack end just
/// above that cell.
pub proof fn lemma_hand_back(s: Machine, symbols: Symbols)
    requires
        s.valid(),
    ensures
        ({
            let top = word(s.sp() - 1);
            let popped = s.ram.insert(0, top);
            let stored = popped.insert(popped[2], popped[top]);
            &&& run(hand_back(), s, symbols).valid()
            &&& run(hand_back(), s, symbols).ram == stored.insert(0, word(stored[2] + 1))
        }),
{
    let rest = hand_back().skip(pop_d().len() as int);
    assert(hand_back() =~= pop_d() + rest);
    lemma_pop_d(s, symbols);
    lemma_run_concat(pop_d(), rest, s, symbols);
    assert(rest.len() == 7);
    reveal_with_fuel(run, 8);
}

/// `restore` gives a named cell the content of the cell that lies `below`
/// under the address that `R13` holds.
pub proof fn lemma_restore(r: Reg, below: u16, s: Machine, symbols: Symbols)
    requires
        s.valid(),
    ensures
        run(restore(r, below), s, symbols).valid(),
        run(restore(r, below), s, symbols).ram == s.ram.insert(
            address(r),
            s.ram[word(s.ram[13] - below)],
        ),
{
    reveal_with_fuel(run, 9);
}

/// `resume` leaves the memory as it is, with the content of `R14` in the
/// address register, where the jump takes it from.
pub proof fn lemma_resume(s: Machine, symbols: Symbols)
    requires
        s.valid(),
    ensures
        run(resume(), s, symbols).valid(),
        run(resume(), s, symbols).ram == s.ram,
        run(resume(), s, symbols).a == s.ram[14],
{
    reveal_with_fuel(run, 4);
}

} // verus!
