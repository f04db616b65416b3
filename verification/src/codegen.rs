//! The instruction sequences that implement the commands of the virtual
//! machine: stack arithmetic, memory access, control flow and the calling
//! convention. Each sequence is given as a mathematical value, and beside it
//! stands the function that writes it.

use vstd::prelude::*;
use vstd::string::*;
use crate::assembly::{assign, branch, Comp, Dest, Emitter, Instr, Jump, Reg};
use crate::command::Addressing;
use crate::text::{decimal, push_decimal};

verus! {

/// The symbol of the static variable `offset` of the file `file`:
/// `<file>.<offset>`.
pub open spec fn static_symbol(file: Seq<char>, offset: u16) -> Seq<char> {
    file.push('.') + decimal(offset as nat)
}

/// The label at which a comparison numbered `k` writes its `true`.
pub open spec fn jump_start(k: nat) -> Seq<char> {
    "JUMP_START_"@ + decimal(k)
}

/// The label at which a comparison numbered `k` ends.
pub open spec fn jump_end(k: nat) -> Seq<char> {
    "JUMP_END_"@ + decimal(k)
}

/// The label to which the call numbered `k`, of the function `name`,
/// returns: `<name>$ret.<k>`.
pub open spec fn return_label(name: Seq<char>, k: nat) -> Seq<char> {
    name + "$ret."@ + decimal(k)
}

/// Stores the data register on top of the stack and advances the stack
/// pointer.
pub open spec fn push_d() -> Seq<Instr> {
    seq![
        Instr::AtReg(Reg::SP),
        assign(Dest::A, Comp::M),
        assign(Dest::M, Comp::D),
        Instr::AtReg(Reg::SP),
        assign(Dest::M, Comp::MPlusOne),
    ]
}

/// Takes the top of the stack into the data register and moves the stack
/// pointer back.
pub open spec fn pop_d() -> Seq<Instr> {
    seq![
        Instr::AtReg(Reg::SP),
        assign(Dest::M, Comp::MMinusOne),
        assign(Dest::A, Comp::M),
        assign(Dest::D, Comp::M),
    ]
}

/// Replaces the top of the stack by `comp`, in which `M` is the old top.
pub open spec fn on_top(comp: Comp) -> Seq<Instr> {
    seq![
        Instr::AtReg(Reg::SP),
        assign(Dest::M, Comp::MMinusOne),
        assign(Dest::A, Comp::M),
        assign(Dest::M, comp),
        Instr::AtReg(Reg::SP),
        assign(Dest::M, Comp::MPlusOne),
    ]
}

/// Loads into the data register the value that `a` reaches.
pub open spec fn fetch(a: Addressing, file: Seq<char>) -> Seq<Instr> {
    match a {
        Addressing::Indirect(base, offset) => seq![
            Instr::AtNum(offset),
            assign(Dest::D, Comp::A),
            Instr::AtReg(base),
            assign(Dest::A, Comp::DPlusM),
            assign(Dest::D, Comp::M),
        ],
        Addressing::Immediate(value) => seq![Instr::AtNum(value), assign(Dest::D, Comp::A)],
        Addressing::Fixed(address) => seq![Instr::AtNum(address), assign(Dest::D, Comp::M)],
        Addressing::Register(r) => seq![Instr::AtReg(r), assign(Dest::D, Comp::M)],
        Addressing::Symbol(k) => seq![
            Instr::AtName(static_symbol(file, k)),
            assign(Dest::D, Comp::M),
        ],
    }
}

/// `push`: the value that `a` reaches goes on top of the stack.
pub open spec fn push_code(a: Addressing, file: Seq<char>) -> Seq<Instr> {
    fetch(a, file) + push_d()
}

/// Keeps in the scratch cell `R13` the address of the cell at `offset` from
/// the address that `base` holds.
pub open spec fn stage_address(base: Reg, offset: u16) -> Seq<Instr> {
    seq![
        Instr::AtReg(base),
        assign(Dest::D, Comp::M),
        Instr::AtReg(Reg::R13),
        assign(Dest::M, Comp::D),
        Instr::AtNum(offset),
        assign(Dest::D, Comp::A),
        Instr::AtReg(Reg::R13),
        assign(Dest::M, Comp::DPlusM),
    ]
}

/// Stores the data register in the cell whose address `R13` holds.
pub open spec fn store_staged() -> Seq<Instr> {
    seq![Instr::AtReg(Reg::R13), assign(Dest::A, Comp::M), assign(Dest::M, Comp::D)]
}

/// `pop`: the top of the stack leaves it for the cell that `a` reaches. An
/// immediate number is no cell, and nothing pops to it.
pub open spec fn pop_code(a: Addressing, file: Seq<char>) -> Seq<Instr> {
    match a {
        Addressing::Indirect(base, offset) => stage_address(base, offset) + pop_d()
            + store_staged(),
        Addressing::Immediate(_) => Seq::empty(),
        Addressing::Fixed(address) => pop_d() + seq![
            Instr::AtNum(address),
            assign(Dest::M, Comp::D),
        ],
        Addressing::Register(r) => pop_d() + seq![Instr::AtReg(r), assign(Dest::M, Comp::D)],
        Addressing::Symbol(k) => pop_d() + seq![
            Instr::AtName(static_symbol(file, k)),
            assign(Dest::M, Comp::D),
        ],
    }
}

/// A binary operation: the two topmost values leave the stack and `comp`
/// takes their place, where `D` is the topmost and `M` the one below it.
pub open spec fn binary_code(comp: Comp) -> Seq<Instr> {
    pop_d() + on_top(comp)
}

/// A unary operation: `comp` replaces the topmost value, which is its `M`.
pub open spec fn unary_code(comp: Comp) -> Seq<Instr> {
    on_top(comp)
}

/// Takes the two topmost values off the stack and leaves in the data
/// register the lower one less the topmost. The stack pointer then leads to
/// the cell of the lower one.
pub open spec fn difference() -> Seq<Instr> {
    pop_d() + seq![
        Instr::AtReg(Reg::SP),
        assign(Dest::M, Comp::MMinusOne),
        assign(Dest::A, Comp::M),
        assign(Dest::D, Comp::MMinusD),
    ]
}

/// Goes to the label if the data register meets `jump`.
pub open spec fn branch_to(name: Seq<char>, jump: Jump) -> Seq<Instr> {
    seq![Instr::AtName(name), branch(Comp::D, jump)]
}

/// Stores the value of `comp` in the cell that the stack pointer leads to.
pub open spec fn write_top(comp: Comp) -> Seq<Instr> {
    seq![Instr::AtReg(Reg::SP), assign(Dest::A, Comp::M), assign(Dest::M, comp)]
}

/// Advances the stack pointer by one.
pub open spec fn grow() -> Seq<Instr> {
    seq![Instr::AtReg(Reg::SP), assign(Dest::M, Comp::MPlusOne)]
}

/// A comparison with the given two labels: the two topmost values leave the
/// stack, and in their place comes -1 if the lower less the topmost meets
/// `jump`, else 0. Control goes to `start` to write the -1 and to `end` past
/// it.
pub open spec fn compare_with(jump: Jump, start: Seq<char>, end: Seq<char>) -> Seq<Instr> {
    difference() + branch_to(start, jump) + write_top(Comp::Zero) + goto_code(end) + label_code(
        start,
    ) + write_top(Comp::MinusOne) + label_code(end) + grow()
}

/// The comparison numbered `k`, whose two labels carry that number.
pub open spec fn compare_code(jump: Jump, k: nat) -> Seq<Instr> {
    compare_with(jump, jump_start(k), jump_end(k))
}

/// `label`: the name stands for the place of the next instruction.
pub open spec fn label_code(name: Seq<char>) -> Seq<Instr> {
    seq![Instr::Label(name)]
}

/// `goto`: control goes to the label.
pub open spec fn goto_code(name: Seq<char>) -> Seq<Instr> {
    seq![Instr::AtName(name), branch(Comp::Zero, Jump::JMP)]
}

/// `if-goto`: the top of the stack leaves it, and control goes to the label
/// if that value is not zero.
pub open spec fn if_goto_code(name: Seq<char>) -> Seq<Instr> {
    pop_d() + branch_to(name, Jump::JNE)
}

/// Pushes a zero.
pub open spec fn push_zero() -> Seq<Instr> {
    seq![
        Instr::AtReg(Reg::SP),
        assign(Dest::A, Comp::M),
        assign(Dest::M, Comp::Zero),
        Instr::AtReg(Reg::SP),
        assign(Dest::M, Comp::MPlusOne),
    ]
}

/// Pushes `n` zeros.
pub open spec fn zero_slots(n: nat) -> Seq<Instr>
    decreases n,
{
    if n == 0 {
        Seq::empty()
    } else {
        zero_slots((n - 1) as nat) + push_zero()
    }
}

/// `function`: the entry label, and a zero for each local variable.
pub open spec fn function_code(name: Seq<char>, locals: u16) -> Seq<Instr> {
    seq![Instr::Label(name)] + zero_slots(locals as nat)
}

/// Pushes the content of a named cell.
pub open spec fn save(r: Reg) -> Seq<Instr> {
    seq![Instr::AtReg(r), assign(Dest::D, Comp::M)] + push_d()
}

/// Makes the local segment begin at the top of the stack.
pub open spec fn enter_locals() -> Seq<Instr> {
    seq![
        Instr::AtReg(Reg::SP),
        assign(Dest::D, Comp::M),
        Instr::AtReg(Reg::LCL),
        assign(Dest::M, Comp::D),
    ]
}

/// The number of cells that a call puts on the stack above the arguments:
/// the return address and the four base pointers.
pub const FRAME_SIZE: u16 = 5;

/// Makes the argument segment begin at the first of the `args` arguments,
/// which lie below the saved frame.
pub open spec fn enter_arguments(args: u16) -> Seq<Instr> {
    seq![
        Instr::AtReg(Reg::SP),
        assign(Dest::D, Comp::M),
        Instr::AtNum(args),
        assign(Dest::D, Comp::DMinusA),
        Instr::AtNum(FRAME_SIZE),
        assign(Dest::D, Comp::DMinusA),
        Instr::AtReg(Reg::ARG),
        assign(Dest::M, Comp::D),
    ]
}

/// Pushes the address that a label stands for.
pub open spec fn push_address(name: Seq<char>) -> Seq<Instr> {
    seq![Instr::AtName(name), assign(Dest::D, Comp::A)] + push_d()
}

/// `call`, numbered `k`: the return address and the caller's four base
/// pointers go on the stack, the local and argument segments move, control
/// goes to the function, and the return label marks where it comes back.
pub open spec fn call_code(name: Seq<char>, args: u16, k: nat) -> Seq<Instr> {
    push_address(return_label(name, k)) + save(Reg::LCL) + save(Reg::ARG) + save(Reg::THIS)
        + save(Reg::THAT) + enter_locals() + enter_arguments(args) + goto_code(name)
        + label_code(return_label(name, k))
}

/// Keeps the address of the frame, which the local base pointer holds, in
/// `R13`, and the return address, which lies `FRAME_SIZE` below it, in `R14`.
pub open spec fn keep_frame() -> Seq<Instr> {
    seq![
        Instr::AtReg(Reg::LCL),
        assign(Dest::D, Comp::M),
        Instr::AtReg(Reg::R13),
        assign(Dest::M, Comp::D),
        Instr::AtNum(FRAME_SIZE),
        assign(Dest::D, Comp::DMinusA),
        assign(Dest::A, Comp::D),
        assign(Dest::D, Comp::M),
        Instr::AtReg(Reg::R14),
        assign(Dest::M, Comp::D),
    ]
}

/// Moves the top of the stack to the first argument's cell and makes the
/// stack end just above it.
pub open spec fn hand_back() -> Seq<Instr> {
    pop_d() + seq![
        Instr::AtReg(Reg::ARG),
        assign(Dest::A, Comp::M),
        assign(Dest::M, Comp::D),
        Instr::AtReg(Reg::ARG),
        assign(Dest::D, Comp::MPlusOne),
        Instr::AtReg(Reg::SP),
        assign(Dest::M, Comp::D),
    ]
}

/// Gives a named cell the value that lies `below` cells under the frame
/// whose address `R13` holds.
pub open spec fn restore(r: Reg, below: u16) -> Seq<Instr> {
    seq![
        Instr::AtReg(Reg::R13),
        assign(Dest::D, Comp::M),
        Instr::AtNum(below),
        assign(Dest::D, Comp::DMinusA),
        assign(Dest::A, Comp::D),
        assign(Dest::D, Comp::M),
        Instr::AtReg(r),
        assign(Dest::M, Comp::D),
    ]
}

/// Goes to the address that `R14` holds.
pub open spec fn resume() -> Seq<Instr> {
    seq![Instr::AtReg(Reg::R14), assign(Dest::A, Comp::M), branch(Comp::Zero, Jump::JMP)]
}

/// `return`: the frame and the return address are kept aside, the result
/// takes the place of the arguments, the caller's four base pointers come
/// back, and control goes to the return address.
pub open spec fn return_code() -> Seq<Instr> {
    keep_frame() + hand_back() + restore(Reg::THAT, 1) + restore(Reg::THIS, 2) + restore(
        Reg::ARG,
        3,
    ) + restore(Reg::LCL, 4) + resume()
}

/// The first address of the stack.
pub const STACK_BASE: u16 = 256;

/// Makes the stack begin at `STACK_BASE`.
pub open spec fn init_stack() -> Seq<Instr> {
    seq![
        Instr::AtNum(STACK_BASE),
        assign(Dest::D, Comp::A),
        Instr::AtReg(Reg::SP),
        assign(Dest::M, Comp::D),
    ]
}

/// The symbol `<file>.<offset>`.
pub fn static_name(file: &str, offset: u16) -> (s: String)
    ensures
        s@ == static_symbol(file@, offset),
{
    let mut s = String::from_str(file);
    s.push('.');
    push_decimal(&mut s, offset);
    s
}

/// The label `<name>$ret.<k>`.
pub fn return_name(name: &str, k: u16) -> (s: String)
    ensures
        s@ == return_label(name@, k as nat),
{
    let mut s = String::from_str(name);
    s.append("$ret.");
    push_decimal(&mut s, k);
    s
}

/// Writes the instructions of `push_d`.
pub fn emit_push_d(e: &mut Emitter)
    requires
        old(e).wf(),
    ensures
        final(e).wf(),
        final(e).code() == old(e).code() + push_d(),
{
    e.at_reg(Reg::SP);
    e.assign(Dest::A, Comp::M);
    e.assign(Dest::M, Comp::D);
    e.at_reg(Reg::SP);
    e.assign(Dest::M, Comp::MPlusOne);
    assert(e.code() =~= old(e).code() + push_d());
}

/// Writes the instructions of `pop_d`.
pub fn emit_pop_d(e: &mut Emitter)
    requires
        old(e).wf(),
    ensures
        final(e).wf(),
        final(e).code() == old(e).code() + pop_d(),
{
    e.at_reg(Reg::SP);
    e.assign(Dest::M, Comp::MMinusOne);
    e.assign(Dest::A, Comp::M);
    e.assign(Dest::D, Comp::M);
    assert(e.code() =~= old(e).code() + pop_d());
}

/// Writes the instructions of `on_top`.
pub fn emit_on_top(e: &mut Emitter, comp: Comp)
    requires
        old(e).wf(),
    ensures
        final(e).wf(),
        final(e).code() == old(e).code() + on_top(comp),
{
    e.at_reg(Reg::SP);
    e.assign(Dest::M, Comp::MMinusOne);
    e.assign(Dest::A, Comp::M);
    e.assign(Dest::M, comp);
    e.at_reg(Reg::SP);
    e.assign(Dest::M, Comp::MPlusOne);
    assert(e.code() =~= old(e).code() + on_top(comp));
}

/// Writes the instructions of `fetch`.
pub fn emit_fetch(e: &mut Emitter, a: Addressing, file: &str)
    requires
        old(e).wf(),
    ensures
        final(e).wf(),
        final(e).code() == old(e).code() + fetch(a, file@),
{
    match a {
        Addressing::Indirect(base, offset) => {
            e.at_num(offset);
            e.assign(Dest::D, Comp::A);
            e.at_reg(base);
            e.assign(Dest::A, Comp::DPlusM);
            e.assign(Dest::D, Comp::M);
        },
        Addressing::Immediate(value) => {
            e.at_num(value);
            e.assign(Dest::D, Comp::A);
        },
        Addressing::Fixed(address) => {
            e.at_num(address);
            e.assign(Dest::D, Comp::M);
        },
        Addressing::Register(r) => {
            e.at_reg(r);
            e.assign(Dest::D, Comp::M);
        },
        Addressing::Symbol(k) => {
            let symbol = static_name(file, k);
            e.at_name(symbol.as_str());
            e.assign(Dest::D, Comp::M);
        },
    }
    assert(e.code() =~= old(e).code() + fetch(a, file@));
}

/// Writes the instructions of `push_code`.
pub fn emit_push(e: &mut Emitter, a: Addressing, file: &str)
    requires
        old(e).wf(),
    ensures
        final(e).wf(),
        final(e).code() == old(e).code() + push_code(a, file@),
{
    emit_fetch(e, a, file);
    emit_push_d(e);
    assert(e.code() =~= old(e).code() + push_code(a, file@));
}

/// Writes the instructions of `stage_address`.
pub fn emit_stage_address(e: &mut Emitter, base: Reg, offset: u16)
    requires
        old(e).wf(),
    ensures
        final(e).wf(),
        final(e).code() == old(e).code() + stage_address(base, offset),
{
    e.at_reg(base);
    e.assign(Dest::D, Comp::M);
    e.at_reg(Reg::R13);
    e.assign(Dest::M, Comp::D);
    e.at_num(offset);
    e.assign(Dest::D, Comp::A);
    e.at_reg(Reg::R13);
    e.assign(Dest::M, Comp::DPlusM);
    assert(e.code() =~= old(e).code() + stage_address(base, offset));
}

/// Writes the instructions of `pop_code`.
pub fn emit_pop(e: &mut Emitter, a: Addressing, file: &str)
    requires
        old(e).wf(),
        !(a is Immediate),
    ensures
        final(e).wf(),
        final(e).code() == old(e).code() + pop_code(a, file@),
{
    match a {
        Addressing::Indirect(base, offset) => {
            emit_stage_address(e, base, offset);
            emit_pop_d(e);
            e.at_reg(Reg::R13);
            e.assign(Dest::A, Comp::M);
            e.assign(Dest::M, Comp::D);
        },
        Addressing::Immediate(_) => {},
        Addressing::Fixed(address) => {
            emit_pop_d(e);
            e.at_num(address);
            e.assign(Dest::M, Comp::D);
        },
        Addressing::Register(r) => {
            emit_pop_d(e);
            e.at_reg(r);
            e.assign(Dest::M, Comp::D);
        },
        Addressing::Symbol(k) => {
            let symbol = static_name(file, k);
            emit_pop_d(e);
            e.at_name(symbol.as_str());
            e.assign(Dest::M, Comp::D);
        },
    }
    assert(e.code() =~= old(e).code() + pop_code(a, file@));
}

/// Writes the instructions of `binary_code`.
pub fn emit_binary(e: &mut Emitter, comp: Comp)
    requires
        old(e).wf(),
    ensures
        final(e).wf(),
        final(e).code() == old(e).code() + binary_code(comp),
{
    emit_pop_d(e);
    emit_on_top(e, comp);
    assert(e.code() =~= old(e).code() + binary_code(comp));
}

/// Writes the instructions of `compare_with`.
pub fn emit_compare(e: &mut Emitter, jump: Jump, start: &str, end: &str)
    requires
        old(e).wf(),
    ensures
        final(e).wf(),
        final(e).code() == old(e).code() + compare_with(jump, start@, end@),
{
    emit_pop_d(e);
    e.at_reg(Reg::SP);
    e.assign(Dest::M, Comp::MMinusOne);
    e.assign(Dest::A, Comp::M);
    e.assign(Dest::D, Comp::MMinusD);
    e.at_name(start);
    e.compute(Dest::Null, Comp::D, jump);
    e.at_reg(Reg::SP);
    e.assign(Dest::A, Comp::M);
    e.assign(Dest::M, Comp::Zero);
    e.at_name(end);
    e.compute(Dest::Null, Comp::Zero, Jump::JMP);
    e.label(start);
    e.at_reg(Reg::SP);
    e.assign(Dest::A, Comp::M);
    e.assign(Dest::M, Comp::MinusOne);
    e.label(end);
    e.at_reg(Reg::SP);
    e.assign(Dest::M, Comp::MPlusOne);
    assert(e.code() =~= old(e).code() + compare_with(jump, start@, end@));
}

/// Writes the instructions of `goto_code`.
pub fn emit_goto(e: &mut Emitter, name: &str)
    requires
        old(e).wf(),
    ensures
        final(e).wf(),
        final(e).code() == old(e).code() + goto_code(name@),
{
    e.at_name(name);
    e.compute(Dest::Null, Comp::Zero, Jump::JMP);
    assert(e.code() =~= old(e).code() + goto_code(name@));
}

/// Writes the instructions of `if_goto_code`.
pub fn emit_if_goto(e: &mut Emitter, name: &str)
    requires
        old(e).wf(),
    ensures
        final(e).wf(),
        final(e).code() == old(e).code() + if_goto_code(name@),
{
    emit_pop_d(e);
    e.at_name(name);
    e.compute(Dest::Null, Comp::D, Jump::JNE);
    assert(e.code() =~= old(e).code() + if_goto_code(name@));
}

/// Writes the instructions of `function_code`.
pub fn emit_function(e: &mut Emitter, name: &str, locals: u16)
    requires
        old(e).wf(),
    ensures
        final(e).wf(),
        final(e).code() == old(e).code() + function_code(name@, locals),
{
    e.label(name);
    let mut i: u16 = 0;
    while i < locals
        invariant
            e.wf(),
            i <= locals,
            e.code() == old(e).code() + (seq![Instr::Label(name@)] + zero_slots(i as nat)),
        decreases locals - i,
    {
        let ghost before = e.code();
        e.at_reg(Reg::SP);
        e.assign(Dest::A, Comp::M);
        e.assign(Dest::M, Comp::Zero);
        e.at_reg(Reg::SP);
        e.assign(Dest::M, Comp::MPlusOne);
        i += 1;
        assert(e.code() =~= before + push_zero());
        assert(e.code() =~= old(e).code() + (seq![Instr::Label(name@)] + zero_slots(i as nat)));
    }
}

/// Writes the instructions of `save`.
pub fn emit_save(e: &mut Emitter, r: Reg)
    requires
        old(e).wf(),
    ensures
        final(e).wf(),
        final(e).code() == old(e).code() + save(r),
{
    e.at_reg(r);
    e.assign(Dest::D, Comp::M);
    emit_push_d(e);
    assert(e.code() =~= old(e).code() + save(r));
}

/// Writes the instructions of `enter_locals`.
pub fn emit_enter_locals(e: &mut Emitter)
    requires
        old(e).wf(),
    ensures
        final(e).wf(),
        final(e).code() == old(e).code() + enter_locals(),
{
    e.at_reg(Reg::SP);
    e.assign(Dest::D, Comp::M);
    e.at_reg(Reg::LCL);
    e.assign(Dest::M, Comp::D);
    assert(e.code() =~= old(e).code() + enter_locals());
}

/// Writes the instructions of `enter_arguments`.
pub fn emit_enter_arguments(e: &mut Emitter, args: u16)
    requires
        old(e).wf(),
    ensures
        final(e).wf(),
        final(e).code() == old(e).code() + enter_arguments(args),
{
    e.at_reg(Reg::SP);
    e.assign(Dest::D, Comp::M);
    e.at_num(args);
    e.assign(Dest::D, Comp::DMinusA);
    e.at_num(FRAME_SIZE);
    e.assign(Dest::D, Comp::DMinusA);
    e.at_reg(Reg::ARG);
    e.assign(Dest::M, Comp::D);
    assert(e.code() =~= old(e).code() + enter_arguments(args));
}

/// Writes the instructions of `call_code`.
pub fn emit_call(e: &mut Emitter, name: &str, args: u16, k: u16)
    requires
        old(e).wf(),
    ensures
        final(e).wf(),
        final(e).code() == old(e).code() + call_code(name@, args, k as nat),
{
    let back = return_name(name, k);
    e.at_name(back.as_str());
    e.assign(Dest::D, Comp::A);
    emit_push_d(e);
    emit_save(e, Reg::LCL);
    emit_save(e, Reg::ARG);
    emit_save(e, Reg::THIS);
    emit_save(e, Reg::THAT);
    emit_enter_locals(e);
    emit_enter_arguments(e, args);
    emit_goto(e, name);
    e.label(back.as_str());
    assert(e.code() =~= old(e).code() + call_code(name@, args, k as nat));
}

/// Writes the instructions of `keep_frame`.
pub fn emit_keep_frame(e: &mut Emitter)
    requires
        old(e).wf(),
    ensures
        final(e).wf(),
        final(e).code() == old(e).code() + keep_frame(),
{
    e.at_reg(Reg::LCL);
    e.assign(Dest::D, Comp::M);
    e.at_reg(Reg::R13);
    e.assign(Dest::M, Comp::D);
    e.at_num(FRAME_SIZE);
    e.assign(Dest::D, Comp::DMinusA);
    e.assign(Dest::A, Comp::D);
    e.assign(Dest::D, Comp::M);
    e.at_reg(Reg::R14);
    e.assign(Dest::M, Comp::D);
    assert(e.code() =~= old(e).code() + keep_frame());
}

/// Writes the instructions of `hand_back`.
pub fn emit_hand_back(e: &mut Emitter)
    requires
        old(e).wf(),
    ensures
        final(e).wf(),
        final(e).code() == old(e).code() + hand_back(),
{
    emit_pop_d(e);
    e.at_reg(Reg::ARG);
    e.assign(Dest::A, Comp::M);
    e.assign(Dest::M, Comp::D);
    e.at_reg(Reg::ARG);
    e.assign(Dest::D, Comp::MPlusOne);
    e.at_reg(Reg::SP);
    e.assign(Dest::M, Comp::D);
    assert(e.code() =~= old(e).code() + hand_back());
}

/// Writes the instructions of `restore`.
pub fn emit_restore(e: &mut Emitter, r: Reg, below: u16)
    requires
        old(e).wf(),
    ensures
        final(e).wf(),
        final(e).code() == old(e).code() + restore(r, below),
{
    e.at_reg(Reg::R13);
    e.assign(Dest::D, Comp::M);
    e.at_num(below);
    e.assign(Dest::D, Comp::DMinusA);
    e.assign(Dest::A, Comp::D);
    e.assign(Dest::D, Comp::M);
    e.at_reg(r);
    e.assign(Dest::M, Comp::D);
    assert(e.code() =~= old(e).code() + restore(r, below));
}

/// Writes the instructions of `return_code`.
pub fn emit_return(e: &mut Emitter)
    requires
        old(e).wf(),
    ensures
        final(e).wf(),
        final(e).code() == old(e).code() + return_code(),
{
    emit_keep_frame(e);
    emit_hand_back(e);
    emit_restore(e, Reg::THAT, 1);
    emit_restore(e, Reg::THIS, 2);
    emit_restore(e, Reg::ARG, 3);
    emit_restore(e, Reg::LCL, 4);
    e.at_reg(Reg::R14);
    e.assign(Dest::A, Comp::M);
    e.compute(Dest::Null, Comp::Zero, Jump::JMP);
    assert(e.code() =~= old(e).code() + return_code());
}

/// Writes the instructions of `init_stack`.
pub fn emit_init_stack(e: &mut Emitter)
    requires
        old(e).wf(),
    ensures
        final(e).wf(),
        final(e).code() == old(e).code() + init_stack(),
{
    e.at_num(STACK_BASE);
    e.assign(Dest::D, Comp::A);
    e.at_reg(Reg::SP);
    e.assign(Dest::M, Comp::D);
    assert(e.code() =~= old(e).code() + init_stack());
}

} // verus!
