//! What the commands that steer control do: where the machine goes from the
//! code of a label, a jump, a comparison, a call and a return, once the code
//! lies in the instruction memory and its labels stand for their places.

use vstd::prelude::*;
use crate::assembly::{branch, Comp, Instr, Jump, Reg};
use crate::calling::{lemma_call, lemma_return, lemma_return_after_call};
use crate::command::CommandView;
use crate::codegen::{
    branch_to,
    call_code,
    compare_with,
    difference,
    enter_arguments,
    enter_locals,
    goto_code,
    grow,
    hand_back,
    if_goto_code,
    jump_end,
    jump_start,
    keep_frame,
    label_code,
    pop_d,
    push_address,
    restore,
    resume,
    return_code,
    return_label,
    save,
    write_top,
    FRAME_SIZE,
    STACK_BASE,
};
use crate::control::{
    jumps,
    lemma_falls_through,
    lemma_placed_concat,
    lemma_reaches_next,
    lemma_reaches_on,
    lemma_rom_without_labels,
    placed,
    reaches,
    rom_of,
    size,
    step,
    taken,
    Cpu,
};
use crate::translator::{command_code, Context};
use crate::machine::{
    execute,
    lemma_pop_d,
    lemma_run_concat,
    lemma_straight_concat,
    modulus,
    run,
    straight,
    symbols_fit,
    word,
    Machine,
    Symbols,
};

verus! {

/// Code that falls through to a last instruction, which may jump: from the
/// first instruction the machine comes to the address that the address
/// register holds at the last one, if that one jumps, and to the instruction
/// behind the code if not, in the state that the code leaves.
pub proof fn lemma_ends_in_jump(
    before: Seq<Instr>,
    last: Instr,
    base: int,
    rom: Seq<Instr>,
    symbols: Symbols,
    s: Machine,
)
    requires
        placed(before + seq![last], base, rom, symbols),
        straight(before),
        !(last is Label),
    ensures
        ({
            let code = before + seq![last];
            let at = run(before, s, symbols);
            &&& run(code, s, symbols) == execute(last, at, symbols)
            &&& reaches(
                rom,
                symbols,
                Cpu { pc: base, state: s },
                Cpu {
                    pc: if jumps(last, at) {
                        at.a
                    } else {
                        base + size(code)
                    },
                    state: run(code, s, symbols),
                },
            )
        }),
{
    let code = before + seq![last];
    let from = Cpu { pc: base, state: s };
    let at = Cpu { pc: base + size(before), state: run(before, s, symbols) };
    lemma_placed_concat(before, seq![last], base, rom, symbols);
    lemma_falls_through(before, base, rom, symbols, s);
    lemma_run_concat(before, seq![last], s, symbols);
    assert(run(seq![last], at.state, symbols) == execute(last, at.state, symbols)) by {
        reveal_with_fuel(run, 2);
    }
    assert(rom_of(seq![last]) =~= seq![last]) by {
        reveal_with_fuel(rom_of, 2);
    }
    assert(rom[base + size(before)] == rom_of(seq![last])[0]);
    lemma_reaches_next(rom, symbols, at);
    lemma_reaches_on(rom, symbols, from, at, step(rom, symbols, at));
}

/// A label stands for the place of the instruction that follows it.
pub proof fn lemma_label(name: Seq<char>, base: int, rom: Seq<Instr>, symbols: Symbols)
    requires
        placed(label_code(name), base, rom, symbols),
    ensures
        symbols(name) == base,
        size(label_code(name)) == 0,
{
    assert(label_code(name)[0] == Instr::Label(name));
    assert(label_code(name).take(0) =~= Seq::<Instr>::empty());
    reveal_with_fuel(rom_of, 2);
}

/// `goto`: control goes to the label, and the memory is what it was.
pub proof fn lemma_goto_lands(
    name: Seq<char>,
    base: int,
    rom: Seq<Instr>,
    symbols: Symbols,
    s: Machine,
)
    requires
        placed(goto_code(name), base, rom, symbols),
    ensures
        reaches(
            rom,
            symbols,
            Cpu { pc: base, state: s },
            Cpu { pc: symbols(name), state: Machine { a: symbols(name), ..s } },
        ),
{
    let before = seq![Instr::AtName(name)];
    let last = branch(Comp::Zero, Jump::JMP);
    assert(goto_code(name) =~= before + seq![last]);
    lemma_ends_in_jump(before, last, base, rom, symbols, s);
    reveal_with_fuel(run, 2);
}

/// `if-goto` on a machine whose stack is in place and holds a value: the
/// value leaves the stack, and control goes to the label if the value is not
/// zero, and to the next instruction if it is. No cell but the stack pointer
/// changes.
pub proof fn lemma_if_goto(
    name: Seq<char>,
    base: int,
    rom: Seq<Instr>,
    symbols: Symbols,
    s: Machine,
)
    requires
        placed(if_goto_code(name), base, rom, symbols),
        s.valid(),
        s.sp() > STACK_BASE,
        symbols_fit(symbols),
    ensures
        ({
            let after = run(if_goto_code(name), s, symbols);
            &&& reaches(
                rom,
                symbols,
                Cpu { pc: base, state: s },
                Cpu {
                    pc: if s.ram[s.sp() - 1] != 0 {
                        symbols(name)
                    } else {
                        base + size(if_goto_code(name))
                    },
                    state: after,
                },
            )
            &&& after.valid()
            &&& after.sp() == s.sp() - 1
            &&& forall|x: int| x != 0 ==> after.ram[x] == s.ram[x]
        }),
{
    let before = pop_d() + seq![Instr::AtName(name)];
    let last = branch(Comp::D, Jump::JNE);
    assert(if_goto_code(name) =~= before + seq![last]);
    lemma_pop_d(s, symbols);
    lemma_run_concat(pop_d(), seq![Instr::AtName(name)], s, symbols);
    assert(run(seq![Instr::AtName(name)], run(pop_d(), s, symbols), symbols) == (Machine {
        a: symbols(name),
        ..run(pop_d(), s, symbols)
    })) by {
        reveal_with_fuel(run, 2);
    }
    lemma_straight_concat(pop_d(), seq![Instr::AtName(name)]);
    lemma_ends_in_jump(before, last, base, rom, symbols, s);
}

/// The word that stands for a truth value: all bits for true, none for
/// false.
pub open spec fn truth(b: bool) -> int {
    if b {
        modulus() - 1
    } else {
        0
    }
}

/// `difference` takes two values off a stack that is in place and holds
/// them, and leaves the lower less the topmost in the data register.
pub proof fn lemma_difference(s: Machine, symbols: Symbols)
    requires
        s.valid(),
        s.sp() > STACK_BASE + 1,
    ensures
        ({
            let after = run(difference(), s, symbols);
            &&& after.valid()
            &&& after.d == word(s.ram[s.sp() - 2] - s.ram[s.sp() - 1])
            &&& after.ram == s.ram.insert(0, s.sp() - 1).insert(0, s.sp() - 2)
        }),
{
    let rest = difference().skip(pop_d().len() as int);
    assert(difference() =~= pop_d() + rest);
    lemma_pop_d(s, symbols);
    lemma_run_concat(pop_d(), rest, s, symbols);
    assert(rest.len() == 4);
    reveal_with_fuel(run, 5);
}

/// `write_top` stores the value of a constant in the cell that the stack
/// pointer leads to.
pub proof fn lemma_write_top(comp: Comp, s: Machine, symbols: Symbols)
    requires
        s.valid(),
        comp == Comp::Zero || comp == Comp::MinusOne,
    ensures
        run(write_top(comp), s, symbols).valid(),
        run(write_top(comp), s, symbols).ram == s.ram.insert(
            s.sp(),
            truth(comp == Comp::MinusOne),
        ),
{
    reveal_with_fuel(run, 4);
}

/// `grow` advances the stack pointer by one.
pub proof fn lemma_grow(s: Machine, symbols: Symbols)
    requires
        s.valid(),
    ensures
        run(grow(), s, symbols).valid(),
        run(grow(), s, symbols).ram == s.ram.insert(0, word(s.sp() + 1)),
{
    reveal_with_fuel(run, 3);
}

/// A comparison on a machine whose stack is in place and holds two values:
/// the machine comes to the instruction behind the code of the comparison;
/// the stack pointer is one lower; the cell that is now topmost holds the
/// truth value of the condition on the lower value less the topmost; and
/// every other cell holds what it held.
pub proof fn lemma_compare(
    jump: Jump,
    start: Seq<char>,
    end: Seq<char>,
    base: int,
    rom: Seq<Instr>,
    symbols: Symbols,
    s: Machine,
)
    requires
        placed(compare_with(jump, start, end), base, rom, symbols),
        s.valid(),
        s.sp() > STACK_BASE + 1,
        symbols_fit(symbols),
    ensures
        exists|to: Cpu|
            {
                &&& #[trigger] reaches(rom, symbols, Cpu { pc: base, state: s }, to)
                &&& to.pc == base + size(compare_with(jump, start, end))
                &&& to.state.valid()
                &&& to.state.sp() == s.sp() - 1
                &&& to.state.ram[s.sp() - 2] == truth(
                    taken(jump, word(s.ram[s.sp() - 2] - s.ram[s.sp() - 1])),
                )
                &&& forall|x: int| x != 0 && x != s.sp() - 2 ==> to.state.ram[x] == s.ram[x]
            },
{
    let d = difference();
    let bt = branch_to(start, jump);
    let f = write_top(Comp::Zero);
    let g = goto_code(end);
    let ls = label_code(start);
    let t = write_top(Comp::MinusOne);
    let le = label_code(end);
    let z = grow();
    let c2 = d + bt;
    let c3 = c2 + f;
    let c4 = c3 + g;
    let c5 = c4 + ls;
    let c6 = c5 + t;
    let c7 = c6 + le;
    let code = compare_with(jump, start, end);
    assert(code == c7 + z);
    lemma_placed_concat(c7, z, base, rom, symbols);
    lemma_placed_concat(c6, le, base, rom, symbols);
    lemma_placed_concat(c5, t, base, rom, symbols);
    lemma_placed_concat(c4, ls, base, rom, symbols);
    lemma_placed_concat(c3, g, base, rom, symbols);
    lemma_placed_concat(c2, f, base, rom, symbols);
    lemma_label(start, base + size(c4), rom, symbols);
    lemma_label(end, base + size(c6), rom, symbols);
    lemma_rom_without_labels(f);
    lemma_rom_without_labels(g);
    lemma_rom_without_labels(t);
    lemma_rom_without_labels(z);

    // Up to the jump that decides.
    let from = Cpu { pc: base, state: s };
    let before = d + seq![Instr::AtName(start)];
    let decide = branch(Comp::D, jump);
    assert(c2 =~= before + seq![decide]);
    lemma_difference(s, symbols);
    lemma_run_concat(d, seq![Instr::AtName(start)], s, symbols);
    let s1 = run(d, s, symbols);
    assert(run(seq![Instr::AtName(start)], s1, symbols) == (Machine {
        a: symbols(start),
        ..s1
    })) by {
        reveal_with_fuel(run, 2);
    }
    lemma_straight_concat(d, seq![Instr::AtName(start)]);
    lemma_ends_in_jump(before, decide, base, rom, symbols, s);
    let s2 = run(c2, s, symbols);
    let yes = taken(jump, word(s.ram[s.sp() - 2] - s.ram[s.sp() - 1]));
    let decided = Cpu {
        pc: if yes {
            symbols(start)
        } else {
            base + size(c2)
        },
        state: s2,
    };
    assert(reaches(rom, symbols, from, decided));
    assert(s2.valid());
    assert(s2.ram == s1.ram);

    if yes {
        lemma_falls_through(t, base + size(c5), rom, symbols, s2);
        lemma_write_top(Comp::MinusOne, s2, symbols);
        let s3 = run(t, s2, symbols);
        let written = Cpu { pc: base + size(c5) + size(t), state: s3 };
        lemma_reaches_on(rom, symbols, from, decided, written);
        lemma_falls_through(z, base + size(c7), rom, symbols, s3);
        lemma_grow(s3, symbols);
        let behind = Cpu { pc: base + size(c7) + size(z), state: run(z, s3, symbols) };
        lemma_reaches_on(rom, symbols, from, written, behind);
        assert(reaches(rom, symbols, from, behind));
    } else {
        lemma_falls_through(f, base + size(c2), rom, symbols, s2);
        lemma_write_top(Comp::Zero, s2, symbols);
        let s3 = run(f, s2, symbols);
        let written = Cpu { pc: base + size(c2) + size(f), state: s3 };
        lemma_reaches_on(rom, symbols, from, decided, written);
        lemma_goto_lands(end, base + size(c3), rom, symbols, s3);
        let s4 = Machine { a: symbols(end), ..s3 };
        let landed = Cpu { pc: symbols(end), state: s4 };
        lemma_reaches_on(rom, symbols, from, written, landed);
        lemma_falls_through(z, base + size(c7), rom, symbols, s4);
        lemma_grow(s4, symbols);
        let behind = Cpu { pc: base + size(c7) + size(z), state: run(z, s4, symbols) };
        lemma_reaches_on(rom, symbols, from, landed, behind);
        assert(reaches(rom, symbols, from, behind));
    }
}

/// The condition that a comparison puts on the lower value less the
/// topmost.
pub open spec fn condition(c: CommandView) -> Jump {
    match c {
        CommandView::Eq => Jump::JEQ,
        CommandView::Lt => Jump::JLT,
        _ => Jump::JGT,
    }
}

/// `eq`, `lt` and `gt` on a machine whose stack is in place and holds two
/// values: the machine comes to the instruction behind the code of the
/// command; the stack pointer is one lower; the cell that is now topmost
/// holds all bits if the lower value less the topmost meets the condition of
/// the command, and none if not; and every other cell holds what it held.
pub proof fn lemma_comparison_command(
    c: CommandView,
    ctx: Context,
    base: int,
    rom: Seq<Instr>,
    symbols: Symbols,
    s: Machine,
)
    requires
        c.is_comparison(),
        placed(command_code(c, ctx), base, rom, symbols),
        s.valid(),
        s.sp() > STACK_BASE + 1,
        symbols_fit(symbols),
    ensures
        exists|to: Cpu|
            {
                &&& #[trigger] reaches(rom, symbols, Cpu { pc: base, state: s }, to)
                &&& to.pc == base + size(command_code(c, ctx))
                &&& to.state.valid()
                &&& to.state.sp() == s.sp() - 1
                &&& to.state.ram[s.sp() - 2] == truth(
                    taken(condition(c), word(s.ram[s.sp() - 2] - s.ram[s.sp() - 1])),
                )
                &&& forall|x: int| x != 0 && x != s.sp() - 2 ==> to.state.ram[x] == s.ram[x]
            },
{
    lemma_compare(
        condition(c),
        jump_start(ctx.next_jump as nat),
        jump_end(ctx.next_jump as nat),
        base,
        rom,
        symbols,
        s,
    );
}

/// The three conditions of the comparisons, on numbers below 0x8000: the
/// lower value less the topmost is zero, negative or positive as the lower
/// value is equal to the topmost, less or greater.
pub proof fn lemma_conditions(x: int, y: int)
    requires
        0 <= x < 0x8000,
        0 <= y < 0x8000,
    ensures
        taken(Jump::JEQ, word(x - y)) <==> x == y,
        taken(Jump::JLT, word(x - y)) <==> x < y,
        taken(Jump::JGT, word(x - y)) <==> x > y,
{
}

/// `call`, where control goes: from the code of the call the machine comes
/// to the function, in the state that `lemma_call` describes, and the return
/// label stands for the address of the instruction behind the call.
pub proof fn lemma_call_lands(
    name: Seq<char>,
    args: u16,
    k: nat,
    base: int,
    rom: Seq<Instr>,
    symbols: Symbols,
    s: Machine,
)
    requires
        placed(call_code(name, args, k), base, rom, symbols),
        s.valid(),
        s.stack_in_place(),
        s.sp() + FRAME_SIZE < modulus(),
        symbols_fit(symbols),
    ensures
        reaches(
            rom,
            symbols,
            Cpu { pc: base, state: s },
            Cpu { pc: symbols(name), state: run(call_code(name, args, k), s, symbols) },
        ),
        symbols(return_label(name, k)) == base + size(call_code(name, args, k)),
{
    let back = return_label(name, k);
    let c1 = push_address(back);
    let c2 = c1 + save(Reg::LCL);
    let c3 = c2 + save(Reg::ARG);
    let c4 = c3 + save(Reg::THIS);
    let c5 = c4 + save(Reg::THAT);
    let c6 = c5 + enter_locals();
    let c7 = c6 + enter_arguments(args);
    let c8 = c7 + goto_code(name);
    let code = call_code(name, args, k);
    assert(code == c8 + label_code(back));
    lemma_placed_concat(c8, label_code(back), base, rom, symbols);
    lemma_label(back, base + size(c8), rom, symbols);
    lemma_run_concat(c8, label_code(back), s, symbols);
    assert(run(label_code(back), run(c8, s, symbols), symbols) == run(c8, s, symbols)) by {
        reveal_with_fuel(run, 2);
    }
    let before = c7 + seq![Instr::AtName(name)];
    let last = branch(Comp::Zero, Jump::JMP);
    assert(c8 =~= before + seq![last]);
    lemma_straight_concat(c1, save(Reg::LCL));
    lemma_straight_concat(c2, save(Reg::ARG));
    lemma_straight_concat(c3, save(Reg::THIS));
    lemma_straight_concat(c4, save(Reg::THAT));
    lemma_straight_concat(c5, enter_locals());
    lemma_straight_concat(c6, enter_arguments(args));
    lemma_straight_concat(c7, seq![Instr::AtName(name)]);
    lemma_ends_in_jump(before, last, base, rom, symbols, s);
    lemma_run_concat(c7, seq![Instr::AtName(name)], s, symbols);
    assert(run(seq![Instr::AtName(name)], run(c7, s, symbols), symbols).a == symbols(name)) by {
        reveal_with_fuel(run, 2);
    }
}

/// `return`, where control goes: from the code of the return the machine
/// comes to the address that the cell five below the frame held, in the state
/// that `lemma_return` describes.
pub proof fn lemma_return_lands(base: int, rom: Seq<Instr>, symbols: Symbols, t: Machine)
    requires
        placed(return_code(), base, rom, symbols),
        t.valid(),
        STACK_BASE <= t.ram[2],
        t.ram[2] + FRAME_SIZE <= t.ram[1],
        t.ram[1] < t.sp(),
    ensures
        reaches(
            rom,
            symbols,
            Cpu { pc: base, state: t },
            Cpu { pc: t.ram[t.ram[1] - 5], state: run(return_code(), t, symbols) },
        ),
{
    let c1 = keep_frame();
    let c2 = c1 + hand_back();
    let c3 = c2 + restore(Reg::THAT, 1);
    let c4 = c3 + restore(Reg::THIS, 2);
    let c5 = c4 + restore(Reg::ARG, 3);
    let c6 = c5 + restore(Reg::LCL, 4);
    let before = c6 + resume().take(2);
    let last = branch(Comp::Zero, Jump::JMP);
    assert(resume() =~= resume().take(2) + seq![last]);
    assert(return_code() =~= before + seq![last]);
    lemma_straight_concat(c1, hand_back());
    lemma_straight_concat(c2, restore(Reg::THAT, 1));
    lemma_straight_concat(c3, restore(Reg::THIS, 2));
    lemma_straight_concat(c4, restore(Reg::ARG, 3));
    lemma_straight_concat(c5, restore(Reg::LCL, 4));
    lemma_straight_concat(c6, resume().take(2));
    lemma_ends_in_jump(before, last, base, rom, symbols, t);
    lemma_return(t, symbols);
    assert(run(return_code(), t, symbols).a == run(before, t, symbols).a);
}

/// A return leads back behind the call.
///
/// Let a call be made in the state `s`, with its arguments on the stack, and
/// let the called function come to its `return` in a state `t` in which the
/// two base pointers of its frame and the five cells that the call saved are
/// what the call made them, and in which a result lies on the stack above
/// the frame. From the code of the return the machine comes to the
/// instruction behind the call, with the caller's four base pointers as they
/// were in `s` and the result in the place of the arguments.
pub proof fn lemma_return_lands_behind_call(
    name: Seq<char>,
    args: u16,
    k: nat,
    at_call: int,
    at_return: int,
    rom: Seq<Instr>,
    symbols: Symbols,
    s: Machine,
    t: Machine,
)
    requires
        placed(call_code(name, args, k), at_call, rom, symbols),
        placed(return_code(), at_return, rom, symbols),
        s.valid(),
        STACK_BASE + args <= s.sp(),
        s.sp() + FRAME_SIZE < modulus(),
        symbols_fit(symbols),
        t.valid(),
        t.ram[1] == run(call_code(name, args, k), s, symbols).ram[1],
        t.ram[2] == run(call_code(name, args, k), s, symbols).ram[2],
        forall|x: int|
            s.sp() <= x < s.sp() + FRAME_SIZE ==> t.ram[x] == run(
                call_code(name, args, k),
                s,
                symbols,
            ).ram[x],
        t.sp() > t.ram[1],
    ensures
        ({
            let after = run(return_code(), t, symbols);
            &&& reaches(
                rom,
                symbols,
                Cpu { pc: at_return, state: t },
                Cpu { pc: at_call + size(call_code(name, args, k)), state: after },
            )
            &&& after.ram[1] == s.ram[1]
            &&& after.ram[2] == s.ram[2]
            &&& after.ram[3] == s.ram[3]
            &&& after.ram[4] == s.ram[4]
            &&& after.sp() == s.sp() - args + 1
            &&& after.ram[s.sp() - args] == t.ram[t.sp() - 1]
        }),
{
    lemma_call(name, args, k, s, symbols);
    lemma_call_lands(name, args, k, at_call, rom, symbols, s);
    lemma_return_after_call(name, args, k, s, t, symbols);
    lemma_return_lands(at_return, rom, symbols, t);
}

} // verus!
