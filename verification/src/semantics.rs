//! What the commands that move and combine values do to the memory of the
//! target machine, stated of the very instructions that the translator
//! writes for them.

use vstd::prelude::*;
use crate::assembly::Comp;
use crate::command::{CommandView, MemorySegment};
use crate::machine::{
    cell,
    lemma_access_is_straight,
    lemma_binary,
    lemma_pop_direct,
    lemma_pop_indirect,
    lemma_push,
    lemma_push_pop,
    lemma_run_concat,
    lemma_unary,
    modulus,
    operand,
    run,
    straight,
    symbols_fit,
    word,
    Machine,
    Symbols,
};
use crate::codegen::STACK_BASE;
use crate::translator::{command_code, Context};

verus! {

/// What an arithmetic or logical command makes of the topmost value `y`
/// and, where it takes two, the value `x` below it.
pub open spec fn outcome(c: CommandView, x: int, y: int) -> int {
    match c {
        CommandView::Add => word(x + y),
        CommandView::Sub => word(x - y),
        CommandView::And => ((x as u16) & (y as u16)) as int,
        CommandView::Or => ((x as u16) | (y as u16)) as int,
        CommandView::Neg => word(-y),
        CommandView::Not => modulus() - 1 - y,
        _ => y,
    }
}

/// Whether the command takes two values from the stack and leaves one.
pub open spec fn is_binary(c: CommandView) -> bool {
    c is Add || c is Sub || c is And || c is Or
}

/// Whether the command replaces the topmost value of the stack.
pub open spec fn is_unary(c: CommandView) -> bool {
    c is Neg || c is Not
}

/// `push` on a machine whose stack is in place: control falls through its
/// code; the value that the segment and the offset reach lies in the cell
/// that was the first above the stack; the stack pointer is one higher; and
/// every other cell holds what it held.
pub proof fn lemma_push_command(
    segment: MemorySegment,
    offset: u16,
    ctx: Context,
    s: Machine,
    symbols: Symbols,
)
    requires
        segment.admits(offset),
        s.valid(),
        s.stack_in_place(),
        symbols_fit(symbols),
    ensures
        ({
            let code = command_code(CommandView::Push(segment, offset), ctx);
            let after = run(code, s, symbols);
            &&& straight(code)
            &&& after.valid()
            &&& after.sp() == word(s.sp() + 1)
            &&& after.ram[s.sp()] == operand(segment.addressing(offset), ctx.file, s, symbols)
            &&& forall|x: int| x != 0 && x != s.sp() ==> after.ram[x] == s.ram[x]
        }),
{
    lemma_access_is_straight(segment.addressing(offset), ctx.file);
    lemma_push(segment.addressing(offset), ctx.file, s, symbols);
}

/// `pop` on a machine whose stack is in place and holds a value: control
/// falls through its code; the cell that the segment and the offset reach
/// holds the value that was topmost; the stack pointer is one lower, unless
/// it is itself that cell; and every other cell but the scratch cell `R13`
/// holds what it held.
pub proof fn lemma_pop_command(
    segment: MemorySegment,
    offset: u16,
    ctx: Context,
    s: Machine,
    symbols: Symbols,
)
    requires
        segment != MemorySegment::Constant,
        segment.admits(offset),
        s.valid(),
        s.sp() > STACK_BASE,
        symbols_fit(symbols),
    ensures
        ({
            let code = command_code(CommandView::Pop(segment, offset), ctx);
            let after = run(code, s, symbols);
            let place = cell(segment.addressing(offset), ctx.file, s, symbols);
            &&& straight(code)
            &&& after.valid()
            &&& after.ram[place] == s.ram[s.sp() - 1]
            &&& place != 0 ==> after.sp() == s.sp() - 1
            &&& forall|x: int| x != 0 && x != 13 && x != place ==> after.ram[x] == s.ram[x]
        }),
{
    let a = segment.addressing(offset);
    lemma_access_is_straight(a, ctx.file);
    match a {
        crate::command::Addressing::Indirect(base, k) => {
            lemma_pop_indirect(base, k, ctx.file, s, symbols);
        },
        _ => {
            lemma_pop_direct(a, ctx.file, s, symbols);
        },
    }
}

/// `add`, `sub`, `and` and `or` on a machine whose stack is in place and
/// holds two values: control falls through the code; the stack pointer is
/// one lower; the cell that is now topmost holds what the command makes of
/// the two values; and every other cell holds what it held.
pub proof fn lemma_binary_command(c: CommandView, ctx: Context, s: Machine, symbols: Symbols)
    requires
        is_binary(c),
        s.valid(),
        s.sp() > STACK_BASE + 1,
    ensures
        ({
            let code = command_code(c, ctx);
            let after = run(code, s, symbols);
            &&& straight(code)
            &&& after.valid()
            &&& after.sp() == s.sp() - 1
            &&& after.ram[s.sp() - 2] == outcome(c, s.ram[s.sp() - 2], s.ram[s.sp() - 1])
            &&& forall|x: int| x != 0 && x != s.sp() - 2 ==> after.ram[x] == s.ram[x]
        }),
{
    let x = s.ram[s.sp() - 2] as u16;
    let y = s.ram[s.sp() - 1] as u16;
    assert(x & y == y & x) by (bit_vector);
    assert(x | y == y | x) by (bit_vector);
    match c {
        CommandView::Add => {
            lemma_binary(Comp::DPlusM, s, symbols);
        },
        CommandView::Sub => {
            lemma_binary(Comp::MMinusD, s, symbols);
        },
        CommandView::And => {
            lemma_binary(Comp::DAndM, s, symbols);
        },
        _ => {
            lemma_binary(Comp::DOrM, s, symbols);
        },
    }
}

/// `neg` and `not` on a machine whose stack is in place and holds a value:
/// control falls through the code; the topmost cell holds what the command
/// makes of its value; and the stack pointer and every other cell hold what
/// they held.
pub proof fn lemma_unary_command(c: CommandView, ctx: Context, s: Machine, symbols: Symbols)
    requires
        is_unary(c),
        s.valid(),
        s.sp() > STACK_BASE,
    ensures
        ({
            let code = command_code(c, ctx);
            let after = run(code, s, symbols);
            &&& straight(code)
            &&& after.valid()
            &&& after.sp() == s.sp()
            &&& after.ram[s.sp() - 1] == outcome(c, 0, s.ram[s.sp() - 1])
            &&& forall|x: int| x != s.sp() - 1 ==> after.ram[x] == s.ram[x]
        }),
{
    match c {
        CommandView::Neg => {
            lemma_unary(Comp::NegM, s, symbols);
        },
        _ => {
            lemma_unary(Comp::NotM, s, symbols);
        },
    }
}

/// A `push` and, at once after it, a `pop` of the same cell come to
/// nothing: on a machine whose stack is in place control falls through the
/// two, and after them the stack pointer is what it was, the cell holds what
/// it held, and so does every other cell but the one above the stack and the
/// scratch cell `R13`.
///
/// This holds of every segment that has cells, which leaves out the constant
/// segment, and of every offset that the segment admits.
pub proof fn lemma_push_then_pop(
    segment: MemorySegment,
    offset: u16,
    ctx: Context,
    s: Machine,
    symbols: Symbols,
)
    requires
        segment != MemorySegment::Constant,
        segment.admits(offset),
        s.valid(),
        s.stack_in_place(),
        symbols_fit(symbols),
    ensures
        ({
            let code = command_code(CommandView::Push(segment, offset), ctx) + command_code(
                CommandView::Pop(segment, offset),
                ctx,
            );
            let after = run(code, s, symbols);
            let place = cell(segment.addressing(offset), ctx.file, s, symbols);
            &&& straight(code)
            &&& after.valid()
            &&& after.sp() == s.sp()
            &&& after.ram[place] == s.ram[place]
            &&& forall|x: int| x != s.sp() && x != 13 ==> after.ram[x] == s.ram[x]
        }),
{
    lemma_access_is_straight(segment.addressing(offset), ctx.file);
    lemma_push_pop(segment.addressing(offset), ctx.file, s, symbols);
}

/// The laws above in a row: two constants are pushed, added, and the sum is
/// popped to the first local variable. On a machine whose stack is in place
/// and has room for two values, and whose local segment does not begin at the
/// stack pointer's own cell, the variable then holds the sum, and the stack
/// pointer is what it was.
pub proof fn lemma_sum_to_local(a: u16, b: u16, ctx: Context, s: Machine, symbols: Symbols)
    requires
        s.valid(),
        s.stack_in_place(),
        s.sp() + 2 < modulus(),
        s.ram[1] != 0,
        symbols_fit(symbols),
    ensures
        ({
            let code = command_code(CommandView::Push(MemorySegment::Constant, a), ctx)
                + command_code(CommandView::Push(MemorySegment::Constant, b), ctx) + command_code(
                CommandView::Add,
                ctx,
            ) + command_code(CommandView::Pop(MemorySegment::Local, 0), ctx);
            let after = run(code, s, symbols);
            &&& after.valid()
            &&& after.sp() == s.sp()
            &&& after.ram[s.ram[1]] == word(a + b)
        }),
{
    let c1 = command_code(CommandView::Push(MemorySegment::Constant, a), ctx);
    let c2 = command_code(CommandView::Push(MemorySegment::Constant, b), ctx);
    let c3 = command_code(CommandView::Add, ctx);
    let c4 = command_code(CommandView::Pop(MemorySegment::Local, 0), ctx);
    let s1 = run(c1, s, symbols);
    let s2 = run(c1 + c2, s, symbols);
    let s3 = run(c1 + c2 + c3, s, symbols);
    lemma_push_command(MemorySegment::Constant, a, ctx, s, symbols);
    lemma_run_concat(c1, c2, s, symbols);
    lemma_push_command(MemorySegment::Constant, b, ctx, s1, symbols);
    lemma_run_concat(c1 + c2, c3, s, symbols);
    lemma_binary_command(CommandView::Add, ctx, s2, symbols);
    lemma_run_concat(c1 + c2 + c3, c4, s, symbols);
    lemma_pop_command(MemorySegment::Local, 0, ctx, s3, symbols);
}

} // verus!
