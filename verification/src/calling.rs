//! What the calling convention does to the memory of the target machine: how
//! a call builds the frame of the called function, how a return takes it
//! down, and that a return gives the caller back what the call took.
//!
//! The code of a call and of a return ends in a jump. What is stated here
//! is the state in which the jump is made: the address register holds the
//! place to which control goes.

use vstd::prelude::*;
use crate::assembly::Reg;
use crate::codegen::{
    call_code,
    enter_arguments,
    enter_locals,
    function_code,
    goto_code,
    hand_back,
    keep_frame,
    label_code,
    push_address,
    push_zero,
    restore,
    resume,
    return_code,
    return_label,
    save,
    zero_slots,
    FRAME_SIZE,
    STACK_BASE,
};
use crate::machine::{
    lemma_enter_arguments,
    lemma_enter_locals,
    lemma_goto,
    lemma_hand_back,
    lemma_keep_frame,
    lemma_push_address,
    lemma_restore,
    lemma_resume,
    lemma_run_concat,
    lemma_save,
    modulus,
    run,
    symbols_fit,
    word,
    Machine,
    Symbols,
};

verus! {

/// `call` on a machine whose stack is in place and has room for a frame.
///
/// The return address and the caller's four base pointers lie in the five
/// cells that were the first above the stack, in this order; the stack
/// pointer and the local base pointer lead to the cell above them; the
/// argument base pointer leads to the first of the arguments, which lie
/// below the frame; every other cell holds what it held; and control goes to
/// the function.
pub proof fn lemma_call(name: Seq<char>, args: u16, k: nat, s: Machine, symbols: Symbols)
    requires
        s.valid(),
        s.stack_in_place(),
        s.sp() + FRAME_SIZE < modulus(),
        symbols_fit(symbols),
    ensures
        ({
            let after = run(call_code(name, args, k), s, symbols);
            let sp = s.sp();
            &&& after.valid()
            &&& after.a == symbols(name)
            &&& after.ram[sp] == symbols(return_label(name, k))
            &&& after.ram[sp + 1] == s.ram[1]
            &&& after.ram[sp + 2] == s.ram[2]
            &&& after.ram[sp + 3] == s.ram[3]
            &&& after.ram[sp + 4] == s.ram[4]
            &&& after.ram[0] == sp + FRAME_SIZE
            &&& after.ram[1] == sp + FRAME_SIZE
            &&& after.ram[2] == word(sp - args)
            &&& forall|x: int|
                x != 0 && x != 1 && x != 2 && !(sp <= x < sp + FRAME_SIZE) ==> after.ram[x]
                    == s.ram[x]
        }),
{
    let back = return_label(name, k);
    let c1 = push_address(back);
    let c2 = c1 + save(Reg::LCL);
    let c3 = c2 + save(Reg::ARG);
    let c4 = c3 + save(Reg::THIS);
    let c5 = c4 + save(Reg::THAT);
    let c6 = c5 + enter_locals();
    let c7 = c6 + enter_arguments(args);
    let c8 = c7 + goto_code(name);
    let s1 = run(c1, s, symbols);
    let s2 = run(c2, s, symbols);
    let s3 = run(c3, s, symbols);
    let s4 = run(c4, s, symbols);
    let s5 = run(c5, s, symbols);
    let s6 = run(c6, s, symbols);
    let s7 = run(c7, s, symbols);
    let s8 = run(c8, s, symbols);
    lemma_push_address(back, s, symbols);
    lemma_run_concat(c1, save(Reg::LCL), s, symbols);
    lemma_save(Reg::LCL, s1, symbols);
    lemma_run_concat(c2, save(Reg::ARG), s, symbols);
    lemma_save(Reg::ARG, s2, symbols);
    lemma_run_concat(c3, save(Reg::THIS), s, symbols);
    lemma_save(Reg::THIS, s3, symbols);
    lemma_run_concat(c4, save(Reg::THAT), s, symbols);
    lemma_save(Reg::THAT, s4, symbols);
    lemma_run_concat(c5, enter_locals(), s, symbols);
    lemma_enter_locals(s5, symbols);
    lemma_run_concat(c6, enter_arguments(args), s, symbols);
    lemma_enter_arguments(args, s6, symbols);
    lemma_run_concat(c7, goto_code(name), s, symbols);
    lemma_goto(name, s7, symbols);
    lemma_run_concat(c8, label_code(back), s, symbols);
    assert(run(label_code(back), s8, symbols) == s8) by {
        reveal_with_fuel(run, 2);
    }
}

/// `push_zero` stores a zero at the top of the stack and advances the stack
/// pointer by one.
pub proof fn lemma_push_zero(s: Machine, symbols: Symbols)
    requires
        s.valid(),
        s.sp() != 0,
    ensures
        run(push_zero(), s, symbols).valid(),
        run(push_zero(), s, symbols).ram == s.ram.insert(s.sp(), 0).insert(0, word(s.sp() + 1)),
{
    reveal_with_fuel(run, 6);
}

/// `zero_slots` puts `n` zeros on a stack that is in place and has room for
/// them, and changes no cell but these and the stack pointer.
pub proof fn lemma_zero_slots(n: nat, s: Machine, symbols: Symbols)
    requires
        s.valid(),
        s.stack_in_place(),
        s.sp() + n < modulus(),
    ensures
        ({
            let after = run(zero_slots(n), s, symbols);
            &&& after.valid()
            &&& after.sp() == s.sp() + n
            &&& forall|x: int| s.sp() <= x < s.sp() + n ==> after.ram[x] == 0
            &&& forall|x: int| x != 0 && !(s.sp() <= x < s.sp() + n) ==> after.ram[x] == s.ram[x]
        }),
    decreases n,
{
    if n > 0 {
        let before = run(zero_slots((n - 1) as nat), s, symbols);
        lemma_zero_slots((n - 1) as nat, s, symbols);
        lemma_push_zero(before, symbols);
        lemma_run_concat(zero_slots((n - 1) as nat), push_zero(), s, symbols);
    }
}

/// `function` on a machine whose stack is in place and has room for the
/// local variables: each of the `locals` cells that were the first above the
/// stack holds a zero, the stack pointer leads to the cell above them, and
/// every other cell holds what it held.
pub proof fn lemma_function(name: Seq<char>, locals: u16, s: Machine, symbols: Symbols)
    requires
        s.valid(),
        s.stack_in_place(),
        s.sp() + locals < modulus(),
    ensures
        ({
            let after = run(function_code(name, locals), s, symbols);
            &&& after.valid()
            &&& after.sp() == s.sp() + locals
            &&& forall|x: int| s.sp() <= x < s.sp() + locals ==> after.ram[x] == 0
            &&& forall|x: int|
                x != 0 && !(s.sp() <= x < s.sp() + locals) ==> after.ram[x] == s.ram[x]
        }),
{
    let entry = label_code(name);
    assert(run(entry, s, symbols) == s) by {
        reveal_with_fuel(run, 2);
    }
    lemma_run_concat(entry, zero_slots(locals as nat), s, symbols);
    lemma_zero_slots(locals as nat, s, symbols);
}

/// `return` on a machine with a frame between arguments and a result: the
/// argument base pointer leads into the stack, the local base pointer leads
/// to a cell at least the size of a frame above it, and the stack pointer to
/// a cell above that one.
///
/// The result lies in the cell that was the first of the arguments, and the
/// stack pointer leads to the cell above it; the four base pointers hold
/// what the four cells below the frame held; every cell that has no name
/// holds what it held, but for that of the result; and control goes to the
/// address that the cell five below the frame held.
pub proof fn lemma_return(t: Machine, symbols: Symbols)
    requires
        t.valid(),
        STACK_BASE <= t.ram[2],
        t.ram[2] + FRAME_SIZE <= t.ram[1],
        t.ram[1] < t.sp(),
    ensures
        ({
            let after = run(return_code(), t, symbols);
            let frame = t.ram[1];
            let arg = t.ram[2];
            &&& after.valid()
            &&& after.a == t.ram[frame - 5]
            &&& after.ram[arg] == t.ram[t.sp() - 1]
            &&& after.ram[0] == arg + 1
            &&& after.ram[1] == t.ram[frame - 4]
            &&& after.ram[2] == t.ram[frame - 3]
            &&& after.ram[3] == t.ram[frame - 2]
            &&& after.ram[4] == t.ram[frame - 1]
            &&& forall|x: int| x > 4 && x != 13 && x != 14 && x != arg ==> after.ram[x] == t.ram[x]
        }),
{
    let c1 = keep_frame();
    let c2 = c1 + hand_back();
    let c3 = c2 + restore(Reg::THAT, 1);
    let c4 = c3 + restore(Reg::THIS, 2);
    let c5 = c4 + restore(Reg::ARG, 3);
    let c6 = c5 + restore(Reg::LCL, 4);
    let t1 = run(c1, t, symbols);
    let t2 = run(c2, t, symbols);
    let t3 = run(c3, t, symbols);
    let t4 = run(c4, t, symbols);
    let t5 = run(c5, t, symbols);
    let t6 = run(c6, t, symbols);
    lemma_keep_frame(t, symbols);
    lemma_run_concat(c1, hand_back(), t, symbols);
    lemma_hand_back(t1, symbols);
    lemma_run_concat(c2, restore(Reg::THAT, 1), t, symbols);
    lemma_restore(Reg::THAT, 1, t2, symbols);
    lemma_run_concat(c3, restore(Reg::THIS, 2), t, symbols);
    lemma_restore(Reg::THIS, 2, t3, symbols);
    lemma_run_concat(c4, restore(Reg::ARG, 3), t, symbols);
    lemma_restore(Reg::ARG, 3, t4, symbols);
    lemma_run_concat(c5, restore(Reg::LCL, 4), t, symbols);
    lemma_restore(Reg::LCL, 4, t5, symbols);
    lemma_run_concat(c6, resume(), t, symbols);
    lemma_resume(t6, symbols);
}

/// A return gives the caller back what the call took.
///
/// Let a call be made in the state `s`, with its arguments on the stack, and
/// let the called function come to its `return` in a state `t` in which the
/// two base pointers of its frame and the five cells that the call saved are
/// what the call made them, and in which a result lies on the stack above
/// the frame. After the return the caller's four base pointers hold what
/// they held in `s`; the result has taken the place of the arguments, so
/// that the stack is as high as before the arguments were pushed, and one
/// higher; and control goes to the return label of the call.
pub proof fn lemma_return_after_call(
    name: Seq<char>,
    args: u16,
    k: nat,
    s: Machine,
    t: Machine,
    symbols: Symbols,
)
    requires
        s.valid(),
        STACK_BASE + args <= s.sp(),
        s.sp() + FRAME_SIZE < modulus(),
        symbols_fit(symbols),
        t.valid(),
        t.ram[1] == run(call_code(name, args, k), s, symbols).ram[1],
        t.ram[2] == run(call_code(name, args, k), s, symbols).ram[2],
        forall|x: int|
            s.sp() <= x < s.sp() + FRAME_SIZE ==> t.ram[x] == run(
                call_code(name, args, k),
                s,
                symbols,
            ).ram[x],
        t.sp() > t.ram[1],
    ensures
        ({
            let after = run(return_code(), t, symbols);
            &&& after.valid()
            &&& after.a == symbols(return_label(name, k))
            &&& after.ram[1] == s.ram[1]
            &&& after.ram[2] == s.ram[2]
            &&& after.ram[3] == s.ram[3]
            &&& after.ram[4] == s.ram[4]
            &&& after.sp() == s.sp() - args + 1
            &&& after.ram[s.sp() - args] == t.ram[t.sp() - 1]
        }),
{
    lemma_call(name, args, k, s, symbols);
    lemma_return(t, symbols);
}

} // verus!
