//! A run: everything that one translator does, in order, from the bootstrap
//! through the commands of all files. The two counters of the translator
//! never fall in a run, and each comparison and each call takes a number that
//! no later one gets again.

use vstd::prelude::*;
use crate::assembly::{defines, lemma_defines_concat, Instr};
use crate::codegen::{call_code, init_stack, jump_end, jump_start, return_label};
use crate::command::{CommandView, TranslateError};
use crate::labels::{
    lemma_init_stack_defines_nothing,
    lemma_jump_label_is_no_return_label,
    lemma_jump_labels_differ,
    lemma_labels_of_call,
    lemma_labels_of_comparison,
    lemma_return_labels_differ,
};
use crate::translator::{boot, command_code, enter, entry_point, flush, step, Context};

verus! {

/// One thing that is done with a translator.
pub enum Action {
    /// The bootstrap is written.
    Bootstrap,
    /// The commands of another file come next.
    Enter(Seq<char>),
    /// The text written so far is handed over.
    Flush,
    /// A command is translated.
    Emit(CommandView),
}

impl Action {
    /// Whether the action writes a comparison.
    pub open spec fn compares(self) -> bool {
        self matches Action::Emit(c) && c.is_comparison()
    }

    /// Whether the action writes a call.
    pub open spec fn calls(self) -> bool {
        self is Bootstrap || (self matches Action::Emit(c) && c is Call)
    }

    /// The function that the action calls.
    pub open spec fn callee(self) -> Seq<char>
        recommends
            self.calls(),
    {
        match self {
            Action::Emit(CommandView::Call(name, _)) => name,
            _ => entry_point(),
        }
    }
}

/// The state after an action, or why the action is refused.
pub open spec fn perform(ctx: Context, a: Action) -> Result<Context, TranslateError> {
    match a {
        Action::Bootstrap => boot(ctx),
        Action::Enter(stem) => Ok(enter(ctx, stem)),
        Action::Flush => Ok(flush(ctx)),
        Action::Emit(c) => step(ctx, c),
    }
}

/// The instructions that an action writes in the state `ctx`.
pub open spec fn action_code(ctx: Context, a: Action) -> Seq<Instr> {
    match a {
        Action::Bootstrap => init_stack() + call_code(entry_point(), 0, ctx.ret_idx as nat),
        Action::Emit(c) => command_code(c, ctx),
        _ => Seq::empty(),
    }
}

/// The state after a sequence of actions, or the reason for which the first
/// refused action was refused.
pub open spec fn replay(ctx: Context, actions: Seq<Action>) -> Result<Context, TranslateError>
    decreases actions.len(),
{
    if actions.len() == 0 {
        Ok(ctx)
    } else {
        match replay(ctx, actions.drop_last()) {
            Err(e) => Err(e),
            Ok(before) => perform(before, actions.last()),
        }
    }
}

/// The state in which the action at index `k` is performed.
pub open spec fn before(ctx: Context, actions: Seq<Action>, k: int) -> Context
    recommends
        0 <= k <= actions.len(),
        replay(ctx, actions.take(k)) is Ok,
{
    replay(ctx, actions.take(k))->Ok_0
}

/// A run begins with its first action and goes on from the state that this
/// action leaves.
pub proof fn lemma_replay_first(ctx: Context, a: Action, rest: Seq<Action>)
    ensures
        replay(ctx, seq![a] + rest) == match perform(ctx, a) {
            Err(e) => Err::<Context, TranslateError>(e),
            Ok(next) => replay(next, rest),
        },
    decreases rest.len(),
{
    let all = seq![a] + rest;
    if rest.len() == 0 {
        assert(all.drop_last() =~= Seq::<Action>::empty());
        assert(all.last() == a);
        assert(replay(ctx, all.drop_last()) == Ok::<Context, TranslateError>(ctx));
    } else {
        lemma_replay_first(ctx, a, rest.drop_last());
        assert(all.drop_last() =~= seq![a] + rest.drop_last());
        assert(all.last() == rest.last());
    }
}

/// An action that is not refused leaves each counter where it was or one
/// higher: the counter of comparisons is one higher after a comparison, and
/// the counter of calls after a call.
pub proof fn lemma_perform_counts(ctx: Context, a: Action)
    requires
        perform(ctx, a) is Ok,
    ensures
        perform(ctx, a)->Ok_0.next_jump == ctx.next_jump + (if a.compares() {
            1int
        } else {
            0int
        }),
        perform(ctx, a)->Ok_0.ret_idx == ctx.ret_idx + (if a.calls() {
            1int
        } else {
            0int
        }),
{
}

/// A run that gets through all its actions gets through the first `k`.
pub proof fn lemma_replay_prefix(ctx: Context, actions: Seq<Action>, k: int)
    requires
        replay(ctx, actions) is Ok,
        0 <= k <= actions.len(),
    ensures
        replay(ctx, actions.take(k)) is Ok,
    decreases actions.len() - k,
{
    if k == actions.len() {
        assert(actions.take(k) =~= actions);
    } else {
        lemma_replay_prefix(ctx, actions, k + 1);
        assert(actions.take(k + 1).drop_last() =~= actions.take(k));
    }
}

/// In a run, no counter is lower at a later action than at an earlier one,
/// and the counter that an action takes its number from is higher at every
/// later action.
pub proof fn lemma_counters_rise(ctx: Context, actions: Seq<Action>, i: int, j: int)
    requires
        replay(ctx, actions) is Ok,
        0 <= i <= j <= actions.len(),
    ensures
        before(ctx, actions, i).next_jump <= before(ctx, actions, j).next_jump,
        before(ctx, actions, i).ret_idx <= before(ctx, actions, j).ret_idx,
        i < j && actions[i].compares() ==> before(ctx, actions, i).next_jump < before(
            ctx,
            actions,
            j,
        ).next_jump,
        i < j && actions[i].calls() ==> before(ctx, actions, i).ret_idx < before(
            ctx,
            actions,
            j,
        ).ret_idx,
    decreases j - i,
{
    if i < j {
        lemma_counters_rise(ctx, actions, i, j - 1);
        lemma_replay_prefix(ctx, actions, j - 1);
        lemma_replay_prefix(ctx, actions, j);
        assert(actions.take(j).drop_last() =~= actions.take(j - 1));
        assert(actions.take(j).last() == actions[j - 1]);
        lemma_perform_counts(before(ctx, actions, j - 1), actions[j - 1]);
    }
}

/// In a run, a later comparison carries a greater number than an earlier
/// one, and none of its two labels is a label of the earlier one.
pub proof fn lemma_comparison_labels_are_fresh(
    ctx: Context,
    actions: Seq<Action>,
    i: int,
    j: int,
)
    requires
        replay(ctx, actions) is Ok,
        0 <= i < j < actions.len(),
        actions[i].compares(),
        actions[j].compares(),
    ensures
        ({
            let m = before(ctx, actions, i).next_jump as nat;
            let n = before(ctx, actions, j).next_jump as nat;
            &&& m < n
            &&& jump_start(m) != jump_start(n)
            &&& jump_start(m) != jump_end(n)
            &&& jump_end(m) != jump_start(n)
            &&& jump_end(m) != jump_end(n)
        }),
{
    let m = before(ctx, actions, i).next_jump as nat;
    let n = before(ctx, actions, j).next_jump as nat;
    lemma_counters_rise(ctx, actions, i, j);
    lemma_jump_labels_differ(m, n);
    lemma_jump_labels_differ(n, m);
}

/// In a run, a later call carries a greater number than an earlier one, and
/// its return label is not that of the earlier one, whether or not the two
/// call the same function. The call of the bootstrap counts as a call.
pub proof fn lemma_return_labels_are_fresh(ctx: Context, actions: Seq<Action>, i: int, j: int)
    requires
        replay(ctx, actions) is Ok,
        0 <= i < j < actions.len(),
        actions[i].calls(),
        actions[j].calls(),
    ensures
        ({
            let m = before(ctx, actions, i).ret_idx as nat;
            let n = before(ctx, actions, j).ret_idx as nat;
            &&& m < n
            &&& return_label(actions[i].callee(), m) != return_label(actions[j].callee(), n)
        }),
{
    let m = before(ctx, actions, i).ret_idx as nat;
    let n = before(ctx, actions, j).ret_idx as nat;
    lemma_counters_rise(ctx, actions, i, j);
    if return_label(actions[i].callee(), m) == return_label(actions[j].callee(), n) {
        lemma_return_labels_differ(actions[i].callee(), m, actions[j].callee(), n);
    }
}

/// The names that the code of a comparison or of a call defines: the two
/// labels with the number of the comparison, or the return label with the
/// number of the call.
pub proof fn lemma_labels_of_action(ctx: Context, a: Action, name: Seq<char>)
    requires
        a.compares() || a.calls(),
    ensures
        a.compares() ==> (defines(action_code(ctx, a), name) <==> name == jump_start(
            ctx.next_jump as nat,
        ) || name == jump_end(ctx.next_jump as nat)),
        a.calls() ==> (defines(action_code(ctx, a), name) <==> name == return_label(
            a.callee(),
            ctx.ret_idx as nat,
        )),
{
    match a {
        Action::Bootstrap => {
            lemma_init_stack_defines_nothing(name);
            lemma_labels_of_call(entry_point(), 0, ctx.ret_idx as nat, name);
            lemma_defines_concat(
                init_stack(),
                call_code(entry_point(), 0, ctx.ret_idx as nat),
                name,
            );
        },
        Action::Emit(c) => {
            match c {
                CommandView::Eq => {
                    lemma_labels_of_comparison(crate::assembly::Jump::JEQ, ctx.next_jump as nat, name);
                },
                CommandView::Lt => {
                    lemma_labels_of_comparison(crate::assembly::Jump::JLT, ctx.next_jump as nat, name);
                },
                CommandView::Gt => {
                    lemma_labels_of_comparison(crate::assembly::Jump::JGT, ctx.next_jump as nat, name);
                },
                CommandView::Call(f, args) => {
                    lemma_labels_of_call(f, args, ctx.ret_idx as nat, name);
                },
                _ => {},
            }
        },
        _ => {},
    }
}

/// In a run, no name that the code of a comparison or of a call defines is
/// defined again by the code of a later comparison or call: every label that
/// the translator makes up is made up once.
pub proof fn lemma_made_labels_are_fresh(
    ctx: Context,
    actions: Seq<Action>,
    i: int,
    j: int,
    name: Seq<char>,
)
    requires
        replay(ctx, actions) is Ok,
        0 <= i < j < actions.len(),
        actions[i].compares() || actions[i].calls(),
        actions[j].compares() || actions[j].calls(),
    ensures
        !(defines(action_code(before(ctx, actions, i), actions[i]), name) && defines(
            action_code(before(ctx, actions, j), actions[j]),
            name,
        )),
{
    let s = before(ctx, actions, i);
    let t = before(ctx, actions, j);
    lemma_counters_rise(ctx, actions, i, j);
    lemma_labels_of_action(s, actions[i], name);
    lemma_labels_of_action(t, actions[j], name);
    lemma_jump_labels_differ(s.next_jump as nat, t.next_jump as nat);
    lemma_jump_labels_differ(t.next_jump as nat, s.next_jump as nat);
    lemma_jump_label_is_no_return_label(s.next_jump as nat, actions[j].callee(), t.ret_idx as nat);
    lemma_jump_label_is_no_return_label(t.next_jump as nat, actions[i].callee(), s.ret_idx as nat);
    if return_label(actions[i].callee(), s.ret_idx as nat) == return_label(
        actions[j].callee(),
        t.ret_idx as nat,
    ) {
        lemma_return_labels_differ(
            actions[i].callee(),
            s.ret_idx as nat,
            actions[j].callee(),
            t.ret_idx as nat,
        );
    }
}

} // verus!
