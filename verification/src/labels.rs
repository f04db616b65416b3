//! The names that the translator makes up: the labels of comparisons, the
//! return labels of calls and the symbols of static variables. Names made
//! from different numbers are different names.

use vstd::prelude::*;
use crate::assembly::{defines, lemma_defines_concat, Comp, Instr, Jump, Reg};
use crate::codegen::{
    branch_to,
    call_code,
    compare_code,
    difference,
    enter_arguments,
    enter_locals,
    goto_code,
    grow,
    init_stack,
    jump_end,
    jump_start,
    label_code,
    pop_d,
    push_address,
    push_d,
    return_label,
    save,
    static_symbol,
    write_top,
};
use crate::text::{all_digits, decimal, is_digit, lemma_decimal_injective, lemma_decimal_is_digits};

verus! {

/// Two sequences with the same beginning are equal only if they go on alike.
pub proof fn lemma_same_prefix(p: Seq<char>, x: Seq<char>, y: Seq<char>)
    requires
        p + x == p + y,
    ensures
        x == y,
{
    assert(x.len() == (p + x).len() - p.len());
    assert(y.len() == (p + y).len() - p.len());
    assert forall|i: int| 0 <= i < x.len() implies x[i] == y[i] by {
        assert(x[i] == (p + x)[p.len() + i]);
        assert(y[i] == (p + y)[p.len() + i]);
    }
    assert(x =~= y);
}

/// A run of digits after a dot can be told from what stands before the dot:
/// two such texts are equal only if both parts are.
pub proof fn lemma_dotted_numeral(p: Seq<char>, d: Seq<char>, q: Seq<char>, e: Seq<char>)
    requires
        all_digits(d),
        all_digits(e),
        p.push('.') + d == q.push('.') + e,
    ensures
        p == q,
        d == e,
{
    let t = p.push('.') + d;
    let u = q.push('.') + e;
    assert(t.len() == p.len() + 1 + d.len());
    assert(u.len() == q.len() + 1 + e.len());
    if d.len() < e.len() {
        let i = p.len() as int;
        assert(t[i] == '.');
        assert(u[i] == e[i - q.len() - 1]);
        assert(is_digit(e[i - q.len() - 1]));
        assert(false);
    }
    if e.len() < d.len() {
        let i = q.len() as int;
        assert(u[i] == '.');
        assert(t[i] == d[i - p.len() - 1]);
        assert(is_digit(d[i - p.len() - 1]));
        assert(false);
    }
    assert forall|i: int| 0 <= i < p.len() implies p[i] == q[i] by {
        assert(t[i] == p[i]);
        assert(u[i] == q[i]);
    }
    assert(p =~= q);
    assert forall|i: int| 0 <= i < d.len() implies d[i] == e[i] by {
        assert(t[p.len() + 1 + i] == d[i]);
        assert(u[q.len() + 1 + i] == e[i]);
    }
    assert(d =~= e);
}

/// The symbols of two static variables are the same only if the variables
/// have the same number and belong to the same file.
pub proof fn lemma_static_symbols_differ(f: Seq<char>, j: u16, g: Seq<char>, k: u16)
    requires
        static_symbol(f, j) == static_symbol(g, k),
    ensures
        f == g,
        j == k,
{
    lemma_decimal_is_digits(j as nat);
    lemma_decimal_is_digits(k as nat);
    lemma_dotted_numeral(f, decimal(j as nat), g, decimal(k as nat));
    lemma_decimal_injective(j as nat, k as nat);
}

/// The return labels of two calls are the same only if the calls have the
/// same number and name the same function.
pub proof fn lemma_return_labels_differ(f: Seq<char>, j: nat, g: Seq<char>, k: nat)
    requires
        return_label(f, j) == return_label(g, k),
    ensures
        f == g,
        j == k,
{
    reveal_strlit("$ret.");
    let stem = seq!['$', 'r', 'e', 't'];
    assert("$ret."@ =~= stem.push('.'));
    assert(return_label(f, j) =~= (f + stem).push('.') + decimal(j));
    assert(return_label(g, k) =~= (g + stem).push('.') + decimal(k));
    lemma_decimal_is_digits(j);
    lemma_decimal_is_digits(k);
    lemma_dotted_numeral(f + stem, decimal(j), g + stem, decimal(k));
    lemma_decimal_injective(j, k);
    assert(f.len() == g.len());
    assert forall|i: int| 0 <= i < f.len() implies f[i] == g[i] by {
        assert((f + stem)[i] == f[i]);
        assert((g + stem)[i] == g[i]);
    }
    assert(f =~= g);
}

/// Comparisons with different numbers have different labels, and no label at
/// which a comparison writes `true` is one at which a comparison ends.
pub proof fn lemma_jump_labels_differ(j: nat, k: nat)
    ensures
        jump_start(j) != jump_end(k),
        j != k ==> jump_start(j) != jump_start(k) && jump_end(j) != jump_end(k),
{
    reveal_strlit("JUMP_START_");
    reveal_strlit("JUMP_END_");
    assert(jump_start(j)[5] == 'S');
    assert(jump_end(k)[5] == 'E');
    if jump_start(j) == jump_start(k) {
        lemma_same_prefix("JUMP_START_"@, decimal(j), decimal(k));
        lemma_decimal_injective(j, k);
    }
    if jump_end(j) == jump_end(k) {
        lemma_same_prefix("JUMP_END_"@, decimal(j), decimal(k));
        lemma_decimal_injective(j, k);
    }
}

/// No label of a comparison is the return label of a call: a return label
/// holds a dot, and the label of a comparison holds none.
pub proof fn lemma_jump_label_is_no_return_label(j: nat, f: Seq<char>, k: nat)
    ensures
        jump_start(j) != return_label(f, k),
        jump_end(j) != return_label(f, k),
{
    reveal_strlit("JUMP_START_");
    reveal_strlit("JUMP_END_");
    reveal_strlit("$ret.");
    lemma_decimal_is_digits(j);
    lemma_decimal_is_digits(k);
    let r = return_label(f, k);
    let dot = f.len() as int + 4;
    assert(r.len() == f.len() + 5 + decimal(k).len());
    assert(r[dot] == '.');
    let s = jump_start(j);
    if s == r {
        assert(s.len() == 11 + decimal(j).len());
        if dot < 11 {
            assert(s[dot] == "JUMP_START_"@[dot]);
        } else {
            assert(s[dot] == decimal(j)[dot - 11]);
            assert(is_digit(decimal(j)[dot - 11]));
        }
        assert(false);
    }
    let e = jump_end(j);
    if e == r {
        assert(e.len() == 9 + decimal(j).len());
        if dot < 9 {
            assert(e[dot] == "JUMP_END_"@[dot]);
        } else {
            assert(e[dot] == decimal(j)[dot - 9]);
            assert(is_digit(decimal(j)[dot - 9]));
        }
        assert(false);
    }
}

/// The code of a comparison defines its two labels and no other name.
pub proof fn lemma_labels_of_comparison(jump: Jump, k: nat, name: Seq<char>)
    ensures
        defines(compare_code(jump, k), name) <==> name == jump_start(k) || name == jump_end(k),
{
    let start = jump_start(k);
    let end = jump_end(k);
    let c1 = difference();
    let c2 = c1 + branch_to(start, jump);
    let c3 = c2 + write_top(Comp::Zero);
    let c4 = c3 + goto_code(end);
    let c5 = c4 + label_code(start);
    let c6 = c5 + write_top(Comp::MinusOne);
    let c7 = c6 + label_code(end);
    assert(compare_code(jump, k) == c7 + grow());
    assert(difference() =~= pop_d() + difference().skip(4));
    lemma_defines_concat(pop_d(), difference().skip(4), name);
    lemma_defines_concat(c1, branch_to(start, jump), name);
    lemma_defines_concat(c2, write_top(Comp::Zero), name);
    lemma_defines_concat(c3, goto_code(end), name);
    lemma_defines_concat(c4, label_code(start), name);
    lemma_defines_concat(c5, write_top(Comp::MinusOne), name);
    lemma_defines_concat(c6, label_code(end), name);
    lemma_defines_concat(c7, grow(), name);
    assert(label_code(start)[0] == Instr::Label(start));
    assert(label_code(end)[0] == Instr::Label(end));
}

/// The code of a call defines its return label and no other name.
pub proof fn lemma_labels_of_call(f: Seq<char>, args: u16, k: nat, name: Seq<char>)
    ensures
        defines(call_code(f, args, k), name) <==> name == return_label(f, k),
{
    let back = return_label(f, k);
    let c1 = push_address(back);
    let c2 = c1 + save(Reg::LCL);
    let c3 = c2 + save(Reg::ARG);
    let c4 = c3 + save(Reg::THIS);
    let c5 = c4 + save(Reg::THAT);
    let c6 = c5 + enter_locals();
    let c7 = c6 + enter_arguments(args);
    let c8 = c7 + goto_code(f);
    assert(call_code(f, args, k) == c8 + label_code(back));
    lemma_defines_concat(push_address(back).take(2), push_d(), name);
    assert(push_address(back) =~= push_address(back).take(2) + push_d());
    lemma_defines_concat(c1, save(Reg::LCL), name);
    lemma_defines_concat(c2, save(Reg::ARG), name);
    lemma_defines_concat(c3, save(Reg::THIS), name);
    lemma_defines_concat(c4, save(Reg::THAT), name);
    lemma_defines_concat(c5, enter_locals(), name);
    lemma_defines_concat(c6, enter_arguments(args), name);
    lemma_defines_concat(c7, goto_code(f), name);
    lemma_defines_concat(c8, label_code(back), name);
    assert(label_code(back)[0] == Instr::Label(back));
}

/// Making the stack begin at its base defines no name.
pub proof fn lemma_init_stack_defines_nothing(name: Seq<char>)
    ensures
        !defines(init_stack(), name),
{
}

} // verus!
