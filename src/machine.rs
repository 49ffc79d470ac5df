//! A model of the target machine, enough to run straight-line stretches of emitted code.
//!
//! Values are unbounded integers. Symbols stand for addresses through a table. A jump
//! leaves the registers and memory as they are: a stretch is run in the order in which
//! the machine executes it, which is how the effect of control transfers is stated.

use vstd::prelude::*;
use crate::hack::{Asm, Op};
use crate::codegen::{
    arithmetic_code, false_label, set_label, true_label,
    call_code, function_code, push_register_code, repeat, restore_code, return_code, return_label,
    is_based, memory_code, pointer_register, pop_d_code, push_d_code, set_d_code, static_symbol,
    temp_address,
};
use crate::operations::{Operation, Segment, segment_symbol};

verus! {

/// The registers and memory of the machine.
pub struct Machine {
    pub a: int,
    pub d: int,
    pub ram: spec_fn(int) -> int,
}

/// Memory with cell `at` set to `v`.
pub open spec fn write(ram: spec_fn(int) -> int, at: int, v: int) -> spec_fn(int) -> int {
    |x: int| if x == at { v } else { ram(x) }
}

/// The predefined symbols have their usual addresses.
pub open spec fn standard(sym: spec_fn(Seq<char>) -> int) -> bool {
    &&& sym("SP"@) == 0
    &&& sym("LCL"@) == 1
    &&& sym("ARG"@) == 2
    &&& sym("THIS"@) == 3
    &&& sym("THAT"@) == 4
    &&& sym("R13"@) == 13
    &&& sym("R14"@) == 14
}

/// The effect of one computation instruction.
pub open spec fn exec_op(m: Machine, o: Op) -> Machine {
    let mv = (m.ram)(m.a);
    match o {
        Op::DFromA => Machine { d: m.a, ..m },
        Op::DFromM => Machine { d: mv, ..m },
        Op::MFromD => Machine { ram: write(m.ram, m.a, m.d), ..m },
        Op::AFromM => Machine { a: mv, ..m },
        Op::IncM => Machine { ram: write(m.ram, m.a, mv + 1), ..m },
        Op::AFromMMinus1 => Machine { a: mv - 1, ..m },
        Op::DecMToA => Machine { a: mv - 1, ram: write(m.ram, m.a, mv - 1), ..m },
        Op::DAddA => Machine { d: m.d + m.a, ..m },
        Op::DFromMMinusD => Machine { d: mv - m.d, ..m },
        Op::MFromDPlus1 => Machine { ram: write(m.ram, m.a, m.d + 1), ..m },
        Op::AFromMMinusD => Machine { a: mv - m.d, ..m },
        Op::AFromDPlusM => Machine { a: m.d + mv, ..m },
        Op::DFromMPlusD => Machine { d: mv + m.d, ..m },
        Op::MAddD => Machine { ram: write(m.ram, m.a, mv + m.d), ..m },
        Op::MSubD => Machine { ram: write(m.ram, m.a, mv - m.d), ..m },
        Op::DFromMAndD => Machine { d: ((mv as i16) & (m.d as i16)) as int, ..m },
        Op::DFromMOrD => Machine { d: ((mv as i16) | (m.d as i16)) as int, ..m },
        Op::NegM => Machine { ram: write(m.ram, m.a, -mv), ..m },
        Op::NotM => Machine { ram: write(m.ram, m.a, -mv - 1), ..m },
        Op::DTrue => Machine { d: -1, ..m },
        Op::DFalse => Machine { d: 0, ..m },
        Op::Jump | Op::JumpSpaced | Op::JumpOnD | Op::JumpIfNonZero | Op::JumpIfZero
        | Op::JumpIfPositive | Op::JumpIfNegative => m,
    }
}

/// The effect of one line.
pub open spec fn step(m: Machine, sym: spec_fn(Seq<char>) -> int, x: Asm) -> Machine {
    match x {
        Asm::Comment(_) => m,
        Asm::Label(_) => m,
        Asm::AtNum(n) => Machine { a: n as int, ..m },
        Asm::AtSym(s) => Machine { a: sym(s), ..m },
        Asm::Op(o) => exec_op(m, o),
    }
}

/// The effect of running `code` in order.
pub open spec fn run(m: Machine, sym: spec_fn(Seq<char>) -> int, code: Seq<Asm>) -> Machine
    decreases code.len(),
{
    if code.len() == 0 {
        m
    } else {
        run(step(m, sym, code[0]), sym, code.subrange(1, code.len() as int))
    }
}

/// Running two stretches one after the other is running their concatenation.
pub proof fn lemma_run_concat(m: Machine, sym: spec_fn(Seq<char>) -> int, a: Seq<Asm>, b: Seq<Asm>)
    ensures
        run(m, sym, a + b) == run(run(m, sym, a), sym, b),
    decreases a.len(),
{
    if a.len() == 0 {
        assert(a + b =~= b);
    } else {
        assert((a + b).subrange(1, (a + b).len() as int) =~= a.subrange(1, a.len() as int) + b);
        lemma_run_concat(step(m, sym, a[0]), sym, a.subrange(1, a.len() as int), b);
    }
}


/// `push_d_code`: `D` goes to the top of the stack, which grows by one.
pub proof fn lemma_push_d(m: Machine, sym: spec_fn(Seq<char>) -> int)
    requires
        standard(sym),
        (m.ram)(0) != 0,
    ensures
        ({
            let r = run(m, sym, push_d_code());
            &&& (r.ram)(0) == (m.ram)(0) + 1
            &&& (r.ram)((m.ram)(0)) == m.d
            &&& r.d == m.d
            &&& forall|x: int| x != 0 && x != (m.ram)(0) ==> #[trigger] (r.ram)(x) == (m.ram)(x)
        }),
{
    reveal_with_fuel(run, 5);
}

/// `pop_d_code`: the stack shrinks by one, its old top in `D`.
pub proof fn lemma_pop_d(m: Machine, sym: spec_fn(Seq<char>) -> int)
    requires
        standard(sym),
        (m.ram)(0) - 1 != 0,
    ensures
        ({
            let r = run(m, sym, pop_d_code());
            &&& (r.ram)(0) == (m.ram)(0) - 1
            &&& r.d == (m.ram)((m.ram)(0) - 1)
            &&& r.a == (m.ram)(0) - 1
            &&& forall|x: int| x != 0 ==> #[trigger] (r.ram)(x) == (m.ram)(x)
        }),
{
    reveal_with_fuel(run, 4);
}

/// `set_d_code(n)`: `D` becomes `n`; memory stays.
pub proof fn lemma_set_d(m: Machine, sym: spec_fn(Seq<char>) -> int, n: nat)
    ensures
        run(m, sym, set_d_code(n)).d == n,
        run(m, sym, set_d_code(n)).ram == m.ram,
{
    reveal_with_fuel(run, 3);
}


/// Whether `push` and `pop` both name a cell of the segment.
pub open spec fn addressable(seg: Segment) -> bool {
    is_based(seg) || seg == Segment::Static || seg == Segment::Temp || seg == Segment::Pointer
}

/// The address of cell `i` of segment `seg` in state `m`.
pub open spec fn cell_address(m: Machine, sym: spec_fn(Seq<char>) -> int, seg: Segment, i: nat, unit: Seq<char>) -> int {
    if is_based(seg) {
        (m.ram)(sym(segment_symbol(seg))) + i
    } else if seg == Segment::Static {
        sym(static_symbol(unit, i))
    } else if seg == Segment::Temp {
        temp_address(i) as int
    } else {
        sym(pointer_register(i))
    }
}

/// The effect of `push seg i`: the cell's value goes on top of the stack.
pub proof fn lemma_push_effect(m: Machine, sym: spec_fn(Seq<char>) -> int, seg: Segment, i: nat, unit: Seq<char>)
    requires
        standard(sym),
        addressable(seg),
        (m.ram)(0) >= 16,
    ensures
        memory_code(true, seg, i, unit) is Ok,
        ({
            let r = run(m, sym, memory_code(true, seg, i, unit).unwrap());
            &&& (r.ram)(0) == (m.ram)(0) + 1
            &&& (r.ram)((m.ram)(0)) == (m.ram)(cell_address(m, sym, seg, i, unit))
            &&& forall|x: int| x != 0 && x != (m.ram)(0) ==> #[trigger] (r.ram)(x) == (m.ram)(x)
        }),
{
    reveal_with_fuel(run, 10);
    if is_based(seg) {
        assert(sym(segment_symbol(seg)) >= 1 && sym(segment_symbol(seg)) <= 4);
    }
}

/// The effect of `pop seg i`: the top of the stack goes to the cell.
pub proof fn lemma_pop_effect(m: Machine, sym: spec_fn(Seq<char>) -> int, seg: Segment, i: nat, unit: Seq<char>)
    requires
        standard(sym),
        addressable(seg),
        (m.ram)(0) >= 17,
        cell_address(m, sym, seg, i, unit) != 0,
    ensures
        memory_code(false, seg, i, unit) is Ok,
        ({
            let r = run(m, sym, memory_code(false, seg, i, unit).unwrap());
            &&& (r.ram)(0) == (m.ram)(0) - 1
            &&& (r.ram)(cell_address(m, sym, seg, i, unit)) == (m.ram)((m.ram)(0) - 1)
        }),
{
    reveal_with_fuel(run, 13);
}

/// `push constant i`: the stack grows by one, `i` on top.
pub proof fn lemma_push_constant_effect(m: Machine, sym: spec_fn(Seq<char>) -> int, i: nat, unit: Seq<char>)
    requires
        standard(sym),
        (m.ram)(0) >= 16,
    ensures
        memory_code(true, Segment::Constant, i, unit) is Ok,
        ({
            let r = run(m, sym, memory_code(true, Segment::Constant, i, unit).unwrap());
            &&& (r.ram)(0) == (m.ram)(0) + 1
            &&& (r.ram)((m.ram)(0)) == i
            &&& forall|x: int| x != 0 && x != (m.ram)(0) ==> #[trigger] (r.ram)(x) == (m.ram)(x)
        }),
{
    reveal_with_fuel(run, 7);
}

/// `add` and `sub`: the two values on top are replaced by their sum or difference
/// (second minus top), and the stack shrinks by one.
pub proof fn lemma_add_sub_effect(m: Machine, sym: spec_fn(Seq<char>) -> int, op: Operation, n: nat)
    requires
        standard(sym),
        (m.ram)(0) >= 18,
        op == Operation::Add || op == Operation::Sub,
    ensures
        ({
            let sp = (m.ram)(0);
            let r = run(m, sym, arithmetic_code(op, n));
            &&& (r.ram)(0) == sp - 1
            &&& (r.ram)(sp - 2) == if op == Operation::Add {
                (m.ram)(sp - 2) + (m.ram)(sp - 1)
            } else {
                (m.ram)(sp - 2) - (m.ram)(sp - 1)
            }
            &&& forall|x: int| x != 0 && x != sp - 2 ==> #[trigger] (r.ram)(x) == (m.ram)(x)
        }),
{
    reveal_with_fuel(run, 9);
}

/// Whether the comparison `op` holds of the second value `x` and the top value `y`.
pub open spec fn compares(op: Operation, x: int, y: int) -> bool {
    if op == Operation::Eq { x == y } else if op == Operation::Gt { x > y } else { x < y }
}

/// The lines of a comparison's code that the machine executes: to the true branch and
/// on to the meeting point when the comparison holds, else through the false branch.
pub open spec fn comparison_trace(code: Seq<Asm>, holds: bool) -> Seq<Asm> {
    if holds {
        code.subrange(0, 8) + code.subrange(10, 14) + code.subrange(16, 22)
    } else {
        code.subrange(0, 10) + code.subrange(14, 22)
    }
}

/// `eq`, `gt`, `lt` at index `n`: the conditional jump is taken exactly when the
/// comparison holds (second value against top value), the jumps go to the labels of
/// this index, and the executed lines replace the two values on top by true (-1) or
/// false (0), the stack shrinking by one.
pub proof fn lemma_comparison_effect(m: Machine, sym: spec_fn(Seq<char>) -> int, op: Operation, n: nat)
    requires
        standard(sym),
        (m.ram)(0) >= 18,
        op == Operation::Eq || op == Operation::Gt || op == Operation::Lt,
    ensures
        ({
            let code = arithmetic_code(op, n);
            let sp = (m.ram)(0);
            let holds = compares(op, (m.ram)(sp - 2), (m.ram)(sp - 1));
            let r = run(m, sym, comparison_trace(code, holds));
            &&& code.len() == 22
            &&& code[6] == Asm::AtSym(true_label(n))
            &&& code[8] == Asm::AtSym(false_label(n))
            &&& code[9] == Asm::Op(Op::Jump)
            &&& code[10] == Asm::Label(true_label(n))
            &&& code[12] == Asm::AtSym(set_label(n))
            &&& code[13] == Asm::Op(Op::Jump)
            &&& code[14] == Asm::Label(false_label(n))
            &&& code[16] == Asm::Label(set_label(n))
            &&& (code[7] == Asm::Op(Op::JumpIfZero) && op == Operation::Eq
                || code[7] == Asm::Op(Op::JumpIfPositive) && op == Operation::Gt
                || code[7] == Asm::Op(Op::JumpIfNegative) && op == Operation::Lt)
            &&& (holds <==> (if op == Operation::Eq {
                run(m, sym, code.subrange(0, 7)).d == 0
            } else if op == Operation::Gt {
                run(m, sym, code.subrange(0, 7)).d > 0
            } else {
                run(m, sym, code.subrange(0, 7)).d < 0
            }))
            &&& (r.ram)(0) == sp - 1
            &&& (r.ram)(sp - 2) == if holds { -1int } else { 0int }
        }),
{
    let code = arithmetic_code(op, n);
    let sp = (m.ram)(0);
    let holds = compares(op, (m.ram)(sp - 2), (m.ram)(sp - 1));
    assert(code.len() == 22);
    lemma_comparison_prefix(m, sym, code, op, n);
    if holds {
        let a = code.subrange(0, 8);
        let b = code.subrange(10, 14);
        let c = code.subrange(16, 22);
        lemma_run_concat(m, sym, a, b);
        lemma_run_concat(m, sym, a + b, c);
        lemma_comparison_true(m, sym, code, op, n);
    } else {
        let a = code.subrange(0, 10);
        let c = code.subrange(14, 22);
        lemma_run_concat(m, sym, a, c);
        lemma_comparison_false(m, sym, code, op, n);
    }
}

/// The first seven lines of a comparison: `D` = second minus top, the stack shrunk by two.
proof fn lemma_comparison_prefix(m: Machine, sym: spec_fn(Seq<char>) -> int, code: Seq<Asm>, op: Operation, n: nat)
    requires
        standard(sym),
        (m.ram)(0) >= 18,
        op == Operation::Eq || op == Operation::Gt || op == Operation::Lt,
        code == arithmetic_code(op, n),
    ensures
        ({
            let sp = (m.ram)(0);
            let r = run(m, sym, code.subrange(0, 7));
            &&& r.d == (m.ram)(sp - 2) - (m.ram)(sp - 1)
            &&& (r.ram)(0) == sp - 2
            &&& forall|x: int| x != 0 ==> #[trigger] (r.ram)(x) == (m.ram)(x)
        }),
{
    reveal_with_fuel(run, 8);
}

proof fn lemma_comparison_true(m: Machine, sym: spec_fn(Seq<char>) -> int, code: Seq<Asm>, op: Operation, n: nat)
    requires
        standard(sym),
        (m.ram)(0) >= 18,
        op == Operation::Eq || op == Operation::Gt || op == Operation::Lt,
        code == arithmetic_code(op, n),
    ensures
        ({
            let sp = (m.ram)(0);
            let r = run(run(run(m, sym, code.subrange(0, 8)), sym, code.subrange(10, 14)), sym,
                code.subrange(16, 22));
            &&& (r.ram)(0) == sp - 1
            &&& (r.ram)(sp - 2) == -1
        }),
{
    reveal_with_fuel(run, 9);
}

proof fn lemma_comparison_false(m: Machine, sym: spec_fn(Seq<char>) -> int, code: Seq<Asm>, op: Operation, n: nat)
    requires
        standard(sym),
        (m.ram)(0) >= 18,
        op == Operation::Eq || op == Operation::Gt || op == Operation::Lt,
        code == arithmetic_code(op, n),
    ensures
        ({
            let sp = (m.ram)(0);
            let r = run(run(m, sym, code.subrange(0, 10)), sym, code.subrange(14, 22));
            &&& (r.ram)(0) == sp - 1
            &&& (r.ram)(sp - 2) == 0
        }),
{
    reveal_with_fuel(run, 11);
}

/// `push seg i` followed by `pop seg i` leaves the stack pointer and the cell as they
/// were, for every segment with cells; `pop constant i` is refused. The stack lies above
/// the registers, and the cell is not the stack pointer itself.
pub proof fn lemma_push_pop_round_trip(m: Machine, sym: spec_fn(Seq<char>) -> int, seg: Segment, i: nat, unit: Seq<char>)
    requires
        standard(sym),
        addressable(seg),
        (m.ram)(0) >= 16,
        cell_address(m, sym, seg, i, unit) != 0,
    ensures
        memory_code(true, seg, i, unit) is Ok,
        memory_code(false, seg, i, unit) is Ok,
        ({
            let r = run(run(m, sym, memory_code(true, seg, i, unit).unwrap()), sym,
                memory_code(false, seg, i, unit).unwrap());
            let cell = cell_address(m, sym, seg, i, unit);
            &&& (r.ram)(0) == (m.ram)(0)
            &&& (r.ram)(cell) == (m.ram)(cell)
        }),
        memory_code(false, Segment::Constant, i, unit) is Err,
{
    lemma_push_effect(m, sym, seg, i, unit);
    let r1 = run(m, sym, memory_code(true, seg, i, unit).unwrap());
    if is_based(seg) {
        assert(sym(segment_symbol(seg)) >= 1 && sym(segment_symbol(seg)) <= 4);
        assert((r1.ram)(sym(segment_symbol(seg))) == (m.ram)(sym(segment_symbol(seg))));
    }
    assert(cell_address(r1, sym, seg, i, unit) == cell_address(m, sym, seg, i, unit));
    lemma_pop_effect(r1, sym, seg, i, unit);
}


/// `push_register_code(reg)`: the register's value goes on top of the stack.
pub proof fn lemma_push_register(m: Machine, sym: spec_fn(Seq<char>) -> int, reg: Seq<char>)
    requires
        standard(sym),
        (m.ram)(0) != 0,
    ensures
        ({
            let r = run(m, sym, push_register_code(reg));
            &&& (r.ram)(0) == (m.ram)(0) + 1
            &&& (r.ram)((m.ram)(0)) == (m.ram)(sym(reg))
            &&& forall|x: int| x != 0 && x != (m.ram)(0) ==> #[trigger] (r.ram)(x) == (m.ram)(x)
        }),
{
    reveal_with_fuel(run, 7);
}

/// The effect of `call name nargs`: the frame is saved above the stack, `ARG` points at the
/// first argument, `LCL` at the free stack, and the last jump goes to the function.
pub proof fn lemma_call_effect(m: Machine, sym: spec_fn(Seq<char>) -> int, name: Seq<char>, nargs: nat, n: nat)
    requires
        standard(sym),
        (m.ram)(0) >= 16,
    ensures
        ({
            let sp = (m.ram)(0);
            let r = run(m, sym, call_code(name, nargs, n));
            &&& (r.ram)(0) == sp + 5
            &&& (r.ram)(1) == sp + 5
            &&& (r.ram)(2) == sp - nargs
            &&& (r.ram)(3) == (m.ram)(3)
            &&& (r.ram)(4) == (m.ram)(4)
            &&& (r.ram)(sp) == sym(return_label(name, n))
            &&& (r.ram)(sp + 1) == (m.ram)(1)
            &&& (r.ram)(sp + 2) == (m.ram)(2)
            &&& (r.ram)(sp + 3) == (m.ram)(3)
            &&& (r.ram)(sp + 4) == (m.ram)(4)
            &&& r.a == sym(name)
            &&& forall|x: int| x > 4 && (x < sp || x > sp + 4) ==> #[trigger] (r.ram)(x) == (m.ram)(x)
        }),
{
    let sp = (m.ram)(0);
    let p0 = seq![Asm::AtSym(return_label(name, n)), Asm::Op(Op::DFromA)];
    let c1 = p0 + push_d_code();
    let c2 = c1 + push_register_code("LCL"@);
    let c3 = c2 + push_register_code("ARG"@);
    let c4 = c3 + push_register_code("THIS"@);
    let c5 = c4 + push_register_code("THAT"@);
    let c6 = c5 + set_d_code(5);
    let tail = seq![Asm::AtNum(nargs), Asm::Op(Op::DAddA),
        Asm::AtSym("SP"@), Asm::Op(Op::DFromMMinusD), Asm::AtSym("ARG"@), Asm::Op(Op::MFromD),
        Asm::AtSym("SP"@), Asm::Op(Op::DFromM), Asm::AtSym("LCL"@), Asm::Op(Op::MFromD),
        Asm::AtSym(name), Asm::Op(Op::JumpSpaced), Asm::Label(return_label(name, n))];
    assert(call_code(name, nargs, n) == c6 + tail);
    reveal_with_fuel(run, 3);
    let s0 = run(m, sym, p0);
    assert(s0.d == sym(return_label(name, n)) && s0.ram == m.ram);
    lemma_run_concat(m, sym, p0, push_d_code());
    lemma_push_d(s0, sym);
    let s1 = run(m, sym, c1);
    lemma_run_concat(m, sym, c1, push_register_code("LCL"@));
    lemma_push_register(s1, sym, "LCL"@);
    let s2 = run(m, sym, c2);
    lemma_run_concat(m, sym, c2, push_register_code("ARG"@));
    lemma_push_register(s2, sym, "ARG"@);
    let s3 = run(m, sym, c3);
    lemma_run_concat(m, sym, c3, push_register_code("THIS"@));
    lemma_push_register(s3, sym, "THIS"@);
    let s4 = run(m, sym, c4);
    lemma_run_concat(m, sym, c4, push_register_code("THAT"@));
    lemma_push_register(s4, sym, "THAT"@);
    let s5 = run(m, sym, c5);
    lemma_run_concat(m, sym, c5, set_d_code(5));
    lemma_set_d(s5, sym, 5);
    let s6 = run(m, sym, c6);
    lemma_run_concat(m, sym, c6, tail);
    lemma_call_tail(s6, sym, name, nargs, n, tail);
}

/// The end of `call`: `ARG = SP - 5 - nargs`, `LCL = SP`, jump to the function.
proof fn lemma_call_tail(m: Machine, sym: spec_fn(Seq<char>) -> int, name: Seq<char>, nargs: nat, n: nat, tail: Seq<Asm>)
    requires
        standard(sym),
        m.d == 5,
        tail == seq![Asm::AtNum(nargs), Asm::Op(Op::DAddA),
            Asm::AtSym("SP"@), Asm::Op(Op::DFromMMinusD), Asm::AtSym("ARG"@), Asm::Op(Op::MFromD),
            Asm::AtSym("SP"@), Asm::Op(Op::DFromM), Asm::AtSym("LCL"@), Asm::Op(Op::MFromD),
            Asm::AtSym(name), Asm::Op(Op::JumpSpaced), Asm::Label(return_label(name, n))],
    ensures
        ({
            let r = run(m, sym, tail);
            &&& (r.ram)(0) == (m.ram)(0)
            &&& (r.ram)(1) == (m.ram)(0)
            &&& (r.ram)(2) == (m.ram)(0) - 5 - nargs
            &&& r.a == sym(name)
            &&& forall|x: int| x != 1 && x != 2 ==> #[trigger] (r.ram)(x) == (m.ram)(x)
        }),
{
    reveal_with_fuel(run, 14);
}


/// `k` pushes of zero: the stack grows by `k`, and nothing below it changes.
proof fn lemma_push_zeros(m: Machine, sym: spec_fn(Seq<char>) -> int, k: nat)
    requires
        standard(sym),
        (m.ram)(0) >= 16,
    ensures
        ({
            let sp = (m.ram)(0);
            let r = run(m, sym, repeat(set_d_code(0) + push_d_code(), k));
            &&& (r.ram)(0) == sp + k
            &&& forall|x: int| x != 0 && (x < sp || x >= sp + k) ==> #[trigger] (r.ram)(x) == (m.ram)(x)
        }),
    decreases k,
{
    let body = set_d_code(0) + push_d_code();
    if k == 0 {
        reveal_with_fuel(run, 1);
    } else {
        lemma_push_zeros(m, sym, (k - 1) as nat);
        let prev = repeat(body, (k - 1) as nat);
        lemma_run_concat(m, sym, prev, body);
        let r0 = run(m, sym, prev);
        lemma_run_concat(r0, sym, set_d_code(0), push_d_code());
        lemma_set_d(r0, sym, 0);
        lemma_push_d(run(r0, sym, set_d_code(0)), sym);
    }
}

/// The effect of `function name k`: `k` cells of zero on the stack.
pub proof fn lemma_function_effect(m: Machine, sym: spec_fn(Seq<char>) -> int, name: Seq<char>, k: nat)
    requires
        standard(sym),
        (m.ram)(0) >= 16,
    ensures
        ({
            let sp = (m.ram)(0);
            let r = run(m, sym, function_code(name, k));
            &&& (r.ram)(0) == sp + k
            &&& forall|x: int| x != 0 && (x < sp || x >= sp + k) ==> #[trigger] (r.ram)(x) == (m.ram)(x)
        }),
{
    reveal_with_fuel(run, 2);
    let head = seq![Asm::Label(name)];
    lemma_run_concat(m, sym, head, repeat(set_d_code(0) + push_d_code(), k));
    assert(run(m, sym, head) == m);
    lemma_push_zeros(m, sym, k);
}

/// `restore_code(reg, k)`: the register gets the cell `k` below the frame end kept in R13.
proof fn lemma_restore(m: Machine, sym: spec_fn(Seq<char>) -> int, reg: Seq<char>, k: nat)
    requires
        standard(sym),
    ensures
        ({
            let r = run(m, sym, restore_code(reg, k));
            &&& (r.ram)(sym(reg)) == (m.ram)((m.ram)(13) - k)
            &&& forall|x: int| x != sym(reg) ==> #[trigger] (r.ram)(x) == (m.ram)(x)
        }),
{
    reveal_with_fuel(run, 8);
}

/// The effect of `return`: the value on top goes to `*ARG`, the stack ends just above it,
/// the caller's `LCL`, `ARG`, `THIS`, `THAT` come back from the frame, and the last jump
/// goes to the saved return address.
pub proof fn lemma_return_effect(m: Machine, sym: spec_fn(Seq<char>) -> int)
    requires
        standard(sym),
        (m.ram)(0) >= 17,
        (m.ram)(1) >= 21,
        (m.ram)(2) >= 16,
        (m.ram)(2) <= (m.ram)(1) - 5,
    ensures
        ({
            let fr = (m.ram)(1);
            let r = run(m, sym, return_code());
            &&& (r.ram)(0) == (m.ram)(2) + 1
            &&& (r.ram)((m.ram)(2)) == (m.ram)((m.ram)(0) - 1)
            &&& (r.ram)(4) == (m.ram)(fr - 1)
            &&& (r.ram)(3) == (m.ram)(fr - 2)
            &&& (r.ram)(2) == (m.ram)(fr - 3)
            &&& (r.ram)(1) == (m.ram)(fr - 4)
            &&& r.a == (m.ram)(fr - 5)
        }),
{
    let fr = (m.ram)(1);
    let a = seq![Asm::AtSym("LCL"@), Asm::Op(Op::DFromM), Asm::AtSym("R13"@), Asm::Op(Op::MFromD)];
    let b = seq![Asm::AtSym("R13"@), Asm::Op(Op::AFromMMinusD), Asm::Op(Op::DFromM),
        Asm::AtSym("R14"@), Asm::Op(Op::MFromD)];
    let c = seq![Asm::AtSym("ARG"@), Asm::Op(Op::AFromM), Asm::Op(Op::MFromD),
        Asm::AtSym("ARG"@), Asm::Op(Op::DFromM), Asm::AtSym("SP"@), Asm::Op(Op::MFromDPlus1)];
    let e = seq![Asm::AtSym("R14"@), Asm::Op(Op::AFromM), Asm::Op(Op::Jump)];
    let x1 = a + set_d_code(5) + b;
    let x2 = x1 + pop_d_code();
    let x3 = x2 + c;
    let x4 = x3 + restore_code("THAT"@, 1);
    let x5 = x4 + restore_code("THIS"@, 2);
    let x6 = x5 + restore_code("ARG"@, 3);
    let x7 = x6 + restore_code("LCL"@, 4);
    assert(return_code() == x7 + e);
    lemma_return_head(m, sym, x1);
    let s1 = run(m, sym, x1);
    lemma_run_concat(m, sym, x1, pop_d_code());
    lemma_pop_d(s1, sym);
    let s2 = run(m, sym, x2);
    lemma_run_concat(m, sym, x2, c);
    lemma_return_result(s2, sym, c);
    let s3 = run(m, sym, x3);
    lemma_run_concat(m, sym, x3, restore_code("THAT"@, 1));
    lemma_restore(s3, sym, "THAT"@, 1);
    let s4 = run(m, sym, x4);
    lemma_run_concat(m, sym, x4, restore_code("THIS"@, 2));
    lemma_restore(s4, sym, "THIS"@, 2);
    let s5 = run(m, sym, x5);
    lemma_run_concat(m, sym, x5, restore_code("ARG"@, 3));
    lemma_restore(s5, sym, "ARG"@, 3);
    let s6 = run(m, sym, x6);
    lemma_run_concat(m, sym, x6, restore_code("LCL"@, 4));
    lemma_restore(s6, sym, "LCL"@, 4);
    let s7 = run(m, sym, x7);
    lemma_run_concat(m, sym, x7, e);
    reveal_with_fuel(run, 4);
}

/// The start of `return`: R13 holds the frame end, R14 the return address.
proof fn lemma_return_head(m: Machine, sym: spec_fn(Seq<char>) -> int, x1: Seq<Asm>)
    requires
        standard(sym),
        x1 == seq![Asm::AtSym("LCL"@), Asm::Op(Op::DFromM), Asm::AtSym("R13"@), Asm::Op(Op::MFromD)]
            + set_d_code(5) + seq![Asm::AtSym("R13"@), Asm::Op(Op::AFromMMinusD), Asm::Op(Op::DFromM),
            Asm::AtSym("R14"@), Asm::Op(Op::MFromD)],
        (m.ram)(1) >= 21,
    ensures
        ({
            let r = run(m, sym, x1);
            &&& (r.ram)(13) == (m.ram)(1)
            &&& (r.ram)(14) == (m.ram)((m.ram)(1) - 5)
            &&& forall|x: int| x != 13 && x != 14 ==> #[trigger] (r.ram)(x) == (m.ram)(x)
        }),
{
    assert(x1 =~= seq![Asm::AtSym("LCL"@), Asm::Op(Op::DFromM), Asm::AtSym("R13"@), Asm::Op(Op::MFromD),
        Asm::AtNum(5), Asm::Op(Op::DFromA), Asm::AtSym("R13"@), Asm::Op(Op::AFromMMinusD),
        Asm::Op(Op::DFromM), Asm::AtSym("R14"@), Asm::Op(Op::MFromD)]);
    reveal_with_fuel(run, 12);
}

/// `*ARG = D; SP = ARG + 1`
proof fn lemma_return_result(m: Machine, sym: spec_fn(Seq<char>) -> int, c: Seq<Asm>)
    requires
        standard(sym),
        c == seq![Asm::AtSym("ARG"@), Asm::Op(Op::AFromM), Asm::Op(Op::MFromD),
            Asm::AtSym("ARG"@), Asm::Op(Op::DFromM), Asm::AtSym("SP"@), Asm::Op(Op::MFromDPlus1)],
        (m.ram)(2) != 0,
        (m.ram)(2) != 2,
    ensures
        ({
            let r = run(m, sym, c);
            &&& (r.ram)(0) == (m.ram)(2) + 1
            &&& (r.ram)((m.ram)(2)) == m.d
            &&& forall|x: int| x != 0 && x != (m.ram)(2) ==> #[trigger] (r.ram)(x) == (m.ram)(x)
        }),
{
    reveal_with_fuel(run, 8);
}


/// `call name nargs`, then `function name nlocals` and `return`, run in the order the
/// machine executes them (the call jumps to the function's entry, the function returns
/// straight away): the stack ends one above where it stood before the `nargs` arguments
/// were pushed, whatever `nargs` and `nlocals` are; the caller's `LCL`, `ARG`, `THIS` and `THAT` are back; the call's jump goes to
/// the function's label and the return's jump goes to the call's return label. The
/// stack, arguments included, lies above the registers.
pub proof fn lemma_call_return_depth(m: Machine, sym: spec_fn(Seq<char>) -> int, name: Seq<char>,
    nargs: nat, nlocals: nat, n: nat)
    requires
        standard(sym),
        (m.ram)(0) - nargs >= 16,
    ensures
        run(m, sym, call_code(name, nargs, n)).a == sym(name),
        ({
            let r = run(m, sym, call_code(name, nargs, n) + function_code(name, nlocals) + return_code());
            &&& (r.ram)(0) == (m.ram)(0) - nargs + 1
            &&& (r.ram)(1) == (m.ram)(1)
            &&& (r.ram)(2) == (m.ram)(2)
            &&& (r.ram)(3) == (m.ram)(3)
            &&& (r.ram)(4) == (m.ram)(4)
            &&& r.a == sym(return_label(name, n))
        }),
{
    let sp = (m.ram)(0);
    let cc = call_code(name, nargs, n);
    let fc = function_code(name, nlocals);
    lemma_call_effect(m, sym, name, nargs, n);
    let s1 = run(m, sym, cc);
    lemma_function_effect(s1, sym, name, nlocals);
    let s2 = run(s1, sym, fc);
    assert((s2.ram)(1) == sp + 5);
    assert((s2.ram)(2) == sp - nargs);
    assert((s2.ram)(sp) == (s1.ram)(sp));
    assert((s2.ram)(sp + 1) == (s1.ram)(sp + 1));
    assert((s2.ram)(sp + 2) == (s1.ram)(sp + 2));
    assert((s2.ram)(sp + 3) == (s1.ram)(sp + 3));
    assert((s2.ram)(sp + 4) == (s1.ram)(sp + 4));
    lemma_return_effect(s2, sym);
    lemma_run_concat(m, sym, cc, fc);
    lemma_run_concat(m, sym, cc + fc, return_code());
}

} // verus!
