//! Code generation: the assembly that each VM instruction becomes.

use vstd::prelude::*;
use crate::hack::{Asm, Op, indexed, indexed_name, render, render_all, lemma_render_concat, emit_op, emit_at_sym, emit_at_num, emit_label};
use crate::operations::{Operation, Segment, TranslateError, segment_symbol};
use crate::text::{append_decimal, decimal, views};

verus! {

// ---- The code of each rule ----

/// `*SP = D; SP++`
pub open spec fn push_d_code() -> Seq<Asm> {
    seq![Asm::AtSym("SP"@), Asm::Op(Op::IncM), Asm::Op(Op::AFromMMinus1), Asm::Op(Op::MFromD)]
}

/// `SP--; D = *SP`
pub open spec fn pop_d_code() -> Seq<Asm> {
    seq![Asm::AtSym("SP"@), Asm::Op(Op::DecMToA), Asm::Op(Op::DFromM)]
}

/// `D = n`
pub open spec fn set_d_code(n: nat) -> Seq<Asm> {
    seq![Asm::AtNum(n), Asm::Op(Op::DFromA)]
}

/// `SP++`
pub open spec fn inc_sp_code() -> Seq<Asm> {
    seq![Asm::AtSym("SP"@), Asm::Op(Op::IncM)]
}

/// `SP--`, leaving A at the old top of the stack.
pub open spec fn top_code() -> Seq<Asm> {
    seq![Asm::AtSym("SP"@), Asm::Op(Op::DecMToA)]
}

/// `D` = the top value, then `SP--` again, leaving A at the second value.
pub open spec fn second_code() -> Seq<Asm> {
    seq![Asm::Op(Op::DFromM), Asm::AtSym("SP"@), Asm::Op(Op::DecMToA)]
}

/// The label of the true branch of the comparison at index `n`.
pub open spec fn true_label(n: nat) -> Seq<char> {
    indexed("RESULT_TRUE"@, n)
}

/// The label of the false branch of the comparison at index `n`.
pub open spec fn false_label(n: nat) -> Seq<char> {
    indexed("RESULT_FALSE"@, n)
}

/// The label where both branches of the comparison at index `n` meet.
pub open spec fn set_label(n: nat) -> Seq<char> {
    indexed("RESULT_SET"@, n)
}

/// Pushes true where `jump` holds of D, else false.
pub open spec fn bool_code(jump: Op, n: nat) -> Seq<Asm> {
    seq![
        Asm::AtSym(true_label(n)), Asm::Op(jump),
        Asm::AtSym(false_label(n)), Asm::Op(Op::Jump),
        Asm::Label(true_label(n)), Asm::Op(Op::DTrue),
        Asm::AtSym(set_label(n)), Asm::Op(Op::Jump),
        Asm::Label(false_label(n)), Asm::Op(Op::DFalse),
        Asm::Label(set_label(n)), Asm::AtSym("SP"@), Asm::Op(Op::AFromM), Asm::Op(Op::MFromD),
    ] + inc_sp_code()
}

/// The code of an arithmetic or comparison operation at index `n`.
pub open spec fn arithmetic_code(op: Operation, n: nat) -> Seq<Asm> {
    match op {
        Operation::Neg => top_code() + seq![Asm::Op(Op::NegM)] + inc_sp_code(),
        Operation::Not => top_code() + seq![Asm::Op(Op::NotM)] + inc_sp_code(),
        Operation::Add => top_code() + second_code() + seq![Asm::Op(Op::MAddD)] + inc_sp_code(),
        Operation::Sub => top_code() + second_code() + seq![Asm::Op(Op::MSubD)] + inc_sp_code(),
        Operation::Eq => top_code() + second_code() + seq![Asm::Op(Op::DFromMMinusD)]
            + bool_code(Op::JumpIfZero, n),
        Operation::Gt => top_code() + second_code() + seq![Asm::Op(Op::DFromMMinusD)]
            + bool_code(Op::JumpIfPositive, n),
        Operation::Lt => top_code() + second_code() + seq![Asm::Op(Op::DFromMMinusD)]
            + bool_code(Op::JumpIfNegative, n),
        Operation::And => top_code() + second_code() + seq![Asm::Op(Op::DFromMAndD)] + push_d_code(),
        Operation::Or => top_code() + second_code() + seq![Asm::Op(Op::DFromMOrD)] + push_d_code(),
        _ => Seq::empty(),
    }
}

/// The code of `label`, `goto` or `if-goto` with the given label.
pub open spec fn branching_code(op: Operation, label: Seq<char>) -> Seq<Asm> {
    match op {
        Operation::Label => seq![Asm::Label(label)],
        Operation::Goto => seq![Asm::AtSym(label), Asm::Op(Op::JumpOnD)],
        Operation::IfGoto => pop_d_code() + seq![Asm::AtSym(label), Asm::Op(Op::JumpIfNonZero)],
        _ => Seq::empty(),
    }
}

/// The symbol of cell `i` of the static segment of unit `unit`.
pub open spec fn static_symbol(unit: Seq<char>, i: nat) -> Seq<char> {
    unit + "."@ + decimal(i)
}

/// The base register that cell `i` of the pointer segment stands for.
pub open spec fn pointer_register(i: nat) -> Seq<char> {
    if i == 0 { "THIS"@ } else { "THAT"@ }
}

/// The address of cell `i` of the temp segment.
pub open spec fn temp_address(i: nat) -> nat {
    5 + i
}

/// Whether a segment is addressed through a base pointer.
pub open spec fn is_based(seg: Segment) -> bool {
    seg == Segment::Local || seg == Segment::Argument || seg == Segment::This || seg == Segment::That
}

/// The code of `push seg i` (`push` is true) or `pop seg i`.
pub open spec fn memory_code(push: bool, seg: Segment, i: nat, unit: Seq<char>) -> Result<Seq<Asm>, TranslateError> {
    if is_based(seg) {
        let base = segment_symbol(seg);
        if push {
            Ok(set_d_code(i) + seq![Asm::AtSym(base), Asm::Op(Op::AFromDPlusM), Asm::Op(Op::DFromM)]
                + push_d_code())
        } else {
            Ok(set_d_code(i) + seq![Asm::AtSym(base), Asm::Op(Op::DFromMPlusD),
                Asm::AtSym("R13"@), Asm::Op(Op::MFromD)] + pop_d_code()
                + seq![Asm::AtSym("R13"@), Asm::Op(Op::AFromM), Asm::Op(Op::MFromD)])
        }
    } else if seg == Segment::Static || seg == Segment::Temp || seg == Segment::Pointer {
        let at = if seg == Segment::Static {
            Asm::AtSym(static_symbol(unit, i))
        } else if seg == Segment::Temp {
            Asm::AtNum(temp_address(i))
        } else {
            Asm::AtSym(pointer_register(i))
        };
        if push {
            Ok(seq![at, Asm::Op(Op::DFromM)] + push_d_code())
        } else {
            Ok(pop_d_code() + seq![at, Asm::Op(Op::MFromD)])
        }
    } else if seg == Segment::Constant {
        if push { Ok(set_d_code(i) + push_d_code()) } else { Err(TranslateError::InvalidPop) }
    } else {
        Ok(Seq::empty())
    }
}

/// Pushes the value of a base register.
pub open spec fn push_register_code(reg: Seq<char>) -> Seq<Asm> {
    seq![Asm::AtSym(reg), Asm::Op(Op::DFromM)] + push_d_code()
}

/// The return label of the call of `name` at index `n`.
pub open spec fn return_label(name: Seq<char>, n: nat) -> Seq<char> {
    indexed(name, n)
}

/// The code of `call name nargs` at index `n`.
pub open spec fn call_code(name: Seq<char>, nargs: nat, n: nat) -> Seq<Asm> {
    seq![Asm::AtSym(return_label(name, n)), Asm::Op(Op::DFromA)] + push_d_code()
        + push_register_code("LCL"@) + push_register_code("ARG"@)
        + push_register_code("THIS"@) + push_register_code("THAT"@)
        + set_d_code(5) + seq![Asm::AtNum(nargs), Asm::Op(Op::DAddA),
            Asm::AtSym("SP"@), Asm::Op(Op::DFromMMinusD), Asm::AtSym("ARG"@), Asm::Op(Op::MFromD),
            Asm::AtSym("SP"@), Asm::Op(Op::DFromM), Asm::AtSym("LCL"@), Asm::Op(Op::MFromD),
            Asm::AtSym(name), Asm::Op(Op::JumpSpaced), Asm::Label(return_label(name, n))]
}

/// `k` copies of `code`.
pub open spec fn repeat(code: Seq<Asm>, k: nat) -> Seq<Asm>
    decreases k,
{
    if k == 0 { Seq::empty() } else { repeat(code, (k - 1) as nat) + code }
}

/// The code of `function name nlocals`.
pub open spec fn function_code(name: Seq<char>, nlocals: nat) -> Seq<Asm> {
    seq![Asm::Label(name)] + repeat(set_d_code(0) + push_d_code(), nlocals)
}

/// `reg = *(R13 - k)`
pub open spec fn restore_code(reg: Seq<char>, k: nat) -> Seq<Asm> {
    set_d_code(k) + seq![Asm::AtSym("R13"@), Asm::Op(Op::AFromMMinusD), Asm::Op(Op::DFromM),
        Asm::AtSym(reg), Asm::Op(Op::MFromD)]
}

/// The code of `return`.
pub open spec fn return_code() -> Seq<Asm> {
    seq![Asm::AtSym("LCL"@), Asm::Op(Op::DFromM), Asm::AtSym("R13"@), Asm::Op(Op::MFromD)]
        + set_d_code(5) + seq![Asm::AtSym("R13"@), Asm::Op(Op::AFromMMinusD), Asm::Op(Op::DFromM),
            Asm::AtSym("R14"@), Asm::Op(Op::MFromD)]
        + pop_d_code() + seq![Asm::AtSym("ARG"@), Asm::Op(Op::AFromM), Asm::Op(Op::MFromD),
            Asm::AtSym("ARG"@), Asm::Op(Op::DFromM), Asm::AtSym("SP"@), Asm::Op(Op::MFromDPlus1)]
        + restore_code("THAT"@, 1) + restore_code("THIS"@, 2)
        + restore_code("ARG"@, 3) + restore_code("LCL"@, 4)
        + seq![Asm::AtSym("R14"@), Asm::Op(Op::AFromM), Asm::Op(Op::Jump)]
}

/// The code that sets the stack pointer to its base address.
pub open spec fn init_code() -> Seq<Asm> {
    seq![Asm::AtNum(256), Asm::Op(Op::DFromA), Asm::AtSym("SP"@), Asm::Op(Op::MFromD)]
}

// ---- Emitters ----

/// Appending rendered code twice is appending the rendering of both.
pub proof fn lemma_append(v: Seq<Seq<char>>, a: Seq<Asm>, b: Seq<Asm>)
    ensures
        v + render_all(a) + render_all(b) == v + render_all(a + b),
{
    lemma_render_concat(a, b);
    assert(v + render_all(a) + render_all(b) =~= v + (render_all(a) + render_all(b)));
}

/// One line to emit, with the values it needs at run time.
pub enum Line<'a> {
    Op(Op),
    AtSym(&'a str),
    AtNum(u64),
    Label(&'a str),
}

impl<'a> Line<'a> {
    /// The line this stands for.
    pub open spec fn spec(&self) -> Asm {
        match self {
            Line::Op(o) => Asm::Op(*o),
            Line::AtSym(s) => Asm::AtSym(s@),
            Line::AtNum(n) => Asm::AtNum(*n as nat),
            Line::Label(s) => Asm::Label(s@),
        }
    }
}


/// The lines that a list of `Line`s stands for.
pub open spec fn specs(lines: Seq<Line>) -> Seq<Asm> {
    lines.map_values(|l: Line| l.spec())
}

/// Emits each line of `lines` in order.
pub fn emit_lines(out: &mut Vec<String>, lines: Vec<Line>)
    ensures
        views(final(out)@) == views(old(out)@) + render_all(specs(lines@)),
{
    let ghost start = views(out@);
    let mut i: usize = 0;
    while i < lines.len()
        invariant
            i <= lines@.len(),
            views(out@) == start + render_all(specs(lines@.subrange(0, i as int))),
        decreases lines@.len() - i,
    {
        let ghost before = views(out@);
        match &lines[i] {
            Line::Op(o) => emit_op(out, *o),
            Line::AtSym(s) => emit_at_sym(out, s),
            Line::AtNum(n) => emit_at_num(out, *n),
            Line::Label(s) => emit_label(out, s),
        }
        proof {
            assert(render_all(specs(lines@.subrange(0, i + 1))) =~=
                render_all(specs(lines@.subrange(0, i as int))).push(render(lines@[i as int].spec())));
        }
        i = i + 1;
    }
    proof {
        assert(lines@.subrange(0, lines@.len() as int) =~= lines@);
    }
}


/// Emits the code of an arithmetic or comparison operation at index `n`.
pub fn arithmetic(out: &mut Vec<String>, op: Operation, n: u32)
    ensures
        views(final(out)@) == views(old(out)@) + render_all(arithmetic_code(op, n as nat)),
{
    let v: Vec<Line> = match op {
        Operation::Neg => vec![Line::AtSym("SP"), Line::Op(Op::DecMToA), Line::Op(Op::NegM),
            Line::AtSym("SP"), Line::Op(Op::IncM)],
        Operation::Not => vec![Line::AtSym("SP"), Line::Op(Op::DecMToA), Line::Op(Op::NotM),
            Line::AtSym("SP"), Line::Op(Op::IncM)],
        Operation::Add | Operation::Sub | Operation::And | Operation::Or => {
            let (o, tail_push) = match op {
                Operation::Add => (Op::MAddD, false),
                Operation::Sub => (Op::MSubD, false),
                Operation::And => (Op::DFromMAndD, true),
                _ => (Op::DFromMOrD, true),
            };
            if tail_push {
                vec![Line::AtSym("SP"), Line::Op(Op::DecMToA), Line::Op(Op::DFromM),
                    Line::AtSym("SP"), Line::Op(Op::DecMToA), Line::Op(o),
                    Line::AtSym("SP"), Line::Op(Op::IncM), Line::Op(Op::AFromMMinus1), Line::Op(Op::MFromD)]
            } else {
                vec![Line::AtSym("SP"), Line::Op(Op::DecMToA), Line::Op(Op::DFromM),
                    Line::AtSym("SP"), Line::Op(Op::DecMToA), Line::Op(o),
                    Line::AtSym("SP"), Line::Op(Op::IncM)]
            }
        },
        Operation::Eq | Operation::Gt | Operation::Lt => {
            let jump = match op {
                Operation::Eq => Op::JumpIfZero,
                Operation::Gt => Op::JumpIfPositive,
                _ => Op::JumpIfNegative,
            };
            let t = indexed_name("RESULT_TRUE", n);
            let f = indexed_name("RESULT_FALSE", n);
            let e = indexed_name("RESULT_SET", n);
            let v = vec![Line::AtSym("SP"), Line::Op(Op::DecMToA), Line::Op(Op::DFromM),
                Line::AtSym("SP"), Line::Op(Op::DecMToA), Line::Op(Op::DFromMMinusD),
                Line::AtSym(t.as_str()), Line::Op(jump),
                Line::AtSym(f.as_str()), Line::Op(Op::Jump),
                Line::Label(t.as_str()), Line::Op(Op::DTrue),
                Line::AtSym(e.as_str()), Line::Op(Op::Jump),
                Line::Label(f.as_str()), Line::Op(Op::DFalse),
                Line::Label(e.as_str()), Line::AtSym("SP"), Line::Op(Op::AFromM), Line::Op(Op::MFromD),
                Line::AtSym("SP"), Line::Op(Op::IncM)];
            proof {
                assert(specs(v@) =~= arithmetic_code(op, n as nat));
            }
            emit_lines(out, v);
            return;
        },
        _ => Vec::new(),
    };
    proof {
        assert(specs(v@) =~= arithmetic_code(op, n as nat));
    }
    emit_lines(out, v);
}


/// Emits the code of `label`, `goto` or `if-goto`.
pub fn branching(out: &mut Vec<String>, op: Operation, label: &str)
    ensures
        views(final(out)@) == views(old(out)@) + render_all(branching_code(op, label@)),
{
    let v: Vec<Line> = match op {
        Operation::Label => vec![Line::Label(label)],
        Operation::Goto => vec![Line::AtSym(label), Line::Op(Op::JumpOnD)],
        Operation::IfGoto => vec![Line::AtSym("SP"), Line::Op(Op::DecMToA), Line::Op(Op::DFromM),
            Line::AtSym(label), Line::Op(Op::JumpIfNonZero)],
        _ => Vec::new(),
    };
    proof {
        assert(specs(v@) =~= branching_code(op, label@));
    }
    emit_lines(out, v);
}

/// Builds the symbol of cell `i` of the static segment of `unit`.
pub fn static_name(unit: &str, i: u32) -> (r: String)
    ensures
        r@ == static_symbol(unit@, i as nat),
{
    let mut s = String::from_str(unit);
    s.append(".");
    append_decimal(&mut s, i as u64);
    s
}

/// Emits the code of `push seg i` (`push` is true) or `pop seg i`; `pop constant` is refused.
pub fn exec_memory(out: &mut Vec<String>, push: bool, seg: Segment, i: u32, unit: &str)
    -> (r: Result<(), TranslateError>)
    ensures
        match memory_code(push, seg, i as nat, unit@) {
            Ok(code) => r is Ok && views(final(out)@) == views(old(out)@) + render_all(code),
            Err(e) => r == Err::<(), TranslateError>(e) && final(out)@ == old(out)@,
        },
{
    let n = i as u64;
    if seg == Segment::Local || seg == Segment::Argument || seg == Segment::This || seg == Segment::That {
        let base = seg.symbol();
        let v = if push {
            vec![Line::AtNum(n), Line::Op(Op::DFromA), Line::AtSym(base), Line::Op(Op::AFromDPlusM),
                Line::Op(Op::DFromM),
                Line::AtSym("SP"), Line::Op(Op::IncM), Line::Op(Op::AFromMMinus1), Line::Op(Op::MFromD)]
        } else {
            vec![Line::AtNum(n), Line::Op(Op::DFromA), Line::AtSym(base), Line::Op(Op::DFromMPlusD),
                Line::AtSym("R13"), Line::Op(Op::MFromD),
                Line::AtSym("SP"), Line::Op(Op::DecMToA), Line::Op(Op::DFromM),
                Line::AtSym("R13"), Line::Op(Op::AFromM), Line::Op(Op::MFromD)]
        };
        proof {
            assert(specs(v@) =~= memory_code(push, seg, i as nat, unit@).unwrap());
        }
        emit_lines(out, v);
        Ok(())
    } else if seg == Segment::Static || seg == Segment::Temp || seg == Segment::Pointer {
        let name = static_name(unit, i);
        let at = if seg == Segment::Static {
            Line::AtSym(name.as_str())
        } else if seg == Segment::Temp {
            Line::AtNum(5 + n)
        } else if i == 0 {
            Line::AtSym("THIS")
        } else {
            Line::AtSym("THAT")
        };
        let ghost a = at.spec();
        let v = if push {
            vec![at, Line::Op(Op::DFromM),
                Line::AtSym("SP"), Line::Op(Op::IncM), Line::Op(Op::AFromMMinus1), Line::Op(Op::MFromD)]
        } else {
            vec![Line::AtSym("SP"), Line::Op(Op::DecMToA), Line::Op(Op::DFromM),
                at, Line::Op(Op::MFromD)]
        };
        proof {
            assert(specs(v@) =~= memory_code(push, seg, i as nat, unit@).unwrap());
        }
        emit_lines(out, v);
        Ok(())
    } else if seg == Segment::Constant {
        if push {
            let v = vec![Line::AtNum(n), Line::Op(Op::DFromA),
                Line::AtSym("SP"), Line::Op(Op::IncM), Line::Op(Op::AFromMMinus1), Line::Op(Op::MFromD)];
            proof {
                assert(specs(v@) =~= memory_code(push, seg, i as nat, unit@).unwrap());
            }
            emit_lines(out, v);
            Ok(())
        } else {
            Err(TranslateError::InvalidPop)
        }
    } else {
        proof {
            assert(views(out@) =~= views(out@) + render_all(Seq::<Asm>::empty()));
        }
        Ok(())
    }
}

/// Emits the code of `call name nargs` at index `n`.
pub fn call_func(out: &mut Vec<String>, name: &str, nargs: u32, n: u32)
    ensures
        views(final(out)@) == views(old(out)@) + render_all(call_code(name@, nargs as nat, n as nat)),
{
    let ret = indexed_name(name, n);
    let v = vec![Line::AtSym(ret.as_str()), Line::Op(Op::DFromA),
        Line::AtSym("SP"), Line::Op(Op::IncM), Line::Op(Op::AFromMMinus1), Line::Op(Op::MFromD),
        Line::AtSym("LCL"), Line::Op(Op::DFromM),
        Line::AtSym("SP"), Line::Op(Op::IncM), Line::Op(Op::AFromMMinus1), Line::Op(Op::MFromD),
        Line::AtSym("ARG"), Line::Op(Op::DFromM),
        Line::AtSym("SP"), Line::Op(Op::IncM), Line::Op(Op::AFromMMinus1), Line::Op(Op::MFromD),
        Line::AtSym("THIS"), Line::Op(Op::DFromM),
        Line::AtSym("SP"), Line::Op(Op::IncM), Line::Op(Op::AFromMMinus1), Line::Op(Op::MFromD),
        Line::AtSym("THAT"), Line::Op(Op::DFromM),
        Line::AtSym("SP"), Line::Op(Op::IncM), Line::Op(Op::AFromMMinus1), Line::Op(Op::MFromD),
        Line::AtNum(5), Line::Op(Op::DFromA),
        Line::AtNum(nargs as u64), Line::Op(Op::DAddA),
        Line::AtSym("SP"), Line::Op(Op::DFromMMinusD), Line::AtSym("ARG"), Line::Op(Op::MFromD),
        Line::AtSym("SP"), Line::Op(Op::DFromM), Line::AtSym("LCL"), Line::Op(Op::MFromD),
        Line::AtSym(name), Line::Op(Op::JumpSpaced), Line::Label(ret.as_str())];
    proof {
        assert(specs(v@) =~= call_code(name@, nargs as nat, n as nat));
    }
    emit_lines(out, v);
}

/// Emits the code of `function name nlocals`.
pub fn function_func(out: &mut Vec<String>, name: &str, nlocals: u32)
    ensures
        views(final(out)@) == views(old(out)@) + render_all(function_code(name@, nlocals as nat)),
{
    let ghost start = views(out@);
    emit_lines(out, vec![Line::Label(name)]);
    proof {
        assert(specs(seq![Line::Label(name)]) =~= seq![Asm::Label(name@)]);
    }
    let ghost body = set_d_code(0) + push_d_code();
    let mut k: u32 = 0;
    while k < nlocals
        invariant
            k <= nlocals,
            body == set_d_code(0) + push_d_code(),
            views(out@) == start + render_all(seq![Asm::Label(name@)]) + render_all(repeat(body, k as nat)),
        decreases nlocals - k,
    {
        let v = vec![Line::AtNum(0), Line::Op(Op::DFromA),
            Line::AtSym("SP"), Line::Op(Op::IncM), Line::Op(Op::AFromMMinus1), Line::Op(Op::MFromD)];
        proof {
            assert(specs(v@) =~= body);
        }
        emit_lines(out, v);
        proof {
            lemma_append(start + render_all(seq![Asm::Label(name@)]), repeat(body, k as nat), body);
        }
        k = k + 1;
    }
    proof {
        lemma_append(start, seq![Asm::Label(name@)], repeat(body, nlocals as nat));
    }
}

/// Emits the code of `return`.
pub fn return_func(out: &mut Vec<String>)
    ensures
        views(final(out)@) == views(old(out)@) + render_all(return_code()),
{
    let v = vec![Line::AtSym("LCL"), Line::Op(Op::DFromM), Line::AtSym("R13"), Line::Op(Op::MFromD),
        Line::AtNum(5), Line::Op(Op::DFromA),
        Line::AtSym("R13"), Line::Op(Op::AFromMMinusD), Line::Op(Op::DFromM),
        Line::AtSym("R14"), Line::Op(Op::MFromD),
        Line::AtSym("SP"), Line::Op(Op::DecMToA), Line::Op(Op::DFromM),
        Line::AtSym("ARG"), Line::Op(Op::AFromM), Line::Op(Op::MFromD),
        Line::AtSym("ARG"), Line::Op(Op::DFromM), Line::AtSym("SP"), Line::Op(Op::MFromDPlus1),
        Line::AtNum(1), Line::Op(Op::DFromA), Line::AtSym("R13"), Line::Op(Op::AFromMMinusD),
        Line::Op(Op::DFromM), Line::AtSym("THAT"), Line::Op(Op::MFromD),
        Line::AtNum(2), Line::Op(Op::DFromA), Line::AtSym("R13"), Line::Op(Op::AFromMMinusD),
        Line::Op(Op::DFromM), Line::AtSym("THIS"), Line::Op(Op::MFromD),
        Line::AtNum(3), Line::Op(Op::DFromA), Line::AtSym("R13"), Line::Op(Op::AFromMMinusD),
        Line::Op(Op::DFromM), Line::AtSym("ARG"), Line::Op(Op::MFromD),
        Line::AtNum(4), Line::Op(Op::DFromA), Line::AtSym("R13"), Line::Op(Op::AFromMMinusD),
        Line::Op(Op::DFromM), Line::AtSym("LCL"), Line::Op(Op::MFromD),
        Line::AtSym("R14"), Line::Op(Op::AFromM), Line::Op(Op::Jump)];
    proof {
        assert(specs(v@) =~= return_code());
    }
    emit_lines(out, v);
}

/// Emits the code that sets the stack pointer to its base address.
pub fn write_init_code(out: &mut Vec<String>)
    ensures
        views(final(out)@) == views(old(out)@) + render_all(init_code()),
{
    let v = vec![Line::AtNum(256), Line::Op(Op::DFromA), Line::AtSym("SP"), Line::Op(Op::MFromD)];
    proof {
        assert(specs(v@) =~= init_code());
    }
    emit_lines(out, v);
}

} // verus!
