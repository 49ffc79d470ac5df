//! Hack assembly lines: a model of the instructions emitted, their text, and emitters.

use vstd::prelude::*;
use crate::text::{append_decimal, decimal, views};

verus! {

/// A computation (C-) instruction, one per form that the translator emits.
#[derive(Clone, Copy, Debug, PartialEq, Eq, Structural)]
pub enum Op {
    /// `D=A`
    DFromA,
    /// `D=M`
    DFromM,
    /// `M=D`
    MFromD,
    /// `A=M`
    AFromM,
    /// `M=M+1`
    IncM,
    /// `A=M-1`
    AFromMMinus1,
    /// `AM=M-1`
    DecMToA,
    /// `D=D+A`
    DAddA,
    /// `D=M-D`
    DFromMMinusD,
    /// `M=D+1`
    MFromDPlus1,
    /// `A=M-D`
    AFromMMinusD,
    /// `A=D+M`
    AFromDPlusM,
    /// `D=M+D`
    DFromMPlusD,
    /// `M=M+D`
    MAddD,
    /// `M=M-D`
    MSubD,
    /// `D=M&D`
    DFromMAndD,
    /// `D=M|D`
    DFromMOrD,
    /// `M=-M`
    NegM,
    /// `M=!M`
    NotM,
    /// `D=-1`, the truth value
    DTrue,
    /// `D=0`, the false value
    DFalse,
    /// `0;JMP`
    Jump,
    /// `0; JMP`
    JumpSpaced,
    /// `D; JMP`
    JumpOnD,
    /// `D; JNE`
    JumpIfNonZero,
    /// `D;JEQ`
    JumpIfZero,
    /// `D;JGT`
    JumpIfPositive,
    /// `D;JLT`
    JumpIfNegative,
}

/// The text of a computation instruction.
pub open spec fn op_text(o: Op) -> Seq<char> {
    match o {
        Op::DFromA => "D=A"@,
        Op::DFromM => "D=M"@,
        Op::MFromD => "M=D"@,
        Op::AFromM => "A=M"@,
        Op::IncM => "M=M+1"@,
        Op::AFromMMinus1 => "A=M-1"@,
        Op::DecMToA => "AM=M-1"@,
        Op::DAddA => "D=D+A"@,
        Op::DFromMMinusD => "D=M-D"@,
        Op::MFromDPlus1 => "M=D+1"@,
        Op::AFromMMinusD => "A=M-D"@,
        Op::AFromDPlusM => "A=D+M"@,
        Op::DFromMPlusD => "D=M+D"@,
        Op::MAddD => "M=M+D"@,
        Op::MSubD => "M=M-D"@,
        Op::DFromMAndD => "D=M&D"@,
        Op::DFromMOrD => "D=M|D"@,
        Op::NegM => "M=-M"@,
        Op::NotM => "M=!M"@,
        Op::DTrue => "D=-1"@,
        Op::DFalse => "D=0"@,
        Op::Jump => "0;JMP"@,
        Op::JumpSpaced => "0; JMP"@,
        Op::JumpOnD => "D; JMP"@,
        Op::JumpIfNonZero => "D; JNE"@,
        Op::JumpIfZero => "D;JEQ"@,
        Op::JumpIfPositive => "D;JGT"@,
        Op::JumpIfNegative => "D;JLT"@,
    }
}

impl Op {
    /// The text of this instruction.
    pub fn text(self) -> (r: &'static str)
        ensures
            r@ == op_text(self),
    {
        match self {
            Op::DFromA => "D=A",
            Op::DFromM => "D=M",
            Op::MFromD => "M=D",
            Op::AFromM => "A=M",
            Op::IncM => "M=M+1",
            Op::AFromMMinus1 => "A=M-1",
            Op::DecMToA => "AM=M-1",
            Op::DAddA => "D=D+A",
            Op::DFromMMinusD => "D=M-D",
            Op::MFromDPlus1 => "M=D+1",
            Op::AFromMMinusD => "A=M-D",
            Op::AFromDPlusM => "A=D+M",
            Op::DFromMPlusD => "D=M+D",
            Op::MAddD => "M=M+D",
            Op::MSubD => "M=M-D",
            Op::DFromMAndD => "D=M&D",
            Op::DFromMOrD => "D=M|D",
            Op::NegM => "M=-M",
            Op::NotM => "M=!M",
            Op::DTrue => "D=-1",
            Op::DFalse => "D=0",
            Op::Jump => "0;JMP",
            Op::JumpSpaced => "0; JMP",
            Op::JumpOnD => "D; JMP",
            Op::JumpIfNonZero => "D; JNE",
            Op::JumpIfZero => "D;JEQ",
            Op::JumpIfPositive => "D;JGT",
            Op::JumpIfNegative => "D;JLT",
        }
    }
}

/// One line of emitted assembly.
pub enum Asm {
    /// `// text`: the source instruction, echoed.
    Comment(Seq<char>),
    /// `@n`: load a number into A.
    AtNum(nat),
    /// `@sym`: load a symbol's address into A.
    AtSym(Seq<char>),
    /// `(sym)`: declare a label.
    Label(Seq<char>),
    /// A computation instruction.
    Op(Op),
}

/// The text of one line.
pub open spec fn render(a: Asm) -> Seq<char> {
    match a {
        Asm::Comment(t) => "// "@ + t,
        Asm::AtNum(n) => "@"@ + decimal(n),
        Asm::AtSym(s) => "@"@ + s,
        Asm::Label(s) => "("@ + s + ")"@,
        Asm::Op(o) => op_text(o),
    }
}

/// The text of a sequence of lines.
pub open spec fn render_all(code: Seq<Asm>) -> Seq<Seq<char>> {
    code.map_values(|a: Asm| render(a))
}

/// Rendering distributes over concatenation.
pub proof fn lemma_render_concat(a: Seq<Asm>, b: Seq<Asm>)
    ensures
        render_all(a + b) == render_all(a) + render_all(b),
{
    assert(render_all(a + b) =~= render_all(a) + render_all(b));
}

/// `base_n`: a name made unique by an instruction index.
pub open spec fn indexed(base: Seq<char>, n: nat) -> Seq<char> {
    base + "_"@ + decimal(n)
}

/// Builds `base_n`.
pub fn indexed_name(base: &str, n: u32) -> (r: String)
    ensures
        r@ == indexed(base@, n as nat),
{
    let mut s = String::from_str(base);
    s.append("_");
    append_decimal(&mut s, n as u64);
    s
}

/// Appends one line.
fn push_line(out: &mut Vec<String>, line: String)
    ensures
        views(final(out)@) == views(old(out)@).push(line@),
{
    let ghost before = out@;
    out.push(line);
    proof {
        assert(views(out@) =~= views(before).push(line@));
    }
}

/// Emits a computation instruction.
pub fn emit_op(out: &mut Vec<String>, o: Op)
    ensures
        views(final(out)@) == views(old(out)@).push(render(Asm::Op(o))),
{
    push_line(out, String::from_str(o.text()));
}

/// Emits `@sym`.
pub fn emit_at_sym(out: &mut Vec<String>, sym: &str)
    ensures
        views(final(out)@) == views(old(out)@).push(render(Asm::AtSym(sym@))),
{
    push_line(out, String::from_str("@").concat(sym));
}

/// Emits `@n`.
pub fn emit_at_num(out: &mut Vec<String>, n: u64)
    ensures
        views(final(out)@) == views(old(out)@).push(render(Asm::AtNum(n as nat))),
{
    let mut s = String::from_str("@");
    append_decimal(&mut s, n);
    push_line(out, s);
}

/// Emits `(name)`.
pub fn emit_label(out: &mut Vec<String>, name: &str)
    ensures
        views(final(out)@) == views(old(out)@).push(render(Asm::Label(name@))),
{
    push_line(out, String::from_str("(").concat(name).concat(")"));
}

/// Emits `// text`.
pub fn emit_comment(out: &mut Vec<String>, text: &str)
    ensures
        views(final(out)@) == views(old(out)@).push(render(Asm::Comment(text@))),
{
    push_line(out, String::from_str("// ").concat(text));
}

} // verus!
