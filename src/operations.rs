//! The closed sets of VM operations and memory segments, and their categories.

use vstd::prelude::*;
use crate::text::same_text;

verus! {

/// Why a VM instruction cannot be translated.
#[derive(Clone, Copy, Debug, PartialEq, Eq, Structural)]
pub enum TranslateError {
    /// The first token names no operation.
    UnsupportedOpcode,
    /// The segment token of `push` or `pop` names no segment.
    UnsupportedSegment,
    /// An operand is missing, or is not a `u32` numeral where one is needed.
    MalformedOperand,
    /// `pop constant`: a constant has no cell to write back to.
    InvalidPop,
}

/// Operation being performed by a command.
#[derive(Clone, Copy, Debug, PartialEq, Eq, Structural)]
pub enum Operation {
    Default,
    /// No operation
    Noop,
    /// Arithmetic operations
    Add,
    Sub,
    Neg,
    Eq,
    Gt,
    Lt,
    And,
    Or,
    Not,
    /// Branching operations
    Label,
    Goto,
    IfGoto,
    /// Memory operations
    Push,
    Pop,
    /// Function operations
    Function,
    Call,
    Return,
}

/// Type of operation to be performed.
#[derive(Clone, Copy, Debug, PartialEq, Eq, Structural)]
pub enum OperationType {
    Default,
    Arithmetic,
    Branching,
    Memory,
    Function,
}

/// The different memory segments supported.
#[derive(Clone, Copy, Debug, PartialEq, Eq, Structural)]
pub enum Segment {
    Default,
    /// No segment (an empty token)
    Blank,
    Sp,
    Local,
    Argument,
    This,
    That,
    Constant,
    Static,
    Pointer,
    Temp,
}

/// The operation that a token names.
pub open spec fn operation_of(t: Seq<char>) -> Option<Operation> {
    if t == ""@ { Some(Operation::Noop) }
    else if t == "add"@ { Some(Operation::Add) }
    else if t == "sub"@ { Some(Operation::Sub) }
    else if t == "neg"@ { Some(Operation::Neg) }
    else if t == "eq"@ { Some(Operation::Eq) }
    else if t == "gt"@ { Some(Operation::Gt) }
    else if t == "lt"@ { Some(Operation::Lt) }
    else if t == "and"@ { Some(Operation::And) }
    else if t == "or"@ { Some(Operation::Or) }
    else if t == "not"@ { Some(Operation::Not) }
    else if t == "label"@ { Some(Operation::Label) }
    else if t == "goto"@ { Some(Operation::Goto) }
    else if t == "if-goto"@ { Some(Operation::IfGoto) }
    else if t == "push"@ { Some(Operation::Push) }
    else if t == "pop"@ { Some(Operation::Pop) }
    else if t == "function"@ { Some(Operation::Function) }
    else if t == "call"@ { Some(Operation::Call) }
    else if t == "return"@ { Some(Operation::Return) }
    else { None }
}

/// The segment that a token names.
pub open spec fn segment_of(t: Seq<char>) -> Option<Segment> {
    if t == ""@ { Some(Segment::Blank) }
    else if t == "sp"@ { Some(Segment::Sp) }
    else if t == "local"@ { Some(Segment::Local) }
    else if t == "argument"@ { Some(Segment::Argument) }
    else if t == "this"@ { Some(Segment::This) }
    else if t == "that"@ { Some(Segment::That) }
    else if t == "constant"@ { Some(Segment::Constant) }
    else if t == "static"@ { Some(Segment::Static) }
    else if t == "pointer"@ { Some(Segment::Pointer) }
    else if t == "temp"@ { Some(Segment::Temp) }
    else { None }
}

/// The category of an operation; `Default` for those outside every category.
pub open spec fn category_of(op: Operation) -> OperationType {
    match op {
        Operation::Add | Operation::Sub | Operation::Neg | Operation::Eq | Operation::Gt
        | Operation::Lt | Operation::And | Operation::Or | Operation::Not => OperationType::Arithmetic,
        Operation::Label | Operation::Goto | Operation::IfGoto => OperationType::Branching,
        Operation::Push | Operation::Pop => OperationType::Memory,
        Operation::Function | Operation::Call | Operation::Return => OperationType::Function,
        Operation::Default | Operation::Noop => OperationType::Default,
    }
}

/// The assembler symbol of a segment's base register; empty for segments without one.
pub open spec fn segment_symbol(seg: Segment) -> Seq<char> {
    match seg {
        Segment::Sp => "SP"@,
        Segment::Local => "LCL"@,
        Segment::Argument => "ARG"@,
        Segment::This => "THIS"@,
        Segment::That => "THAT"@,
        _ => ""@,
    }
}

impl Operation {
    /// Reads an operation token.
    pub fn from_token(s: &str) -> (r: Result<Operation, TranslateError>)
        ensures
            r == (match operation_of(s@) {
                Some(op) => Ok(op),
                None => Err(TranslateError::UnsupportedOpcode),
            }),
    {
        if same_text(s, "") { Ok(Operation::Noop) }
        else if same_text(s, "add") { Ok(Operation::Add) }
        else if same_text(s, "sub") { Ok(Operation::Sub) }
        else if same_text(s, "neg") { Ok(Operation::Neg) }
        else if same_text(s, "eq") { Ok(Operation::Eq) }
        else if same_text(s, "gt") { Ok(Operation::Gt) }
        else if same_text(s, "lt") { Ok(Operation::Lt) }
        else if same_text(s, "and") { Ok(Operation::And) }
        else if same_text(s, "or") { Ok(Operation::Or) }
        else if same_text(s, "not") { Ok(Operation::Not) }
        else if same_text(s, "label") { Ok(Operation::Label) }
        else if same_text(s, "goto") { Ok(Operation::Goto) }
        else if same_text(s, "if-goto") { Ok(Operation::IfGoto) }
        else if same_text(s, "push") { Ok(Operation::Push) }
        else if same_text(s, "pop") { Ok(Operation::Pop) }
        else if same_text(s, "function") { Ok(Operation::Function) }
        else if same_text(s, "call") { Ok(Operation::Call) }
        else if same_text(s, "return") { Ok(Operation::Return) }
        else { Err(TranslateError::UnsupportedOpcode) }
    }

    /// The category this operation belongs to.
    pub fn category(self) -> (r: OperationType)
        ensures
            r == category_of(self),
    {
        match self {
            Operation::Add | Operation::Sub | Operation::Neg | Operation::Eq | Operation::Gt
            | Operation::Lt | Operation::And | Operation::Or | Operation::Not => OperationType::Arithmetic,
            Operation::Label | Operation::Goto | Operation::IfGoto => OperationType::Branching,
            Operation::Push | Operation::Pop => OperationType::Memory,
            Operation::Function | Operation::Call | Operation::Return => OperationType::Function,
            Operation::Default | Operation::Noop => OperationType::Default,
        }
    }
}

impl Segment {
    /// Reads a segment token.
    pub fn from_token(s: &str) -> (r: Result<Segment, TranslateError>)
        ensures
            r == (match segment_of(s@) {
                Some(seg) => Ok(seg),
                None => Err(TranslateError::UnsupportedSegment),
            }),
    {
        if same_text(s, "") { Ok(Segment::Blank) }
        else if same_text(s, "sp") { Ok(Segment::Sp) }
        else if same_text(s, "local") { Ok(Segment::Local) }
        else if same_text(s, "argument") { Ok(Segment::Argument) }
        else if same_text(s, "this") { Ok(Segment::This) }
        else if same_text(s, "that") { Ok(Segment::That) }
        else if same_text(s, "constant") { Ok(Segment::Constant) }
        else if same_text(s, "static") { Ok(Segment::Static) }
        else if same_text(s, "pointer") { Ok(Segment::Pointer) }
        else if same_text(s, "temp") { Ok(Segment::Temp) }
        else { Err(TranslateError::UnsupportedSegment) }
    }

    /// The assembler symbol of this segment's base register.
    pub fn symbol(&self) -> (r: &'static str)
        ensures
            r@ == segment_symbol(*self),
    {
        match self {
            Segment::Sp => "SP",
            Segment::Local => "LCL",
            Segment::Argument => "ARG",
            Segment::This => "THIS",
            Segment::That => "THAT",
            _ => "",
        }
    }
}

} // verus!
