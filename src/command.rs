//! One VM instruction and its translation.

use vstd::prelude::*;
use crate::codegen::{
    arithmetic, arithmetic_code, branching, branching_code, call_code, call_func, exec_memory,
    function_code, function_func, init_code, memory_code, return_code, return_func,
    write_init_code,
};
use crate::hack::{Asm, emit_comment, render_all};
use crate::operations::{
    Operation, OperationType, Segment, TranslateError, category_of, operation_of, segment_of,
};
use crate::text::{clean, cleaned, numeral_u32, parse_u32, split_tokens, tokens, views};

verus! {

/// The code of an instruction given by its tokens (at least one), at index `n` of unit `unit`.
pub open spec fn body_code(toks: Seq<Seq<char>>, n: nat, unit: Seq<char>) -> Result<Seq<Asm>, TranslateError> {
    match operation_of(toks[0]) {
        None => Err(TranslateError::UnsupportedOpcode),
        Some(op) => match category_of(op) {
            OperationType::Arithmetic => Ok(arithmetic_code(op, n)),
            OperationType::Branching => if toks.len() < 2 {
                Err(TranslateError::MalformedOperand)
            } else {
                Ok(branching_code(op, toks[1]))
            },
            OperationType::Memory => if toks.len() < 2 {
                Err(TranslateError::MalformedOperand)
            } else {
                match segment_of(toks[1]) {
                    None => Err(TranslateError::UnsupportedSegment),
                    Some(seg) => if toks.len() < 3 {
                        Err(TranslateError::MalformedOperand)
                    } else {
                        match numeral_u32(toks[2]) {
                            None => Err(TranslateError::MalformedOperand),
                            Some(i) => memory_code(op == Operation::Push, seg, i as nat, unit),
                        }
                    },
                }
            },
            OperationType::Function => if op == Operation::Return {
                Ok(return_code())
            } else if toks.len() < 3 {
                Err(TranslateError::MalformedOperand)
            } else {
                match numeral_u32(toks[2]) {
                    None => Err(TranslateError::MalformedOperand),
                    Some(k) => Ok(if op == Operation::Call {
                        call_code(toks[1], k as nat, n)
                    } else {
                        function_code(toks[1], k as nat)
                    }),
                }
            },
            OperationType::Default => Ok(Seq::empty()),
        },
    }
}

/// The translation of a source line at index `n` of unit `unit`: `None` for a line with
/// no instruction, else the echo of the cleaned line followed by the instruction's code.
pub open spec fn translation(line: Seq<char>, n: nat, unit: Seq<char>) -> Result<Option<Seq<Asm>>, TranslateError> {
    let text = cleaned(line);
    let toks = tokens(text);
    if toks.len() == 0 {
        Ok(None)
    } else {
        match body_code(toks, n, unit) {
            Ok(code) => Ok(Some(seq![Asm::Comment(text)] + code)),
            Err(e) => Err(e),
        }
    }
}

/// One VM instruction, translated.
pub struct Command {
    /// Index of this instruction over the whole run
    command_count: u32,
    /// Name of the unit the instruction comes from (scopes static cells)
    program_name: String,
    /// Whether the line holds an instruction
    is_valid: bool,
    /// The line, without comment and surrounding white space
    command_string: String,
    /// The line split at white space
    command_tokens: Vec<String>,
    /// Operation being performed
    operation: Operation,
    /// Operation type being performed
    operation_type: OperationType,
    /// Memory segment being operated on
    segment: Segment,
    /// Cell index, constant, argument count or local count
    segment_i: u32,
    /// The assembly lines of this instruction
    parsed_cmd: Vec<String>,
}

/// What `Command::new(line, n, unit)` makes of the line: `c` holds an instruction exactly
/// when the line does, and then its lines are the rendered translation.
pub open spec fn translates(c: Command, line: Seq<char>, n: nat, unit: Seq<char>) -> bool {
    match translation(line, n, unit) {
        Ok(None) => !c.valid(),
        Ok(Some(code)) => c.valid() && c.lines() == render_all(code),
        Err(_) => false,
    }
}

impl Command {
    /// Whether this command holds an instruction (or the start-up code).
    pub closed spec fn valid(&self) -> bool {
        self.is_valid
    }

    /// The assembly lines of this command.
    pub closed spec fn lines(&self) -> Seq<Seq<char>> {
        views(self.parsed_cmd@)
    }

    /// Translates the line `command_str`, the `command_cnt`-th instruction of the run,
    /// from unit `prgm_name`.
    pub fn new(command_str: &str, command_cnt: u32, prgm_name: &str) -> (r: Result<Self, TranslateError>)
        ensures
            match translation(command_str@, command_cnt as nat, prgm_name@) {
                Ok(_) => r matches Ok(c) && translates(c, command_str@, command_cnt as nat, prgm_name@),
                Err(e) => r == Err::<Command, TranslateError>(e),
            },
    {
        let mut command = Command::empty(command_cnt, command_str, prgm_name);
        match command.parse() {
            Ok(v) => {
                command.is_valid = v;
                Ok(command)
            },
            Err(e) => Err(e),
        }
    }

    /// A command that holds the start-up code, at index `n`.
    pub fn start_up(n: u32) -> (r: Self)
        ensures
            r.valid(),
            r.lines() == render_all(init_code()),
    {
        let mut command = Command::empty(n, "", "");
        command.write_init();
        command
    }

    /// The command `text`, known to be `call name nargs`, at index `n` of a unit without
    /// static cells.
    pub fn call_of(text: &str, name: &str, nargs: u32, n: u32) -> (r: Self)
        ensures
            r.valid(),
            r.lines() == render_all(seq![Asm::Comment(text@)] + call_code(name@, nargs as nat, n as nat)),
    {
        let mut command = Command::empty(n, text, "");
        emit_comment(&mut command.parsed_cmd, text);
        call_func(&mut command.parsed_cmd, name, nargs, n);
        command.operation = Operation::Call;
        command.operation_type = OperationType::Function;
        command.segment_i = nargs;
        command.is_valid = true;
        proof {
            assert(views(Seq::<String>::empty()) =~= Seq::<Seq<char>>::empty());
            assert(Seq::<Seq<char>>::empty() + render_all(seq![Asm::Comment(text@)])
                =~= render_all(seq![Asm::Comment(text@)]));
            crate::hack::lemma_render_concat(seq![Asm::Comment(text@)],
                call_code(name@, nargs as nat, n as nat));
        }
        command
    }

    /// A command with no lines yet.
    fn empty(n: u32, text: &str, unit: &str) -> (r: Self)
        ensures
            r.command_count == n,
            r.command_string@ == text@,
            r.program_name@ == unit@,
            r.parsed_cmd@.len() == 0,
            !r.is_valid,
    {
        Command {
            command_count: n,
            program_name: String::from_str(unit),
            is_valid: false,
            command_string: String::from_str(text),
            command_tokens: Vec::new(),
            operation: Operation::Default,
            operation_type: OperationType::Default,
            segment: Segment::Default,
            segment_i: 0,
            parsed_cmd: Vec::new(),
        }
    }

    /// Replaces this command's lines with the start-up code.
    pub fn write_init(&mut self)
        ensures
            final(self).valid(),
            final(self).lines() == render_all(init_code()),
    {
        self.parsed_cmd = Vec::new();
        write_init_code(&mut self.parsed_cmd);
        self.is_valid = true;
        proof {
            assert(views(Seq::<String>::empty()) =~= Seq::<Seq<char>>::empty());
            assert(Seq::<Seq<char>>::empty() + render_all(init_code()) =~= render_all(init_code()));
        }
    }

    /// The assembly lines, if this command holds an instruction.
    pub fn get_processed(&self) -> (r: Option<&Vec<String>>)
        ensures
            match r {
                Some(v) => self.valid() && views(v@) == self.lines(),
                None => !self.valid(),
            },
    {
        if !self.is_valid {
            return None;
        }
        Some(&self.parsed_cmd)
    }

    /// Whether this command holds an instruction.
    pub fn has_command(&self) -> (r: bool)
        ensures
            r == self.valid(),
    {
        self.is_valid
    }

    /// Cleans the line and splits it into tokens.
    fn clean_command(&mut self)
        ensures
            final(self).command_string@ == cleaned(old(self).command_string@),
            views(final(self).command_tokens@) == tokens(cleaned(old(self).command_string@)),
            final(self).command_count == old(self).command_count,
            final(self).program_name == old(self).program_name,
            final(self).parsed_cmd == old(self).parsed_cmd,
    {
        self.command_string = clean(self.command_string.as_str());
        self.command_tokens = split_tokens(self.command_string.as_str());
    }

    /// Translates the line: `Ok(false)` when it holds no instruction.
    fn parse(&mut self) -> (r: Result<bool, TranslateError>)
        requires
            old(self).parsed_cmd@.len() == 0,
        ensures
            final(self).command_count == old(self).command_count,
            match translation(old(self).command_string@, old(self).command_count as nat,
                old(self).program_name@) {
                Ok(None) => r == Ok::<bool, TranslateError>(false),
                Ok(Some(code)) => r == Ok::<bool, TranslateError>(true)
                    && views(final(self).parsed_cmd@) == render_all(code),
                Err(e) => r == Err::<bool, TranslateError>(e),
            },
    {
        let ghost line = self.command_string@;
        self.clean_command();
        let ghost toks = views(self.command_tokens@);
        if self.command_tokens.len() == 0 {
            return Ok(false);
        }
        emit_comment(&mut self.parsed_cmd, self.command_string.as_str());
        proof {
            assert(views(self.parsed_cmd@) =~= render_all(seq![Asm::Comment(cleaned(line))]));
        }
        let ghost head = views(self.parsed_cmd@);
        assert(toks[0] == self.command_tokens@[0]@);
        self.operation = match Operation::from_token(self.command_tokens[0].as_str()) {
            Ok(op) => op,
            Err(e) => return Err(e),
        };
        self.operation_type = self.operation.category();
        let n = self.command_tokens.len();
        let op = self.operation;
        match self.operation_type {
            OperationType::Arithmetic => {
                arithmetic(&mut self.parsed_cmd, op, self.command_count);
            },
            OperationType::Branching => {
                if n < 2 {
                    return Err(TranslateError::MalformedOperand);
                }
                assert(toks[1] == self.command_tokens@[1]@);
                branching(&mut self.parsed_cmd, op, self.command_tokens[1].as_str());
            },
            OperationType::Memory => {
                if n < 2 {
                    return Err(TranslateError::MalformedOperand);
                }
                assert(toks[1] == self.command_tokens@[1]@);
                self.segment = match Segment::from_token(self.command_tokens[1].as_str()) {
                    Ok(seg) => seg,
                    Err(e) => return Err(e),
                };
                if n < 3 {
                    return Err(TranslateError::MalformedOperand);
                }
                assert(toks[2] == self.command_tokens@[2]@);
                self.segment_i = match parse_u32(self.command_tokens[2].as_str()) {
                    Some(i) => i,
                    None => return Err(TranslateError::MalformedOperand),
                };
                let push = op == Operation::Push;
                match exec_memory(&mut self.parsed_cmd, push, self.segment, self.segment_i,
                    self.program_name.as_str()) {
                    Ok(()) => {},
                    Err(e) => return Err(e),
                }
            },
            OperationType::Function => {
                if op == Operation::Return {
                    return_func(&mut self.parsed_cmd);
                } else {
                    if n < 3 {
                        return Err(TranslateError::MalformedOperand);
                    }
                    assert(toks[1] == self.command_tokens@[1]@);
                    assert(toks[2] == self.command_tokens@[2]@);
                    let k = match parse_u32(self.command_tokens[2].as_str()) {
                        Some(k) => k,
                        None => return Err(TranslateError::MalformedOperand),
                    };
                    self.segment_i = k;
                    if op == Operation::Call {
                        call_func(&mut self.parsed_cmd, self.command_tokens[1].as_str(), k,
                            self.command_count);
                    } else {
                        function_func(&mut self.parsed_cmd, self.command_tokens[1].as_str(), k);
                    }
                }
            },
            OperationType::Default => {
                proof {
                    assert(head =~= head + render_all(Seq::<Asm>::empty()));
                }
            },
        }
        proof {
            let code = body_code(toks, old(self).command_count as nat, old(self).program_name@);
            crate::hack::lemma_render_concat(seq![Asm::Comment(cleaned(line))], code.unwrap());
        }
        Ok(true)
    }
}

} // verus!
