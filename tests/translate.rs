use hack_vm_translator::command::Command;
use hack_vm_translator::operations::{Operation, OperationType, Segment, TranslateError};
use hack_vm_translator::parser::{unit_name, Parser};

fn lines(line: &str, n: u32, unit: &str) -> Vec<String> {
    match Command::new(line, n, unit) {
        Ok(c) => c.get_processed().expect("an instruction").clone(),
        Err(e) => panic!("unexpected error {:?}", e),
    }
}

fn error(line: &str) -> TranslateError {
    match Command::new(line, 0, "Main") {
        Ok(_) => panic!("expected an error"),
        Err(e) => e,
    }
}

const PUSH_D: [&str; 4] = ["@SP", "M=M+1", "A=M-1", "M=D"];

#[test]
fn push_constant_scenario() {
    let mut want = vec!["// push constant 7", "@7", "D=A"];
    want.extend(PUSH_D);
    assert_eq!(lines("push constant 7", 0, "Main"), want);
}

#[test]
fn add_scenario() {
    assert_eq!(
        lines("add", 5, "Main"),
        vec!["// add", "@SP", "AM=M-1", "D=M", "@SP", "AM=M-1", "M=M+D", "@SP", "M=M+1"]
    );
}

#[test]
fn sub_neg_not_and_or() {
    assert_eq!(
        lines("sub", 1, "Main"),
        vec!["// sub", "@SP", "AM=M-1", "D=M", "@SP", "AM=M-1", "M=M-D", "@SP", "M=M+1"]
    );
    assert_eq!(lines("neg", 1, "Main"), vec!["// neg", "@SP", "AM=M-1", "M=-M", "@SP", "M=M+1"]);
    assert_eq!(lines("not", 1, "Main"), vec!["// not", "@SP", "AM=M-1", "M=!M", "@SP", "M=M+1"]);
    let mut and = vec!["// and", "@SP", "AM=M-1", "D=M", "@SP", "AM=M-1", "D=M&D"];
    and.extend(PUSH_D);
    assert_eq!(lines("and", 1, "Main"), and);
    let mut or = vec!["// or", "@SP", "AM=M-1", "D=M", "@SP", "AM=M-1", "D=M|D"];
    or.extend(PUSH_D);
    assert_eq!(lines("or", 1, "Main"), or);
}

fn comparison(op: &str, jump: &str, n: u32) -> Vec<String> {
    let h = format!("// {}", op);
    let v = vec![
        h.as_str(), "@SP", "AM=M-1", "D=M", "@SP", "AM=M-1", "D=M-D",
    ];
    let mut out: Vec<String> = v.iter().map(|s| s.to_string()).collect();
    let t = format!("RESULT_TRUE_{}", n);
    let f = format!("RESULT_FALSE_{}", n);
    let s = format!("RESULT_SET_{}", n);
    out.extend([
        format!("@{}", t), jump.to_string(), format!("@{}", f), "0;JMP".to_string(),
        format!("({})", t), "D=-1".to_string(), format!("@{}", s), "0;JMP".to_string(),
        format!("({})", f), "D=0".to_string(), format!("({})", s),
        "@SP".to_string(), "A=M".to_string(), "M=D".to_string(), "@SP".to_string(), "M=M+1".to_string(),
    ]);
    out
}

#[test]
fn eq_scenario() {
    let got = lines("eq", 3, "Main");
    assert_eq!(got, comparison("eq", "D;JEQ", 3));
    assert!(got.contains(&"(RESULT_TRUE_3)".to_string()));
    assert!(got.contains(&"(RESULT_FALSE_3)".to_string()));
    assert!(got.contains(&"(RESULT_SET_3)".to_string()));
}

#[test]
fn gt_lt_polarity() {
    assert_eq!(lines("gt", 12, "Main"), comparison("gt", "D;JGT", 12));
    assert_eq!(lines("lt", 0, "Main"), comparison("lt", "D;JLT", 0));
}

#[test]
fn comparison_labels_differ_by_index() {
    let a = lines("eq", 1, "Main");
    let b = lines("eq", 11, "Main");
    let la: Vec<&String> = a.iter().filter(|l| l.starts_with('(')).collect();
    let lb: Vec<&String> = b.iter().filter(|l| l.starts_with('(')).collect();
    assert_eq!(la.len(), 3);
    for x in &la {
        assert!(!lb.contains(x));
    }
}

#[test]
fn call_scenario() {
    let mut want: Vec<&str> = vec!["// call Sum.sum 2", "@Sum.sum_10", "D=A"];
    want.extend(PUSH_D);
    for reg in ["@LCL", "@ARG", "@THIS", "@THAT"] {
        want.push(reg);
        want.push("D=M");
        want.extend(PUSH_D);
    }
    want.extend([
        "@5", "D=A", "@2", "D=D+A", "@SP", "D=M-D", "@ARG", "M=D",
        "@SP", "D=M", "@LCL", "M=D", "@Sum.sum", "0; JMP", "(Sum.sum_10)",
    ]);
    let got = lines("call Sum.sum 2", 10, "Main");
    assert_eq!(got, want);
    assert_eq!(got.last().unwrap(), "(Sum.sum_10)");
}

#[test]
fn function_allocates_locals() {
    let mut want = vec!["// function Foo.bar 2", "(Foo.bar)"];
    for _ in 0..2 {
        want.extend(["@0", "D=A"]);
        want.extend(PUSH_D);
    }
    assert_eq!(lines("function Foo.bar 2", 4, "Foo"), want);
    assert_eq!(lines("function Foo.baz 0", 4, "Foo"), vec!["// function Foo.baz 0", "(Foo.baz)"]);
}

#[test]
fn return_restores_frame() {
    let want = vec![
        "// return", "@LCL", "D=M", "@R13", "M=D",
        "@5", "D=A", "@R13", "A=M-D", "D=M", "@R14", "M=D",
        "@SP", "AM=M-1", "D=M", "@ARG", "A=M", "M=D",
        "@ARG", "D=M", "@SP", "M=D+1",
        "@1", "D=A", "@R13", "A=M-D", "D=M", "@THAT", "M=D",
        "@2", "D=A", "@R13", "A=M-D", "D=M", "@THIS", "M=D",
        "@3", "D=A", "@R13", "A=M-D", "D=M", "@ARG", "M=D",
        "@4", "D=A", "@R13", "A=M-D", "D=M", "@LCL", "M=D",
        "@R14", "A=M", "0;JMP",
    ];
    assert_eq!(lines("return", 9, "Main"), want);
}

#[test]
fn branching() {
    assert_eq!(lines("label LOOP", 2, "Main"), vec!["// label LOOP", "(LOOP)"]);
    assert_eq!(lines("goto LOOP", 2, "Main"), vec!["// goto LOOP", "@LOOP", "D; JMP"]);
    assert_eq!(
        lines("if-goto END", 2, "Main"),
        vec!["// if-goto END", "@SP", "AM=M-1", "D=M", "@END", "D; JNE"]
    );
}

#[test]
fn based_segments() {
    let mut want = vec!["// push local 2", "@2", "D=A", "@LCL", "A=D+M", "D=M"];
    want.extend(PUSH_D);
    assert_eq!(lines("push local 2", 0, "Main"), want);
    assert_eq!(
        lines("pop argument 1", 0, "Main"),
        vec!["// pop argument 1", "@1", "D=A", "@ARG", "D=M+D", "@R13", "M=D",
            "@SP", "AM=M-1", "D=M", "@R13", "A=M", "M=D"]
    );
    assert_eq!(lines("push that 0", 0, "Main")[3], "@THAT");
    assert_eq!(lines("pop this 4", 0, "Main")[3], "@THIS");
}

#[test]
fn static_is_scoped_by_unit() {
    let mut want = vec!["// push static 3", "@Foo.3", "D=M"];
    want.extend(PUSH_D);
    assert_eq!(lines("push static 3", 0, "Foo"), want);
    assert_eq!(
        lines("pop static 3", 0, "Bar"),
        vec!["// pop static 3", "@SP", "AM=M-1", "D=M", "@Bar.3", "M=D"]
    );
    assert_ne!(lines("push static 0", 0, "A"), lines("push static 0", 0, "B"));
}

#[test]
fn temp_is_absolute() {
    assert_eq!(
        lines("pop temp 6", 0, "Main"),
        vec!["// pop temp 6", "@SP", "AM=M-1", "D=M", "@11", "M=D"]
    );
    let mut want = vec!["// push temp 0", "@5", "D=M"];
    want.extend(PUSH_D);
    assert_eq!(lines("push temp 0", 0, "Main"), want);
}

#[test]
fn pointer_aliases_base_registers() {
    let mut want = vec!["// push pointer 0", "@THIS", "D=M"];
    want.extend(PUSH_D);
    assert_eq!(lines("push pointer 0", 0, "Main"), want);
    assert_eq!(
        lines("pop pointer 1", 0, "Main"),
        vec!["// pop pointer 1", "@SP", "AM=M-1", "D=M", "@THAT", "M=D"]
    );
    assert_eq!(Segment::This.symbol(), "THIS");
    assert_eq!(Segment::That.symbol(), "THAT");
}

#[test]
fn push_then_pop_same_cell() {
    let push = lines("push local 3", 0, "Main");
    let pop = lines("pop local 3", 1, "Main");
    assert_eq!(push[3], pop[3]);
    assert_eq!(push.iter().filter(|l| *l == "M=M+1").count(), 1);
    assert_eq!(pop.iter().filter(|l| *l == "AM=M-1").count(), 1);
}

#[test]
fn translation_is_repeatable() {
    for line in ["eq", "call Sum.sum 2", "push static 1", "return"] {
        assert_eq!(lines(line, 7, "Main"), lines(line, 7, "Main"));
    }
}

#[test]
fn blank_and_comment_lines_hold_nothing() {
    for line in ["", "   ", "\t", "// a comment", "   // indented comment"] {
        let c = Command::new(line, 0, "Main").ok().expect("no error");
        assert!(!c.has_command());
        assert!(c.get_processed().is_none());
    }
}

#[test]
fn trailing_comment_and_spaces_are_removed() {
    let mut want = vec!["// push   constant\t10", "@10", "D=A"];
    want.extend(PUSH_D);
    assert_eq!(lines("  push   constant\t10   // ten", 0, "Main"), want);
}

#[test]
fn numeral_forms() {
    assert_eq!(lines("push constant +5", 0, "Main")[1], "@5");
    assert_eq!(lines("push constant 4294967295", 0, "Main")[1], "@4294967295");
    assert_eq!(lines("push constant 007", 0, "Main")[1], "@7");
}

#[test]
fn errors() {
    assert_eq!(error("foo 1 2"), TranslateError::UnsupportedOpcode);
    assert_eq!(error("push nowhere 1"), TranslateError::UnsupportedSegment);
    assert_eq!(error("push constant"), TranslateError::MalformedOperand);
    assert_eq!(error("push"), TranslateError::MalformedOperand);
    assert_eq!(error("push constant x"), TranslateError::MalformedOperand);
    assert_eq!(error("push constant -1"), TranslateError::MalformedOperand);
    assert_eq!(error("push constant 4294967296"), TranslateError::MalformedOperand);
    assert_eq!(error("goto"), TranslateError::MalformedOperand);
    assert_eq!(error("call f"), TranslateError::MalformedOperand);
    assert_eq!(error("function f x"), TranslateError::MalformedOperand);
    assert_eq!(error("pop constant 3"), TranslateError::InvalidPop);
}

#[test]
fn tokens_and_categories() {
    assert_eq!(Operation::from_token("if-goto"), Ok(Operation::IfGoto));
    assert_eq!(Operation::from_token("ADD"), Err(TranslateError::UnsupportedOpcode));
    assert_eq!(Segment::from_token("temp"), Ok(Segment::Temp));
    assert_eq!(Segment::from_token("heap"), Err(TranslateError::UnsupportedSegment));
    assert_eq!(Operation::Lt.category(), OperationType::Arithmetic);
    assert_eq!(Operation::IfGoto.category(), OperationType::Branching);
    assert_eq!(Operation::Pop.category(), OperationType::Memory);
    assert_eq!(Operation::Return.category(), OperationType::Function);
    assert_eq!(Operation::Noop.category(), OperationType::Default);
    assert_eq!(Segment::Local.symbol(), "LCL");
    assert_eq!(Segment::Argument.symbol(), "ARG");
    assert_eq!(Segment::Constant.symbol(), "");
}

#[test]
fn start_up_code() {
    let c = Command::start_up(0);
    assert!(c.has_command());
    assert_eq!(c.get_processed().unwrap(), &vec!["@256", "D=A", "@SP", "M=D"]);
    let mut blank = Command::new("", 0, "").ok().unwrap();
    blank.write_init();
    assert_eq!(blank.get_processed().unwrap(), &vec!["@256", "D=A", "@SP", "M=D"]);
}

#[test]
fn parser_numbers_instructions_across_units() {
    let mut p = Parser::new("dir");
    assert_eq!(p.vm_path(), "dir");
    p.write_init();
    let a: Vec<String> = vec!["// first".into(), "push constant 1".into(), "".into(), "eq".into()];
    let b: Vec<String> = vec!["lt".into(), "push static 0".into()];
    assert!(p.process_unit("A", &a).is_ok());
    assert!(p.process_unit("B", &b).is_ok());
    let out = p.assembly();
    assert_eq!(&out[..4], &["@256", "D=A", "@SP", "M=D"]);
    assert_eq!(out[4], "// call Sys.init 0");
    assert_eq!(out[5], "@Sys.init_1");
    assert!(out.contains(&"(Sys.init_1)".to_string()));
    assert!(out.contains(&"(RESULT_TRUE_3)".to_string()));
    assert!(out.contains(&"(RESULT_TRUE_4)".to_string()));
    assert!(out.contains(&"@B.0".to_string()));
    assert_eq!(out.last().unwrap(), "M=D");
}

#[test]
fn parser_stops_at_an_error() {
    let mut p = Parser::new("f.vm");
    let a: Vec<String> = vec!["push constant 1".into(), "pop constant 1".into()];
    assert_eq!(p.process_unit("F", &a), Err(TranslateError::InvalidPop));
    let mut q = Parser::new("f.vm");
    let b: Vec<String> = vec!["push constant 1".into()];
    assert!(q.process_unit("F", &b).is_ok());
    assert_eq!(q.assembly().len(), 7);
}

#[test]
fn unit_names_from_file_names() {

    assert_eq!(unit_name("Main.vm"), Some("Main".to_string()));
    assert_eq!(unit_name("Sys.init.vm"), Some("Sys".to_string()));
    assert_eq!(unit_name(".vm"), Some("".to_string()));
    assert_eq!(unit_name("Makefile"), None);
}
