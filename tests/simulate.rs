use std::collections::HashMap;

use hack_vm_translator::parser::Parser;

/// A small interpreter for the assembly forms the translator emits, on 16-bit words.
struct Sim {
    code: Vec<String>,
    labels: HashMap<String, i32>,
    vars: HashMap<String, i32>,
    ram: Vec<i16>,
    a: i16,
    d: i16,
    pc: usize,
}

impl Sim {
    fn new(lines: Vec<String>) -> Sim {
        let mut code = Vec::new();
        let mut labels = HashMap::new();
        for l in lines {
            if l.starts_with("//") {
                continue;
            }
            if l.starts_with('(') {
                labels.insert(l[1..l.len() - 1].to_string(), code.len() as i32);
            } else {
                code.push(l);
            }
        }
        Sim { code, labels, vars: HashMap::new(), ram: vec![0; 32768], a: 0, d: 0, pc: 0 }
    }

    fn symbol(&mut self, s: &str) -> i32 {
        match s {
            "SP" => 0,
            "LCL" => 1,
            "ARG" => 2,
            "THIS" => 3,
            "THAT" => 4,
            "R13" => 13,
            "R14" => 14,
            _ => {
                if let Ok(n) = s.parse::<i32>() {
                    return n;
                }
                if let Some(&n) = self.labels.get(s) {
                    return n;
                }
                let next = 16 + self.vars.len() as i32;
                *self.vars.entry(s.to_string()).or_insert(next)
            }
        }
    }

    fn comp(&self, c: &str) -> i16 {
        let m = self.ram[self.a as u16 as usize];
        match c {
            "0" => 0,
            "-1" => -1,
            "A" => self.a,
            "D" => self.d,
            "M" => m,
            "M+1" => m.wrapping_add(1),
            "M-1" => m.wrapping_sub(1),
            "D+1" => self.d.wrapping_add(1),
            "D+A" => self.d.wrapping_add(self.a),
            "D+M" | "M+D" => self.d.wrapping_add(m),
            "M-D" => m.wrapping_sub(self.d),
            "M&D" => m & self.d,
            "M|D" => m | self.d,
            "-M" => m.wrapping_neg(),
            "!M" => !m,
            _ => panic!("unknown computation {}", c),
        }
    }

    fn step(&mut self) {
        let line = self.code[self.pc].replace(' ', "");
        self.pc += 1;
        if let Some(s) = line.strip_prefix('@') {
            self.a = self.symbol(s) as i16;
            return;
        }
        let (rest, jump) = match line.split_once(';') {
            Some((r, j)) => (r.to_string(), j.to_string()),
            None => (line.clone(), String::new()),
        };
        let (dest, comp) = match rest.split_once('=') {
            Some((d, c)) => (d.to_string(), c.to_string()),
            None => (String::new(), rest.clone()),
        };
        let v = self.comp(&comp);
        let target = self.a;
        if dest.contains('M') {
            self.ram[self.a as u16 as usize] = v;
        }
        if dest.contains('A') {
            self.a = v;
        }
        if dest.contains('D') {
            self.d = v;
        }
        let taken = match jump.as_str() {
            "" => false,
            "JMP" => true,
            "JEQ" => v == 0,
            "JNE" => v != 0,
            "JGT" => v > 0,
            "JLT" => v < 0,
            _ => panic!("unknown jump {}", jump),
        };
        if taken {
            self.pc = target as u16 as usize;
        }
    }

    fn run_until(&mut self, label: &str) {
        let stop = self.labels[label] as usize;
        let mut steps = 0;
        while self.pc != stop {
            self.step();
            steps += 1;
            assert!(steps < 100000, "no halt");
        }
    }
}

fn translate(units: &[(&str, &[&str])]) -> Vec<String> {
    let mut p = Parser::new("prog");
    for (name, lines) in units {
        let v: Vec<String> = lines.iter().map(|s| s.to_string()).collect();
        p.process_unit(name, &v).unwrap();
    }
    p.assembly()
}

fn boot(sim: &mut Sim) {
    sim.ram[0] = 256;
    sim.ram[1] = 300;
    sim.ram[2] = 400;
    sim.ram[3] = 3000;
    sim.ram[4] = 4000;
}

#[test]
fn call_and_return_leave_one_value() {
    let main: &[&str] = &["push constant 3", "push constant 4", "call F.f 2", "label END", "goto END"];
    let f: &[&str] = &["function F.f 1", "push argument 0", "push argument 1", "add", "pop local 0",
        "push local 0", "return"];
    let mut sim = Sim::new(translate(&[("Main", main), ("F", f)]));
    boot(&mut sim);
    sim.run_until("END");
    assert_eq!(sim.ram[0], 257);
    assert_eq!(sim.ram[256], 7);
    assert_eq!(&sim.ram[1..5], &[300, 400, 3000, 4000]);
}

#[test]
fn comparisons_push_truth_values() {
    let main: &[&str] = &["push constant 5", "push constant 5", "eq", "push constant 5",
        "push constant 6", "gt", "push constant 5", "push constant 6", "lt", "label END", "goto END"];
    let mut sim = Sim::new(translate(&[("Main", main)]));
    boot(&mut sim);
    sim.run_until("END");
    assert_eq!(sim.ram[0], 259);
    assert_eq!(&sim.ram[256..259], &[-1, 0, -1]);
}

#[test]
fn push_pop_round_trip_keeps_cell_and_stack() {
    let main: &[&str] = &["push local 2", "pop local 2", "push static 1", "pop static 1",
        "push temp 3", "pop temp 3", "push pointer 1", "pop pointer 1", "label END", "goto END"];
    let mut sim = Sim::new(translate(&[("Main", main)]));
    boot(&mut sim);
    sim.ram[302] = 42;
    sim.ram[8] = 9;
    sim.run_until("END");
    assert_eq!(sim.ram[0], 256);
    assert_eq!(sim.ram[302], 42);
    assert_eq!(sim.ram[8], 9);
    assert_eq!(sim.ram[4], 4000);
}

#[test]
fn arithmetic_scenarios_on_the_machine() {
    let main: &[&str] = &["push constant 7", "push constant 9", "add", "push constant 2", "sub",
        "neg", "push constant 12", "push constant 10", "and", "push constant 1", "or", "not",
        "label END", "goto END"];
    let mut sim = Sim::new(translate(&[("Main", main)]));
    boot(&mut sim);
    sim.run_until("END");
    assert_eq!(sim.ram[0], 258);
    assert_eq!(sim.ram[256], -14);
    assert_eq!(sim.ram[257], !(12 & 10 | 1));
}

#[test]
fn if_goto_branches_on_nonzero() {
    let main: &[&str] = &["push constant 1", "if-goto YES", "push constant 10", "goto END",
        "label YES", "push constant 20", "label END", "goto END"];
    let mut sim = Sim::new(translate(&[("Main", main)]));
    boot(&mut sim);
    sim.run_until("END");
    assert_eq!(sim.ram[0], 257);
    assert_eq!(sim.ram[256], 20);
}
