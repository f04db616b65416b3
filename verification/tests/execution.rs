//! The written assembly is assembled and run on a small model of the target
//! machine, and the memory is looked at afterwards.

use std::collections::HashMap;

use hackvm::source::SourceError;
use hackvm::{write_file_asm, VMTranslator};

enum Op {
    At(u16),
    Compute { dest: String, comp: String, jump: String },
}

struct Program {
    ops: Vec<Op>,
    symbols: HashMap<String, u16>,
}

fn predefined() -> HashMap<String, u16> {
    let mut symbols = HashMap::new();
    symbols.insert("SP".to_string(), 0);
    symbols.insert("LCL".to_string(), 1);
    symbols.insert("ARG".to_string(), 2);
    symbols.insert("THIS".to_string(), 3);
    symbols.insert("THAT".to_string(), 4);
    for n in 0..16u16 {
        symbols.insert(format!("R{}", n), n);
    }
    symbols.insert("SCREEN".to_string(), 16384);
    symbols.insert("KBD".to_string(), 24576);
    symbols
}

/// Labels stand for the place of the next instruction; any other symbol is a
/// variable, and variables get the addresses from 16 on in the order in
/// which they first occur.
fn assemble(text: &str) -> Program {
    let mut symbols = predefined();
    let mut count: u16 = 0;
    for line in text.lines() {
        if line.is_empty() {
            continue;
        }
        if line.starts_with('(') {
            assert!(line.ends_with(')'), "bad label line {:?}", line);
            let name = &line[1..line.len() - 1];
            let old = symbols.insert(name.to_string(), count);
            assert!(old.is_none(), "the label {} is defined twice", name);
        } else {
            count += 1;
        }
    }
    let mut next_variable: u16 = 16;
    let mut ops = Vec::new();
    for line in text.lines() {
        if line.is_empty() || line.starts_with('(') {
            continue;
        }
        if let Some(operand) = line.strip_prefix('@') {
            let value = match operand.parse::<u16>() {
                Ok(n) => n,
                Err(_) => match symbols.get(operand) {
                    Some(v) => *v,
                    None => {
                        let v = next_variable;
                        next_variable += 1;
                        symbols.insert(operand.to_string(), v);
                        v
                    }
                },
            };
            ops.push(Op::At(value));
        } else {
            let (dest, rest) = match line.split_once('=') {
                Some((dest, rest)) => (dest, rest),
                None => ("", line),
            };
            let (comp, jump) = match rest.split_once(';') {
                Some((comp, jump)) => (comp, jump),
                None => (rest, ""),
            };
            ops.push(Op::Compute {
                dest: dest.to_string(),
                comp: comp.to_string(),
                jump: jump.to_string(),
            });
        }
    }
    Program { ops, symbols }
}

struct Machine {
    a: u16,
    d: u16,
    pc: usize,
    ram: Vec<u16>,
}

impl Machine {
    fn new() -> Machine {
        Machine { a: 0, d: 0, pc: 0, ram: vec![0; 65536] }
    }

    fn with_frame(sp: u16, lcl: u16, arg: u16, this: u16, that: u16) -> Machine {
        let mut m = Machine::new();
        m.ram[0] = sp;
        m.ram[1] = lcl;
        m.ram[2] = arg;
        m.ram[3] = this;
        m.ram[4] = that;
        m
    }

    fn step(&mut self, op: &Op) {
        match op {
            Op::At(value) => {
                self.a = *value;
                self.pc += 1;
            }
            Op::Compute { dest, comp, jump } => {
                let m = self.ram[self.a as usize];
                let value = match comp.as_str() {
                    "0" => 0,
                    "-1" => 0xffff,
                    "D" => self.d,
                    "A" => self.a,
                    "M" => m,
                    "!M" => !m,
                    "-M" => m.wrapping_neg(),
                    "M+1" => m.wrapping_add(1),
                    "M-1" => m.wrapping_sub(1),
                    "D+M" => self.d.wrapping_add(m),
                    "D-A" => self.d.wrapping_sub(self.a),
                    "M-D" => m.wrapping_sub(self.d),
                    "D&M" => self.d & m,
                    "D|M" => self.d | m,
                    other => panic!("unknown computation {:?}", other),
                };
                let target = self.a;
                match dest.as_str() {
                    "" => {}
                    "A" => self.a = value,
                    "D" => self.d = value,
                    "M" => self.ram[target as usize] = value,
                    other => panic!("unknown destination {:?}", other),
                }
                let signed = value as i16;
                let taken = match jump.as_str() {
                    "" => false,
                    "JGT" => signed > 0,
                    "JEQ" => signed == 0,
                    "JLT" => signed < 0,
                    "JNE" => signed != 0,
                    "JMP" => true,
                    other => panic!("unknown jump {:?}", other),
                };
                if taken {
                    self.pc = target as usize;
                } else {
                    self.pc += 1;
                }
            }
        }
    }

    /// Runs until control leaves the program at its end or reaches `stop`.
    fn run(&mut self, program: &Program, stop: Option<usize>) {
        let mut steps = 0;
        while self.pc < program.ops.len() && Some(self.pc) != stop {
            let pc = self.pc;
            self.step(&program.ops[pc]);
            steps += 1;
            assert!(steps < 1_000_000, "the program does not come to an end");
        }
    }
}

fn translate(file: &str, source: &str) -> String {
    let mut t = VMTranslator::new(file);
    let r: Result<(), SourceError> = write_file_asm(&mut t, source);
    assert_eq!(r, Ok(()));
    t.take_output()
}

fn run_source(source: &str, machine: &mut Machine) -> Program {
    let program = assemble(&translate("Test", source));
    machine.run(&program, None);
    program
}

#[test]
fn push_two_constants_add_and_pop_to_local_0() {
    let mut m = Machine::with_frame(256, 300, 400, 3000, 3010);
    run_source("push constant 7\npush constant 8\nadd\npop local 0\n", &mut m);
    assert_eq!(m.ram[300], 15);
    assert_eq!(m.ram[0], 256);
    assert_eq!(m.ram[1], 300);
}

fn check_push_then_pop(segment: &str, offset: u16, place: usize) {
    let mut m = Machine::with_frame(256, 300, 400, 3000, 3010);
    for x in 5..4000 {
        m.ram[x] = (x as u16).wrapping_mul(31).wrapping_add(7);
    }
    let before = m.ram.clone();
    let source = format!("push {} {}\npop {} {}\n", segment, offset, segment, offset);
    run_source(&source, &mut m);
    assert_eq!(m.ram[place], before[place], "{} {}", segment, offset);
    assert_eq!(m.ram[0], 256);
    for x in 0..65536 {
        if x != 13 && x != 256 {
            assert_eq!(m.ram[x], before[x], "{} {} changed the cell {}", segment, offset, x);
        }
    }
}

#[test]
fn push_then_pop_changes_nothing() {
    check_push_then_pop("local", 0, 300);
    check_push_then_pop("local", 5, 305);
    check_push_then_pop("argument", 2, 402);
    check_push_then_pop("this", 9, 3009);
    check_push_then_pop("that", 0, 3010);
    check_push_then_pop("that", 700, 3710);
    check_push_then_pop("temp", 0, 5);
    check_push_then_pop("temp", 7, 12);
    check_push_then_pop("pointer", 0, 3);
    check_push_then_pop("pointer", 1, 4);
    // The one static variable of the program is the first variable.
    check_push_then_pop("static", 0, 16);
    check_push_then_pop("static", 238, 16);
}

#[test]
fn push_then_pop_of_the_cell_above_the_stack() {
    // The local segment begins where the stack ends.
    let mut m = Machine::with_frame(256, 256, 400, 3000, 3010);
    m.ram[256] = 99;
    run_source("push local 0\npop local 0\n", &mut m);
    assert_eq!(m.ram[256], 99);
    assert_eq!(m.ram[0], 256);
}

#[test]
fn push_then_pop_of_the_scratch_cell() {
    let mut m = Machine::with_frame(256, 10, 400, 3000, 3010);
    m.ram[13] = 77;
    run_source("push local 3\npop local 3\n", &mut m);
    assert_eq!(m.ram[13], 77);
    assert_eq!(m.ram[0], 256);
}

#[test]
fn push_then_pop_fails_with_the_stack_on_the_scratch_cell() {
    // With the stack pointer at 13 the staged address is overwritten by the
    // pushed value: the stack has to be in place.
    let mut m = Machine::with_frame(13, 300, 400, 3000, 3010);
    m.ram[300] = 5;
    run_source("push local 0\npop local 0\n", &mut m);
    assert_ne!(m.ram[300], 5);
}

fn binary(a: u16, b: u16, op: &str) -> u16 {
    let mut m = Machine::with_frame(256, 300, 400, 3000, 3010);
    let source = format!("push constant {}\npush constant {}\n{}\n", a, b, op);
    run_source(&source, &mut m);
    assert_eq!(m.ram[0], 257);
    m.ram[256]
}

fn unary(a: u16, op: &str) -> u16 {
    let mut m = Machine::with_frame(256, 300, 400, 3000, 3010);
    let source = format!("push constant {}\n{}\n", a, op);
    run_source(&source, &mut m);
    assert_eq!(m.ram[0], 257);
    m.ram[256]
}

#[test]
fn arithmetic() {
    assert_eq!(binary(7, 8, "add"), 15);
    assert_eq!(binary(65535, 1, "add"), 0);
    assert_eq!(binary(8, 7, "sub"), 1);
    assert_eq!(binary(7, 8, "sub"), 0xffff);
    assert_eq!(unary(1, "neg"), 0xffff);
    assert_eq!(unary(0, "neg"), 0);
}

#[test]
fn logic() {
    assert_eq!(binary(0b1100, 0b1010, "and"), 0b1000);
    assert_eq!(binary(0b1100, 0b1010, "or"), 0b1110);
    assert_eq!(unary(0, "not"), 0xffff);
    assert_eq!(unary(0x00ff, "not"), 0xff00);
}

#[test]
fn comparisons_give_all_ones_or_zero() {
    assert_eq!(binary(5, 5, "eq"), 0xffff);
    assert_eq!(binary(5, 6, "eq"), 0);
    assert_eq!(binary(5, 6, "lt"), 0xffff);
    assert_eq!(binary(6, 5, "lt"), 0);
    assert_eq!(binary(5, 5, "lt"), 0);
    assert_eq!(binary(6, 5, "gt"), 0xffff);
    assert_eq!(binary(5, 6, "gt"), 0);
    assert_eq!(binary(5, 5, "gt"), 0);
}

#[test]
fn several_comparisons_in_one_program() {
    let mut m = Machine::with_frame(256, 300, 400, 3000, 3010);
    run_source(
        "push constant 1\npush constant 2\nlt\n\
         push constant 3\npush constant 3\neq\n\
         push constant 4\npush constant 9\ngt\n",
        &mut m,
    );
    assert_eq!(m.ram[0], 259);
    assert_eq!(&m.ram[256..259], &[0xffff, 0xffff, 0]);
}

#[test]
fn if_goto_jumps_on_anything_but_zero() {
    let source = "push constant 0\nif-goto SKIP\npush constant 11\npop temp 0\nlabel SKIP\n\
                  push constant 2\nif-goto END\npush constant 22\npop temp 1\nlabel END\n";
    let mut m = Machine::with_frame(256, 300, 400, 3000, 3010);
    run_source(source, &mut m);
    assert_eq!(m.ram[5], 11);
    assert_eq!(m.ram[6], 0);
    assert_eq!(m.ram[0], 256);
}

#[test]
fn goto_jumps() {
    let source = "goto END\npush constant 1\npop temp 0\nlabel END\n";
    let mut m = Machine::with_frame(256, 300, 400, 3000, 3010);
    run_source(source, &mut m);
    assert_eq!(m.ram[5], 0);
}

#[test]
fn statics_of_two_files_are_two_variables() {
    let mut t = VMTranslator::new("One");
    assert_eq!(write_file_asm(&mut t, "push constant 1\npop static 0\n"), Ok(()));
    t.update_filestem("Two");
    assert_eq!(write_file_asm(&mut t, "push constant 2\npop static 0\n"), Ok(()));
    t.update_filestem("One");
    assert_eq!(write_file_asm(&mut t, "push static 0\npop temp 0\n"), Ok(()));
    let program = assemble(t.output());
    let mut m = Machine::with_frame(256, 300, 400, 3000, 3010);
    m.run(&program, None);
    assert_eq!(m.ram[program.symbols["One.0"] as usize], 1);
    assert_eq!(m.ram[program.symbols["Two.0"] as usize], 2);
    assert_eq!(m.ram[5], 1);
}

#[test]
fn call_and_return_restore_the_callers_frame() {
    let source = "call Foo 0\nlabel HALT\ngoto HALT\nfunction Foo 2\nreturn\n";
    let program = assemble(&translate("Test", source));
    let halt = program.symbols["HALT"] as usize;
    // The instruction after the call is the one that the return label names.
    assert_eq!(program.symbols["Foo$ret.0"] as usize, halt);
    let mut m = Machine::with_frame(256, 300, 400, 3000, 3010);
    m.run(&program, Some(halt));
    assert_eq!(m.pc, halt);
    assert_eq!(m.ram[1], 300);
    assert_eq!(m.ram[2], 400);
    assert_eq!(m.ram[3], 3000);
    assert_eq!(m.ram[4], 3010);
    // The result, the second local variable, has taken the place of the frame.
    assert_eq!(m.ram[0], 257);
    assert_eq!(m.ram[256], 0);
}

#[test]
fn call_passes_arguments_and_return_hands_back_the_result() {
    let source = "push constant 30\npush constant 12\ncall Diff 2\npop temp 0\n\
                  label HALT\ngoto HALT\n\
                  function Diff 1\npush argument 0\npush argument 1\nsub\npop local 0\n\
                  push local 0\nreturn\n";
    let program = assemble(&translate("Test", source));
    let halt = program.symbols["HALT"] as usize;
    let mut m = Machine::with_frame(256, 300, 400, 3000, 3010);
    m.run(&program, Some(halt));
    assert_eq!(m.ram[5], 18);
    assert_eq!(m.ram[0], 256);
    assert_eq!(&m.ram[1..5], &[300, 400, 3000, 3010]);
}

#[test]
fn a_function_that_calls_itself_returns_to_each_caller() {
    let source = "function Sys.init 0\npush constant 4\ncall Sum 1\npop temp 0\n\
                  label HALT\ngoto HALT\n\
                  function Sum 0\n\
                  push argument 0\npush constant 0\neq\nif-goto BASE\n\
                  push argument 0\npush argument 0\npush constant 1\nsub\ncall Sum 1\nadd\nreturn\n\
                  label BASE\npush constant 0\nreturn\n";
    let mut t = VMTranslator::new("Sys");
    assert_eq!(t.write_prelude(), Ok(()));
    assert_eq!(write_file_asm(&mut t, source), Ok(()));
    let text = t.take_output();
    assert!(text.contains("(Sys.init$ret.0)\n"));
    assert!(text.contains("(Sum$ret.1)\n"));
    assert!(text.contains("(Sum$ret.2)\n"));
    let program = assemble(&text);
    let halt = program.symbols["HALT"] as usize;
    let mut m = Machine::new();
    m.run(&program, Some(halt));
    assert_eq!(m.pc, halt);
    assert_eq!(m.ram[5], 10);
    // The frame of the bootstrap's call lies at the base of the stack.
    assert_eq!(m.ram[0], 261);
    assert_eq!(m.ram[1], 261);
}
