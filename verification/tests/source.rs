use hackvm::command::TranslateError;
use hackvm::parser::ParseError;
use hackvm::source::{Fault, SourceError};
use hackvm::{write_file_asm, Command, MemorySegment, VMTranslator};

fn written(source: &str) -> String {
    let mut t = VMTranslator::new("Main");
    assert_eq!(write_file_asm(&mut t, source), Ok(()));
    t.take_output()
}

fn text_of(commands: Vec<Command>) -> String {
    let mut t = VMTranslator::new("Main");
    for command in commands {
        assert_eq!(t.write_asm(command), Ok(()));
    }
    t.take_output()
}

fn fault_of(source: &str) -> SourceError {
    let mut t = VMTranslator::new("Main");
    match write_file_asm(&mut t, source) {
        Err(e) => e,
        Ok(()) => panic!("the source was accepted"),
    }
}

#[test]
fn an_empty_source_writes_nothing() {
    assert_eq!(written(""), "");
    assert_eq!(written("\n"), "");
    assert_eq!(written("\n\n  \n\t\n"), "");
}

#[test]
fn each_line_is_one_command() {
    assert_eq!(
        written("push constant 7\npush constant 8\nadd\npop local 0\n"),
        text_of(vec![
            Command::Push(MemorySegment::Constant, 7),
            Command::Push(MemorySegment::Constant, 8),
            Command::Add,
            Command::Pop(MemorySegment::Local, 0),
        ])
    );
}

#[test]
fn the_last_line_needs_no_line_feed() {
    assert_eq!(written("add\nsub"), text_of(vec![Command::Add, Command::Sub]));
    assert_eq!(written("add"), text_of(vec![Command::Add]));
}

#[test]
fn lines_may_end_with_a_carriage_return() {
    assert_eq!(
        written("push constant 1\r\nneg\r\n"),
        text_of(vec![Command::Push(MemorySegment::Constant, 1), Command::Neg])
    );
}

#[test]
fn comments_and_blank_lines_are_passed_over() {
    let source = "// A program.\n\
                  \n\
                  \x20  // indented comment\n\
                  push constant 1   // the first\n\
                  \t\n\
                  neg// no space before the comment\n\
                  //\n\
                  label A //\n";
    assert_eq!(
        written(source),
        text_of(vec![
            Command::Push(MemorySegment::Constant, 1),
            Command::Neg,
            Command::Label("A".to_string()),
        ])
    );
}

#[test]
fn a_comment_begins_with_two_slashes_in_a_row() {
    // One slash is part of a word.
    assert_eq!(written("label a/b\n"), text_of(vec![Command::Label("a/b".to_string())]));
    assert_eq!(fault_of("label a/ /b\n").fault, Fault::Parse(ParseError::ExtraArgument));
}

#[test]
fn a_comment_cuts_a_word() {
    assert_eq!(written("label a//b\n"), text_of(vec![Command::Label("a".to_string())]));
}

#[test]
fn a_parse_fault_is_reported_with_its_line() {
    let e = fault_of("add\n\n// comment\nfoo\nsub\n");
    assert_eq!(
        e,
        SourceError {
            file: "Main".to_string(),
            line: 4,
            fault: Fault::Parse(ParseError::UnknownCommand),
        }
    );
}

#[test]
fn a_fault_in_the_first_line() {
    assert_eq!(fault_of("push\n").line, 1);
    assert_eq!(fault_of("push\n").fault, Fault::Parse(ParseError::MissingArgument));
}

#[test]
fn a_fault_in_the_last_line_without_line_feed() {
    let e = fault_of("add\npush constant x");
    assert_eq!(e.line, 2);
    assert_eq!(e.fault, Fault::Parse(ParseError::InvalidNumber));
}

#[test]
fn every_kind_of_parse_fault_is_passed_on() {
    assert_eq!(fault_of("add 1").fault, Fault::Parse(ParseError::ExtraArgument));
    assert_eq!(fault_of("push heap 1").fault, Fault::Parse(ParseError::UnknownSegment));
    assert_eq!(fault_of("call f").fault, Fault::Parse(ParseError::MissingArgument));
    assert_eq!(fault_of("call f 70000").fault, Fault::Parse(ParseError::InvalidNumber));
    assert_eq!(fault_of("nop").fault, Fault::Parse(ParseError::UnknownCommand));
}

#[test]
fn a_command_that_cannot_be_translated_is_reported_with_its_line() {
    let e = fault_of("push constant 1\npop constant 0\n");
    assert_eq!(e.line, 2);
    assert_eq!(e.fault, Fault::Translate(TranslateError::PopConstant));
    let e = fault_of("\n\npush temp 8\n");
    assert_eq!(e.line, 3);
    assert_eq!(e.fault, Fault::Translate(TranslateError::OffsetOutOfRange));
    assert_eq!(
        fault_of("push pointer 2").fault,
        Fault::Translate(TranslateError::OffsetOutOfRange)
    );
    assert_eq!(
        fault_of("pop static 239").fault,
        Fault::Translate(TranslateError::OffsetOutOfRange)
    );
}

#[test]
fn the_fault_names_the_current_file() {
    let mut t = VMTranslator::new("First");
    assert_eq!(write_file_asm(&mut t, "add\n"), Ok(()));
    t.update_filestem("Second");
    let e = write_file_asm(&mut t, "\nbad\n").unwrap_err();
    assert_eq!(e.file, "Second");
    assert_eq!(e.line, 2);
}

#[test]
fn the_run_stops_at_the_first_fault() {
    let mut t = VMTranslator::new("Main");
    let r = write_file_asm(&mut t, "eq\nbad\nlt\nworse\n");
    assert_eq!(r.unwrap_err().line, 2);
    // The line before the fault was written, the lines after it were not.
    assert_eq!(t.take_output(), text_of(vec![Command::Eq]));
    assert_eq!(t.jump_labels().0, "JUMP_START_1");
}

#[test]
fn labels_are_numbered_through_all_files() {
    let mut t = VMTranslator::new("A");
    assert_eq!(write_file_asm(&mut t, "eq\ncall f 0\n"), Ok(()));
    t.update_filestem("B");
    assert_eq!(write_file_asm(&mut t, "gt\ncall f 0\n"), Ok(()));
    let text = t.take_output();
    for label in ["(JUMP_START_0)", "(JUMP_END_0)", "(JUMP_START_1)", "(JUMP_END_1)"] {
        assert_eq!(text.matches(label).count(), 1);
    }
    assert_eq!(text.matches("(f$ret.0)").count(), 1);
    assert_eq!(text.matches("(f$ret.1)").count(), 1);
}

#[test]
fn the_numbers_of_lines_count_every_line() {
    let mut source = String::new();
    for _ in 0..999 {
        source.push_str("// nothing\r\n");
    }
    source.push_str("pop constant 0");
    let e = fault_of(&source);
    assert_eq!(e.line, 1000);
}
