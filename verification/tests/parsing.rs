use hackvm::parser::ParseError;
use hackvm::{parse, Command, MemorySegment};

#[test]
fn parses_push_with_every_segment() {
    assert_eq!(parse("push local 0"), Ok(Command::Push(MemorySegment::Local, 0)));
    assert_eq!(parse("push argument 1"), Ok(Command::Push(MemorySegment::Argument, 1)));
    assert_eq!(parse("push this 2"), Ok(Command::Push(MemorySegment::This, 2)));
    assert_eq!(parse("push that 3"), Ok(Command::Push(MemorySegment::That, 3)));
    assert_eq!(parse("push constant 7"), Ok(Command::Push(MemorySegment::Constant, 7)));
    assert_eq!(parse("push static 238"), Ok(Command::Push(MemorySegment::Static, 238)));
    assert_eq!(parse("push temp 7"), Ok(Command::Push(MemorySegment::Temp, 7)));
    assert_eq!(parse("push pointer 1"), Ok(Command::Push(MemorySegment::Pointer, 1)));
}

#[test]
fn parses_pop() {
    assert_eq!(parse("pop local 0"), Ok(Command::Pop(MemorySegment::Local, 0)));
    assert_eq!(parse("pop static 5"), Ok(Command::Pop(MemorySegment::Static, 5)));
}

#[test]
fn parses_pop_constant_as_a_command() {
    // The parser knows the grammar only; the translator refuses the command.
    assert_eq!(parse("pop constant 0"), Ok(Command::Pop(MemorySegment::Constant, 0)));
}

#[test]
fn parses_offsets_outside_their_segment() {
    assert_eq!(parse("push temp 8"), Ok(Command::Push(MemorySegment::Temp, 8)));
    assert_eq!(parse("pop pointer 2"), Ok(Command::Pop(MemorySegment::Pointer, 2)));
}

#[test]
fn parses_arithmetic_and_logic() {
    assert_eq!(parse("add"), Ok(Command::Add));
    assert_eq!(parse("sub"), Ok(Command::Sub));
    assert_eq!(parse("neg"), Ok(Command::Neg));
    assert_eq!(parse("not"), Ok(Command::Not));
    assert_eq!(parse("or"), Ok(Command::Or));
    assert_eq!(parse("and"), Ok(Command::And));
    assert_eq!(parse("eq"), Ok(Command::Eq));
    assert_eq!(parse("lt"), Ok(Command::Lt));
    assert_eq!(parse("gt"), Ok(Command::Gt));
}

#[test]
fn parses_control_flow() {
    assert_eq!(parse("label LOOP"), Ok(Command::Label("LOOP".to_string())));
    assert_eq!(parse("goto LOOP"), Ok(Command::Goto("LOOP".to_string())));
    assert_eq!(parse("if-goto END"), Ok(Command::IfGoto("END".to_string())));
}

#[test]
fn parses_function_call_and_return() {
    assert_eq!(parse("function Foo 2"), Ok(Command::Function("Foo".to_string(), 2)));
    assert_eq!(parse("call Main.run 3"), Ok(Command::Call("Main.run".to_string(), 3)));
    assert_eq!(parse("return"), Ok(Command::Return));
}

#[test]
fn words_may_be_separated_by_any_white_space() {
    assert_eq!(parse("  push \t constant   7  "), Ok(Command::Push(MemorySegment::Constant, 7)));
    assert_eq!(parse("add\r"), Ok(Command::Add));
    assert_eq!(
        parse("\u{3000}label\u{a0}A\u{2003}"),
        Ok(Command::Label("A".to_string()))
    );
    assert_eq!(parse("push\u{85}local\u{2028}1"), Ok(Command::Push(MemorySegment::Local, 1)));
}

#[test]
fn a_name_keeps_characters_that_are_no_white_space() {
    assert_eq!(
        parse("label \u{e9}t\u{e9}$1.x_\u{200b}"),
        Ok(Command::Label("\u{e9}t\u{e9}$1.x_\u{200b}".to_string()))
    );
}

#[test]
fn numbers_are_sixteen_bits_wide() {
    assert_eq!(parse("push constant 0"), Ok(Command::Push(MemorySegment::Constant, 0)));
    assert_eq!(parse("push constant 65535"), Ok(Command::Push(MemorySegment::Constant, 65535)));
    assert_eq!(parse("push constant 65536"), Err(ParseError::InvalidNumber));
    assert_eq!(parse("push constant 99999999999999999999"), Err(ParseError::InvalidNumber));
}

#[test]
fn numbers_may_have_a_plus_sign_and_leading_zeros() {
    assert_eq!(parse("push constant +5"), Ok(Command::Push(MemorySegment::Constant, 5)));
    assert_eq!(parse("push constant 007"), Ok(Command::Push(MemorySegment::Constant, 7)));
    assert_eq!(
        parse("push constant 0000000000000000000065535"),
        Ok(Command::Push(MemorySegment::Constant, 65535))
    );
}

#[test]
fn rejects_what_is_no_number() {
    assert_eq!(parse("push constant -1"), Err(ParseError::InvalidNumber));
    assert_eq!(parse("push constant +"), Err(ParseError::InvalidNumber));
    assert_eq!(parse("push constant ++1"), Err(ParseError::InvalidNumber));
    assert_eq!(parse("push constant 1+"), Err(ParseError::InvalidNumber));
    assert_eq!(parse("push constant seven"), Err(ParseError::InvalidNumber));
    assert_eq!(parse("push constant 0x10"), Err(ParseError::InvalidNumber));
    assert_eq!(parse("push constant 1_000"), Err(ParseError::InvalidNumber));
    assert_eq!(parse("push constant \u{663}"), Err(ParseError::InvalidNumber));
    assert_eq!(parse("function Foo two"), Err(ParseError::InvalidNumber));
    assert_eq!(parse("call Foo 1.5"), Err(ParseError::InvalidNumber));
}

#[test]
fn rejects_an_empty_line() {
    assert_eq!(parse(""), Err(ParseError::Empty));
    assert_eq!(parse("   \t "), Err(ParseError::Empty));
}

#[test]
fn rejects_an_unknown_command() {
    assert_eq!(parse("jump here"), Err(ParseError::UnknownCommand));
    assert_eq!(parse("PUSH constant 1"), Err(ParseError::UnknownCommand));
    assert_eq!(parse("pushx constant 1"), Err(ParseError::UnknownCommand));
    assert_eq!(parse("pus"), Err(ParseError::UnknownCommand));
    assert_eq!(parse("ifgoto A"), Err(ParseError::UnknownCommand));
    assert_eq!(parse("// push constant 1"), Err(ParseError::UnknownCommand));
}

#[test]
fn rejects_an_unknown_segment() {
    assert_eq!(parse("push heap 1"), Err(ParseError::UnknownSegment));
    assert_eq!(parse("pop Local 1"), Err(ParseError::UnknownSegment));
    assert_eq!(parse("push 1 local"), Err(ParseError::UnknownSegment));
}

#[test]
fn rejects_a_missing_argument() {
    assert_eq!(parse("push"), Err(ParseError::MissingArgument));
    assert_eq!(parse("push constant"), Err(ParseError::MissingArgument));
    assert_eq!(parse("pop"), Err(ParseError::MissingArgument));
    assert_eq!(parse("label"), Err(ParseError::MissingArgument));
    assert_eq!(parse("goto"), Err(ParseError::MissingArgument));
    assert_eq!(parse("if-goto"), Err(ParseError::MissingArgument));
    assert_eq!(parse("function"), Err(ParseError::MissingArgument));
    assert_eq!(parse("function Foo"), Err(ParseError::MissingArgument));
    assert_eq!(parse("call Foo"), Err(ParseError::MissingArgument));
}

#[test]
fn rejects_an_extra_argument() {
    assert_eq!(parse("add 1"), Err(ParseError::ExtraArgument));
    assert_eq!(parse("return now"), Err(ParseError::ExtraArgument));
    assert_eq!(parse("push constant 1 2"), Err(ParseError::ExtraArgument));
    assert_eq!(parse("label A B"), Err(ParseError::ExtraArgument));
    assert_eq!(parse("call Foo 1 2"), Err(ParseError::ExtraArgument));
    assert_eq!(parse("lt // less"), Err(ParseError::ExtraArgument));
}

#[test]
fn reports_the_first_fault_from_the_left() {
    // The segment is wrong and the offset is missing.
    assert_eq!(parse("push heap"), Err(ParseError::UnknownSegment));
    // The segment is wrong and so is the number.
    assert_eq!(parse("push heap x"), Err(ParseError::UnknownSegment));
    // The number is wrong and a word follows it.
    assert_eq!(parse("push local x y"), Err(ParseError::InvalidNumber));
    assert_eq!(parse("call Foo x y"), Err(ParseError::InvalidNumber));
    // The command is unknown, whatever follows.
    assert_eq!(parse("jump local x y"), Err(ParseError::UnknownCommand));
}

#[test]
fn segment_names() {
    assert_eq!(MemorySegment::from_str("local"), Ok(MemorySegment::Local));
    assert_eq!(MemorySegment::from_str("argument"), Ok(MemorySegment::Argument));
    assert_eq!(MemorySegment::from_str("this"), Ok(MemorySegment::This));
    assert_eq!(MemorySegment::from_str("that"), Ok(MemorySegment::That));
    assert_eq!(MemorySegment::from_str("constant"), Ok(MemorySegment::Constant));
    assert_eq!(MemorySegment::from_str("static"), Ok(MemorySegment::Static));
    assert_eq!(MemorySegment::from_str("temp"), Ok(MemorySegment::Temp));
    assert_eq!(MemorySegment::from_str("pointer"), Ok(MemorySegment::Pointer));
    assert_eq!(MemorySegment::from_str("stack"), Err(ParseError::UnknownSegment));
    assert_eq!(MemorySegment::from_str(""), Err(ParseError::UnknownSegment));
    assert_eq!(MemorySegment::from_str(" local"), Err(ParseError::UnknownSegment));
}
