use hackvm::command::TranslateError;
use hackvm::{Command, MemorySegment, VMTranslator};

fn text_of(command: Command) -> String {
    let mut t = VMTranslator::new("Main");
    assert_eq!(t.write_asm(command), Ok(()));
    t.output().to_string()
}

fn refused(command: Command) -> TranslateError {
    let mut t = VMTranslator::new("Main");
    let r = t.write_asm(command);
    assert_eq!(t.output(), "");
    match r {
        Err(e) => e,
        Ok(()) => panic!("the command was accepted"),
    }
}

#[test]
fn a_new_translator_has_written_nothing() {
    let t = VMTranslator::new("Main");
    assert_eq!(t.output(), "");
    assert_eq!(t.file(), "Main");
}

#[test]
fn push_constant() {
    assert_eq!(
        text_of(Command::Push(MemorySegment::Constant, 7)),
        "@7\nD=A\n@SP\nA=M\nM=D\n@SP\nM=M+1\n\n"
    );
    assert_eq!(
        text_of(Command::Push(MemorySegment::Constant, 65535)),
        "@65535\nD=A\n@SP\nA=M\nM=D\n@SP\nM=M+1\n\n"
    );
    assert_eq!(
        text_of(Command::Push(MemorySegment::Constant, 0)),
        "@0\nD=A\n@SP\nA=M\nM=D\n@SP\nM=M+1\n\n"
    );
}

#[test]
fn push_through_a_base_pointer() {
    assert_eq!(
        text_of(Command::Push(MemorySegment::Local, 3)),
        "@3\nD=A\n@LCL\nA=D+M\nD=M\n@SP\nA=M\nM=D\n@SP\nM=M+1\n\n"
    );
    assert_eq!(
        text_of(Command::Push(MemorySegment::Argument, 10)),
        "@10\nD=A\n@ARG\nA=D+M\nD=M\n@SP\nA=M\nM=D\n@SP\nM=M+1\n\n"
    );
    assert_eq!(
        text_of(Command::Push(MemorySegment::This, 0)),
        "@0\nD=A\n@THIS\nA=D+M\nD=M\n@SP\nA=M\nM=D\n@SP\nM=M+1\n\n"
    );
    assert_eq!(
        text_of(Command::Push(MemorySegment::That, 1200)),
        "@1200\nD=A\n@THAT\nA=D+M\nD=M\n@SP\nA=M\nM=D\n@SP\nM=M+1\n\n"
    );
}

#[test]
fn push_static_names_the_file() {
    assert_eq!(
        text_of(Command::Push(MemorySegment::Static, 3)),
        "@Main.3\nD=M\n@SP\nA=M\nM=D\n@SP\nM=M+1\n\n"
    );
    assert_eq!(
        text_of(Command::Push(MemorySegment::Static, 238)),
        "@Main.238\nD=M\n@SP\nA=M\nM=D\n@SP\nM=M+1\n\n"
    );
}

#[test]
fn push_temp_adds_the_base_of_the_segment() {
    assert_eq!(
        text_of(Command::Push(MemorySegment::Temp, 0)),
        "@5\nD=M\n@SP\nA=M\nM=D\n@SP\nM=M+1\n\n"
    );
    assert_eq!(
        text_of(Command::Push(MemorySegment::Temp, 7)),
        "@12\nD=M\n@SP\nA=M\nM=D\n@SP\nM=M+1\n\n"
    );
}

#[test]
fn push_pointer_names_this_and_that() {
    assert_eq!(
        text_of(Command::Push(MemorySegment::Pointer, 0)),
        "@THIS\nD=M\n@SP\nA=M\nM=D\n@SP\nM=M+1\n\n"
    );
    assert_eq!(
        text_of(Command::Push(MemorySegment::Pointer, 1)),
        "@THAT\nD=M\n@SP\nA=M\nM=D\n@SP\nM=M+1\n\n"
    );
}

#[test]
fn pop_through_a_base_pointer_stages_the_address() {
    assert_eq!(
        text_of(Command::Pop(MemorySegment::Local, 0)),
        "@LCL\nD=M\n@R13\nM=D\n@0\nD=A\n@R13\nM=D+M\n\
         @SP\nM=M-1\nA=M\nD=M\n@R13\nA=M\nM=D\n\n"
    );
    assert_eq!(
        text_of(Command::Pop(MemorySegment::Argument, 2)),
        "@ARG\nD=M\n@R13\nM=D\n@2\nD=A\n@R13\nM=D+M\n\
         @SP\nM=M-1\nA=M\nD=M\n@R13\nA=M\nM=D\n\n"
    );
    assert_eq!(
        text_of(Command::Pop(MemorySegment::This, 6)),
        "@THIS\nD=M\n@R13\nM=D\n@6\nD=A\n@R13\nM=D+M\n\
         @SP\nM=M-1\nA=M\nD=M\n@R13\nA=M\nM=D\n\n"
    );
    assert_eq!(
        text_of(Command::Pop(MemorySegment::That, 5)),
        "@THAT\nD=M\n@R13\nM=D\n@5\nD=A\n@R13\nM=D+M\n\
         @SP\nM=M-1\nA=M\nD=M\n@R13\nA=M\nM=D\n\n"
    );
}

#[test]
fn pop_to_a_cell_with_an_address_of_its_own() {
    assert_eq!(
        text_of(Command::Pop(MemorySegment::Static, 8)),
        "@SP\nM=M-1\nA=M\nD=M\n@Main.8\nM=D\n\n"
    );
    assert_eq!(
        text_of(Command::Pop(MemorySegment::Temp, 6)),
        "@SP\nM=M-1\nA=M\nD=M\n@11\nM=D\n\n"
    );
    assert_eq!(
        text_of(Command::Pop(MemorySegment::Pointer, 0)),
        "@SP\nM=M-1\nA=M\nD=M\n@THIS\nM=D\n\n"
    );
    assert_eq!(
        text_of(Command::Pop(MemorySegment::Pointer, 1)),
        "@SP\nM=M-1\nA=M\nD=M\n@THAT\nM=D\n\n"
    );
}

#[test]
fn binary_operations() {
    assert_eq!(
        text_of(Command::Add),
        "@SP\nM=M-1\nA=M\nD=M\n@SP\nM=M-1\nA=M\nM=D+M\n@SP\nM=M+1\n\n"
    );
    assert_eq!(
        text_of(Command::Sub),
        "@SP\nM=M-1\nA=M\nD=M\n@SP\nM=M-1\nA=M\nM=M-D\n@SP\nM=M+1\n\n"
    );
    assert_eq!(
        text_of(Command::Or),
        "@SP\nM=M-1\nA=M\nD=M\n@SP\nM=M-1\nA=M\nM=D|M\n@SP\nM=M+1\n\n"
    );
    assert_eq!(
        text_of(Command::And),
        "@SP\nM=M-1\nA=M\nD=M\n@SP\nM=M-1\nA=M\nM=D&M\n@SP\nM=M+1\n\n"
    );
}

#[test]
fn unary_operations() {
    assert_eq!(text_of(Command::Neg), "@SP\nM=M-1\nA=M\nM=-M\n@SP\nM=M+1\n\n");
    assert_eq!(text_of(Command::Not), "@SP\nM=M-1\nA=M\nM=!M\n@SP\nM=M+1\n\n");
}

#[test]
fn comparisons() {
    assert_eq!(
        text_of(Command::Eq),
        "@SP\nM=M-1\nA=M\nD=M\n@SP\nM=M-1\nA=M\nD=M-D\n\
         @JUMP_START_0\nD;JEQ\n@SP\nA=M\nM=0\n\
         @JUMP_END_0\n0;JMP\n\
         (JUMP_START_0)\n@SP\nA=M\nM=-1\n\
         (JUMP_END_0)\n@SP\nM=M+1\n"
    );
    assert_eq!(
        text_of(Command::Lt),
        "@SP\nM=M-1\nA=M\nD=M\n@SP\nM=M-1\nA=M\nD=M-D\n\
         @JUMP_START_0\nD;JLT\n@SP\nA=M\nM=0\n\
         @JUMP_END_0\n0;JMP\n\
         (JUMP_START_0)\n@SP\nA=M\nM=-1\n\
         (JUMP_END_0)\n@SP\nM=M+1\n"
    );
    assert_eq!(
        text_of(Command::Gt),
        "@SP\nM=M-1\nA=M\nD=M\n@SP\nM=M-1\nA=M\nD=M-D\n\
         @JUMP_START_0\nD;JGT\n@SP\nA=M\nM=0\n\
         @JUMP_END_0\n0;JMP\n\
         (JUMP_START_0)\n@SP\nA=M\nM=-1\n\
         (JUMP_END_0)\n@SP\nM=M+1\n"
    );
}

#[test]
fn control_flow() {
    assert_eq!(text_of(Command::Label("LOOP".to_string())), "(LOOP)\n\n");
    assert_eq!(text_of(Command::Goto("LOOP".to_string())), "@LOOP\n0;JMP\n\n");
    assert_eq!(
        text_of(Command::IfGoto("END".to_string())),
        "@SP\nM=M-1\nA=M\nD=M\n@END\nD;JNE\n\n"
    );
}

#[test]
fn function_makes_room_for_its_locals() {
    assert_eq!(text_of(Command::Function("Foo".to_string(), 0)), "(Foo)\n\n");
    assert_eq!(
        text_of(Command::Function("Foo".to_string(), 2)),
        "(Foo)\n@SP\nA=M\nM=0\n@SP\nM=M+1\n@SP\nA=M\nM=0\n@SP\nM=M+1\n\n"
    );
}

#[test]
fn function_with_many_locals() {
    let text = text_of(Command::Function("Big".to_string(), 300));
    let mut expected = String::from("(Big)\n");
    for _ in 0..300 {
        expected.push_str("@SP\nA=M\nM=0\n@SP\nM=M+1\n");
    }
    expected.push('\n');
    assert_eq!(text, expected);
}

const CALL_FOO_2: &str = "@Foo$ret.0\nD=A\n@SP\nA=M\nM=D\n@SP\nM=M+1\n\
    @LCL\nD=M\n@SP\nA=M\nM=D\n@SP\nM=M+1\n\
    @ARG\nD=M\n@SP\nA=M\nM=D\n@SP\nM=M+1\n\
    @THIS\nD=M\n@SP\nA=M\nM=D\n@SP\nM=M+1\n\
    @THAT\nD=M\n@SP\nA=M\nM=D\n@SP\nM=M+1\n\
    @SP\nD=M\n@LCL\nM=D\n\
    @SP\nD=M\n@2\nD=D-A\n@5\nD=D-A\n@ARG\nM=D\n\
    @Foo\n0;JMP\n\
    (Foo$ret.0)\n";

#[test]
fn call_saves_the_frame_and_jumps() {
    let mut expected = String::from(CALL_FOO_2);
    expected.push('\n');
    assert_eq!(text_of(Command::Call("Foo".to_string(), 2)), expected);
}

#[test]
fn translate_func_call_gives_the_text_and_writes_nothing() {
    let mut t = VMTranslator::new("Main");
    assert_eq!(t.translate_func_call("Foo".to_string(), 2), Ok(CALL_FOO_2.to_string()));
    assert_eq!(t.output(), "");
    // The number was taken all the same.
    let next = t.translate_func_call("Foo".to_string(), 2).unwrap();
    assert!(next.starts_with("@Foo$ret.1\n"));
    assert!(next.ends_with("(Foo$ret.1)\n"));
}

#[test]
fn return_restores_the_frame() {
    assert_eq!(
        text_of(Command::Return),
        "@LCL\nD=M\n@R13\nM=D\n\
         @5\nD=D-A\nA=D\nD=M\n@R14\nM=D\n\
         @SP\nM=M-1\nA=M\nD=M\n@ARG\nA=M\nM=D\n\
         @ARG\nD=M+1\n@SP\nM=D\n\
         @R13\nD=M\n@1\nD=D-A\nA=D\nD=M\n@THAT\nM=D\n\
         @R13\nD=M\n@2\nD=D-A\nA=D\nD=M\n@THIS\nM=D\n\
         @R13\nD=M\n@3\nD=D-A\nA=D\nD=M\n@ARG\nM=D\n\
         @R13\nD=M\n@4\nD=D-A\nA=D\nD=M\n@LCL\nM=D\n\
         @R14\nA=M\n0;JMP\n\n"
    );
}

#[test]
fn prelude_sets_the_stack_and_calls_the_entry_point() {
    let mut t = VMTranslator::new("Main");
    assert_eq!(t.write_prelude(), Ok(()));
    assert_eq!(
        t.output(),
        "@256\nD=A\n@SP\nM=D\n\n\n\
         @Sys.init$ret.0\nD=A\n@SP\nA=M\nM=D\n@SP\nM=M+1\n\
         @LCL\nD=M\n@SP\nA=M\nM=D\n@SP\nM=M+1\n\
         @ARG\nD=M\n@SP\nA=M\nM=D\n@SP\nM=M+1\n\
         @THIS\nD=M\n@SP\nA=M\nM=D\n@SP\nM=M+1\n\
         @THAT\nD=M\n@SP\nA=M\nM=D\n@SP\nM=M+1\n\
         @SP\nD=M\n@LCL\nM=D\n\
         @SP\nD=M\n@0\nD=D-A\n@5\nD=D-A\n@ARG\nM=D\n\
         @Sys.init\n0;JMP\n\
         (Sys.init$ret.0)\n\n"
    );
}

#[test]
fn the_prelude_takes_a_call_number() {
    let mut t = VMTranslator::new("Main");
    t.write_prelude().unwrap();
    t.take_output();
    t.write_asm(Command::Call("Foo".to_string(), 0)).unwrap();
    assert!(t.output().starts_with("@Foo$ret.1\n"));
}

#[test]
fn blocks_are_written_one_after_the_other() {
    let mut t = VMTranslator::new("Main");
    t.write_asm(Command::Label("A".to_string())).unwrap();
    t.write_asm(Command::Goto("A".to_string())).unwrap();
    assert_eq!(t.output(), "(A)\n\n@A\n0;JMP\n\n");
}

#[test]
fn take_output_hands_the_text_over() {
    let mut t = VMTranslator::new("Main");
    t.write_asm(Command::Label("A".to_string())).unwrap();
    assert_eq!(t.take_output(), "(A)\n\n");
    assert_eq!(t.output(), "");
    assert_eq!(t.take_output(), "");
    t.write_asm(Command::Goto("A".to_string())).unwrap();
    assert_eq!(t.take_output(), "@A\n0;JMP\n\n");
}

#[test]
fn temp_offset_8_is_out_of_range() {
    assert_eq!(refused(Command::Push(MemorySegment::Temp, 8)), TranslateError::OffsetOutOfRange);
    assert_eq!(refused(Command::Pop(MemorySegment::Temp, 8)), TranslateError::OffsetOutOfRange);
    assert_eq!(
        refused(Command::Push(MemorySegment::Temp, 65535)),
        TranslateError::OffsetOutOfRange
    );
}

#[test]
fn pointer_offset_2_is_out_of_range() {
    assert_eq!(
        refused(Command::Push(MemorySegment::Pointer, 2)),
        TranslateError::OffsetOutOfRange
    );
    assert_eq!(refused(Command::Pop(MemorySegment::Pointer, 2)), TranslateError::OffsetOutOfRange);
}

#[test]
fn static_offset_239_is_out_of_range() {
    assert_eq!(
        refused(Command::Push(MemorySegment::Static, 239)),
        TranslateError::OffsetOutOfRange
    );
    assert_eq!(
        refused(Command::Pop(MemorySegment::Static, 239)),
        TranslateError::OffsetOutOfRange
    );
}

#[test]
fn the_last_offset_of_each_segment_is_in_range() {
    assert_eq!(Command::Push(MemorySegment::Temp, 7).verify_offset(), Ok(()));
    assert_eq!(Command::Pop(MemorySegment::Pointer, 1).verify_offset(), Ok(()));
    assert_eq!(Command::Push(MemorySegment::Static, 238).verify_offset(), Ok(()));
    assert_eq!(Command::Push(MemorySegment::Local, 65535).verify_offset(), Ok(()));
    assert_eq!(Command::Pop(MemorySegment::Constant, 65535).verify_offset(), Ok(()));
    assert_eq!(Command::Add.verify_offset(), Ok(()));
    assert_eq!(
        Command::Push(MemorySegment::Temp, 8).verify_offset(),
        Err(TranslateError::OffsetOutOfRange)
    );
}

#[test]
fn pop_constant_is_invalid() {
    assert_eq!(refused(Command::Pop(MemorySegment::Constant, 0)), TranslateError::PopConstant);
    assert_eq!(refused(Command::Pop(MemorySegment::Constant, 17)), TranslateError::PopConstant);
}

#[test]
fn a_refused_command_leaves_the_translator_as_it_was() {
    let mut t = VMTranslator::new("Main");
    t.write_asm(Command::Eq).unwrap();
    let before = t.output().to_string();
    assert_eq!(
        t.write_asm(Command::Pop(MemorySegment::Constant, 0)),
        Err(TranslateError::PopConstant)
    );
    assert_eq!(
        t.write_asm(Command::Push(MemorySegment::Temp, 8)),
        Err(TranslateError::OffsetOutOfRange)
    );
    assert_eq!(t.output(), before);
    t.take_output();
    t.write_asm(Command::Eq).unwrap();
    assert!(t.output().contains("(JUMP_START_1)\n"));
}

#[test]
fn each_comparison_takes_the_next_number() {
    let mut t = VMTranslator::new("Main");
    let commands = [Command::Eq, Command::Lt, Command::Gt, Command::Eq];
    let mut n = 0;
    for command in commands {
        assert_eq!(
            t.jump_labels(),
            (format!("JUMP_START_{}", n), format!("JUMP_END_{}", n))
        );
        t.write_asm(command).unwrap();
        let text = t.take_output();
        assert_eq!(text.matches(&format!("(JUMP_START_{})\n", n)).count(), 1);
        assert_eq!(text.matches(&format!("(JUMP_END_{})\n", n)).count(), 1);
        assert_eq!(text.matches(&format!("@JUMP_START_{}\n", n)).count(), 1);
        assert_eq!(text.matches(&format!("@JUMP_END_{}\n", n)).count(), 1);
        assert_eq!(text.matches("(JUMP_").count(), 2);
        n += 1;
    }
}

#[test]
fn only_comparisons_take_a_jump_number() {
    let mut t = VMTranslator::new("Main");
    t.write_asm(Command::Add).unwrap();
    t.write_asm(Command::Push(MemorySegment::Constant, 1)).unwrap();
    t.write_asm(Command::Call("Foo".to_string(), 0)).unwrap();
    t.write_asm(Command::Return).unwrap();
    t.write_prelude().unwrap();
    t.update_filestem("Other");
    assert_eq!(t.jump_labels(), ("JUMP_START_0".to_string(), "JUMP_END_0".to_string()));
}

#[test]
fn each_call_takes_the_next_number() {
    let mut t = VMTranslator::new("Main");
    let names = ["Foo", "Bar", "Foo", "Foo"];
    let mut n = 0;
    for name in names {
        t.write_asm(Command::Call(name.to_string(), 1)).unwrap();
        let text = t.take_output();
        assert!(text.starts_with(&format!("@{}$ret.{}\n", name, n)));
        assert!(text.ends_with(&format!("({}$ret.{})\n\n", name, n)));
        n += 1;
    }
}

#[test]
fn a_function_that_calls_itself_gets_two_return_labels() {
    let mut t = VMTranslator::new("Main");
    t.write_asm(Command::Call("Foo".to_string(), 1)).unwrap();
    t.write_asm(Command::Function("Foo".to_string(), 0)).unwrap();
    t.write_asm(Command::Push(MemorySegment::Argument, 0)).unwrap();
    t.write_asm(Command::Call("Foo".to_string(), 1)).unwrap();
    t.write_asm(Command::Return).unwrap();
    let text = t.take_output();
    assert_eq!(text.matches("(Foo$ret.0)\n").count(), 1);
    assert_eq!(text.matches("(Foo$ret.1)\n").count(), 1);
    assert_eq!(text.matches("@Foo$ret.0\n").count(), 1);
    assert_eq!(text.matches("@Foo$ret.1\n").count(), 1);
    assert_eq!(text.matches("$ret.").count(), 4);
    assert_eq!(text.matches("(Foo)\n").count(), 1);
    assert_eq!(text.matches("@Foo\n").count(), 2);
}

#[test]
fn counters_outlive_a_change_of_file() {
    let mut t = VMTranslator::new("First");
    t.write_asm(Command::Eq).unwrap();
    t.write_asm(Command::Call("Foo".to_string(), 0)).unwrap();
    t.write_asm(Command::Push(MemorySegment::Static, 1)).unwrap();
    let first = t.take_output();
    assert!(first.contains("@First.1\n"));
    t.update_filestem("Second");
    assert_eq!(t.file(), "Second");
    t.write_asm(Command::Eq).unwrap();
    t.write_asm(Command::Call("Foo".to_string(), 0)).unwrap();
    t.write_asm(Command::Push(MemorySegment::Static, 1)).unwrap();
    t.write_asm(Command::Pop(MemorySegment::Static, 1)).unwrap();
    let second = t.take_output();
    assert!(second.contains("(JUMP_START_1)\n"));
    assert!(second.contains("(Foo$ret.1)\n"));
    assert_eq!(second.matches("@Second.1\n").count(), 2);
    assert!(!second.contains("First"));
}

#[test]
fn the_counter_of_comparisons_runs_out() {
    let mut t = VMTranslator::new("Main");
    for _ in 0..65535 {
        t.write_asm(Command::Eq).unwrap();
        t.take_output();
    }
    assert_eq!(t.jump_labels(), ("JUMP_START_65535".to_string(), "JUMP_END_65535".to_string()));
    assert_eq!(t.write_asm(Command::Lt), Err(TranslateError::LabelsExhausted));
    assert_eq!(t.output(), "");
    // What needs no number still goes through.
    assert_eq!(t.write_asm(Command::Add), Ok(()));
    assert_eq!(t.write_asm(Command::Call("Foo".to_string(), 0)), Ok(()));
}

#[test]
fn the_counter_of_calls_runs_out() {
    let mut t = VMTranslator::new("Main");
    for n in 0..65535u32 {
        let text = t.translate_func_call("F".to_string(), 0).unwrap();
        if n == 65534 {
            assert!(text.starts_with("@F$ret.65534\n"));
        }
    }
    assert_eq!(
        t.translate_func_call("F".to_string(), 0),
        Err(TranslateError::LabelsExhausted)
    );
    assert_eq!(t.write_asm(Command::Call("F".to_string(), 0)), Err(TranslateError::LabelsExhausted));
    assert_eq!(t.write_prelude(), Err(TranslateError::LabelsExhausted));
    assert_eq!(t.output(), "");
    assert_eq!(t.write_asm(Command::Eq), Ok(()));
}
