//! The translator: the state that lasts for a whole run, and the step that
//! turns one command into assembly text.

use vstd::prelude::*;
use vstd::string::*;
use crate::assembly::{listing, Comp, Emitter, Instr, Jump};
use crate::codegen::{
    binary_code,
    call_code,
    compare_code,
    emit_binary,
    emit_call,
    emit_compare,
    emit_function,
    emit_goto,
    emit_if_goto,
    emit_init_stack,
    emit_on_top,
    emit_pop,
    emit_push,
    emit_return,
    function_code,
    goto_code,
    if_goto_code,
    init_stack,
    jump_end,
    jump_start,
    label_code,
    pop_code,
    push_code,
    return_code,
    unary_code,
};
use crate::command::{Addressing, Command, CommandView, MemorySegment, TranslateError};
use crate::text::push_decimal;

verus! {

/// The state of a run: what has been written, the file whose commands are
/// being translated, and the numbers that the next generated labels will
/// carry.
#[derive(Debug)]
pub struct VMTranslator {
    out: String,
    next_jump: u16,
    ret_idx: u16,
    filestem: String,
}

/// The state of a run as a mathematical value.
pub struct Context {
    /// The identifier of the current file, which prefixes its static symbols.
    pub file: Seq<char>,
    /// The number that the next comparison gives to its two labels.
    pub next_jump: u16,
    /// The number that the next call gives to its return label.
    pub ret_idx: u16,
    /// The assembly text written so far.
    pub output: Seq<char>,
}

impl View for VMTranslator {
    type V = Context;

    closed spec fn view(&self) -> Context {
        Context {
            file: self.filestem@,
            next_jump: self.next_jump,
            ret_idx: self.ret_idx,
            output: self.out@,
        }
    }
}

/// The name of the function that the bootstrap calls.
pub open spec fn entry_point() -> Seq<char> {
    "Sys.init"@
}

/// The instructions that implement a command in a given state.
pub open spec fn command_code(c: CommandView, ctx: Context) -> Seq<Instr> {
    match c {
        CommandView::Push(segment, offset) => push_code(segment.addressing(offset), ctx.file),
        CommandView::Pop(segment, offset) => pop_code(segment.addressing(offset), ctx.file),
        CommandView::Add => binary_code(Comp::DPlusM),
        CommandView::Sub => binary_code(Comp::MMinusD),
        CommandView::Neg => unary_code(Comp::NegM),
        CommandView::Not => unary_code(Comp::NotM),
        CommandView::Or => binary_code(Comp::DOrM),
        CommandView::And => binary_code(Comp::DAndM),
        CommandView::Eq => compare_code(Jump::JEQ, ctx.next_jump as nat),
        CommandView::Lt => compare_code(Jump::JLT, ctx.next_jump as nat),
        CommandView::Gt => compare_code(Jump::JGT, ctx.next_jump as nat),
        CommandView::Label(name) => label_code(name),
        CommandView::Goto(name) => goto_code(name),
        CommandView::IfGoto(name) => if_goto_code(name),
        CommandView::Function(name, locals) => function_code(name, locals),
        CommandView::Call(name, args) => call_code(name, args, ctx.ret_idx as nat),
        CommandView::Return => return_code(),
    }
}

/// Why a command is refused in a given state, if it is: an offset outside
/// its segment, a `pop` to the constant segment, or a comparison or a call
/// for whose labels no number is left.
pub open spec fn refusal(c: CommandView, ctx: Context) -> Option<TranslateError> {
    if c.out_of_range() {
        Some(TranslateError::OffsetOutOfRange)
    } else if c matches CommandView::Pop(MemorySegment::Constant, _) {
        Some(TranslateError::PopConstant)
    } else if c.is_comparison() && ctx.next_jump == u16::MAX {
        Some(TranslateError::LabelsExhausted)
    } else if c is Call && ctx.ret_idx == u16::MAX {
        Some(TranslateError::LabelsExhausted)
    } else {
        None
    }
}

/// The text written for a command: the listing of its instructions, and an
/// empty line after it unless the command is a comparison.
pub open spec fn block_text(c: CommandView, ctx: Context) -> Seq<char> {
    if c.is_comparison() {
        listing(command_code(c, ctx))
    } else {
        listing(command_code(c, ctx)).push('\n')
    }
}

/// The state after a command that is not refused.
pub open spec fn advance(ctx: Context, c: CommandView) -> Context {
    Context {
        file: ctx.file,
        next_jump: if c.is_comparison() {
            (ctx.next_jump + 1) as u16
        } else {
            ctx.next_jump
        },
        ret_idx: if c is Call {
            (ctx.ret_idx + 1) as u16
        } else {
            ctx.ret_idx
        },
        output: ctx.output + block_text(c, ctx),
    }
}

/// One step of a run: the state after the command, or why it is refused.
pub open spec fn step(ctx: Context, c: CommandView) -> Result<Context, TranslateError> {
    match refusal(c, ctx) {
        Some(e) => Err(e),
        None => Ok(advance(ctx, c)),
    }
}

/// The text of the bootstrap: the stack is made to begin at its base, and
/// the entry point is called with no arguments. Two empty lines follow the
/// first part and one the second.
pub open spec fn boot_text(ctx: Context) -> Seq<char> {
    listing(init_stack()).push('\n').push('\n') + listing(
        call_code(entry_point(), 0, ctx.ret_idx as nat),
    ).push('\n')
}

/// The state after the bootstrap, or why it is refused: its call needs a
/// number for its return label.
pub open spec fn boot(ctx: Context) -> Result<Context, TranslateError> {
    if ctx.ret_idx == u16::MAX {
        Err(TranslateError::LabelsExhausted)
    } else {
        Ok(
            Context {
                file: ctx.file,
                next_jump: ctx.next_jump,
                ret_idx: (ctx.ret_idx + 1) as u16,
                output: ctx.output + boot_text(ctx),
            },
        )
    }
}

/// The state when the commands of the file `stem` come next.
pub open spec fn enter(ctx: Context, stem: Seq<char>) -> Context {
    Context { file: stem, ..ctx }
}

/// The state when the text written so far has been handed over.
pub open spec fn flush(ctx: Context) -> Context {
    Context { output: Seq::empty(), ..ctx }
}

impl VMTranslator {
    /// A translator at the start of a run, about to read the file `filestem`.
    pub fn new(filestem: &str) -> (t: Self)
        ensures
            t@ == (Context {
                file: filestem@,
                next_jump: 0,
                ret_idx: 0,
                output: Seq::<char>::empty(),
            }),
    {
        VMTranslator {
            out: String::new(),
            next_jump: 0,
            ret_idx: 0,
            filestem: String::from_str(filestem),
        }
    }

    /// The identifier of the current file.
    pub fn file(&self) -> (s: &str)
        ensures
            s@ == self@.file,
    {
        self.filestem.as_str()
    }

    /// The assembly text written so far.
    pub fn output(&self) -> (s: &str)
        ensures
            s@ == self@.output,
    {
        self.out.as_str()
    }

    /// Hands over the assembly text written so far and goes on with none.
    pub fn take_output(&mut self) -> (s: String)
        ensures
            s@ == old(self)@.output,
            final(self)@ == flush(old(self)@),
    {
        let mut s = String::new();
        std::mem::swap(&mut self.out, &mut s);
        s
    }

    /// Translates one command and writes its assembly.
    ///
    /// A refused command writes nothing and leaves the state as it was.
    pub fn write_asm(&mut self, command: Command) -> (r: Result<(), TranslateError>)
        ensures
            match step(old(self)@, command@) {
                Ok(next) => r is Ok && final(self)@ == next,
                Err(e) => r == Err::<(), TranslateError>(e) && final(self)@ == old(self)@,
            },
    {
        let ghost c = command@;
        let ghost ctx = self@;
        match command.verify_offset() {
            Err(e) => {
                return Err(e);
            },
            Ok(_) => {},
        }
        let mut e = Emitter::new();
        let mut comparison = false;
        match command {
            Command::Push(segment, offset) => {
                emit_push(&mut e, segment.resolve(offset), self.filestem.as_str());
            },
            Command::Pop(segment, offset) => {
                let a = segment.resolve(offset);
                match a {
                    Addressing::Immediate(_) => {
                        return Err(TranslateError::PopConstant);
                    },
                    _ => {
                        emit_pop(&mut e, a, self.filestem.as_str());
                    },
                }
            },
            Command::Add => {
                emit_binary(&mut e, Comp::DPlusM);
            },
            Command::Sub => {
                emit_binary(&mut e, Comp::MMinusD);
            },
            Command::Neg => {
                emit_on_top(&mut e, Comp::NegM);
            },
            Command::Not => {
                emit_on_top(&mut e, Comp::NotM);
            },
            Command::Or => {
                emit_binary(&mut e, Comp::DOrM);
            },
            Command::And => {
                emit_binary(&mut e, Comp::DAndM);
            },
            Command::Eq => {
                if !self.compare(&mut e, Jump::JEQ) {
                    return Err(TranslateError::LabelsExhausted);
                }
                comparison = true;
            },
            Command::Lt => {
                if !self.compare(&mut e, Jump::JLT) {
                    return Err(TranslateError::LabelsExhausted);
                }
                comparison = true;
            },
            Command::Gt => {
                if !self.compare(&mut e, Jump::JGT) {
                    return Err(TranslateError::LabelsExhausted);
                }
                comparison = true;
            },
            Command::Label(name) => {
                e.label(name.as_str());
            },
            Command::Goto(name) => {
                emit_goto(&mut e, name.as_str());
            },
            Command::IfGoto(name) => {
                emit_if_goto(&mut e, name.as_str());
            },
            Command::Function(name, locals) => {
                emit_function(&mut e, name.as_str(), locals);
            },
            Command::Call(name, args) => {
                if !self.call(&mut e, name.as_str(), args) {
                    return Err(TranslateError::LabelsExhausted);
                }
            },
            Command::Return => {
                emit_return(&mut e);
            },
        }
        assert(e.code() =~= command_code(c, ctx));
        let text = e.finish();
        self.out.append(text.as_str());
        if !comparison {
            self.out.push('\n');
        }
        assert(self@.output =~= ctx.output + block_text(c, ctx));
        Ok(())
    }

    /// Writes a comparison with the next free number and takes the number,
    /// unless none is left.
    fn compare(&mut self, e: &mut Emitter, jump: Jump) -> (done: bool)
        requires
            old(e).wf(),
        ensures
            done == (old(self)@.next_jump != u16::MAX),
            done ==> final(e).wf() && final(e).code() == old(e).code() + compare_code(
                jump,
                old(self)@.next_jump as nat,
            ) && final(self)@ == (Context {
                next_jump: (old(self)@.next_jump + 1) as u16,
                ..old(self)@
            }),
            !done ==> final(self)@ == old(self)@ && *final(e) == *old(e),
    {
        if self.next_jump == u16::MAX {
            return false;
        }
        let (start, end) = self.jump_labels();
        emit_compare(e, jump, start.as_str(), end.as_str());
        self.next_jump += 1;
        true
    }

    /// Writes a call with the next free number and takes the number, unless
    /// none is left.
    fn call(&mut self, e: &mut Emitter, name: &str, args: u16) -> (done: bool)
        requires
            old(e).wf(),
        ensures
            done == (old(self)@.ret_idx != u16::MAX),
            done ==> final(e).wf() && final(e).code() == old(e).code() + call_code(
                name@,
                args,
                old(self)@.ret_idx as nat,
            ) && final(self)@ == (Context {
                ret_idx: (old(self)@.ret_idx + 1) as u16,
                ..old(self)@
            }),
            !done ==> final(self)@ == old(self)@ && *final(e) == *old(e),
    {
        if self.ret_idx == u16::MAX {
            return false;
        }
        emit_call(e, name, args, self.ret_idx);
        self.ret_idx += 1;
        true
    }

    /// Writes the instructions of a call, numbered by the next free number,
    /// as text, and takes the number.
    ///
    /// With no number left, nothing changes.
    pub fn translate_func_call(&mut self, func_name: String, n_args: u16) -> (r: Result<
        String,
        TranslateError,
    >)
        ensures
            old(self)@.ret_idx == u16::MAX ==> r is Err && r->Err_0
                == TranslateError::LabelsExhausted && final(self)@ == old(self)@,
            old(self)@.ret_idx != u16::MAX ==> r is Ok && r->Ok_0@ == listing(
                call_code(func_name@, n_args, old(self)@.ret_idx as nat),
            ) && final(self)@ == (Context {
                ret_idx: (old(self)@.ret_idx + 1) as u16,
                ..old(self)@
            }),
    {
        let mut e = Emitter::new();
        if !self.call(&mut e, func_name.as_str(), n_args) {
            return Err(TranslateError::LabelsExhausted);
        }
        assert(e.code() =~= call_code(func_name@, n_args, old(self)@.ret_idx as nat));
        Ok(e.finish())
    }

    /// Writes the bootstrap, which a run begins with: the stack pointer is
    /// set to the base of the stack, and the entry point is called.
    ///
    /// With no number left for the call's return label, nothing is written.
    pub fn write_prelude(&mut self) -> (r: Result<(), TranslateError>)
        ensures
            match boot(old(self)@) {
                Ok(next) => r is Ok && final(self)@ == next,
                Err(e) => r == Err::<(), TranslateError>(e) && final(self)@ == old(self)@,
            },
    {
        if self.ret_idx == u16::MAX {
            return Err(TranslateError::LabelsExhausted);
        }
        let mut e = Emitter::new();
        emit_init_stack(&mut e);
        assert(e.code() =~= init_stack());
        let init = e.finish();
        match self.translate_func_call(String::from_str("Sys.init"), 0) {
            Err(e) => Err(e),
            Ok(call) => {
                self.out.append(init.as_str());
                self.out.push('\n');
                self.out.push('\n');
                self.out.append(call.as_str());
                self.out.push('\n');
                assert(self@.output =~= old(self)@.output + boot_text(old(self)@));
                Ok(())
            },
        }
    }

    /// Makes `stem` the identifier of the file whose commands come next.
    pub fn update_filestem(&mut self, stem: &str)
        ensures
            final(self)@ == enter(old(self)@, stem@),
    {
        self.filestem = String::from_str(stem);
    }

    /// The two labels of the next comparison.
    pub fn jump_labels(&self) -> (labels: (String, String))
        ensures
            labels.0@ == jump_start(self@.next_jump as nat),
            labels.1@ == jump_end(self@.next_jump as nat),
    {
        let mut start = String::from_str("JUMP_START_");
        push_decimal(&mut start, self.next_jump);
        let mut end = String::from_str("JUMP_END_");
        push_decimal(&mut end, self.next_jump);
        (start, end)
    }
}

} // verus!
