//! A translator from a stack-based virtual-machine language to the assembly
//! language of a 16-bit machine with one data register.
//!
//! [`parse`] reads one line of source text as a [`Command`], and
//! [`VMTranslator::write_asm`] writes the assembly of a command. The
//! translator keeps the state that lasts for a whole run: the identifier of
//! the current file and the two counters from which the labels of
//! comparisons and calls take their numbers. [`write_file_asm`] translates a
//! source text line by line.
//!
//! What is written is fixed instruction by instruction (`codegen`), and what
//! these instructions do on the target machine is proved of them: `machine`
//! and `control` model the machine, `semantics`, `calling` and `flow` hold
//! the laws of the commands, and `labels` and `run` those of the names that
//! the translator makes up.

pub mod assembly;
pub mod calling;
pub mod codegen;
pub mod command;
pub mod control;
pub mod flow;
pub mod labels;
pub mod machine;
pub mod parser;
pub mod run;
pub mod semantics;
pub mod source;
pub mod text;
pub mod translator;

pub use crate::command::{Command, MemorySegment};
pub use crate::parser::parse;
pub use crate::source::write_file_asm;
pub use crate::translator::VMTranslator;
