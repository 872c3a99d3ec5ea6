//! A minimal expression language and its execution pipeline: lexical
//! analysis, recursive-descent parsing, static type checking, bytecode
//! compilation, and stack-based execution.
//!
//! Floating-point values are represented throughout by their IEEE-754
//! single-precision bit patterns (`u32`).  The two computations that
//! genuinely need floating-point arithmetic — turning a decimal lexeme
//! into a bit pattern, and adding two numbers when a float is involved —
//! are delegated to the embedding: the scanner keeps float literals in
//! textual form until `tokenizer::resolve_tokens` is given their bit
//! patterns, and the virtual machine reports a pending addition through
//! `vm::RunOutcome::AwaitingAdd` and is continued with `vm::VM::resume`.

pub mod ast;
pub mod chars;
pub mod compiler;
pub mod opcode;
pub mod parser;
pub mod pipeline;
pub mod tiny_object;
pub mod tiny_type;
pub mod token;
pub mod tokenizer;
pub mod typechecker;
pub mod vm;
