use vstd::prelude::*;
use crate::tiny_object::TinyObject;

verus! {

/// One bytecode instruction.  Jump targets are absolute indices into the
/// instruction sequence; a target equal to the sequence length means
/// "fall off the end, terminate".
#[derive(Debug, Clone, Copy, PartialEq, Eq, Structural)]
pub enum OpCode {
    Push(TinyObject),
    Add,
    JumpIfFalse(usize),
    Jump(usize),
    Pop,
}

} // verus!
