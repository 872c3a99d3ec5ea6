use vstd::prelude::*;

verus! {

/// A runtime value.  `Float` carries the IEEE-754 single-precision bit
/// pattern of the value; the embedding performs the arithmetic on such
/// values (see `vm`).
#[derive(Debug, Clone, Copy, PartialEq, Eq, Structural)]
pub enum TinyObject {
    Int(i32),
    Bool(bool),
    Float(u32),
}

} // verus!
