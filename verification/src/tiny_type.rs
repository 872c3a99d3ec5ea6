use vstd::prelude::*;

verus! {

/// The static type assigned to an expression by the type checker.
/// There is no subtyping; types are compared by structural equality.
#[derive(Debug, Clone, Copy, PartialEq, Eq, Structural)]
pub enum TinyType {
    Int,
    Float,
    Bool,
}

} // verus!
