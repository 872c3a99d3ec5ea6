use vstd::prelude::*;
use crate::ast::{BinaryOperation, Expr, Stmt};
use crate::tiny_type::TinyType;

verus! {

/// The ways a static type check can fail.
#[derive(Debug, Clone, Copy, PartialEq, Eq, Structural)]
pub enum TypeCheckError {
    CondMustBeBool,
    TernaryReturnsTypeMustBeSame,
    UndefinedOperation,
}

/// A short human-readable description of a type error.
pub fn typecheck_error_to_message(e: TypeCheckError) -> (r: String)
    ensures
        e == TypeCheckError::TernaryReturnsTypeMustBeSame ==> r@ == "ternary return type must be same"@,
        e == TypeCheckError::CondMustBeBool ==> r@ == "condition value must be bool"@,
        e == TypeCheckError::UndefinedOperation ==> r@ == "you are trying undefined operation"@,
{
    match e {
        TypeCheckError::TernaryReturnsTypeMustBeSame => String::from_str("ternary return type must be same"),
        TypeCheckError::CondMustBeBool => String::from_str("condition value must be bool"),
        TypeCheckError::UndefinedOperation => String::from_str("you are trying undefined operation"),
    }
}

/// The type of an expression, or the first error met on a depth-first
/// walk.  For a ternary, the condition's own error comes before
/// `CondMustBeBool`, which comes before either branch's error, which
/// comes before `TernaryReturnsTypeMustBeSame`; for an addition, the
/// left operand's error comes before the right operand's, and both
/// before `UndefinedOperation`.  `Int + Int` is `Int`, any combination
/// with a `Float` is `Float`, any combination with a `Bool` is
/// undefined.
pub open spec fn spec_typecheck_expr(e: Expr) -> Result<TinyType, TypeCheckError>
    decreases e,
{
    match e {
        Expr::Bool(_) => Ok(TinyType::Bool),
        Expr::Float(_) => Ok(TinyType::Float),
        Expr::Int(_) => Ok(TinyType::Int),
        Expr::If { cond, thn, els } => match spec_typecheck_expr(*cond) {
            Err(err) => Err(err),
            Ok(ct) => if ct != TinyType::Bool {
                Err(TypeCheckError::CondMustBeBool)
            } else {
                match spec_typecheck_expr(*thn) {
                    Err(err) => Err(err),
                    Ok(tt) => match spec_typecheck_expr(*els) {
                        Err(err) => Err(err),
                        Ok(et) => if tt != et {
                            Err(TypeCheckError::TernaryReturnsTypeMustBeSame)
                        } else {
                            Ok(tt)
                        },
                    },
                }
            },
        },
        Expr::BinOp(op) => match *op {
            BinaryOperation::Add { left, right } => match spec_typecheck_expr(*left) {
                Err(err) => Err(err),
                Ok(lt) => match spec_typecheck_expr(*right) {
                    Err(err) => Err(err),
                    Ok(rt) => match (lt, rt) {
                        (TinyType::Float, TinyType::Float) => Ok(TinyType::Float),
                        (TinyType::Int, TinyType::Float) => Ok(TinyType::Float),
                        (TinyType::Float, TinyType::Int) => Ok(TinyType::Float),
                        (TinyType::Int, TinyType::Int) => Ok(TinyType::Int),
                        _ => Err(TypeCheckError::UndefinedOperation),
                    },
                },
            },
        },
    }
}

/// The type of a statement: that of its single expression.
pub open spec fn spec_typecheck(ast: Stmt) -> Result<TinyType, TypeCheckError> {
    match ast {
        Stmt::Expr(e) => spec_typecheck_expr(e),
    }
}

/// The static type checking pass.  It reads only the tags of literals,
/// never their values, and is independent of compilation.
pub struct TypeChecker {}

impl TypeChecker {
    /// Assign a static type to a whole program, or reject it.
    pub fn typecheck(ast: &Stmt) -> (r: Result<TinyType, TypeCheckError>)
        ensures
            r == spec_typecheck(*ast),
    {
        match ast {
            Stmt::Expr(e) => Self::typecheck_expr(e),
        }
    }

    fn typecheck_expr(e: &Expr) -> (r: Result<TinyType, TypeCheckError>)
        ensures
            r == spec_typecheck_expr(*e),
        decreases *e,
    {
        match e {
            Expr::Bool(_) => Ok(TinyType::Bool),
            Expr::Float(_) => Ok(TinyType::Float),
            Expr::Int(_) => Ok(TinyType::Int),
            Expr::If { cond, thn, els } => {
                let ct = match Self::typecheck_expr(cond) {
                    Ok(t) => t,
                    Err(err) => { return Err(err); },
                };
                if ct != TinyType::Bool {
                    return Err(TypeCheckError::CondMustBeBool);
                }
                let tt = match Self::typecheck_expr(thn) {
                    Ok(t) => t,
                    Err(err) => { return Err(err); },
                };
                let et = match Self::typecheck_expr(els) {
                    Ok(t) => t,
                    Err(err) => { return Err(err); },
                };
                if tt != et {
                    return Err(TypeCheckError::TernaryReturnsTypeMustBeSame);
                }
                Ok(tt)
            },
            Expr::BinOp(op) => match &**op {
                BinaryOperation::Add { left, right } => {
                    let lt = match Self::typecheck_expr(left) {
                        Ok(t) => t,
                        Err(err) => { return Err(err); },
                    };
                    let rt = match Self::typecheck_expr(right) {
                        Ok(t) => t,
                        Err(err) => { return Err(err); },
                    };
                    match (lt, rt) {
                        (TinyType::Float, TinyType::Float) => Ok(TinyType::Float),
                        (TinyType::Int, TinyType::Float) => Ok(TinyType::Float),
                        (TinyType::Float, TinyType::Int) => Ok(TinyType::Float),
                        (TinyType::Int, TinyType::Int) => Ok(TinyType::Int),
                        _ => Err(TypeCheckError::UndefinedOperation),
                    }
                },
            },
        }
    }
}

} // verus!
