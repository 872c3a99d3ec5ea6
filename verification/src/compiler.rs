use vstd::prelude::*;
use crate::ast::{BinaryOperation, Expr, Stmt};
use crate::opcode::OpCode;
use crate::tiny_object::TinyObject;
use crate::vm::spec_jumps_forward;

verus! {

/// The ways compilation can fail.  `UnsupportedExpr` is reserved for an
/// expression node the compiler would not recognize; every node of the
/// present language is recognized, so compilation always succeeds.
#[derive(Debug, Clone, Copy, PartialEq, Eq, Structural)]
pub enum CompileError {
    UnsupportedExpr,
}

/// A short human-readable description of a compile error.
pub fn compile_error_to_message(e: CompileError) -> (r: String)
    ensures
        r@ == "unsupported expression encountered during compilation"@,
{
    match e {
        CompileError::UnsupportedExpr => String::from_str(
            "unsupported expression encountered during compilation",
        ),
    }
}

/// What to do with the value of a top-level expression statement:
/// `Discard` appends a trailing `Pop`, so a run of the program leaves an
/// empty stack; `Yield` omits it, so the computed value stays on top.
#[derive(Debug, Clone, Copy, PartialEq, Eq, Structural)]
pub enum CompileMode {
    Discard,
    Yield,
}

/// The instructions an expression lowers to when emitted starting at
/// absolute index `base` of the program.  A literal becomes one `Push`;
/// an addition lowers its left operand, then its right, then one `Add`;
/// a ternary lowers its condition, a `JumpIfFalse` to the start of the
/// else code, the then code, a `Jump` past the else code, and the else
/// code.  Jump targets are absolute indices.
pub open spec fn spec_compile_expr(e: Expr, base: int) -> Seq<OpCode>
    decreases e,
{
    match e {
        Expr::Int(n) => seq![OpCode::Push(TinyObject::Int(n))],
        Expr::Bool(b) => seq![OpCode::Push(TinyObject::Bool(b))],
        Expr::Float(u) => seq![OpCode::Push(TinyObject::Float(u))],
        Expr::BinOp(op) => match *op {
            BinaryOperation::Add { left, right } => {
                let lc = spec_compile_expr(*left, base);
                let rc = spec_compile_expr(*right, base + lc.len());
                lc + rc + seq![OpCode::Add]
            },
        },
        Expr::If { cond, thn, els } => {
            let cc = spec_compile_expr(*cond, base);
            let tc = spec_compile_expr(*thn, base + cc.len() + 1);
            let else_start = base + cc.len() + 1 + tc.len() + 1;
            let ec = spec_compile_expr(*els, else_start);
            let end = else_start + ec.len();
            cc + seq![OpCode::JumpIfFalse(else_start as usize)] + tc
                + seq![OpCode::Jump(end as usize)] + ec
        },
    }
}

/// The instructions a statement lowers to: its expression's code,
/// followed by one `Pop` when the mode is `Discard`.
pub open spec fn spec_compile_stmt(ast: Stmt, base: int, mode: CompileMode) -> Seq<OpCode> {
    match ast {
        Stmt::Expr(e) => if mode == CompileMode::Discard {
            spec_compile_expr(e, base) + seq![OpCode::Pop]
        } else {
            spec_compile_expr(e, base)
        },
    }
}

/// Whether one instruction's jump target, if it has one, lies within
/// `[0, len]`; a target equal to `len` means "fall off the end".
pub open spec fn spec_target_ok(op: OpCode, len: int) -> bool {
    match op {
        OpCode::JumpIfFalse(t) => t <= len,
        OpCode::Jump(t) => t <= len,
        _ => true,
    }
}

/// Whether every jump target in `code` lies within `[0, len]`.
pub open spec fn spec_jump_targets_ok(code: Seq<OpCode>, len: int) -> bool {
    forall|i: int| 0 <= i < code.len() ==> spec_target_ok(#[trigger] code[i], len)
}

/// Every jump in the code an expression lowers to goes strictly
/// forward, and never further than the end of the expression's own
/// code.
pub proof fn lemma_compile_expr_jumps(e: Expr, base: int)
    requires
        0 <= base,
        base + spec_compile_expr(e, base).len() <= usize::MAX,
    ensures
        forall|i: int|
            0 <= i < spec_compile_expr(e, base).len() ==> match #[trigger] spec_compile_expr(
                e,
                base,
            )[i] {
                OpCode::JumpIfFalse(t) => base + i < t <= base + spec_compile_expr(e, base).len(),
                OpCode::Jump(t) => base + i < t <= base + spec_compile_expr(e, base).len(),
                _ => true,
            },
    decreases e,
{
    match e {
        Expr::Int(_) => {},
        Expr::Bool(_) => {},
        Expr::Float(_) => {},
        Expr::BinOp(op) => match *op {
            BinaryOperation::Add { left, right } => {
                let lc = spec_compile_expr(*left, base);
                let rc = spec_compile_expr(*right, base + lc.len());
                lemma_compile_expr_jumps(*left, base);
                lemma_compile_expr_jumps(*right, base + lc.len());
                assert(spec_compile_expr(e, base) == lc + rc + seq![OpCode::Add]);
            },
        },
        Expr::If { cond, thn, els } => {
            let cc = spec_compile_expr(*cond, base);
            let tc = spec_compile_expr(*thn, base + cc.len() + 1);
            let else_start = base + cc.len() + 1 + tc.len() + 1;
            let ec = spec_compile_expr(*els, else_start);
            let end = else_start + ec.len();
            lemma_compile_expr_jumps(*cond, base);
            lemma_compile_expr_jumps(*thn, base + cc.len() + 1);
            lemma_compile_expr_jumps(*els, else_start);
            assert(spec_compile_expr(e, base) == cc + seq![OpCode::JumpIfFalse(else_start as usize)]
                + tc + seq![OpCode::Jump(end as usize)] + ec);
        },
    }
}

/// Every jump target in a compiled program lies within `[0, length]`
/// inclusive, whatever the statement and the compilation mode.
pub proof fn lemma_compiled_jumps_in_bounds(ast: Stmt, mode: CompileMode)
    requires
        spec_compile_stmt(ast, 0, mode).len() <= usize::MAX,
    ensures
        spec_jump_targets_ok(
            spec_compile_stmt(ast, 0, mode),
            spec_compile_stmt(ast, 0, mode).len() as int,
        ),
{
    match ast {
        Stmt::Expr(e) => {
            lemma_compile_expr_jumps(e, 0);
        },
    }
}

/// Every jump in a compiled program goes strictly forward, whatever the
/// statement and the compilation mode: the language has no loops, so a
/// run of compiled code always terminates and `VM::run` accepts it.
pub proof fn lemma_compiled_jumps_forward(ast: Stmt, mode: CompileMode)
    requires
        spec_compile_stmt(ast, 0, mode).len() <= usize::MAX,
    ensures
        spec_jumps_forward(spec_compile_stmt(ast, 0, mode)),
{
    match ast {
        Stmt::Expr(e) => {
            lemma_compile_expr_jumps(e, 0);
        },
    }
}

/// The bytecode compiler: a single depth-first walk of the tree,
/// appending to a growing instruction sequence and backpatching the two
/// jumps of each ternary once their targets are known.
pub struct Compiler {
    code: Vec<OpCode>,
}

impl View for Compiler {
    type V = Seq<OpCode>;

    closed spec fn view(&self) -> Seq<OpCode> {
        self.code@
    }
}

impl Compiler {
    /// A fresh compiler with an empty instruction sequence.
    pub fn new() -> (r: Compiler)
        ensures
            r@ == Seq::<OpCode>::empty(),
    {
        Compiler { code: Vec::new() }
    }

    /// Lower a statement in `Discard` mode: evaluate for effect, then
    /// discard the value with a trailing `Pop`.  Compilation never
    /// fails; the instructions are appended to this compiler's sequence
    /// and the whole sequence is returned.
    pub fn compile_stmt(&mut self, stmt: Stmt) -> (r: Result<Vec<OpCode>, CompileError>)
        ensures
            final(self)@ == old(self)@ + spec_compile_stmt(stmt, old(self)@.len() as int, CompileMode::Discard),
            r matches Ok(v) && v@ == final(self)@,
    {
        self.compile_stmt_mode(stmt, CompileMode::Discard)
    }

    /// Lower a statement in the given mode.
    pub fn compile_stmt_mode(&mut self, stmt: Stmt, mode: CompileMode) -> (r: Result<
        Vec<OpCode>,
        CompileError,
    >)
        ensures
            final(self)@ == old(self)@ + spec_compile_stmt(stmt, old(self)@.len() as int, mode),
            r matches Ok(v) && v@ == final(self)@,
    {
        match stmt {
            Stmt::Expr(expr) => {
                self.compile_expr(&expr);
                if mode == CompileMode::Discard {
                    self.code.push(OpCode::Pop);
                }
            },
        }
        Ok(self.code.clone())
    }

    fn compile_expr(&mut self, e: &Expr)
        ensures
            final(self)@ == old(self)@ + spec_compile_expr(*e, old(self)@.len() as int),
        decreases *e,
    {
        match e {
            Expr::Int(n) => {
                self.code.push(OpCode::Push(TinyObject::Int(*n)));
            },
            Expr::Bool(b) => {
                self.code.push(OpCode::Push(TinyObject::Bool(*b)));
            },
            Expr::Float(u) => {
                self.code.push(OpCode::Push(TinyObject::Float(*u)));
            },
            Expr::BinOp(op) => match &**op {
                BinaryOperation::Add { left, right } => {
                    self.compile_expr(left);
                    self.compile_expr(right);
                    self.code.push(OpCode::Add);
                    assert(self@ =~= old(self)@ + spec_compile_expr(*e, old(self)@.len() as int));
                },
            },
            Expr::If { cond, thn, els } => {
                self.compile_expr(cond);
                let jump_if_false_pos = self.code.len();
                self.code.push(OpCode::JumpIfFalse(0));
                self.compile_expr(thn);
                let jump_pos = self.code.len();
                self.code.push(OpCode::Jump(0));
                let else_start = self.code.len();
                self.compile_expr(els);
                let end = self.code.len();
                self.code.set(jump_if_false_pos, OpCode::JumpIfFalse(else_start));
                self.code.set(jump_pos, OpCode::Jump(end));
                assert(self@ =~= old(self)@ + spec_compile_expr(*e, old(self)@.len() as int));
            },
        }
    }
}

} // verus!
