use vstd::prelude::*;
use crate::opcode::OpCode;
use crate::tiny_object::TinyObject;

verus! {

/// The ways execution can fail.
#[derive(Debug, Clone, Copy, PartialEq, Eq, Structural)]
pub enum RuntimeError {
    StackUnderflow,
    InvalidJump,
    InvalidOperation,
}

/// A short human-readable description of a runtime error.
pub fn runtime_error_to_message(e: RuntimeError) -> (r: String)
    ensures
        e == RuntimeError::StackUnderflow ==> r@ == "Stack Underflow: not enough values on the stack"@,
        e == RuntimeError::InvalidJump ==> r@ == "Invalid Jump: jump target is out of bounds"@,
        e == RuntimeError::InvalidOperation ==> r@ == "Invalid Operation: the operand types do not support the operation"@,
{
    match e {
        RuntimeError::StackUnderflow => String::from_str(
            "Stack Underflow: not enough values on the stack",
        ),
        RuntimeError::InvalidJump => String::from_str("Invalid Jump: jump target is out of bounds"),
        RuntimeError::InvalidOperation => String::from_str(
            "Invalid Operation: the operand types do not support the operation",
        ),
    }
}

/// What a call into the virtual machine came back with.  `AwaitingAdd`
/// reports an addition with a float operand: the machine has popped the
/// two operands `(a, b)` (`a` was pushed first) and waits for the
/// embedding to hand it their sum through `VM::resume`.  `Running` is
/// only ever returned by `VM::step`: the instruction was executed and
/// more remain.
#[derive(Debug, Clone, Copy, PartialEq, Eq, Structural)]
pub enum RunOutcome {
    Finished(Option<TinyObject>),
    Failed(RuntimeError),
    AwaitingAdd(TinyObject, TinyObject),
    Running,
}

/// The mathematical state of the machine: the operand stack and the
/// program counter.
pub ghost struct VmState {
    pub stack: Seq<TinyObject>,
    pub pc: int,
}

/// What one fetch-dispatch step does to a state.
pub ghost enum SpecStep {
    Halt(Option<TinyObject>),
    Next(VmState),
    Await(VmState, TinyObject, TinyObject),
    Fault(RuntimeError),
}

/// Truthiness of a condition value: an `Int` is truthy iff positive, a
/// `Bool` iff `true`, and a `Float` is not a valid condition.
pub open spec fn spec_truthy(obj: TinyObject) -> Result<bool, RuntimeError> {
    match obj {
        TinyObject::Int(n) => Ok(n > 0),
        TinyObject::Bool(b) => Ok(b),
        TinyObject::Float(_) => Err(RuntimeError::InvalidOperation),
    }
}

/// `i32` addition with wrap-around: the sum reduced into the `i32`
/// range modulo `2^32`.
pub open spec fn spec_wrap_add_i32(x: int, y: int) -> int {
    if x + y > i32::MAX {
        x + y - 0x1_0000_0000
    } else if x + y < i32::MIN {
        x + y + 0x1_0000_0000
    } else {
        x + y
    }
}

/// The per-instruction semantics.  Halting happens exactly when the
/// program counter has left `[0, code length)`; the result is then the
/// top of the stack, unpopped, or `None` for an empty stack.  A faulting
/// step leaves the state as it was.
pub open spec fn spec_step(code: Seq<OpCode>, st: VmState) -> SpecStep {
    if !(0 <= st.pc < code.len()) {
        SpecStep::Halt(
            if st.stack.len() > 0 {
                Some(st.stack.last())
            } else {
                None
            },
        )
    } else {
        match code[st.pc] {
            OpCode::Push(obj) => SpecStep::Next(
                VmState { stack: st.stack.push(obj), pc: st.pc + 1 },
            ),
            OpCode::Add => if st.stack.len() < 2 {
                SpecStep::Fault(RuntimeError::StackUnderflow)
            } else {
                let b = st.stack[st.stack.len() - 1];
                let a = st.stack[st.stack.len() - 2];
                let rest = st.stack.subrange(0, st.stack.len() - 2);
                match (a, b) {
                    (TinyObject::Int(x), TinyObject::Int(y)) => SpecStep::Next(
                        VmState {
                            stack: rest.push(
                                TinyObject::Int(spec_wrap_add_i32(x as int, y as int) as i32),
                            ),
                            pc: st.pc + 1,
                        },
                    ),
                    (TinyObject::Bool(_), _) => SpecStep::Fault(RuntimeError::InvalidOperation),
                    (_, TinyObject::Bool(_)) => SpecStep::Fault(RuntimeError::InvalidOperation),
                    _ => SpecStep::Await(VmState { stack: rest, pc: st.pc }, a, b),
                }
            },
            OpCode::JumpIfFalse(t) => if st.stack.len() == 0 {
                SpecStep::Fault(RuntimeError::StackUnderflow)
            } else {
                match spec_truthy(st.stack.last()) {
                    Err(e) => SpecStep::Fault(e),
                    Ok(true) => SpecStep::Next(
                        VmState { stack: st.stack.drop_last(), pc: st.pc + 1 },
                    ),
                    Ok(false) => if t > code.len() {
                        SpecStep::Fault(RuntimeError::InvalidJump)
                    } else {
                        SpecStep::Next(VmState { stack: st.stack.drop_last(), pc: t as int })
                    },
                }
            },
            OpCode::Jump(t) => if t > code.len() {
                SpecStep::Fault(RuntimeError::InvalidJump)
            } else {
                SpecStep::Next(VmState { stack: st.stack, pc: t as int })
            },
            OpCode::Pop => if st.stack.len() == 0 {
                SpecStep::Fault(RuntimeError::StackUnderflow)
            } else {
                SpecStep::Next(VmState { stack: st.stack.drop_last(), pc: st.pc + 1 })
            },
        }
    }
}

/// A finished execution: the state it stopped in and what it came back
/// with.  For `Awaiting` the two operands are already popped.
pub ghost enum SpecOutcome {
    Finished(VmState, Option<TinyObject>),
    Failed(VmState, RuntimeError),
    Awaiting(VmState, TinyObject, TinyObject),
}

/// `fuel` steps of execution: either still running in some state, or
/// done with an outcome.
pub ghost enum SpecRun {
    Running(VmState),
    Done(SpecOutcome),
}

/// The state of execution after at most `fuel` steps from `st`.
pub open spec fn spec_run(code: Seq<OpCode>, st: VmState, fuel: nat) -> SpecRun
    decreases fuel,
{
    if fuel == 0 {
        SpecRun::Running(st)
    } else {
        match spec_step(code, st) {
            SpecStep::Halt(v) => SpecRun::Done(SpecOutcome::Finished(st, v)),
            SpecStep::Fault(e) => SpecRun::Done(SpecOutcome::Failed(st, e)),
            SpecStep::Await(st2, a, b) => SpecRun::Done(SpecOutcome::Awaiting(st2, a, b)),
            SpecStep::Next(st2) => spec_run(code, st2, (fuel - 1) as nat),
        }
    }
}

/// Unrolling one more step of `spec_run` from the back: `fuel + 1`
/// steps are `fuel` steps followed by one more step where still running.
pub proof fn lemma_spec_run_unroll_back(code: Seq<OpCode>, st: VmState, fuel: nat)
    ensures
        spec_run(code, st, (fuel + 1) as nat) == (match spec_run(code, st, fuel) {
            SpecRun::Done(o) => SpecRun::Done(o),
            SpecRun::Running(cur) => (match spec_step(code, cur) {
                SpecStep::Halt(v) => SpecRun::Done(SpecOutcome::Finished(cur, v)),
                SpecStep::Fault(e) => SpecRun::Done(SpecOutcome::Failed(cur, e)),
                SpecStep::Await(st2, a, b) => SpecRun::Done(SpecOutcome::Awaiting(st2, a, b)),
                SpecStep::Next(st2) => SpecRun::Running(st2),
            }),
        }),
    decreases fuel,
{
    if fuel == 0 {
        match spec_step(code, st) {
            SpecStep::Next(st2) => {
                assert(spec_run(code, st2, 0) == SpecRun::Running(st2));
            },
            _ => {},
        }
    } else {
        match spec_step(code, st) {
            SpecStep::Next(st2) => {
                lemma_spec_run_unroll_back(code, st2, (fuel - 1) as nat);
            },
            _ => {},
        }
    }
}

/// Whether every jump in `code` goes strictly forward.  The language
/// has no loops, and compiled programs only ever jump forward (see
/// `compiler::lemma_compiled_jumps_forward`), so execution of such code
/// always terminates; `VM::run` asks for this.  Arbitrary code can
/// still be driven one instruction at a time with `VM::step`.
pub open spec fn spec_jumps_forward(code: Seq<OpCode>) -> bool {
    forall|i: int|
        0 <= i < code.len() ==> match #[trigger] code[i] {
            OpCode::JumpIfFalse(t) => i < t,
            OpCode::Jump(t) => i < t,
            _ => true,
        }
}

/// Decide `spec_jumps_forward` for a concrete program.
pub fn jumps_forward(code: &Vec<OpCode>) -> (b: bool)
    ensures
        b == spec_jumps_forward(code@),
{
    let mut i: usize = 0;
    while i < code.len()
        invariant
            i <= code@.len(),
            forall|j: int|
                0 <= j < i ==> match #[trigger] code@[j] {
                    OpCode::JumpIfFalse(t) => j < t,
                    OpCode::Jump(t) => j < t,
                    _ => true,
                },
        decreases code@.len() - i,
    {
        match code[i] {
            OpCode::JumpIfFalse(t) => if t <= i {
                return false;
            },
            OpCode::Jump(t) => if t <= i {
                return false;
            },
            _ => {},
        }
        i = i + 1;
    }
    true
}

/// Whether a `run` or `resume` result is what the small-step semantics
/// prescribes for a start state `st0`: some number of steps reaches
/// exactly the reported outcome, with the machine left in the matching
/// state, and the awaiting flag set exactly for a pending addition.
pub open spec fn spec_run_matches(
    code: Seq<OpCode>,
    st0: VmState,
    r: RunOutcome,
    fin: VmState,
    fin_awaiting: Option<(TinyObject, TinyObject)>,
) -> bool {
    match r {
        RunOutcome::Finished(v) => fin_awaiting is None && exists|n: nat|
            spec_run(code, st0, n) == SpecRun::Done(SpecOutcome::Finished(fin, v)),
        RunOutcome::Failed(e) => fin_awaiting is None && exists|n: nat|
            spec_run(code, st0, n) == SpecRun::Done(SpecOutcome::Failed(fin, e)),
        RunOutcome::AwaitingAdd(a, b) => fin_awaiting == Some((a, b)) && exists|n: nat|
            spec_run(code, st0, n) == SpecRun::Done(SpecOutcome::Awaiting(fin, a, b)),
        RunOutcome::Running => false,
    }
}

/// The stack machine.  The operand stack is public, as callers may seed
/// it before a run; the program and counter are fixed at construction
/// and advance only through `step`, `run` and `resume`.
pub struct VM {
    pub stack: Vec<TinyObject>,
    pc: usize,
    code: Vec<OpCode>,
    awaiting: Option<(TinyObject, TinyObject)>,
}

impl VM {
    /// The program this machine executes.
    pub closed spec fn code_view(&self) -> Seq<OpCode> {
        self.code@
    }

    /// The program counter.
    pub closed spec fn pc_at(&self) -> int {
        self.pc as int
    }

    /// The pending addition, if the machine is waiting for a float sum.
    pub closed spec fn awaiting_at(&self) -> Option<(TinyObject, TinyObject)> {
        self.awaiting
    }

    /// The machine's mathematical state.
    pub closed spec fn state(&self) -> VmState {
        VmState { stack: self.stack@, pc: self.pc_at() }
    }

    /// The counter stays within `[0, code length]`, and strictly below
    /// the length while an addition is pending.
    pub open spec fn wf(&self) -> bool {
        self.pc_at() <= self.code_view().len() && (self.awaiting_at() is Some
            ==> self.pc_at() < self.code_view().len())
    }

    /// A machine at the start of the given program, with an empty stack.
    pub fn new(code: Vec<OpCode>) -> (r: VM)
        ensures
            r.state() == (VmState { stack: Seq::<TinyObject>::empty(), pc: 0 }),
            r.code_view() == code@,
            r.awaiting_at() is None,
            r.wf(),
    {
        VM { stack: Vec::new(), pc: 0, code, awaiting: None }
    }

    /// Execute one instruction (or report the halt), exactly as
    /// `spec_step` prescribes.  Total: any program, any stack.
    pub fn step(&mut self) -> (r: RunOutcome)
        requires
            old(self).wf(),
            old(self).awaiting_at() is None,
        ensures
            final(self).wf(),
            final(self).code_view() == old(self).code_view(),
            (match spec_step(old(self).code_view(), old(self).state()) {
                SpecStep::Halt(v) => r == RunOutcome::Finished(v)
                    && final(self).state() == old(self).state()
                    && final(self).awaiting_at() is None,
                SpecStep::Fault(e) => r == RunOutcome::Failed(e)
                    && final(self).state() == old(self).state()
                    && final(self).awaiting_at() is None,
                SpecStep::Await(st2, a, b) => r == RunOutcome::AwaitingAdd(a, b)
                    && final(self).state() == st2
                    && final(self).awaiting_at() == Some((a, b)),
                SpecStep::Next(st2) => r == RunOutcome::Running && final(self).state() == st2
                    && final(self).awaiting_at() is None,
            }),
    {
        let pc = self.pc;
        if pc >= self.code.len() {
            let v = if self.stack.len() > 0 {
                Some(self.stack[self.stack.len() - 1])
            } else {
                None
            };
            return RunOutcome::Finished(v);
        }
        let op = self.code[pc];
        match op {
            OpCode::Push(obj) => {
                self.stack.push(obj);
                self.pc = pc + 1;
                RunOutcome::Running
            },
            OpCode::Add => {
                let len = self.stack.len();
                if len < 2 {
                    return RunOutcome::Failed(RuntimeError::StackUnderflow);
                }
                let b = self.stack[len - 1];
                let a = self.stack[len - 2];
                match (a, b) {
                    (TinyObject::Int(x), TinyObject::Int(y)) => {
                        self.stack.pop();
                        self.stack.pop();
                        let s: i64 = x as i64 + y as i64;
                        let sum: i32 = if s > (i32::MAX as i64) {
                            (s - 0x1_0000_0000i64) as i32
                        } else if s < (i32::MIN as i64) {
                            (s + 0x1_0000_0000i64) as i32
                        } else {
                            s as i32
                        };
                        self.stack.push(TinyObject::Int(sum));
                        self.pc = pc + 1;
                        assert(self.stack@ =~= old(self).stack@.subrange(
                            0,
                            old(self).stack@.len() - 2,
                        ).push(TinyObject::Int(sum)));
                        RunOutcome::Running
                    },
                    (TinyObject::Bool(_), _) | (_, TinyObject::Bool(_)) => RunOutcome::Failed(
                        RuntimeError::InvalidOperation,
                    ),
                    _ => {
                        self.stack.pop();
                        self.stack.pop();
                        self.awaiting = Some((a, b));
                        assert(self.stack@ =~= old(self).stack@.subrange(
                            0,
                            old(self).stack@.len() - 2,
                        ));
                        RunOutcome::AwaitingAdd(a, b)
                    },
                }
            },
            OpCode::JumpIfFalse(t) => {
                if self.stack.len() == 0 {
                    return RunOutcome::Failed(RuntimeError::StackUnderflow);
                }
                let c = self.stack[self.stack.len() - 1];
                match Self::evaluate_condition(c) {
                    Err(e) => RunOutcome::Failed(e),
                    Ok(true) => {
                        self.stack.pop();
                        self.pc = pc + 1;
                        RunOutcome::Running
                    },
                    Ok(false) => {
                        if t > self.code.len() {
                            return RunOutcome::Failed(RuntimeError::InvalidJump);
                        }
                        self.stack.pop();
                        self.pc = t;
                        RunOutcome::Running
                    },
                }
            },
            OpCode::Jump(t) => {
                if t > self.code.len() {
                    return RunOutcome::Failed(RuntimeError::InvalidJump);
                }
                self.pc = t;
                RunOutcome::Running
            },
            OpCode::Pop => {
                if self.stack.len() == 0 {
                    return RunOutcome::Failed(RuntimeError::StackUnderflow);
                }
                self.stack.pop();
                self.pc = pc + 1;
                RunOutcome::Running
            },
        }
    }

    /// Run to the next halt, fault or pending addition.  The program's
    /// jumps must all go forward — true of every compiled program — so
    /// that execution provably terminates.
    pub fn run(&mut self) -> (r: RunOutcome)
        requires
            old(self).wf(),
            spec_jumps_forward(old(self).code_view()),
        ensures
            final(self).wf(),
            final(self).code_view() == old(self).code_view(),
            (match old(self).awaiting_at() {
                Some((a, b)) => r == RunOutcome::AwaitingAdd(a, b)
                    && final(self).state() == old(self).state()
                    && final(self).awaiting_at() == old(self).awaiting_at(),
                None => spec_run_matches(
                    old(self).code_view(),
                    old(self).state(),
                    r,
                    final(self).state(),
                    final(self).awaiting_at(),
                ),
            }),
    {
        match self.awaiting {
            Some((a, b)) => RunOutcome::AwaitingAdd(a, b),
            None => self.run_loop(),
        }
    }

    /// Continue after `AwaitingAdd(a, b)`: the embedding hands in the
    /// bit pattern of the float sum of `a` and `b`, which is pushed in
    /// their place, and execution resumes.  Called without a pending
    /// addition, it simply runs.
    pub fn resume(&mut self, sum: u32) -> (r: RunOutcome)
        requires
            old(self).wf(),
            spec_jumps_forward(old(self).code_view()),
        ensures
            final(self).wf(),
            final(self).code_view() == old(self).code_view(),
            (match old(self).awaiting_at() {
                Some(_) => spec_run_matches(
                    old(self).code_view(),
                    VmState {
                        stack: old(self).state().stack.push(TinyObject::Float(sum)),
                        pc: old(self).state().pc + 1,
                    },
                    r,
                    final(self).state(),
                    final(self).awaiting_at(),
                ),
                None => spec_run_matches(
                    old(self).code_view(),
                    old(self).state(),
                    r,
                    final(self).state(),
                    final(self).awaiting_at(),
                ),
            }),
    {
        match self.awaiting {
            Some(_) => {
                proof {
                    assert(old(self).awaiting_at() is Some);
                    assert(old(self).pc_at() < old(self).code_view().len());
                }
                self.awaiting = None;
                self.stack.push(TinyObject::Float(sum));
                let len = self.code.len();
                assert(self.pc < len);
                self.pc = self.pc + 1;
                self.run_loop()
            },
            None => self.run_loop(),
        }
    }

    fn run_loop(&mut self) -> (r: RunOutcome)
        requires
            old(self).wf(),
            old(self).awaiting_at() is None,
            spec_jumps_forward(old(self).code_view()),
        ensures
            final(self).wf(),
            final(self).code_view() == old(self).code_view(),
            spec_run_matches(
                old(self).code_view(),
                old(self).state(),
                r,
                final(self).state(),
                final(self).awaiting_at(),
            ),
    {
        let ghost code = self.code@;
        let ghost st0 = self.state();
        let ghost mut n: nat = 0;
        loop
            invariant
                code == old(self).code_view(),
                st0 == old(self).state(),
                self.wf(),
                self.awaiting_at() is None,
                self.code_view() == code,
                spec_jumps_forward(code),
                spec_run(code, st0, n) == SpecRun::Running(self.state()),
            decreases code.len() - self.pc_at(),
        {
            let ghost prev = self.state();
            let step_r = self.step();
            proof {
                lemma_spec_run_unroll_back(code, st0, n);
                n = n + 1;
            }
            match step_r {
                RunOutcome::Running => {
                    proof {
                        // A forward jump, or a plain advance: the counter grew.
                        assert(spec_step(code, prev) == SpecStep::Next(self.state()));
                        assert(prev.pc < self.state().pc);
                    }
                },
                RunOutcome::Finished(v) => {
                    assert(spec_run(code, st0, n) == SpecRun::Done(
                        SpecOutcome::Finished(self.state(), v),
                    ));
                    return RunOutcome::Finished(v);
                },
                RunOutcome::Failed(e) => {
                    assert(spec_run(code, st0, n) == SpecRun::Done(
                        SpecOutcome::Failed(self.state(), e),
                    ));
                    return RunOutcome::Failed(e);
                },
                RunOutcome::AwaitingAdd(a, b) => {
                    assert(spec_run(code, st0, n) == SpecRun::Done(
                        SpecOutcome::Awaiting(self.state(), a, b),
                    ));
                    return RunOutcome::AwaitingAdd(a, b);
                },
            }
        }
    }

    fn evaluate_condition(obj: TinyObject) -> (r: Result<bool, RuntimeError>)
        ensures
            r == spec_truthy(obj),
    {
        match obj {
            TinyObject::Int(n) => Ok(n > 0),
            TinyObject::Bool(b) => Ok(b),
            TinyObject::Float(_) => Err(RuntimeError::InvalidOperation),
        }
    }
}

} // verus!
