use tiny::compiler::{CompileMode, Compiler};
use tiny::opcode::OpCode;
use tiny::parser::Parser;
use tiny::tiny_object::TinyObject;
use tiny::tokenizer::{float_literals, resolve_tokens, Tokenizer};
use tiny::vm::{jumps_forward, RunOutcome, RuntimeError, VM};

fn obj_f32(o: TinyObject) -> f32 {
    match o {
        TinyObject::Int(i) => i as f32,
        TinyObject::Float(u) => f32::from_bits(u),
        TinyObject::Bool(_) => panic!("a bool operand never awaits a sum"),
    }
}

fn drive(vm: &mut VM) -> RunOutcome {
    let mut out = vm.run();
    loop {
        match out {
            RunOutcome::AwaitingAdd(a, b) => {
                let sum = obj_f32(a) + obj_f32(b);
                out = vm.resume(sum.to_bits());
            }
            other => return other,
        }
    }
}

fn compile_source(src: &str, mode: CompileMode) -> Vec<OpCode> {
    let raw = Tokenizer::tokenize(src).expect("tokenize");
    let bits: Vec<u32> = float_literals(&raw)
        .iter()
        .map(|lex| lex.parse::<f32>().expect("float lexeme").to_bits())
        .collect();
    let toks = resolve_tokens(&raw, &bits).expect("float count");
    let ast = Parser::new(toks).parse().expect("parse");
    Compiler::new().compile_stmt_mode(ast, mode).expect("compile")
}

#[test]
fn run_mixed_addition_promotes_to_float() {
    let code = vec![
        OpCode::Push(TinyObject::Int(3)),
        OpCode::Push(TinyObject::Float(2.5f32.to_bits())),
        OpCode::Add,
    ];
    let mut vm = VM::new(code);
    let out = drive(&mut vm);
    assert_eq!(
        out,
        RunOutcome::Finished(Some(TinyObject::Float(5.5f32.to_bits())))
    );
}

#[test]
fn run_awaits_the_embedding_for_float_sums() {
    let code = vec![
        OpCode::Push(TinyObject::Int(3)),
        OpCode::Push(TinyObject::Float(2.5f32.to_bits())),
        OpCode::Add,
    ];
    let mut vm = VM::new(code);
    assert_eq!(
        vm.run(),
        RunOutcome::AwaitingAdd(TinyObject::Int(3), TinyObject::Float(2.5f32.to_bits()))
    );
    // Asking again without the sum reports the same pending addition.
    assert_eq!(
        vm.run(),
        RunOutcome::AwaitingAdd(TinyObject::Int(3), TinyObject::Float(2.5f32.to_bits()))
    );
    assert_eq!(
        vm.resume(5.5f32.to_bits()),
        RunOutcome::Finished(Some(TinyObject::Float(5.5f32.to_bits())))
    );
}

#[test]
fn run_pop_on_empty_stack_underflows() {
    let mut vm = VM::new(vec![OpCode::Pop]);
    assert_eq!(vm.run(), RunOutcome::Failed(RuntimeError::StackUnderflow));
}

#[test]
fn run_add_underflows_and_rejects_bools() {
    let mut vm = VM::new(vec![OpCode::Add]);
    assert_eq!(vm.run(), RunOutcome::Failed(RuntimeError::StackUnderflow));
    let mut vm = VM::new(vec![
        OpCode::Push(TinyObject::Bool(true)),
        OpCode::Push(TinyObject::Int(1)),
        OpCode::Add,
    ]);
    assert_eq!(vm.run(), RunOutcome::Failed(RuntimeError::InvalidOperation));
}

#[test]
fn run_jump_if_false_out_of_bounds() {
    let mut vm = VM::new(vec![OpCode::JumpIfFalse(99)]);
    vm.stack.push(TinyObject::Bool(false));
    assert_eq!(vm.run(), RunOutcome::Failed(RuntimeError::InvalidJump));
}

#[test]
fn run_jump_if_false_true_path_skips_bounds_check() {
    // A truthy condition advances without looking at the target.
    let mut vm = VM::new(vec![OpCode::JumpIfFalse(99)]);
    vm.stack.push(TinyObject::Bool(true));
    assert_eq!(vm.run(), RunOutcome::Finished(None));
}

#[test]
fn run_jump_out_of_bounds() {
    let mut vm = VM::new(vec![OpCode::Jump(99)]);
    assert_eq!(vm.run(), RunOutcome::Failed(RuntimeError::InvalidJump));
}

#[test]
fn run_jump_to_length_terminates() {
    let mut vm = VM::new(vec![OpCode::Jump(1)]);
    assert_eq!(vm.run(), RunOutcome::Finished(None));
}

#[test]
fn run_float_condition_is_invalid() {
    let mut vm = VM::new(vec![OpCode::JumpIfFalse(2)]);
    vm.stack.push(TinyObject::Float(1.0f32.to_bits()));
    assert_eq!(vm.run(), RunOutcome::Failed(RuntimeError::InvalidOperation));
}

#[test]
fn run_int_condition_truthiness() {
    let code = compile_source("1 ? 10 : 20", CompileMode::Yield);
    let mut vm = VM::new(code);
    assert_eq!(drive(&mut vm), RunOutcome::Finished(Some(TinyObject::Int(10))));
    let code = compile_source("0 ? 10 : 20", CompileMode::Yield);
    let mut vm = VM::new(code);
    assert_eq!(drive(&mut vm), RunOutcome::Finished(Some(TinyObject::Int(20))));
    let code = compile_source("-3 ? 10 : 20", CompileMode::Yield);
    let mut vm = VM::new(code);
    assert_eq!(drive(&mut vm), RunOutcome::Finished(Some(TinyObject::Int(20))));
}

#[test]
fn run_int_addition_wraps_around() {
    let mut vm = VM::new(vec![
        OpCode::Push(TinyObject::Int(i32::MAX)),
        OpCode::Push(TinyObject::Int(1)),
        OpCode::Add,
    ]);
    assert_eq!(
        vm.run(),
        RunOutcome::Finished(Some(TinyObject::Int(i32::MIN)))
    );
}

#[test]
fn discard_mode_leaves_no_result() {
    let code = compile_source("1 + 2", CompileMode::Discard);
    let mut vm = VM::new(code);
    assert_eq!(drive(&mut vm), RunOutcome::Finished(None));
}

#[test]
fn yield_mode_keeps_the_value() {
    let code = compile_source("1 + 2", CompileMode::Yield);
    let mut vm = VM::new(code);
    assert_eq!(drive(&mut vm), RunOutcome::Finished(Some(TinyObject::Int(3))));
}

#[test]
fn end_to_end_float_promotion() {
    let code = compile_source("1 + 2.5 + 3", CompileMode::Yield);
    let mut vm = VM::new(code);
    assert_eq!(
        drive(&mut vm),
        RunOutcome::Finished(Some(TinyObject::Float(6.5f32.to_bits())))
    );
}

#[test]
fn end_to_end_nested_ternary() {
    let code = compile_source("false ? 1 : true ? 2 : 3", CompileMode::Yield);
    assert!(jumps_forward(&code));
    let mut vm = VM::new(code);
    assert_eq!(drive(&mut vm), RunOutcome::Finished(Some(TinyObject::Int(2))));
}

#[test]
fn step_drives_arbitrary_programs() {
    // `step` is total: it executes even code whose jumps go backward,
    // one instruction per call.
    let mut vm = VM::new(vec![OpCode::Jump(0)]);
    assert_eq!(vm.step(), RunOutcome::Running);
    assert_eq!(vm.step(), RunOutcome::Running);
    let mut vm = VM::new(vec![OpCode::Push(TinyObject::Int(1))]);
    assert_eq!(vm.step(), RunOutcome::Running);
    assert_eq!(vm.step(), RunOutcome::Finished(Some(TinyObject::Int(1))));
}

#[test]
fn pipeline_is_idempotent() {
    let src = "true ? 1.5 + 2 : 0.5";
    let first = compile_source(src, CompileMode::Discard);
    let second = compile_source(src, CompileMode::Discard);
    assert_eq!(first, second);
    let raw1 = Tokenizer::tokenize(src).expect("tokenize");
    let raw2 = Tokenizer::tokenize(src).expect("tokenize");
    assert_eq!(raw1, raw2);
    let toks1 = resolve_tokens(&raw1, &vec![1.5f32.to_bits(), 0.5f32.to_bits()]).expect("resolve");
    let ast1 = Parser::new(toks1.clone()).parse().expect("parse");
    let ast2 = Parser::new(toks1).parse().expect("parse");
    assert_eq!(ast1, ast2);
}
