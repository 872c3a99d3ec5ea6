use tiny::ast::{BinaryOperation, Expr, Stmt};
use tiny::compiler::{compile_error_to_message, CompileError, CompileMode, Compiler};
use tiny::opcode::OpCode;
use tiny::parser::{parse_error_to_message, ParseError, Parser};
use tiny::tiny_object::TinyObject;
use tiny::tiny_type::TinyType;
use tiny::token::{token_to_string, RawToken, Token};
use tiny::tokenizer::{
    float_literals, resolve_tokens, tokenize_error_to_message, TokenizeError, Tokenizer,
};
use tiny::typechecker::{typecheck_error_to_message, TypeCheckError, TypeChecker};

fn resolve(src: &str) -> Vec<Token> {
    let raw = Tokenizer::tokenize(src).expect("tokenize");
    let bits: Vec<u32> = float_literals(&raw)
        .iter()
        .map(|lex| lex.parse::<f32>().expect("float lexeme").to_bits())
        .collect();
    resolve_tokens(&raw, &bits).expect("float count")
}

fn parse_source(src: &str) -> Stmt {
    Parser::new(resolve(src)).parse().expect("parse")
}

fn int_lit(n: i32) -> Expr {
    Expr::Int(n)
}

fn add(l: Expr, r: Expr) -> Expr {
    Expr::BinOp(Box::new(BinaryOperation::Add {
        left: Box::new(l),
        right: Box::new(r),
    }))
}

fn ternary(c: Expr, t: Expr, e: Expr) -> Expr {
    Expr::If {
        cond: Box::new(c),
        thn: Box::new(t),
        els: Box::new(e),
    }
}

#[test]
fn tokenize_int_literal_alone() {
    assert_eq!(
        Tokenizer::tokenize("42"),
        Ok(vec![RawToken::LiteralInt(42)])
    );
    assert_eq!(
        Tokenizer::tokenize("-7"),
        Ok(vec![RawToken::LiteralInt(-7)])
    );
    assert_eq!(
        Tokenizer::tokenize("-2147483648"),
        Ok(vec![RawToken::LiteralInt(i32::MIN)])
    );
    assert_eq!(
        Tokenizer::tokenize("2147483647"),
        Ok(vec![RawToken::LiteralInt(i32::MAX)])
    );
}

#[test]
fn tokenize_float_literal_alone() {
    assert_eq!(
        Tokenizer::tokenize("2.5"),
        Ok(vec![RawToken::LiteralFloat("2.5".to_string())])
    );
    assert_eq!(
        Tokenizer::tokenize("-0.125"),
        Ok(vec![RawToken::LiteralFloat("-0.125".to_string())])
    );
}

#[test]
fn tokenize_int_out_of_range() {
    assert_eq!(
        Tokenizer::tokenize("2147483648"),
        Err(TokenizeError::ParseIntError)
    );
    assert_eq!(
        Tokenizer::tokenize("-2147483649"),
        Err(TokenizeError::ParseIntError)
    );
}

#[test]
fn tokenize_malformed_numbers() {
    assert_eq!(Tokenizer::tokenize("-"), Err(TokenizeError::ParseIntError));
    assert_eq!(
        Tokenizer::tokenize("1.2.3"),
        Err(TokenizeError::ParseIntError)
    );
    assert_eq!(
        Tokenizer::tokenize("-."),
        Err(TokenizeError::ParseIntError)
    );
}

#[test]
fn tokenize_one_plus_two() {
    assert_eq!(
        Tokenizer::tokenize("1 + 2"),
        Ok(vec![
            RawToken::LiteralInt(1),
            RawToken::KeywordPlus,
            RawToken::LiteralInt(2),
        ])
    );
}

#[test]
fn tokenize_booleans_and_keywords() {
    assert_eq!(
        Tokenizer::tokenize("true false"),
        Ok(vec![
            RawToken::LiteralBool(true),
            RawToken::LiteralBool(false),
        ])
    );
    assert_eq!(
        Tokenizer::tokenize("maybe"),
        Err(TokenizeError::UnexpectedKeyword("maybe".to_string()))
    );
}

#[test]
fn tokenize_unexpected_character() {
    assert_eq!(
        Tokenizer::tokenize("\u{20AC}"),
        Err(TokenizeError::UnexpectedCharacter('\u{20AC}'))
    );
}

#[test]
fn tokenize_skips_whitespace() {
    assert_eq!(
        Tokenizer::tokenize("  true\t?\n1 : 2  "),
        Ok(vec![
            RawToken::LiteralBool(true),
            RawToken::KeywordQuestion,
            RawToken::LiteralInt(1),
            RawToken::KeywordColon,
            RawToken::LiteralInt(2),
        ])
    );
    assert_eq!(Tokenizer::tokenize(""), Ok(vec![]));
}

#[test]
fn resolve_pairs_floats_with_bits() {
    let raw = Tokenizer::tokenize("1.5 + 2").expect("tokenize");
    let lexemes = float_literals(&raw);
    assert_eq!(lexemes, vec!["1.5".to_string()]);
    let bits = vec![1.5f32.to_bits()];
    assert_eq!(
        resolve_tokens(&raw, &bits),
        Some(vec![
            Token::LiteralFloat(1.5f32.to_bits()),
            Token::KeywordPlus,
            Token::LiteralInt(2),
        ])
    );
    assert_eq!(resolve_tokens(&raw, &vec![]), None);
}

#[test]
fn parse_one_plus_two() {
    assert_eq!(
        parse_source("1 + 2"),
        Stmt::Expr(add(int_lit(1), int_lit(2)))
    );
}

#[test]
fn parse_ternary() {
    assert_eq!(
        parse_source("true ? 1 : 2"),
        Stmt::Expr(ternary(Expr::Bool(true), int_lit(1), int_lit(2)))
    );
}

#[test]
fn parse_addition_is_left_associative() {
    assert_eq!(
        parse_source("1 + 2 + 3"),
        Stmt::Expr(add(add(int_lit(1), int_lit(2)), int_lit(3)))
    );
}

#[test]
fn parse_ignores_trailing_tokens() {
    assert_eq!(parse_source("1 2"), Stmt::Expr(int_lit(1)));
}

#[test]
fn parse_empty_input_is_eof() {
    assert_eq!(
        Parser::new(vec![]).parse(),
        Err(ParseError::UnexpectedEOF)
    );
}

#[test]
fn parse_missing_colon() {
    let toks = resolve("1 ? 2 3");
    assert_eq!(
        Parser::new(toks).parse(),
        Err(ParseError::UnexpectedToken {
            expected: Some(Token::KeywordColon),
            actual: Token::LiteralInt(3),
        })
    );
}

#[test]
fn parse_operator_is_no_primary() {
    let toks = resolve("+");
    assert_eq!(
        Parser::new(toks).parse(),
        Err(ParseError::UnexpectedToken {
            expected: None,
            actual: Token::KeywordPlus,
        })
    );
}

#[test]
fn typecheck_addition_promotions() {
    let f = Expr::Float(1.0f32.to_bits());
    assert_eq!(
        TypeChecker::typecheck(&Stmt::Expr(add(int_lit(1), int_lit(2)))),
        Ok(TinyType::Int)
    );
    assert_eq!(
        TypeChecker::typecheck(&Stmt::Expr(add(f, int_lit(2)))),
        Ok(TinyType::Float)
    );
    assert_eq!(
        TypeChecker::typecheck(&Stmt::Expr(add(Expr::Bool(true), int_lit(2)))),
        Err(TypeCheckError::UndefinedOperation)
    );
}

#[test]
fn typecheck_ternary_rules() {
    assert_eq!(
        TypeChecker::typecheck(&Stmt::Expr(ternary(int_lit(1), int_lit(2), int_lit(3)))),
        Err(TypeCheckError::CondMustBeBool)
    );
    let f = Expr::Float(1.0f32.to_bits());
    assert_eq!(
        TypeChecker::typecheck(&Stmt::Expr(ternary(Expr::Bool(true), int_lit(1), f))),
        Err(TypeCheckError::TernaryReturnsTypeMustBeSame)
    );
    assert_eq!(
        TypeChecker::typecheck(&Stmt::Expr(ternary(Expr::Bool(true), int_lit(1), int_lit(2)))),
        Ok(TinyType::Int)
    );
}

#[test]
fn compile_ternary_backpatches_jumps() {
    let ast = Stmt::Expr(ternary(Expr::Bool(true), int_lit(1), int_lit(2)));
    let code = Compiler::new().compile_stmt(ast).expect("compile");
    assert_eq!(
        code,
        vec![
            OpCode::Push(TinyObject::Bool(true)),
            OpCode::JumpIfFalse(4),
            OpCode::Push(TinyObject::Int(1)),
            OpCode::Jump(5),
            OpCode::Push(TinyObject::Int(2)),
            OpCode::Pop,
        ]
    );
    for op in &code {
        match op {
            OpCode::JumpIfFalse(t) | OpCode::Jump(t) => assert!(*t <= code.len()),
            _ => {}
        }
    }
}

#[test]
fn compile_modes_differ_by_trailing_pop() {
    let discard = Compiler::new()
        .compile_stmt_mode(Stmt::Expr(int_lit(7)), CompileMode::Discard)
        .expect("compile");
    assert_eq!(
        discard,
        vec![OpCode::Push(TinyObject::Int(7)), OpCode::Pop]
    );
    let yielded = Compiler::new()
        .compile_stmt_mode(Stmt::Expr(int_lit(7)), CompileMode::Yield)
        .expect("compile");
    assert_eq!(yielded, vec![OpCode::Push(TinyObject::Int(7))]);
}

#[test]
fn error_messages() {
    assert_eq!(
        tokenize_error_to_message(TokenizeError::ParseIntError),
        "Failed to parse int"
    );
    assert_eq!(
        tokenize_error_to_message(TokenizeError::UnexpectedCharacter('x')),
        "Unexpected character: x"
    );
    assert_eq!(
        tokenize_error_to_message(TokenizeError::UnexpectedKeyword("nil".to_string())),
        "Unexpected keyword: nil"
    );
    assert_eq!(
        parse_error_to_message(ParseError::UnexpectedEOF),
        "unexpected end of input"
    );
    assert_eq!(
        parse_error_to_message(ParseError::UnexpectedToken {
            expected: None,
            actual: Token::LiteralInt(5),
        }),
        "[Unexpected Token] actual: 5"
    );
    assert_eq!(
        parse_error_to_message(ParseError::UnexpectedToken {
            expected: Some(Token::KeywordColon),
            actual: Token::KeywordPlus,
        }),
        "[Unexpected Token] expected: :, actual: +"
    );
    assert_eq!(
        typecheck_error_to_message(TypeCheckError::CondMustBeBool),
        "condition value must be bool"
    );
    assert_eq!(
        typecheck_error_to_message(TypeCheckError::TernaryReturnsTypeMustBeSame),
        "ternary return type must be same"
    );
    assert_eq!(
        typecheck_error_to_message(TypeCheckError::UndefinedOperation),
        "you are trying undefined operation"
    );
    assert_eq!(
        compile_error_to_message(CompileError::UnsupportedExpr),
        "unsupported expression encountered during compilation"
    );
}

#[test]
fn token_rendering() {
    assert_eq!(token_to_string(Token::KeywordColon), ":");
    assert_eq!(token_to_string(Token::KeywordPlus), "+");
    assert_eq!(token_to_string(Token::KeywordQuestion), "?");
    assert_eq!(token_to_string(Token::LiteralInt(-50)), "-50");
    assert_eq!(token_to_string(Token::LiteralInt(0)), "0");
    assert_eq!(token_to_string(Token::LiteralBool(true)), "true");
    assert_eq!(token_to_string(Token::LiteralBool(false)), "false");
    assert_eq!(
        token_to_string(Token::LiteralFloat(7)),
        "7"
    );
}
