use vstd::prelude::*;
use vstd::string::StringExecFns;
use crate::ast::{BinaryOperation, Expr, Stmt};
use crate::token::{spec_token_string, token_to_string, Token};

verus! {

/// The ways parsing can fail.  `expected` is `None` when several token
/// kinds would have been acceptable (any literal).
#[derive(Debug, Clone, Copy, PartialEq, Eq, Structural)]
pub enum ParseError {
    UnexpectedEOF,
    UnexpectedToken { expected: Option<Token>, actual: Token },
}

/// A short human-readable description of a parse error, naming the
/// tokens involved.
pub fn parse_error_to_message(e: ParseError) -> (r: String)
    ensures
        e == ParseError::UnexpectedEOF ==> r@ == "unexpected end of input"@,
        e matches ParseError::UnexpectedToken { expected: None, actual } ==> r@
            == "[Unexpected Token] actual: "@ + spec_token_string(actual),
        e matches ParseError::UnexpectedToken { expected: Some(exp), actual } ==> r@
            == "[Unexpected Token] expected: "@ + spec_token_string(exp) + ", actual: "@
            + spec_token_string(actual),
{
    match e {
        ParseError::UnexpectedEOF => String::from_str("unexpected end of input"),
        ParseError::UnexpectedToken { expected: None, actual } => {
            let mut out = String::from_str("[Unexpected Token] actual: ");
            let shown = token_to_string(actual);
            out.append(shown.as_str());
            out
        },
        ParseError::UnexpectedToken { expected: Some(exp), actual } => {
            let mut out = String::from_str("[Unexpected Token] expected: ");
            let shown_exp = token_to_string(exp);
            out.append(shown_exp.as_str());
            out.append(", actual: ");
            let shown_act = token_to_string(actual);
            out.append(shown_act.as_str());
            out
        },
    }
}

/// A left-leaning addition node.
pub open spec fn spec_mk_add(left: Expr, right: Expr) -> Expr {
    Expr::BinOp(Box::new(BinaryOperation::Add { left: Box::new(left), right: Box::new(right) }))
}

/// `primary := IntLiteral | FloatLiteral | BoolLiteral`: one literal
/// token, or the error the grammar prescribes.
pub open spec fn spec_parse_primary(ts: Seq<Token>, pos: int) -> Result<(Expr, int), ParseError> {
    if 0 <= pos < ts.len() {
        match ts[pos] {
            Token::LiteralInt(n) => Ok((Expr::Int(n), pos + 1)),
            Token::LiteralBool(b) => Ok((Expr::Bool(b), pos + 1)),
            Token::LiteralFloat(u) => Ok((Expr::Float(u), pos + 1)),
            t => Err(ParseError::UnexpectedToken { expected: None, actual: t }),
        }
    } else {
        Err(ParseError::UnexpectedEOF)
    }
}

/// The iterated part of `add_expr := primary ( "+" primary )*`, folding
/// further operands onto `acc` from the left.
pub open spec fn spec_parse_add_tail(ts: Seq<Token>, pos: int, acc: Expr) -> Result<
    (Expr, int),
    ParseError,
>
    decreases ts.len() - pos,
{
    if 0 <= pos < ts.len() && ts[pos] == Token::KeywordPlus {
        match spec_parse_primary(ts, pos + 1) {
            Err(e) => Err(e),
            Ok((rhs, p2)) => spec_parse_add_tail(ts, p2, spec_mk_add(acc, rhs)),
        }
    } else {
        Ok((acc, pos))
    }
}

/// `add_expr := primary ( "+" primary )*`, left-associative.
pub open spec fn spec_parse_add(ts: Seq<Token>, pos: int) -> Result<(Expr, int), ParseError> {
    match spec_parse_primary(ts, pos) {
        Err(e) => Err(e),
        Ok((first, p)) => spec_parse_add_tail(ts, p, first),
    }
}

/// A position forced into `[lo, hi]`.  The parser only ever moves
/// forward, so the uses below never actually move a position (see
/// `lemma_parse_expr_bounds`); the bound makes the recursion of
/// `spec_parse_expr` visibly well-founded.
pub open spec fn spec_clamp(p: int, lo: int, hi: int) -> int {
    if p < lo {
        lo
    } else if p > hi {
        hi
    } else {
        p
    }
}

/// `expr := add_expr ( "?" expr ":" expr )?`: the ternary is recognized
/// only when a `?` immediately follows a parsed `add_expr`, and is
/// right-associative.  A missing `:` gives `UnexpectedToken`; a missing
/// branch gives the error of the sub-parse, or `UnexpectedEOF` at the
/// end of input.
pub open spec fn spec_parse_expr(ts: Seq<Token>, pos: int) -> Result<(Expr, int), ParseError>
    decreases ts.len() - pos,
{
    if !(0 <= pos < ts.len()) {
        Err(ParseError::UnexpectedEOF)
    } else {
        match spec_parse_add(ts, pos) {
            Err(e) => Err(e),
            Ok((cond, p1r)) => {
                let p1 = spec_clamp(p1r, pos + 1, ts.len() as int);
                if p1 < ts.len() && ts[p1] == Token::KeywordQuestion {
                    match spec_parse_expr(ts, p1 + 1) {
                        Err(e) => Err(e),
                        Ok((thn, p2r)) => {
                            let p2 = spec_clamp(p2r, p1 + 1, ts.len() as int);
                            if p2 < ts.len() {
                                if ts[p2] == Token::KeywordColon {
                                    match spec_parse_expr(ts, p2 + 1) {
                                        Err(e) => Err(e),
                                        Ok((els, p3)) => Ok(
                                            (
                                                Expr::If {
                                                    cond: Box::new(cond),
                                                    thn: Box::new(thn),
                                                    els: Box::new(els),
                                                },
                                                p3,
                                            ),
                                        ),
                                    }
                                } else {
                                    Err(ParseError::UnexpectedToken {
                                        expected: Some(Token::KeywordColon),
                                        actual: ts[p2],
                                    })
                                }
                            } else {
                                Err(ParseError::UnexpectedEOF)
                            }
                        },
                    }
                } else {
                    Ok((cond, p1r))
                }
            },
        }
    }
}

/// `stmt := expr`: the statement wraps the expression; trailing tokens
/// are left unconsumed and are not an error.
pub open spec fn spec_parse(ts: Seq<Token>, pos: int) -> Result<Stmt, ParseError> {
    match spec_parse_expr(ts, pos) {
        Ok((e, _)) => Ok(Stmt::Expr(e)),
        Err(e) => Err(e),
    }
}

/// A successful sub-parse always consumes at least one token and never
/// runs past the end of the input.
pub proof fn lemma_parse_add_tail_bounds(ts: Seq<Token>, pos: int, acc: Expr)
    requires
        0 <= pos <= ts.len(),
    ensures
        spec_parse_add_tail(ts, pos, acc) matches Ok((e, p)) ==> pos <= p <= ts.len(),
    decreases ts.len() - pos,
{
    if 0 <= pos < ts.len() && ts[pos] == Token::KeywordPlus {
        match spec_parse_primary(ts, pos + 1) {
            Err(_) => {},
            Ok((rhs, p2)) => {
                lemma_parse_add_tail_bounds(ts, p2, spec_mk_add(acc, rhs));
            },
        }
    }
}

/// As `lemma_parse_add_tail_bounds`, for a whole `add_expr`.
pub proof fn lemma_parse_add_bounds(ts: Seq<Token>, pos: int)
    requires
        0 <= pos,
    ensures
        spec_parse_add(ts, pos) matches Ok((e, p)) ==> pos < p <= ts.len(),
{
    match spec_parse_primary(ts, pos) {
        Err(_) => {},
        Ok((first, p)) => {
            lemma_parse_add_tail_bounds(ts, p, first);
        },
    }
}

/// As `lemma_parse_add_bounds`, for a whole `expr`; in particular the
/// clamps inside `spec_parse_expr` never move a position.
pub proof fn lemma_parse_expr_bounds(ts: Seq<Token>, pos: int)
    requires
        0 <= pos,
    ensures
        spec_parse_expr(ts, pos) matches Ok((e, p)) ==> pos < p <= ts.len(),
    decreases ts.len() - pos,
{
    if !(0 <= pos < ts.len()) {
    } else {
        lemma_parse_add_bounds(ts, pos);
        match spec_parse_add(ts, pos) {
            Err(_) => {},
            Ok((cond, p1r)) => {
                let p1 = spec_clamp(p1r, pos + 1, ts.len() as int);
                if p1 < ts.len() && ts[p1] == Token::KeywordQuestion {
                    lemma_parse_expr_bounds(ts, p1 + 1);
                    match spec_parse_expr(ts, p1 + 1) {
                        Err(_) => {},
                        Ok((thn, p2r)) => {
                            let p2 = spec_clamp(p2r, p1 + 1, ts.len() as int);
                            if p2 < ts.len() && ts[p2] == Token::KeywordColon {
                                lemma_parse_expr_bounds(ts, p2 + 1);
                            }
                        },
                    }
                }
            },
        }
    }
}

/// The recursive-descent parser over a resolved token sequence.
pub struct Parser {
    tokens: Vec<Token>,
    pos: usize,
}

impl Parser {
    /// The token sequence this parser was built over.
    pub closed spec fn toks(&self) -> Seq<Token> {
        self.tokens@
    }

    /// The current position, as a mathematical integer.
    pub closed spec fn at(&self) -> int {
        self.pos as int
    }

    /// The position never runs past the end of the tokens.
    pub open spec fn wf(&self) -> bool {
        self.at() <= self.toks().len()
    }

    /// A parser at the start of the given tokens.
    pub fn new(tokens: Vec<Token>) -> (r: Parser)
        ensures
            r.toks() == tokens@,
            r.at() == 0,
            r.wf(),
    {
        Parser { tokens, pos: 0 }
    }

    /// Parse one statement, leaving any trailing tokens unconsumed.
    pub fn parse(&mut self) -> (r: Result<Stmt, ParseError>)
        requires
            old(self).wf(),
        ensures
            final(self).toks() == old(self).toks(),
            final(self).wf(),
            r == spec_parse(old(self).toks(), old(self).at()),
    {
        match self.parse_expr() {
            Ok(expr) => Ok(Stmt::Expr(expr)),
            Err(e) => Err(e),
        }
    }

    fn parse_expr(&mut self) -> (r: Result<Expr, ParseError>)
        requires
            old(self).wf(),
        ensures
            final(self).toks() == old(self).toks(),
            final(self).wf(),
            (match spec_parse_expr(old(self).toks(), old(self).at()) {
                Ok((e, p)) => r == Ok::<Expr, ParseError>(e) && final(self).at() == p && old(
                    self,
                ).at() < p,
                Err(er) => r == Err::<Expr, ParseError>(er),
            }),
        decreases old(self).toks().len() - old(self).at(),
    {
        let ghost ts = self.tokens@;
        let ghost pos0 = self.pos as int;
        let cond = match self.parse_add_expr() {
            Ok(e) => e,
            Err(e) => { return Err(e); },
        };
        if self.pos < self.tokens.len() && self.tokens[self.pos] == Token::KeywordQuestion {
            // consume '?'
            self.pos = self.pos + 1;
            let thn = match self.parse_expr() {
                Ok(e) => e,
                Err(e) => { return Err(e); },
            };
            // expect ':'
            if self.pos < self.tokens.len() {
                let t = self.tokens[self.pos];
                if t == Token::KeywordColon {
                    self.pos = self.pos + 1;
                    let els = match self.parse_expr() {
                        Ok(e) => e,
                        Err(e) => { return Err(e); },
                    };
                    Ok(Expr::If { cond: Box::new(cond), thn: Box::new(thn), els: Box::new(els) })
                } else {
                    Err(ParseError::UnexpectedToken {
                        expected: Some(Token::KeywordColon),
                        actual: t,
                    })
                }
            } else {
                Err(ParseError::UnexpectedEOF)
            }
        } else {
            Ok(cond)
        }
    }

    fn parse_add_expr(&mut self) -> (r: Result<Expr, ParseError>)
        requires
            old(self).wf(),
        ensures
            final(self).toks() == old(self).toks(),
            final(self).wf(),
            (match spec_parse_add(old(self).toks(), old(self).at()) {
                Ok((e, p)) => r == Ok::<Expr, ParseError>(e) && final(self).at() == p && old(
                    self,
                ).at() < p,
                Err(er) => r == Err::<Expr, ParseError>(er),
            }),
    {
        let ghost ts = self.tokens@;
        let ghost pos0 = self.pos as int;
        let mut left = match self.parse_primary_expr() {
            Ok(e) => e,
            Err(e) => { return Err(e); },
        };
        while self.pos < self.tokens.len() && self.tokens[self.pos] == Token::KeywordPlus
            invariant
                ts == old(self).toks(),
                pos0 == old(self).at(),
                self.wf(),
                self.toks() == ts,
                pos0 < self.at() <= ts.len(),
                spec_parse_add(ts, pos0) == spec_parse_add_tail(ts, self.at(), left),
            decreases ts.len() - self.at(),
        {
            // consume '+'
            self.pos = self.pos + 1;
            let right = match self.parse_primary_expr() {
                Ok(e) => e,
                Err(e) => { return Err(e); },
            };
            left = Expr::BinOp(
                Box::new(BinaryOperation::Add { left: Box::new(left), right: Box::new(right) }),
            );
        }
        Ok(left)
    }

    fn parse_primary_expr(&mut self) -> (r: Result<Expr, ParseError>)
        requires
            old(self).wf(),
        ensures
            final(self).toks() == old(self).toks(),
            final(self).wf(),
            (match spec_parse_primary(old(self).toks(), old(self).at()) {
                Ok((e, p)) => r == Ok::<Expr, ParseError>(e) && final(self).at() == p,
                Err(er) => r == Err::<Expr, ParseError>(er) && final(self).at() == old(self).at(),
            }),
    {
        if self.pos < self.tokens.len() {
            let t = self.tokens[self.pos];
            match t {
                Token::LiteralInt(n) => {
                    self.pos = self.pos + 1;
                    Ok(Expr::Int(n))
                },
                Token::LiteralBool(b) => {
                    self.pos = self.pos + 1;
                    Ok(Expr::Bool(b))
                },
                Token::LiteralFloat(u) => {
                    self.pos = self.pos + 1;
                    Ok(Expr::Float(u))
                },
                _ => Err(ParseError::UnexpectedToken { expected: None, actual: t }),
            }
        } else {
            Err(ParseError::UnexpectedEOF)
        }
    }
}

} // verus!
