use vstd::prelude::*;
use crate::chars::{i32_to_string, spec_i32_dec, spec_u32_dec, u32_to_string};

verus! {

/// A lexical token as it leaves the scanner.  A float literal is still in
/// textual form here: turning the lexeme into an IEEE-754 bit pattern is
/// floating-point work that the embedding performs before the tokens are
/// handed to the parser (see `tokenizer::resolve_tokens`).
#[derive(Debug, Clone, PartialEq)]
pub enum RawToken {
    KeywordColon,
    KeywordPlus,
    KeywordQuestion,
    LiteralInt(i32),
    LiteralFloat(String),
    LiteralBool(bool),
}

/// The mathematical image of a `RawToken`: float lexemes appear as
/// character sequences.
pub ghost enum RawTokenView {
    KeywordColon,
    KeywordPlus,
    KeywordQuestion,
    LiteralInt(i32),
    LiteralFloat(Seq<char>),
    LiteralBool(bool),
}

impl View for RawToken {
    type V = RawTokenView;

    open spec fn view(&self) -> RawTokenView {
        match self {
            RawToken::KeywordColon => RawTokenView::KeywordColon,
            RawToken::KeywordPlus => RawTokenView::KeywordPlus,
            RawToken::KeywordQuestion => RawTokenView::KeywordQuestion,
            RawToken::LiteralInt(n) => RawTokenView::LiteralInt(*n),
            RawToken::LiteralFloat(s) => RawTokenView::LiteralFloat(s@),
            RawToken::LiteralBool(b) => RawTokenView::LiteralBool(*b),
        }
    }
}

/// The view of a whole scanner output.
pub open spec fn raw_tokens_view(ts: Seq<RawToken>) -> Seq<RawTokenView> {
    ts.map_values(|t: RawToken| t@)
}

/// A fully resolved token, the parser's input.  `LiteralFloat` carries
/// the IEEE-754 single-precision bit pattern of the literal.
#[derive(Debug, Clone, Copy, PartialEq, Eq, Structural)]
pub enum Token {
    KeywordColon,
    KeywordPlus,
    KeywordQuestion,
    LiteralInt(i32),
    LiteralFloat(u32),
    LiteralBool(bool),
}

/// The textual image of a token.  A float literal renders as the
/// decimal value of its bit pattern; a human-readable float rendering
/// is floating-point work and is left to the embedding.
pub open spec fn spec_token_string(t: Token) -> Seq<char> {
    match t {
        Token::KeywordColon => ":"@,
        Token::KeywordPlus => "+"@,
        Token::KeywordQuestion => "?"@,
        Token::LiteralInt(i) => spec_i32_dec(i as int),
        Token::LiteralFloat(u) => spec_u32_dec(u as int),
        Token::LiteralBool(b) => if b {
            "true"@
        } else {
            "false"@
        },
    }
}

/// Render a token as text, as `spec_token_string` prescribes.
pub fn token_to_string(t: Token) -> (r: String)
    ensures
        r@ == spec_token_string(t),
{
    match t {
        Token::KeywordColon => String::from_str(":"),
        Token::KeywordPlus => String::from_str("+"),
        Token::KeywordQuestion => String::from_str("?"),
        Token::LiteralInt(i) => i32_to_string(i),
        Token::LiteralFloat(u) => u32_to_string(u),
        Token::LiteralBool(b) => if b {
            String::from_str("true")
        } else {
            String::from_str("false")
        },
    }
}

} // verus!
