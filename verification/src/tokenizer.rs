use vstd::prelude::*;
use vstd::string::StringExecFns;
use crate::chars::{
    chars_to_string, chars_vec, is_alnum, is_ascii_char, is_digit, is_num_char, is_ws, push_char,
    spec_is_alnum, spec_is_ascii_char, spec_is_digit, spec_is_num_char, spec_is_ws,
};
use crate::token::{raw_tokens_view, RawToken, RawTokenView, Token};

verus! {

/// The ways lexical analysis can fail.
#[derive(Debug, Clone, PartialEq)]
pub enum TokenizeError {
    ParseIntError,
    UnexpectedCharacter(char),
    UnexpectedKeyword(String),
}

/// The mathematical image of a `TokenizeError`: the offending word
/// appears as a character sequence.
pub ghost enum TokenizeErrorView {
    ParseIntError,
    UnexpectedCharacter(char),
    UnexpectedKeyword(Seq<char>),
}

impl View for TokenizeError {
    type V = TokenizeErrorView;

    open spec fn view(&self) -> TokenizeErrorView {
        match self {
            TokenizeError::ParseIntError => TokenizeErrorView::ParseIntError,
            TokenizeError::UnexpectedCharacter(c) => TokenizeErrorView::UnexpectedCharacter(*c),
            TokenizeError::UnexpectedKeyword(k) => TokenizeErrorView::UnexpectedKeyword(k@),
        }
    }
}

/// A short human-readable description of a lexical error.
pub fn tokenize_error_to_message(e: TokenizeError) -> (r: String)
    ensures
        e@ == TokenizeErrorView::ParseIntError ==> r@ == "Failed to parse int"@,
        e@ matches TokenizeErrorView::UnexpectedCharacter(c) ==> r@ == "Unexpected character: "@.push(
            c,
        ),
        e@ matches TokenizeErrorView::UnexpectedKeyword(w) ==> r@ == "Unexpected keyword: "@ + w,
{
    match e {
        TokenizeError::ParseIntError => String::from_str("Failed to parse int"),
        TokenizeError::UnexpectedCharacter(c) => {
            let mut out = String::from_str("Unexpected character: ");
            push_char(&mut out, c);
            out
        },
        TokenizeError::UnexpectedKeyword(k) => {
            let mut out = String::from_str("Unexpected keyword: ");
            out.append(k.as_str());
            out
        },
    }
}

/// How many consecutive numeric-lexeme characters (digits or dots)
/// stand at and after position `from`.
pub open spec fn spec_num_run_len(s: Seq<char>, from: int) -> int
    decreases s.len() - from,
{
    if 0 <= from < s.len() && spec_is_num_char(s[from]) {
        1 + spec_num_run_len(s, from + 1)
    } else {
        0
    }
}

/// How many consecutive ASCII alphanumerics stand at and after `from`.
pub open spec fn spec_word_run_len(s: Seq<char>, from: int) -> int
    decreases s.len() - from,
{
    if 0 <= from < s.len() && spec_is_alnum(s[from]) {
        1 + spec_word_run_len(s, from + 1)
    } else {
        0
    }
}

/// A value forced into `[lo, hi]`.  As in the parser, the uses below
/// never actually move a value; the bound makes the recursion of
/// `spec_tokenize_at` visibly well-founded.
pub open spec fn spec_end_clamp(p: int, lo: int, hi: int) -> int {
    if p < lo {
        lo
    } else if p > hi {
        hi
    } else {
        p
    }
}

/// Where the numeric lexeme starting at `i` ends: its first character,
/// then the run of digits and dots after it.
pub open spec fn spec_num_end(s: Seq<char>, i: int) -> int {
    spec_end_clamp(i + 1 + spec_num_run_len(s, i + 1), i + 1, s.len() as int)
}

/// Where the keyword lexeme starting at `i` ends: its first character,
/// then the run of ASCII alphanumerics after it.
pub open spec fn spec_word_end(s: Seq<char>, i: int) -> int {
    spec_end_clamp(i + 1 + spec_word_run_len(s, i + 1), i + 1, s.len() as int)
}

/// How many characters of `s` are decimal points.
pub open spec fn spec_count_dots(s: Seq<char>) -> int
    decreases s.len(),
{
    if s.len() == 0 {
        0
    } else {
        spec_count_dots(s.drop_last()) + if s.last() == '.' {
            1 as int
        } else {
            0
        }
    }
}

/// How many characters of `s` are digits.
pub open spec fn spec_count_digits(s: Seq<char>) -> int
    decreases s.len(),
{
    if s.len() == 0 {
        0
    } else {
        spec_count_digits(s.drop_last()) + if spec_is_digit(s.last()) {
            1 as int
        } else {
            0
        }
    }
}

/// Whether every character of `s` is a digit.
pub open spec fn spec_all_digits(s: Seq<char>) -> bool {
    forall|k: int| 0 <= k < s.len() ==> spec_is_digit(#[trigger] s[k])
}

/// The value of a digit string, most significant digit first.
pub open spec fn spec_digits_val(s: Seq<char>) -> int
    decreases s.len(),
{
    if s.len() == 0 {
        0
    } else {
        spec_digits_val(s.drop_last()) * 10 + (s.last() as u32 - 48)
    }
}

/// What parsing a dotless numeric lexeme as an `i32` gives: the signed
/// decimal value, or `ParseIntError` when there are no digits or the
/// value falls outside the `i32` range.
pub open spec fn spec_parse_int(lex: Seq<char>) -> Result<i32, TokenizeErrorView> {
    let neg = lex.len() > 0 && lex[0] == '-';
    let digits = if neg {
        lex.skip(1)
    } else {
        lex
    };
    if digits.len() == 0 || !spec_all_digits(digits) {
        Err(TokenizeErrorView::ParseIntError)
    } else {
        let v = if neg {
            -spec_digits_val(digits)
        } else {
            spec_digits_val(digits)
        };
        if i32::MIN <= v <= i32::MAX {
            Ok(v as i32)
        } else {
            Err(TokenizeErrorView::ParseIntError)
        }
    }
}

/// The token a numeric lexeme denotes.  A lexeme with a dot is a float
/// literal, kept textually; it is well-formed exactly when it has one
/// single dot and at least one digit.  A dotless lexeme is an integer
/// literal.
pub open spec fn spec_num_token(lex: Seq<char>) -> Result<RawTokenView, TokenizeErrorView> {
    if spec_count_dots(lex) > 0 {
        if spec_count_dots(lex) == 1 && spec_count_digits(lex) >= 1 {
            Ok(RawTokenView::LiteralFloat(lex))
        } else {
            Err(TokenizeErrorView::ParseIntError)
        }
    } else {
        match spec_parse_int(lex) {
            Ok(n) => Ok(RawTokenView::LiteralInt(n)),
            Err(e) => Err(e),
        }
    }
}

/// A token placed before the outcome of scanning the rest.
pub open spec fn spec_prepend(
    t: RawTokenView,
    rest: Result<Seq<RawTokenView>, TokenizeErrorView>,
) -> Result<Seq<RawTokenView>, TokenizeErrorView> {
    match rest {
        Ok(ts) => Ok(seq![t] + ts),
        Err(e) => Err(e),
    }
}

/// The tokens of `s` from position `i` on.  Dispatch on the next
/// character, in priority order: the three keyword characters; skipped
/// whitespace; a digit or `-` opening a numeric lexeme; any other ASCII
/// character opening a keyword lexeme, of which only `true` and `false`
/// are meaningful; any other character is an error.
pub open spec fn spec_tokenize_at(s: Seq<char>, i: int) -> Result<
    Seq<RawTokenView>,
    TokenizeErrorView,
>
    decreases s.len() - i,
{
    if !(0 <= i < s.len()) {
        Ok(Seq::empty())
    } else {
        let c = s[i];
        if c == '+' {
            spec_prepend(RawTokenView::KeywordPlus, spec_tokenize_at(s, i + 1))
        } else if c == ':' {
            spec_prepend(RawTokenView::KeywordColon, spec_tokenize_at(s, i + 1))
        } else if c == '?' {
            spec_prepend(RawTokenView::KeywordQuestion, spec_tokenize_at(s, i + 1))
        } else if spec_is_ws(c) {
            spec_tokenize_at(s, i + 1)
        } else if spec_is_digit(c) || c == '-' {
            let end = spec_num_end(s, i);
            match spec_num_token(s.subrange(i, end)) {
                Err(e) => Err(e),
                Ok(t) => spec_prepend(t, spec_tokenize_at(s, end)),
            }
        } else if spec_is_ascii_char(c) {
            let end = spec_word_end(s, i);
            let w = s.subrange(i, end);
            if w == seq!['t', 'r', 'u', 'e'] {
                spec_prepend(RawTokenView::LiteralBool(true), spec_tokenize_at(s, end))
            } else if w == seq!['f', 'a', 'l', 's', 'e'] {
                spec_prepend(RawTokenView::LiteralBool(false), spec_tokenize_at(s, end))
            } else {
                Err(TokenizeErrorView::UnexpectedKeyword(w))
            }
        } else {
            Err(TokenizeErrorView::UnexpectedCharacter(c))
        }
    }
}

/// The tokens of a whole source text.
pub open spec fn spec_tokenize(s: Seq<char>) -> Result<Seq<RawTokenView>, TokenizeErrorView> {
    spec_tokenize_at(s, 0)
}

/// A dot count is never negative.
proof fn lemma_count_dots_nonneg(s: Seq<char>)
    ensures
        spec_count_dots(s) >= 0,
    decreases s.len(),
{
    if s.len() > 0 {
        lemma_count_dots_nonneg(s.drop_last());
    }
}

/// A lexeme counting no dots holds none.
proof fn lemma_count_dots_zero(s: Seq<char>)
    requires
        spec_count_dots(s) == 0,
    ensures
        forall|k: int| 0 <= k < s.len() ==> #[trigger] s[k] != '.',
    decreases s.len(),
{
    if s.len() > 0 {
        lemma_count_dots_nonneg(s.drop_last());
        lemma_count_dots_zero(s.drop_last());
        assert(forall|k: int|
            0 <= k < s.len() - 1 ==> #[trigger] s[k] == s.drop_last()[k]);
    }
}

/// The value of a digit string is nonnegative and can only grow as more
/// digits follow.
proof fn lemma_digits_val_grows(d: Seq<char>, k: int)
    requires
        0 <= k <= d.len(),
        spec_all_digits(d),
    ensures
        0 <= spec_digits_val(d.take(k)) <= spec_digits_val(d),
    decreases d.len(),
{
    if d.len() == 0 {
        assert(d.take(k) =~= d);
    } else if k == d.len() {
        assert(d.take(k) =~= d);
        lemma_digits_val_grows(d.drop_last(), d.len() - 1);
        assert(d.drop_last().take(d.len() - 1) =~= d.drop_last());
    } else {
        assert(d.drop_last().take(k) =~= d.take(k));
        lemma_digits_val_grows(d.drop_last(), k);
    }
}

/// A scanner token plus everything scanned after it, prepended in
/// vector form.
proof fn lemma_raw_view_prepend(v: Seq<RawToken>, t: RawToken)
    ensures
        raw_tokens_view(v.insert(0, t)) =~= seq![t@] + raw_tokens_view(v),
{
}

/// The lexical analysis pass.
pub struct Tokenizer;

impl Tokenizer {
    /// Scan a whole source text into raw tokens, or report the first
    /// lexical error.
    pub fn tokenize(stream: &str) -> (r: Result<Vec<RawToken>, TokenizeError>)
        ensures
            (match spec_tokenize(stream@) {
                Ok(ts) => r matches Ok(v) && raw_tokens_view(v@) == ts,
                Err(ev) => r matches Err(e) && e@ == ev,
            }),
    {
        let chars = chars_vec(stream);
        Self::tokenize_at(&chars, 0)
    }

    fn tokenize_at(s: &Vec<char>, i: usize) -> (r: Result<Vec<RawToken>, TokenizeError>)
        requires
            i <= s@.len(),
        ensures
            (match spec_tokenize_at(s@, i as int) {
                Ok(ts) => r matches Ok(v) && raw_tokens_view(v@) == ts,
                Err(ev) => r matches Err(e) && e@ == ev,
            }),
        decreases s@.len() - i, 0int,
    {
        if i >= s.len() {
            let v: Vec<RawToken> = Vec::new();
            assert(raw_tokens_view(v@) =~= Seq::<RawTokenView>::empty());
            return Ok(v);
        }
        let c = s[i];
        if c == '+' {
            Self::prepend_rest(s, i + 1, RawToken::KeywordPlus)
        } else if c == ':' {
            Self::prepend_rest(s, i + 1, RawToken::KeywordColon)
        } else if c == '?' {
            Self::prepend_rest(s, i + 1, RawToken::KeywordQuestion)
        } else if is_ws(c) {
            Self::tokenize_at(s, i + 1)
        } else if is_digit(c) || c == '-' {
            let end = Self::num_run_end(s, i);
            match Self::parse_num_lexeme(s, i, end) {
                Err(e) => Err(e),
                Ok(t) => Self::prepend_rest(s, end, t),
            }
        } else if is_ascii_char(c) {
            let end = Self::word_run_end(s, i);
            let ghost w = s@.subrange(i as int, end as int);
            let is_true: bool = end - i == 4 && s[i] == 't' && s[i + 1] == 'r' && s[i + 2] == 'u'
                && s[i + 3] == 'e';
            let is_false: bool = end - i == 5 && s[i] == 'f' && s[i + 1] == 'a' && s[i + 2] == 'l'
                && s[i + 3] == 's' && s[i + 4] == 'e';
            proof {
                let tpat = seq!['t', 'r', 'u', 'e'];
                let fpat = seq!['f', 'a', 'l', 's', 'e'];
                assert(tpat[0] == 't' && tpat[1] == 'r' && tpat[2] == 'u' && tpat[3] == 'e');
                assert(fpat[0] == 'f' && fpat[1] == 'a' && fpat[2] == 'l' && fpat[3] == 's'
                    && fpat[4] == 'e');
                assert(forall|k: int| 0 <= k < w.len() ==> #[trigger] w[k] == s@[i + k]);
                if is_true {
                    assert(w =~= tpat);
                } else if w == tpat {
                    assert(w.len() == 4);
                    assert(s@[i as int] == 't' && s@[i + 1] == 'r' && s@[i + 2] == 'u' && s@[i + 3]
                        == 'e');
                    assert(false);
                }
                if is_false {
                    assert(w =~= fpat);
                } else if w == fpat {
                    assert(w.len() == 5);
                    assert(s@[i as int] == 'f' && s@[i + 1] == 'a' && s@[i + 2] == 'l' && s@[i + 3]
                        == 's' && s@[i + 4] == 'e');
                    assert(false);
                }
            }
            if is_true {
                Self::prepend_rest(s, end, RawToken::LiteralBool(true))
            } else if is_false {
                Self::prepend_rest(s, end, RawToken::LiteralBool(false))
            } else {
                Err(TokenizeError::UnexpectedKeyword(chars_to_string(s, i, end)))
            }
        } else {
            Err(TokenizeError::UnexpectedCharacter(c))
        }
    }

    /// Scan everything from `from` on and place `t` before it.
    fn prepend_rest(s: &Vec<char>, from: usize, t: RawToken) -> (r: Result<
        Vec<RawToken>,
        TokenizeError,
    >)
        requires
            from <= s@.len(),
        ensures
            (match spec_prepend(t@, spec_tokenize_at(s@, from as int)) {
                Ok(ts) => r matches Ok(v) && raw_tokens_view(v@) == ts,
                Err(ev) => r matches Err(e) && e@ == ev,
            }),
        decreases s@.len() - from, 1int,
    {
        match Self::tokenize_at(s, from) {
            Err(e) => Err(e),
            Ok(mut v) => {
                proof {
                    lemma_raw_view_prepend(v@, t);
                }
                v.insert(0, t);
                Ok(v)
            },
        }
    }

    /// The end of the numeric lexeme opening at `i`: the exec
    /// counterpart of `spec_num_end`.
    fn num_run_end(s: &Vec<char>, i: usize) -> (end: usize)
        requires
            i < s@.len(),
        ensures
            end == spec_num_end(s@, i as int),
            i < end <= s@.len(),
            forall|k: int| i < k < end ==> spec_is_num_char(#[trigger] s@[k]),
    {
        let n = s.len();
        let mut j: usize = i + 1;
        while j < n && is_num_char(s[j])
            invariant
                n == s@.len(),
                i + 1 <= j <= n,
                spec_num_run_len(s@, i as int + 1) == (j - i - 1) + spec_num_run_len(s@, j as int),
                forall|k: int| i < k < j ==> spec_is_num_char(#[trigger] s@[k]),
            decreases n - j,
        {
            j = j + 1;
        }
        assert(spec_num_run_len(s@, j as int) == 0);
        j
    }

    /// The end of the keyword lexeme opening at `i`: the exec
    /// counterpart of `spec_word_end`.
    fn word_run_end(s: &Vec<char>, i: usize) -> (end: usize)
        requires
            i < s@.len(),
        ensures
            end == spec_word_end(s@, i as int),
            i < end <= s@.len(),
    {
        let n = s.len();
        let mut j: usize = i + 1;
        while j < n && is_alnum(s[j])
            invariant
                n == s@.len(),
                i + 1 <= j <= n,
                spec_word_run_len(s@, i as int + 1) == (j - i - 1) + spec_word_run_len(s@, j as int),
            decreases n - j,
        {
            j = j + 1;
        }
        assert(spec_word_run_len(s@, j as int) == 0);
        j
    }

    /// Classify and parse the numeric lexeme `s[i..end]`, as
    /// `spec_num_token` prescribes.
    fn parse_num_lexeme(s: &Vec<char>, i: usize, end: usize) -> (r: Result<
        RawToken,
        TokenizeError,
    >)
        requires
            i < end <= s@.len(),
            s@[i as int] == '-' || spec_is_digit(s@[i as int]),
            forall|k: int| i < k < end ==> spec_is_num_char(#[trigger] s@[k]),
        ensures
            (match spec_num_token(s@.subrange(i as int, end as int)) {
                Ok(t) => r matches Ok(tok) && tok@ == t,
                Err(ev) => r matches Err(e) && e@ == ev,
            }),
    {
        let ghost lex = s@.subrange(i as int, end as int);
        // Count the dots and digits of the lexeme.
        let mut dots: usize = 0;
        let mut digits: usize = 0;
        let mut j: usize = i;
        while j < end
            invariant
                i <= j <= end <= s@.len(),
                lex == s@.subrange(i as int, end as int),
                dots == spec_count_dots(lex.take(j - i)),
                digits == spec_count_digits(lex.take(j - i)),
                dots <= j - i,
                digits <= j - i,
            decreases end - j,
        {
            proof {
                assert(lex.take(j + 1 - i).drop_last() =~= lex.take(j - i));
                assert(lex.take(j + 1 - i).last() == s@[j as int]);
            }
            if s[j] == '.' {
                dots = dots + 1;
            } else if is_digit(s[j]) {
                digits = digits + 1;
            }
            j = j + 1;
        }
        assert(lex.take(end - i) =~= lex);
        if dots > 0 {
            // A float literal, kept textually for the embedding.
            if dots == 1 && digits >= 1 {
                Ok(RawToken::LiteralFloat(chars_to_string(s, i, end)))
            } else {
                Err(TokenizeError::ParseIntError)
            }
        } else {
            proof {
                lemma_count_dots_zero(lex);
                assert(forall|k: int|
                    i < k < end ==> #[trigger] s@[k] == lex[k - i]);
            }
            match Self::parse_int_lexeme(s, i, end) {
                Ok(n) => Ok(RawToken::LiteralInt(n)),
                Err(e) => Err(e),
            }
        }
    }

    /// Parse the dotless numeric lexeme `s[i..end]` as an `i32`, as
    /// `spec_parse_int` prescribes.
    fn parse_int_lexeme(s: &Vec<char>, i: usize, end: usize) -> (r: Result<i32, TokenizeError>)
        requires
            i < end <= s@.len(),
            s@[i as int] == '-' || spec_is_digit(s@[i as int]),
            forall|k: int| i < k < end ==> spec_is_digit(#[trigger] s@[k]),
        ensures
            (match spec_parse_int(s@.subrange(i as int, end as int)) {
                Ok(n) => r == Ok::<i32, TokenizeError>(n),
                Err(ev) => r matches Err(e) && e@ == ev,
            }),
    {
        let ghost lex = s@.subrange(i as int, end as int);
        let neg = s[i] == '-';
        let dstart: usize = if neg {
            i + 1
        } else {
            i
        };
        let ghost digits = if neg {
            lex.skip(1)
        } else {
            lex
        };
        proof {
            assert(digits =~= s@.subrange(dstart as int, end as int));
            assert(spec_all_digits(digits));
        }
        if dstart == end {
            // A bare sign with no digits.
            return Err(TokenizeError::ParseIntError);
        }
        let mut acc: u64 = 0;
        let mut j: usize = dstart;
        while j < end
            invariant
                i < end <= s@.len(),
                dstart <= j <= end,
                i <= dstart <= i + 1,
                dstart < end,
                lex == s@.subrange(i as int, end as int),
                neg == (lex.len() > 0 && lex[0] == '-'),
                digits == (if neg { lex.skip(1) } else { lex }),
                digits == s@.subrange(dstart as int, end as int),
                spec_all_digits(digits),
                forall|k: int| dstart <= k < end ==> spec_is_digit(#[trigger] s@[k]),
                acc == spec_digits_val(digits.take(j - dstart)),
                acc <= 0x8000_0000,
            decreases end - j,
        {
            let d: u32 = (s[j] as u32) - 48;
            acc = acc * 10 + (d as u64);
            proof {
                assert(digits.take(j + 1 - dstart).drop_last() =~= digits.take(j - dstart));
                assert(digits.take(j + 1 - dstart).last() == s@[j as int]);
            }
            j = j + 1;
            if acc > 0x8000_0000 {
                proof {
                    // The digits seen so far already exceed the i32
                    // range, and more digits only grow the value.
                    assert(acc == spec_digits_val(digits.take(j - dstart)));
                    lemma_digits_val_grows(digits, j - dstart);
                }
                return Err(TokenizeError::ParseIntError);
            }
        }
        assert(digits.take(end - dstart) =~= digits);
        if neg {
            Ok((-(acc as i64)) as i32)
        } else {
            if acc > 0x7FFF_FFFF {
                Err(TokenizeError::ParseIntError)
            } else {
                Ok(acc as i32)
            }
        }
    }
}

/// How many float literals a scanned token sequence holds.
pub open spec fn spec_float_count(ts: Seq<RawTokenView>) -> int
    decreases ts.len(),
{
    if ts.len() == 0 {
        0
    } else {
        spec_float_count(ts.drop_last()) + (match ts.last() {
            RawTokenView::LiteralFloat(_) => 1 as int,
            _ => 0,
        })
    }
}

/// The float lexemes of a scanned token sequence, in order.
pub open spec fn spec_float_lexemes(ts: Seq<RawTokenView>) -> Seq<Seq<char>>
    decreases ts.len(),
{
    if ts.len() == 0 {
        Seq::empty()
    } else {
        spec_float_lexemes(ts.drop_last()) + (match ts.last() {
            RawTokenView::LiteralFloat(w) => seq![w],
            _ => Seq::empty(),
        })
    }
}

/// One raw token resolved; `bits` is used only for a float literal.
pub open spec fn spec_resolve_one(t: RawTokenView, bits: u32) -> Token {
    match t {
        RawTokenView::KeywordColon => Token::KeywordColon,
        RawTokenView::KeywordPlus => Token::KeywordPlus,
        RawTokenView::KeywordQuestion => Token::KeywordQuestion,
        RawTokenView::LiteralInt(n) => Token::LiteralInt(n),
        RawTokenView::LiteralFloat(_) => Token::LiteralFloat(bits),
        RawTokenView::LiteralBool(b) => Token::LiteralBool(b),
    }
}

/// The resolved token sequence: the `k`-th float literal takes the
/// `k`-th bit pattern, every other token maps across unchanged.
pub open spec fn spec_resolve(ts: Seq<RawTokenView>, bits: Seq<u32>) -> Seq<Token>
    decreases ts.len(),
{
    if ts.len() == 0 {
        Seq::empty()
    } else {
        spec_resolve(ts.drop_last(), bits).push(
            spec_resolve_one(ts.last(), bits[spec_float_count(ts.drop_last())]),
        )
    }
}

/// A prefix never holds more float literals than the whole.
proof fn lemma_float_count_mono(ts: Seq<RawTokenView>, j: int)
    requires
        0 <= j <= ts.len(),
    ensures
        0 <= spec_float_count(ts.take(j)) <= spec_float_count(ts),
    decreases ts.len(),
{
    if ts.len() == 0 {
        assert(ts.take(j) =~= ts);
    } else if j == ts.len() {
        assert(ts.take(j) =~= ts);
        lemma_float_count_mono(ts.drop_last(), ts.len() - 1);
        assert(ts.drop_last().take(ts.len() - 1) =~= ts.drop_last());
    } else {
        assert(ts.drop_last().take(j) =~= ts.take(j));
        lemma_float_count_mono(ts.drop_last(), j);
    }
}

/// The lexemes of the float literals of a scanned token sequence, in
/// order, as `String`s; the embedding turns each into the bit pattern
/// of its `f32` value and hands them to `resolve_tokens`.
pub fn float_literals(raw: &Vec<RawToken>) -> (r: Vec<String>)
    ensures
        r@.map_values(|s: String| s@) == spec_float_lexemes(raw_tokens_view(raw@)),
{
    let mut out: Vec<String> = Vec::new();
    let mut j: usize = 0;
    while j < raw.len()
        invariant
            j <= raw@.len(),
            out@.map_values(|s: String| s@) =~= spec_float_lexemes(
                raw_tokens_view(raw@.take(j as int)),
            ),
        decreases raw@.len() - j,
    {
        proof {
            assert(raw_tokens_view(raw@.take(j + 1)).drop_last() =~= raw_tokens_view(
                raw@.take(j as int),
            ));
            assert(raw_tokens_view(raw@.take(j + 1)).last() == raw@[j as int]@);
        }
        match &raw[j] {
            RawToken::LiteralFloat(s) => {
                out.push(s.clone());
            },
            _ => {},
        }
        j = j + 1;
        assert(out@.map_values(|s: String| s@) =~= spec_float_lexemes(
            raw_tokens_view(raw@.take(j as int)),
        ));
    }
    proof {
        assert(raw@.take(raw@.len() as int) =~= raw@);
    }
    out
}

/// Resolve scanned tokens against the bit patterns of their float
/// literals, in order.  `None` exactly when the count does not match.
pub fn resolve_tokens(raw: &Vec<RawToken>, bits: &Vec<u32>) -> (r: Option<Vec<Token>>)
    ensures
        (bits@.len() == spec_float_count(raw_tokens_view(raw@))) == (r is Some),
        r matches Some(v) ==> v@ == spec_resolve(raw_tokens_view(raw@), bits@),
{
    let ghost all = raw_tokens_view(raw@);
    let mut count: usize = 0;
    let mut j: usize = 0;
    while j < raw.len()
        invariant
            all == raw_tokens_view(raw@),
            j <= raw@.len(),
            count <= j,
            count == spec_float_count(raw_tokens_view(raw@.take(j as int))),
        decreases raw@.len() - j,
    {
        proof {
            assert(raw_tokens_view(raw@.take(j + 1)).drop_last() =~= raw_tokens_view(
                raw@.take(j as int),
            ));
            assert(raw_tokens_view(raw@.take(j + 1)).last() == raw@[j as int]@);
        }
        match &raw[j] {
            RawToken::LiteralFloat(_) => {
                count = count + 1;
            },
            _ => {},
        }
        j = j + 1;
    }
    proof {
        assert(raw@.take(raw@.len() as int) =~= raw@);
    }
    if bits.len() != count {
        return None;
    }
    let mut out: Vec<Token> = Vec::new();
    let mut used: usize = 0;
    let mut p: usize = 0;
    while p < raw.len()
        invariant
            all == raw_tokens_view(raw@),
            p <= raw@.len(),
            bits@.len() == spec_float_count(all),
            used == spec_float_count(raw_tokens_view(raw@.take(p as int))),
            used <= bits@.len(),
            out@ =~= spec_resolve(raw_tokens_view(raw@.take(p as int)), bits@),
        decreases raw@.len() - p,
    {
        proof {
            assert(raw_tokens_view(raw@.take(p + 1)).drop_last() =~= raw_tokens_view(
                raw@.take(p as int),
            ));
            assert(raw_tokens_view(raw@.take(p + 1)).last() == raw@[p as int]@);
            assert(raw@.take(p + 1) =~= raw@.take(raw@.take(p + 1).len() as int));
            lemma_float_count_mono(all, p + 1);
            assert(raw_tokens_view(raw@).take(p + 1) =~= raw_tokens_view(raw@.take(p + 1)));
        }
        match &raw[p] {
            RawToken::KeywordColon => {
                out.push(Token::KeywordColon);
            },
            RawToken::KeywordPlus => {
                out.push(Token::KeywordPlus);
            },
            RawToken::KeywordQuestion => {
                out.push(Token::KeywordQuestion);
            },
            RawToken::LiteralInt(n) => {
                out.push(Token::LiteralInt(*n));
            },
            RawToken::LiteralFloat(_) => {
                proof {
                    assert(spec_float_count(raw_tokens_view(raw@.take(p + 1))) == used + 1);
                    assert(used + 1 <= spec_float_count(all));
                }
                let nbits = bits.len();
                assert(used < nbits);
                out.push(Token::LiteralFloat(bits[used]));
                used = used + 1;
            },
            RawToken::LiteralBool(b) => {
                out.push(Token::LiteralBool(*b));
            },
        }
        p = p + 1;
        assert(out@ =~= spec_resolve(raw_tokens_view(raw@.take(p as int)), bits@));
    }
    proof {
        assert(raw@.take(raw@.len() as int) =~= raw@);
    }
    Some(out)
}

/// A stretch of digit-or-dot characters is scanned in full.
proof fn lemma_num_run_full(s: Seq<char>, from: int)
    requires
        0 <= from <= s.len(),
        forall|k: int| from <= k < s.len() ==> spec_is_num_char(#[trigger] s[k]),
    ensures
        spec_num_run_len(s, from) == s.len() - from,
    decreases s.len() - from,
{
    if from < s.len() {
        lemma_num_run_full(s, from + 1);
    }
}

/// A lexeme without dot characters counts no dots.
proof fn lemma_count_dots_none(s: Seq<char>)
    requires
        forall|k: int| 0 <= k < s.len() ==> #[trigger] s[k] != '.',
    ensures
        spec_count_dots(s) == 0,
    decreases s.len(),
{
    if s.len() > 0 {
        assert(forall|k: int|
            0 <= k < s.len() - 1 ==> #[trigger] s.drop_last()[k] == s[k]);
        lemma_count_dots_none(s.drop_last());
    }
}

/// Tokenizing a valid integer literal on its own yields exactly one
/// integer token carrying its decimal value.
pub proof fn lemma_tokenize_int_literal(s: Seq<char>, n: i32)
    requires
        spec_parse_int(s) == Ok::<i32, TokenizeErrorView>(n),
    ensures
        spec_tokenize(s) == Ok::<Seq<RawTokenView>, TokenizeErrorView>(
            seq![RawTokenView::LiteralInt(n)],
        ),
{
    let neg = s.len() > 0 && s[0] == '-';
    let digits = if neg {
        s.skip(1)
    } else {
        s
    };
    assert(digits.len() > 0 && spec_all_digits(digits));
    assert(s.len() > 0);
    assert(s[0] == '-' || spec_is_digit(s[0]));
    assert(forall|k: int| 1 <= k < s.len() ==> spec_is_digit(#[trigger] s[k])) by {
        assert(forall|k: int|
            1 <= k < s.len() && neg ==> s[k] == digits[k - 1] && spec_is_digit(#[trigger] s[k]));
        assert(forall|k: int|
            1 <= k < s.len() && !neg ==> s[k] == digits[k] && spec_is_digit(#[trigger] s[k]));
    }
    lemma_num_run_full(s, 1);
    assert(spec_num_end(s, 0) == s.len());
    assert(s.subrange(0, s.len() as int) =~= s);
    assert(forall|k: int| 0 <= k < s.len() ==> #[trigger] s[k] != '.');
    lemma_count_dots_none(s);
    assert(spec_num_token(s) == Ok::<RawTokenView, TokenizeErrorView>(
        RawTokenView::LiteralInt(n),
    ));
    assert(spec_tokenize_at(s, s.len() as int) == Ok::<Seq<RawTokenView>, TokenizeErrorView>(
        Seq::empty(),
    ));
    assert(seq![RawTokenView::LiteralInt(n)] + Seq::empty() =~= seq![
        RawTokenView::LiteralInt(n),
    ]);
}

/// Tokenizing a well-formed float literal on its own yields exactly one
/// float token carrying its text.
pub proof fn lemma_tokenize_float_literal(s: Seq<char>)
    requires
        s.len() > 0,
        s[0] == '-' || spec_is_digit(s[0]),
        forall|k: int| 1 <= k < s.len() ==> spec_is_num_char(#[trigger] s[k]),
        spec_count_dots(s) == 1,
        spec_count_digits(s) >= 1,
    ensures
        spec_tokenize(s) == Ok::<Seq<RawTokenView>, TokenizeErrorView>(
            seq![RawTokenView::LiteralFloat(s)],
        ),
{
    lemma_num_run_full(s, 1);
    assert(spec_num_end(s, 0) == s.len());
    assert(s.subrange(0, s.len() as int) =~= s);
    assert(spec_num_token(s) == Ok::<RawTokenView, TokenizeErrorView>(
        RawTokenView::LiteralFloat(s),
    ));
    assert(spec_tokenize_at(s, s.len() as int) == Ok::<Seq<RawTokenView>, TokenizeErrorView>(
        Seq::empty(),
    ));
    assert(seq![RawTokenView::LiteralFloat(s)] + Seq::empty() =~= seq![
        RawTokenView::LiteralFloat(s),
    ]);
}

} // verus!
