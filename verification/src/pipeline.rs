use vstd::prelude::*;
use crate::compiler::{spec_compile_stmt, CompileMode};
use crate::opcode::OpCode;
use crate::parser::{spec_parse, ParseError};
use crate::tokenizer::{spec_resolve, spec_tokenize, TokenizeErrorView};

verus! {

/// A failure of the front end: either a lexical error or a parse error.
pub ghost enum PipelineError {
    Tokenize(TokenizeErrorView),
    Parse(ParseError),
}

/// A whole front-end run: tokenize the source, resolve the float
/// literals against their bit patterns, parse, and compile in the given
/// mode.  The bit patterns count as part of the input: the embedding
/// derives each from the corresponding float lexeme alone.
pub open spec fn spec_pipeline(src: Seq<char>, bits: Seq<u32>, mode: CompileMode) -> Result<
    Seq<OpCode>,
    PipelineError,
> {
    match spec_tokenize(src) {
        Err(e) => Err(PipelineError::Tokenize(e)),
        Ok(raw) => {
            let toks = spec_resolve(raw, bits);
            match spec_parse(toks, 0) {
                Err(e) => Err(PipelineError::Parse(e)),
                Ok(ast) => Ok(spec_compile_stmt(ast, 0, mode)),
            }
        },
    }
}

/// Two independent runs of tokenizing, resolving, parsing and compiling
/// the same source text with the same float bit patterns produce
/// structurally identical artifacts: every stage is a mathematical
/// function of its input, with no hidden state.  The exec functions'
/// contracts tie each stage's result to the spec function applied here.
pub proof fn lemma_pipeline_deterministic(
    src: Seq<char>,
    bits: Seq<u32>,
    mode: CompileMode,
    r1: Result<Seq<OpCode>, PipelineError>,
    r2: Result<Seq<OpCode>, PipelineError>,
)
    requires
        r1 == spec_pipeline(src, bits, mode),
        r2 == spec_pipeline(src, bits, mode),
    ensures
        r1 == r2,
{
}

} // verus!
