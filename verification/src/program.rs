//! From source text to a program: the lexer and the parser, one after the
//! other.

use crate::ast::{stmt_views, Stmt, StmtView};
use crate::error::{ErrorView, JsEngineError};
use crate::grammar::parse;
use crate::lexer::Lexer;
use crate::lexical::tokenize;
use crate::parser::Parser;
use vstd::prelude::*;

verus! {

/// The statements that a source text consists of, or the first error that
/// lexing or, after it, parsing raises.
pub open spec fn program_of(source: Seq<char>) -> Result<Seq<StmtView>, ErrorView> {
    match tokenize(source) {
        Err(e) => Err(e),
        Ok(tokens) => parse(tokens),
    }
}

/// Lexes and parses `source`. The source must be short enough for the byte
/// offset of its end to fit in `usize`, as every text that fits in memory as
/// characters is.
pub fn parse_source(source: &str) -> (result: Result<Vec<Stmt>, JsEngineError>)
    requires
        4 * source@.len() <= usize::MAX,
    ensures
        match result {
            Ok(statements) => program_of(source@) == Ok::<Seq<StmtView>, ErrorView>(
                stmt_views(statements@),
            ),
            Err(e) => program_of(source@) == Err::<Seq<StmtView>, ErrorView>(e@),
        },
{
    let mut lexer = Lexer::new(source);
    let tokens = match lexer.scan_tokens() {
        Ok(tokens) => tokens,
        Err(e) => {
            return Err(e);
        },
    };
    let mut parser = Parser::new(tokens);
    parser.parse()
}

} // verus!
