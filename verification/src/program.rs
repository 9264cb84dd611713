use vstd::prelude::*;

use crate::ast::Program;
use crate::lexer::{spec_tokenize, Lexer};
use crate::parse_error::ParserError;
use crate::parser::{parser_fuel, sp_program, Parser};

verus! {

impl Program {
    /// Parses source text into a program, discarding any errors; the
    /// result is exactly what the spec-level scanner and parser produce on
    /// the text.
    pub fn parse(input: String) -> (r: Self)
        ensures
            ({
                let toks = spec_tokenize(input@, 0);
                r@ == sp_program(toks, 0, parser_fuel(toks.len())).0
            }),
    {
        let mut p = Parser::new(Lexer::new(input.as_str()));
        p.parse_program()
    }

    /// Parses source text into a program, or hands back every parse error
    /// the text produced; `Ok` exactly when the text parses cleanly.
    pub fn try_parse(input: &str) -> (r: Result<Self, Vec<ParserError>>)
        ensures
            ({
                let toks = spec_tokenize(input@, 0);
                let (stmts, errs, p) = sp_program(toks, 0, parser_fuel(toks.len()));
                match r {
                    Ok(prog) => errs.len() == 0 && prog@ == stmts,
                    Err(es) => es@ == errs && errs.len() > 0,
                }
            }),
    {
        let mut p = Parser::new(Lexer::new(input));
        let program = p.parse_program();
        if p.error_count() == 0 {
            Ok(program)
        } else {
            Err(p.take_errors())
        }
    }
}

} // verus!
