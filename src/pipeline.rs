use vstd::prelude::*;

use crate::errors::Diagnostics;
use crate::interpreter::{eval, Interpreter, RuntimeError, RuntimeValue};
use crate::parser::{expression, Parser, ParserError};
use crate::scanner::{scan, scan_errors, Scanner};

verus! {

/// What one source unit came to: a value, the first syntax error, or a
/// runtime error.
#[derive(Debug)]
pub enum Outcome {
    Value(RuntimeValue),
    SyntaxError(ParserError),
    RuntimeError(RuntimeError),
}

/// Scans, parses and evaluates one source unit. Lexical errors go to
/// `diag` and scanning goes on past them; the outcome is that of parsing
/// and evaluating the tokens that were produced.
pub fn run(interpreter: &Interpreter, source: &str, diag: &mut Diagnostics) -> (r: Outcome)
    requires
        source@.len() < usize::MAX,
    ensures
        final(diag).reports_view() == old(diag).reports_view() + scan_errors(source@),
        final(diag).had_error == (old(diag).had_error || scan_errors(source@).len() > 0),
        match (r, expression(scan(source@), 0)) {
            (Outcome::SyntaxError(x), Err((q, m))) => x.token@ == scan(source@)[q] && x.message@ == m,
            (Outcome::Value(x), Ok((e, c))) => eval(e) == Ok::<_, RuntimeError>(x.val()),
            (Outcome::RuntimeError(x), Ok((e, c))) => eval(e) == Err::<crate::interpreter::Val, _>(x),
            _ => false,
        },
{
    let mut scanner = Scanner::new(source);
    let tokens = scanner.scan_tokens(diag);
    proof {
        assert(tokens@.map_values(|t: crate::token::Token| t@) =~= scan(source@));
        assert(tokens@.last()@ == scan(source@).last());
        assert(tokens@[tokens@.len() - 1].token_type == crate::token::TokenType::Eof);
    }
    let mut parser = Parser::new(tokens);
    match parser.parse() {
        Ok(expr) => match interpreter.evaluate(&expr) {
            Ok(v) => Outcome::Value(v),
            Err(e) => Outcome::RuntimeError(e),
        },
        Err(e) => Outcome::SyntaxError(e),
    }
}

} // verus!
