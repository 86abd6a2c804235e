//! Arithmetic expression evaluation: a lexer, a precedence-climbing parser and
//! an evaluator that binds names and checks calls.
//!
//! No floating-point arithmetic happens here. A number travels as the numeral
//! that writes it or as the bit pattern of a binary64 value, and evaluation
//! yields a closed arithmetic term whose computation cannot fail.
//!
//! A context may bind functions that the caller keeps. Evaluation in steps
//! ([`Expression::resume`]) stops at each call of one, so that the caller runs
//! it at its place in the order of evaluation.
//!
//! The parser and the evaluator call themselves once for each level of
//! nesting in the input. What they compute is proved for every depth; how deep
//! an input may nest in a run is bounded by the call stack alone.
use vstd::prelude::*;

pub mod error;
pub mod eval;
pub mod expression;
pub mod interpreter;
pub mod laws;
pub mod lexer;
pub mod parser;
pub mod stepwise;
pub mod term;
pub mod text;
pub mod token;

pub use error::Error;
pub use eval::Context;
pub use expression::Expression;
pub use interpreter::Interpreter;
pub use lexer::Lexer;
pub use parser::Parser;
pub use stepwise::Stop;
pub use term::{Function, Term};
pub use token::{OperatorType, Token, TokenType};

verus! {

/// What evaluating a source text yields: the failure of the scan, else the
/// failure of parsing one expression from the first token on, else what
/// evaluating the tree against the context `PI` and the standard functions
/// yields. Tokens behind the expression are not read.
pub open spec fn outcome(source: Seq<char>) -> Result<term::Closed, error::Failure> {
    let scanned = lexer::scan(source);
    match scanned.failure {
        Some(f) => Err(f),
        None => match parser::expression(scanned.tokens, 0, 0).result {
            Ok(tree) => eval::resolve(tree, interpreter::standard()),
            Err(e) => Err(e),
        },
    }
}

/// Evaluates a source text.
pub fn eval(expr: &str) -> (r: Result<Term, Error>)
    ensures
        eval::settles(r, outcome(expr@)),
{
    let mut lexer = Lexer::new(expr.to_owned());
    match lexer.lex() {
        Ok(_) => {},
        Err(e) => {
            return Err(e);
        },
    }
    assert(token::lexemes(lexer.found()) =~= lexer::scan(expr@).tokens);
    let mut parser = Parser::new(lexer.tokens().as_slice());
    let tree = match parser.parse_expression(0) {
        Ok(tree) => tree,
        Err(e) => {
            return Err(e);
        },
    };
    let mut ctx = Context::new();
    ctx.init();
    ctx.eval(tree)
}

} // verus!
