//! Formulas: their tokens, their syntax tree, and their evaluation.

use crate::expr::ast::ExprModel;
use crate::expr::machine::{run, MachineModel, StepModel};
use vstd::prelude::*;

pub mod ast;
pub mod eval;
pub mod float;
pub mod lex;
pub mod machine;
pub mod parse;
pub mod position;
pub mod semantics;
pub mod token;
pub mod value;

pub use eval::{Context, ContextError, Error};
pub use float::Float;
pub use machine::Step;
pub use value::Value;

verus! {

/// The expression that a text writes, or the first error in it: the first
/// lexical error where there is one, else the error of the parser.
pub open spec fn read(text: Seq<char>) -> Result<ExprModel, eval::ErrorModel> {
    let lexed = lex::lex(text);
    if lexed.errors.len() > 0 {
        Err(eval::ErrorModel::Tokenize(lexed.errors[0].value))
    } else {
        match parse::parse_tokens(lexed.tokens) {
            Ok(expr) => Ok(expr),
            Err(error) => Err(eval::ErrorModel::Parse(error.value)),
        }
    }
}

/// The evaluation of a text, up to its result or to the first question. An
/// error in the text is the result.
pub open spec fn eval_text(text: Seq<char>) -> StepModel {
    match read(text) {
        Ok(expr) => run(MachineModel::start(expr)),
        Err(error) => StepModel::Done(Err(error)),
    }
}

/// Reads a formula into its syntax tree.
pub fn compile(input: &str) -> (result: Result<ast::Expr, Error>)
    ensures
        match read(input@) {
            Ok(expr) => result is Ok && result->Ok_0@ == expr,
            Err(error) => result is Err && result->Err_0@ == error,
        },
        result is Ok ==> ast::is_supported(result->Ok_0@),
{
    let lex = lex::tokenize(input);
    if lex.errors.len() > 0 {
        let first = lex.errors[0].value;
        assert(lex.model().errors[0].value == first);
        return Err(Error::Tokenize(first));
    }
    assert(lex.model().errors.len() == 0);
    match parse::parse(&lex.tokens) {
        Ok(expr) => Ok(expr),
        Err(error) => Err(Error::Parse(error.value)),
    }
}

/// Validate the input can be parsed.
pub fn parse(input: &str) -> (result: Result<(), Error>)
    ensures
        match read(input@) {
            Ok(_) => result is Ok,
            Err(error) => result is Err && result->Err_0@ == error,
        },
{
    match compile(input) {
        Ok(_) => Ok(()),
        Err(error) => Err(error),
    }
}

/// Evaluates a formula up to its value, its error, or the first question to
/// the host.
pub fn eval(input: &str) -> (step: Step)
    ensures
        step@ == eval_text(input@),
{
    match compile(input) {
        Ok(expr) => machine::eval(expr),
        Err(error) => Step::Done(Err(error)),
    }
}

} // verus!
