//! Symbolic differentiation of expressions in one variable.
//!
//! A text is split into tokens, the tokens are read as an expression tree,
//! the tree is differentiated node by node, and the result is brought into a
//! simpler form by a fixed set of rewrite rules. Numbers are IEEE-754 binary64
//! values held as their bit patterns, with arithmetic done in software.

use vstd::prelude::*;
use crate::func::DiffFunc;
use crate::func::Expression;
use crate::parser::ParseError;
use crate::parser::Parser;
use crate::parser::outcome;
use crate::parser::run_spec;
use crate::simplify::Simplify;
use crate::tokenizer::Fix;
use crate::tokenizer::InvalidTokenFix;
use crate::tokenizer::ignore_invalid;
use crate::tokenizer::accepts_every_text;
use crate::tokenizer::lemma_obeyed_settles;
use crate::tokenizer::always;
use crate::tokenizer::settled;
use crate::tokenizer::lemma_ignore_invalid;
use crate::tokenizer::tokens_of;

pub mod text;
pub mod number;
pub mod func;
pub mod simplify;
pub mod tokenizer;
pub mod parser;
pub mod monad;

verus! {

/// Reads a text as one expression. What is not a token is handed to
/// `policy`.
pub fn parse<P: Fn(String) -> InvalidTokenFix>(text: &str, policy: P) -> (r: Result<
    Expression,
    ParseError,
>)
    requires
        accepts_every_text(policy),
    ensures
        forall|answers: spec_fn(Seq<char>) -> Fix| #[trigger]
            settled(text@, policy, answers) ==> outcome(r) == run_spec(tokens_of(text@, answers)),
{
    Parser::parse(text, policy)
}

/// Reads a text as one expression, dropping what is not a token.
pub fn parse_lenient(text: &str) -> (r: Result<Expression, ParseError>)
    ensures
        outcome(r) == run_spec(tokens_of(text@, always(Fix::Ignore))),
{
    proof {
        lemma_ignore_invalid();
        lemma_obeyed_settles(text@, 0, ignore_invalid, always(Fix::Ignore));
        assert(settled(text@, ignore_invalid, always(Fix::Ignore)));
    }
    Parser::parse(text, ignore_invalid)
}

/// The derivative of a function.
pub fn differentiate(expr: &Expression) -> (r: Expression)
    ensures
        r == expr.derived(),
{
    expr.derivative()
}

/// The simplified form of a function.
pub fn simplify(expr: &Expression) -> (r: Expression)
    ensures
        r == expr.simplified(),
{
    expr.simplify()
}

/// The text of a function of the variable with the given name.
pub fn render(expr: &Expression, variable_name: &str) -> (r: String)
    ensures
        r@ == expr.rendered(variable_name@),
{
    expr.to_str(variable_name)
}

/// The text of the simplified derivative of a function: the function is
/// simplified, differentiated, and simplified again.
pub open spec fn derivative_text(expr: Expression) -> Seq<char> {
    expr.simplified().derived().simplified().rendered("x"@)
}

/// Reads a text as an expression in `x` and returns the text of its
/// simplified derivative.
pub fn interpret<P: Fn(String) -> InvalidTokenFix>(text: &str, policy: P) -> (r: Result<
    String,
    ParseError,
>)
    requires
        accepts_every_text(policy),
    ensures
        forall|answers: spec_fn(Seq<char>) -> Fix| #[trigger]
            settled(text@, policy, answers) ==> match run_spec(tokens_of(text@, answers)) {
                Ok(expr) => r matches Ok(derivative) && derivative@ == derivative_text(expr),
                Err(fault) => r matches Err(error) && error@ == fault,
            },
{
    match parse(text, policy) {
        Ok(expr) => Ok(expr.simplify().derivative().simplify().to_str("x")),
        Err(error) => Err(error),
    }
}

} // verus!
