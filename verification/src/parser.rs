//! The parser: tokens in, an expression tree out.
//!
//! The grammar, from the loosest binding to the tightest:
//!
//! ```text
//! expression := pm_ops
//! pm_ops     := md_ops (('+' | '-') md_ops)*
//! md_ops     := power_ops (('*' | '/') power_ops)*
//! power_ops  := operand ('^' operand)*
//! operand    := number | 'x' | function operand | '(' expression ')'
//! ```
//!
//! All binary operators, `^` among them, group to the left. `a ^ b` is read
//! as `exp(ln(a) * b)`, which is the power only for positive `a`.

use vstd::prelude::*;
use vstd::string::StringExecFns;
use crate::func::Cos;
use crate::func::Exp;
use crate::func::Expression;
use crate::func::Identity;
use crate::func::Ln;
use crate::func::Sin;
use crate::func::composition;
use crate::func::constant;
use crate::func::difference;
use crate::func::product;
use crate::func::quotient;
use crate::func::sum;
use crate::tokenizer::Fix;
use crate::tokenizer::InvalidTokenFix;
use crate::tokenizer::Lexeme;
use crate::tokenizer::Token;
use crate::tokenizer::Tokenizer;
use crate::tokenizer::accepts_every_text;
use crate::tokenizer::settled;
use crate::tokenizer::same_lexeme;
use crate::tokenizer::tokens_of;

verus! {

/// Why a text is not an expression.
#[derive(Debug, PartialEq)]
pub enum ParseError {
    /// An operand was expected where `found` stands; `None` is the end of the
    /// input.
    ExpectedOperand { found: Option<Token> },
    /// An identifier other than the variable `x`.
    InvalidIdentifier { name: String },
    /// The token `expected` was expected where `found` stands; `None` is the
    /// end of the input.
    ExpectedToken { expected: Token, found: Option<Token> },
    /// The expression is complete, and `extra` follows it.
    ExpectedEnd { extra: Token },
}

/// A `ParseError` as a mathematical value.
pub enum Fault {
    ExpectedOperand { found: Option<Lexeme> },
    InvalidIdentifier { name: Seq<char> },
    ExpectedToken { expected: Lexeme, found: Option<Lexeme> },
    ExpectedEnd { extra: Lexeme },
}

/// The token of an optional token, as a mathematical value.
pub open spec fn lexeme_of(token: Option<Token>) -> Option<Lexeme> {
    match token {
        Some(t) => Some(t@),
        None => None,
    }
}

impl View for ParseError {
    type V = Fault;

    open spec fn view(&self) -> Fault {
        match self {
            ParseError::ExpectedOperand { found } => Fault::ExpectedOperand {
                found: lexeme_of(*found),
            },
            ParseError::InvalidIdentifier { name } => Fault::InvalidIdentifier { name: name@ },
            ParseError::ExpectedToken { expected, found } => Fault::ExpectedToken {
                expected: expected@,
                found: lexeme_of(*found),
            },
            ParseError::ExpectedEnd { extra } => Fault::ExpectedEnd { extra: extra@ },
        }
    }
}

/// The text for what was found: a token in backquotes, or the words for the
/// end of the input.
pub open spec fn found_text(found: Option<Lexeme>) -> Seq<char> {
    match found {
        Some(token) => "`"@ + token.text() + "`"@,
        None => "end of input"@,
    }
}

impl Fault {
    /// The message: what was expected, and what was found.
    pub open spec fn message(self) -> Seq<char> {
        match self {
            Fault::ExpectedOperand { found } => "Expected an operand, found "@ + found_text(found)
                + "."@,
            Fault::InvalidIdentifier { name } => "Invalid identifier `"@ + name
                + "`. Use `x` as the variable name."@,
            Fault::ExpectedToken { expected, found } => "Expected `"@ + expected.text()
                + "`, found "@ + found_text(found) + "."@,
            Fault::ExpectedEnd { extra } => "Expected end of input, found `"@ + extra.text()
                + "`."@,
        }
    }
}

/// Writes what was found.
fn write_found(found: &Option<Token>) -> (r: String)
    ensures
        r@ == found_text(lexeme_of(*found)),
{
    match found {
        Some(token) => {
            let mut r = String::from_str("`");
            let text = token.to_str();
            r.append(text.as_str());
            r.append("`");
            r
        },
        None => String::from_str("end of input"),
    }
}

impl ParseError {
    /// The message: what was expected, and what was found.
    pub fn message(&self) -> (r: String)
        ensures
            r@ == self@.message(),
    {
        match self {
            ParseError::ExpectedOperand { found } => {
                let mut r = String::from_str("Expected an operand, found ");
                let text = write_found(found);
                r.append(text.as_str());
                r.append(".");
                r
            },
            ParseError::InvalidIdentifier { name } => {
                let mut r = String::from_str("Invalid identifier `");
                r.append(name.as_str());
                r.append("`. Use `x` as the variable name.");
                r
            },
            ParseError::ExpectedToken { expected, found } => {
                let mut r = String::from_str("Expected `");
                let wanted = expected.to_str();
                r.append(wanted.as_str());
                r.append("`, found ");
                let text = write_found(found);
                r.append(text.as_str());
                r.append(".");
                r
            },
            ParseError::ExpectedEnd { extra } => {
                let mut r = String::from_str("Expected end of input, found `");
                let text = extra.to_str();
                r.append(text.as_str());
                r.append("`.");
                r
            },
        }
    }
}

/// What a parsing function returns, as a mathematical value.
pub open spec fn outcome(r: Result<Expression, ParseError>) -> Result<Expression, Fault> {
    match r {
        Ok(e) => Ok(e),
        Err(error) => Err(error@),
    }
}

/// What a rule of the grammar makes of a sequence of tokens: a tree or a
/// fault, and the tokens that it has left.
pub struct Parsed {
    pub result: Result<Expression, Fault>,
    pub rest: Seq<Lexeme>,
}

/// The variable's name.
pub open spec fn variable_name() -> Seq<char> {
    "x"@
}

/// `a ^ b`, written with the exponential and the logarithm.
pub open spec fn raised(base: Expression, exponent: Expression) -> Expression {
    composition(
        Expression::Exp(Exp),
        product(composition(Expression::Ln(Ln), base), exponent),
    )
}

/// The tangent.
pub open spec fn tangent() -> Expression {
    quotient(Expression::Sin(Sin), Expression::Cos(Cos))
}

/// The cotangent.
pub open spec fn cotangent() -> Expression {
    quotient(Expression::Cos(Cos), Expression::Sin(Sin))
}

/// The function `outer` applied to what an operand was parsed to.
pub open spec fn applied_to(outer: Expression, operand: Parsed) -> Parsed {
    match operand.result {
        Ok(inner) => Parsed { result: Ok(composition(outer, inner)), rest: operand.rest },
        Err(_) => operand,
    }
}

/// The rule that consumes the token `expected`, and fails on any other and
/// at the end of the input. On success the result holds no tree of interest.
pub open spec fn expect_spec(expected: Lexeme, ts: Seq<Lexeme>) -> Result<Seq<Lexeme>, Fault> {
    if ts.len() == 0 {
        Err(Fault::ExpectedToken { expected, found: None })
    } else if same_lexeme(expected, ts[0]) {
        Ok(ts.drop_first())
    } else {
        Err(Fault::ExpectedToken { expected, found: Some(ts[0]) })
    }
}

/// `operand := number | 'x' | function operand | '(' expression ')'`
pub open spec fn operand_spec(ts: Seq<Lexeme>) -> Parsed
    decreases ts.len(), 1nat,
{
    if ts.len() == 0 {
        Parsed { result: Err(Fault::ExpectedOperand { found: None }), rest: ts }
    } else {
        let tail = ts.drop_first();
        match ts[0] {
            Lexeme::Number(n) => Parsed { result: Ok(constant(n)), rest: tail },
            Lexeme::Identifier(name) => if name == variable_name() {
                Parsed { result: Ok(Expression::Identity(Identity)), rest: tail }
            } else {
                Parsed { result: Err(Fault::InvalidIdentifier { name }), rest: ts }
            },
            Lexeme::Exp => applied_to(Expression::Exp(Exp), operand_spec(tail)),
            Lexeme::Ln => applied_to(Expression::Ln(Ln), operand_spec(tail)),
            Lexeme::Sin => applied_to(Expression::Sin(Sin), operand_spec(tail)),
            Lexeme::Cos => applied_to(Expression::Cos(Cos), operand_spec(tail)),
            Lexeme::Tan => applied_to(tangent(), operand_spec(tail)),
            Lexeme::Cotan => applied_to(cotangent(), operand_spec(tail)),
            Lexeme::OpenParen => bracket_spec(ts),
            other => Parsed {
                result: Err(Fault::ExpectedOperand { found: Some(other) }),
                rest: ts,
            },
        }
    }
}

/// `'(' expression ')'`
pub open spec fn bracket_spec(ts: Seq<Lexeme>) -> Parsed
    decreases ts.len(), 0nat,
{
    match expect_spec(Lexeme::OpenParen, ts) {
        Err(fault) => Parsed { result: Err(fault), rest: ts },
        Ok(tail) => {
            let inner = expression_spec(tail);
            match inner.result {
                Err(_) => inner,
                Ok(e) => match expect_spec(Lexeme::CloseParen, inner.rest) {
                    Err(fault) => Parsed { result: Err(fault), rest: inner.rest },
                    Ok(rest) => Parsed { result: Ok(e), rest },
                },
            }
        },
    }
}

/// `('^' operand)*`, with `left` for what stands before it.
pub open spec fn power_ops_tail_spec(left: Expression, ts: Seq<Lexeme>) -> Parsed
    decreases ts.len(), 0nat,
{
    if ts.len() > 0 && ts[0] is Power {
        let right = operand_spec(ts.drop_first());
        match right.result {
            Ok(e) => if right.rest.len() < ts.len() {
                power_ops_tail_spec(raised(left, e), right.rest)
            } else {
                right
            },
            Err(_) => right,
        }
    } else {
        Parsed { result: Ok(left), rest: ts }
    }
}

/// `power_ops := operand ('^' operand)*`
pub open spec fn power_ops_spec(ts: Seq<Lexeme>) -> Parsed
    decreases ts.len(), 2nat,
{
    let left = operand_spec(ts);
    match left.result {
        Ok(e) => if left.rest.len() < ts.len() {
            power_ops_tail_spec(e, left.rest)
        } else {
            left
        },
        Err(_) => left,
    }
}

/// `(('*' | '/') power_ops)*`, with `left` for what stands before it.
pub open spec fn md_ops_tail_spec(left: Expression, ts: Seq<Lexeme>) -> Parsed
    decreases ts.len(), 0nat,
{
    if ts.len() > 0 && (ts[0] is Mul || ts[0] is Div) {
        let right = power_ops_spec(ts.drop_first());
        match right.result {
            Ok(e) => if right.rest.len() < ts.len() {
                md_ops_tail_spec(
                    if ts[0] is Mul {
                        product(left, e)
                    } else {
                        quotient(left, e)
                    },
                    right.rest,
                )
            } else {
                right
            },
            Err(_) => right,
        }
    } else {
        Parsed { result: Ok(left), rest: ts }
    }
}

/// `md_ops := power_ops (('*' | '/') power_ops)*`
pub open spec fn md_ops_spec(ts: Seq<Lexeme>) -> Parsed
    decreases ts.len(), 3nat,
{
    let left = power_ops_spec(ts);
    match left.result {
        Ok(e) => if left.rest.len() < ts.len() {
            md_ops_tail_spec(e, left.rest)
        } else {
            left
        },
        Err(_) => left,
    }
}

/// `(('+' | '-') md_ops)*`, with `left` for what stands before it.
pub open spec fn pm_ops_tail_spec(left: Expression, ts: Seq<Lexeme>) -> Parsed
    decreases ts.len(), 0nat,
{
    if ts.len() > 0 && (ts[0] is Plus || ts[0] is Minus) {
        let right = md_ops_spec(ts.drop_first());
        match right.result {
            Ok(e) => if right.rest.len() < ts.len() {
                pm_ops_tail_spec(
                    if ts[0] is Plus {
                        sum(left, e)
                    } else {
                        difference(left, e)
                    },
                    right.rest,
                )
            } else {
                right
            },
            Err(_) => right,
        }
    } else {
        Parsed { result: Ok(left), rest: ts }
    }
}

/// `pm_ops := md_ops (('+' | '-') md_ops)*`
pub open spec fn pm_ops_spec(ts: Seq<Lexeme>) -> Parsed
    decreases ts.len(), 4nat,
{
    let left = md_ops_spec(ts);
    match left.result {
        Ok(e) => if left.rest.len() < ts.len() {
            pm_ops_tail_spec(e, left.rest)
        } else {
            left
        },
        Err(_) => left,
    }
}

/// `expression := pm_ops`
pub open spec fn expression_spec(ts: Seq<Lexeme>) -> Parsed
    decreases ts.len(), 5nat,
{
    pm_ops_spec(ts)
}

/// A whole input: one expression, and nothing after it.
pub open spec fn run_spec(ts: Seq<Lexeme>) -> Result<Expression, Fault> {
    let parsed = expression_spec(ts);
    match parsed.result {
        Ok(e) => if parsed.rest.len() == 0 {
            Ok(e)
        } else {
            Err(Fault::ExpectedEnd { extra: parsed.rest[0] })
        },
        Err(fault) => Err(fault),
    }
}

/// What the rules leave is part of what they were given, and a rule that
/// succeeds has consumed at least one token.
pub proof fn lemma_operand_consumes(ts: Seq<Lexeme>)
    ensures
        operand_spec(ts).rest.len() <= ts.len(),
        operand_spec(ts).result is Ok ==> operand_spec(ts).rest.len() < ts.len(),
    decreases ts.len(), 1nat,
{
    if ts.len() > 0 {
        match ts[0] {
            Lexeme::Exp | Lexeme::Ln | Lexeme::Sin | Lexeme::Cos | Lexeme::Tan | Lexeme::Cotan => {
                lemma_operand_consumes(ts.drop_first());
            },
            Lexeme::OpenParen => {
                lemma_bracket_consumes(ts);
            },
            _ => {},
        }
    }
}

/// What a bracketed expression leaves is part of what it was given, and less
/// where it succeeds.
pub proof fn lemma_bracket_consumes(ts: Seq<Lexeme>)
    ensures
        bracket_spec(ts).rest.len() <= ts.len(),
        bracket_spec(ts).result is Ok ==> bracket_spec(ts).rest.len() < ts.len(),
    decreases ts.len(), 0nat,
{
    if ts.len() > 0 && ts[0] is OpenParen {
        lemma_expression_consumes(ts.drop_first());
    }
}

/// What a chain of `^` leaves is part of what it was given.
pub proof fn lemma_power_ops_tail_consumes(left: Expression, ts: Seq<Lexeme>)
    ensures
        power_ops_tail_spec(left, ts).rest.len() <= ts.len(),
    decreases ts.len(), 0nat,
{
    if ts.len() > 0 && ts[0] is Power {
        let right = operand_spec(ts.drop_first());
        lemma_operand_consumes(ts.drop_first());
        if right.result is Ok {
            lemma_power_ops_tail_consumes(raised(left, right.result->Ok_0), right.rest);
        }
    }
}

/// What `power_ops` leaves is part of what it was given, and less where it
/// succeeds.
pub proof fn lemma_power_ops_consumes(ts: Seq<Lexeme>)
    ensures
        power_ops_spec(ts).rest.len() <= ts.len(),
        power_ops_spec(ts).result is Ok ==> power_ops_spec(ts).rest.len() < ts.len(),
    decreases ts.len(), 2nat,
{
    lemma_operand_consumes(ts);
    let left = operand_spec(ts);
    if left.result is Ok {
        lemma_power_ops_tail_consumes(left.result->Ok_0, left.rest);
    }
}

/// What a chain of `*` and `/` leaves is part of what it was given.
pub proof fn lemma_md_ops_tail_consumes(left: Expression, ts: Seq<Lexeme>)
    ensures
        md_ops_tail_spec(left, ts).rest.len() <= ts.len(),
    decreases ts.len(), 0nat,
{
    if ts.len() > 0 && (ts[0] is Mul || ts[0] is Div) {
        let right = power_ops_spec(ts.drop_first());
        lemma_power_ops_consumes(ts.drop_first());
        if right.result is Ok {
            let e = right.result->Ok_0;
            lemma_md_ops_tail_consumes(
                if ts[0] is Mul {
                    product(left, e)
                } else {
                    quotient(left, e)
                },
                right.rest,
            );
        }
    }
}

/// What `md_ops` leaves is part of what it was given, and less where it
/// succeeds.
pub proof fn lemma_md_ops_consumes(ts: Seq<Lexeme>)
    ensures
        md_ops_spec(ts).rest.len() <= ts.len(),
        md_ops_spec(ts).result is Ok ==> md_ops_spec(ts).rest.len() < ts.len(),
    decreases ts.len(), 3nat,
{
    lemma_power_ops_consumes(ts);
    let left = power_ops_spec(ts);
    if left.result is Ok {
        lemma_md_ops_tail_consumes(left.result->Ok_0, left.rest);
    }
}

/// What a chain of `+` and `-` leaves is part of what it was given.
pub proof fn lemma_pm_ops_tail_consumes(left: Expression, ts: Seq<Lexeme>)
    ensures
        pm_ops_tail_spec(left, ts).rest.len() <= ts.len(),
    decreases ts.len(), 0nat,
{
    if ts.len() > 0 && (ts[0] is Plus || ts[0] is Minus) {
        let right = md_ops_spec(ts.drop_first());
        lemma_md_ops_consumes(ts.drop_first());
        if right.result is Ok {
            let e = right.result->Ok_0;
            lemma_pm_ops_tail_consumes(
                if ts[0] is Plus {
                    sum(left, e)
                } else {
                    difference(left, e)
                },
                right.rest,
            );
        }
    }
}

/// What `pm_ops` leaves is part of what it was given, and less where it
/// succeeds.
pub proof fn lemma_pm_ops_consumes(ts: Seq<Lexeme>)
    ensures
        pm_ops_spec(ts).rest.len() <= ts.len(),
        pm_ops_spec(ts).result is Ok ==> pm_ops_spec(ts).rest.len() < ts.len(),
    decreases ts.len(), 4nat,
{
    lemma_md_ops_consumes(ts);
    let left = md_ops_spec(ts);
    if left.result is Ok {
        lemma_pm_ops_tail_consumes(left.result->Ok_0, left.rest);
    }
}

/// What an expression leaves is part of what it was given, and less where it
/// succeeds.
pub proof fn lemma_expression_consumes(ts: Seq<Lexeme>)
    ensures
        expression_spec(ts).rest.len() <= ts.len(),
        expression_spec(ts).result is Ok ==> expression_spec(ts).rest.len() < ts.len(),
    decreases ts.len(), 5nat,
{
    lemma_pm_ops_consumes(ts);
}

/// Every rule that succeeds has consumed at least one token.
pub proof fn lemma_rules_consume()
    ensures
        forall|ts: Seq<Lexeme>| #[trigger]
            operand_spec(ts).result is Ok ==> operand_spec(ts).rest.len() < ts.len(),
        forall|ts: Seq<Lexeme>| #[trigger]
            power_ops_spec(ts).result is Ok ==> power_ops_spec(ts).rest.len() < ts.len(),
        forall|ts: Seq<Lexeme>| #[trigger]
            md_ops_spec(ts).result is Ok ==> md_ops_spec(ts).rest.len() < ts.len(),
        forall|ts: Seq<Lexeme>| #[trigger]
            pm_ops_spec(ts).result is Ok ==> pm_ops_spec(ts).rest.len() < ts.len(),
{
    assert forall|ts: Seq<Lexeme>| #[trigger] operand_spec(ts).result is Ok implies operand_spec(
        ts,
    ).rest.len() < ts.len() by {
        lemma_operand_consumes(ts);
    }
    assert forall|ts: Seq<Lexeme>| #[trigger]
        power_ops_spec(ts).result is Ok implies power_ops_spec(ts).rest.len() < ts.len() by {
        lemma_power_ops_consumes(ts);
    }
    assert forall|ts: Seq<Lexeme>| #[trigger] md_ops_spec(ts).result is Ok implies md_ops_spec(
        ts,
    ).rest.len() < ts.len() by {
        lemma_md_ops_consumes(ts);
    }
    assert forall|ts: Seq<Lexeme>| #[trigger] pm_ops_spec(ts).result is Ok implies pm_ops_spec(
        ts,
    ).rest.len() < ts.len() by {
        lemma_pm_ops_consumes(ts);
    }
}

/// The rules of the grammar as equations. The definitions above test that a
/// rule has consumed a token before they go on with what it has left; such a
/// test never fails, so the rules are what the grammar says.
pub proof fn lemma_grammar(left: Expression, ts: Seq<Lexeme>)
    ensures
        power_ops_spec(ts) == match operand_spec(ts).result {
            Ok(e) => power_ops_tail_spec(e, operand_spec(ts).rest),
            Err(_) => operand_spec(ts),
        },
        md_ops_spec(ts) == match power_ops_spec(ts).result {
            Ok(e) => md_ops_tail_spec(e, power_ops_spec(ts).rest),
            Err(_) => power_ops_spec(ts),
        },
        pm_ops_spec(ts) == match md_ops_spec(ts).result {
            Ok(e) => pm_ops_tail_spec(e, md_ops_spec(ts).rest),
            Err(_) => md_ops_spec(ts),
        },
        ts.len() > 0 && ts[0] is Power ==> power_ops_tail_spec(left, ts) == match operand_spec(
            ts.drop_first(),
        ).result {
            Ok(e) => power_ops_tail_spec(raised(left, e), operand_spec(ts.drop_first()).rest),
            Err(_) => operand_spec(ts.drop_first()),
        },
        ts.len() > 0 && ts[0] is Mul ==> md_ops_tail_spec(left, ts) == match power_ops_spec(
            ts.drop_first(),
        ).result {
            Ok(e) => md_ops_tail_spec(product(left, e), power_ops_spec(ts.drop_first()).rest),
            Err(_) => power_ops_spec(ts.drop_first()),
        },
        ts.len() > 0 && ts[0] is Div ==> md_ops_tail_spec(left, ts) == match power_ops_spec(
            ts.drop_first(),
        ).result {
            Ok(e) => md_ops_tail_spec(quotient(left, e), power_ops_spec(ts.drop_first()).rest),
            Err(_) => power_ops_spec(ts.drop_first()),
        },
        ts.len() > 0 && ts[0] is Plus ==> pm_ops_tail_spec(left, ts) == match md_ops_spec(
            ts.drop_first(),
        ).result {
            Ok(e) => pm_ops_tail_spec(sum(left, e), md_ops_spec(ts.drop_first()).rest),
            Err(_) => md_ops_spec(ts.drop_first()),
        },
        ts.len() > 0 && ts[0] is Minus ==> pm_ops_tail_spec(left, ts) == match md_ops_spec(
            ts.drop_first(),
        ).result {
            Ok(e) => pm_ops_tail_spec(difference(left, e), md_ops_spec(ts.drop_first()).rest),
            Err(_) => md_ops_spec(ts.drop_first()),
        },
{
    lemma_operand_consumes(ts);
    lemma_power_ops_consumes(ts);
    lemma_md_ops_consumes(ts);
    if ts.len() > 0 {
        lemma_operand_consumes(ts.drop_first());
        lemma_power_ops_consumes(ts.drop_first());
        lemma_md_ops_consumes(ts.drop_first());
    }
}

/// The parser: reads an expression from the tokens of a tokenizer.
pub struct Parser<P> {
    tokenizer: Tokenizer<P>,
}

impl<P: Fn(String) -> InvalidTokenFix> Parser<P> {
    /// The invariant: that of the tokenizer.
    pub closed spec fn wf(&self) -> bool {
        self.tokenizer.wf()
    }

    /// The tokens that the tokenizer has still to deliver, where invalid
    /// text is answered as `answers` says.
    pub closed spec fn remaining(&self, answers: spec_fn(Seq<char>) -> Fix) -> Seq<Lexeme> {
        self.tokenizer.remaining(answers)
    }

    /// The characters that the tokenizer was made for.
    pub closed spec fn input(&self) -> Seq<char> {
        self.tokenizer.input()
    }

    /// The policy that the tokenizer was made with.
    pub closed spec fn policy(&self) -> P {
        self.tokenizer.policy()
    }

    /// A bound on the number of tokens that can still be delivered.
    pub closed spec fn unread(&self) -> nat {
        self.tokenizer.unread()
    }

    /// Whether the policy answers as `answers` does to every invalid text
    /// that is still to be met.
    pub closed spec fn settled(&self, answers: spec_fn(Seq<char>) -> Fix) -> bool {
        self.tokenizer.settled(answers)
    }

    /// Whether a call has left the parser as `old` was, but for the tokens
    /// that it has consumed.
    pub open spec fn follows(&self, old: &Parser<P>) -> bool {
        &&& self.wf()
        &&& self.input() == old.input()
        &&& self.policy() == old.policy()
        &&& self.unread() <= old.unread()
    }

    /// Whether a call that started from `old` and returned `r` has done what
    /// `rule` says: wherever the policy answers as some `answers` does, `r`
    /// is the result of `rule` on the tokens that `old` had to deliver under
    /// `answers`, and this parser has those to deliver that `rule` leaves.
    spec fn parsed_by(
        &self,
        old: &Parser<P>,
        r: Result<Expression, ParseError>,
        rule: spec_fn(Seq<Lexeme>) -> Parsed,
    ) -> bool {
        forall|answers: spec_fn(Seq<char>) -> Fix| #[trigger]
            old.tokenizer.settled(answers) ==> {
                let parsed = rule(old.tokenizer.remaining(answers));
                &&& self.tokenizer.settled(answers)
                &&& outcome(r) == parsed.result
                &&& self.tokenizer.remaining(answers) == parsed.rest
            }
    }

    /// A parser for the tokens of a tokenizer.
    pub fn new(tokenizer: Tokenizer<P>) -> (parser: Parser<P>)
        requires
            tokenizer.wf(),
        ensures
            parser.wf(),
            parser.input() == tokenizer.input(),
            parser.policy() == tokenizer.policy(),
            parser.unread() == tokenizer.unread(),
            forall|answers: spec_fn(Seq<char>) -> Fix|
                #![trigger parser.settled(answers)]
                #![trigger parser.remaining(answers)]
                parser.settled(answers) == tokenizer.settled(answers) && parser.remaining(answers)
                    == tokenizer.remaining(answers),
    {
        Parser { tokenizer }
    }

    /// Reads a text as one expression, consulting the policy about what is
    /// not a token.
    pub fn parse(input: &str, policy: P) -> (r: Result<Expression, ParseError>)
        requires
            accepts_every_text(policy),
        ensures
            forall|answers: spec_fn(Seq<char>) -> Fix| #[trigger]
                settled(input@, policy, answers) ==> outcome(r) == run_spec(
                    tokens_of(input@, answers),
                ),
    {
        let tokenizer = Tokenizer::new(input, policy);
        let mut parser = Parser::new(tokenizer);
        assert forall|answers: spec_fn(Seq<char>) -> Fix| #[trigger]
            settled(input@, policy, answers) implies parser.settled(answers) && parser.remaining(
            answers,
        ) == tokens_of(input@, answers) by {
        }
        parser.run()
    }

    /// Reads one expression and requires that no token follows it.
    pub fn run(&mut self) -> (r: Result<Expression, ParseError>)
        requires
            old(self).wf(),
        ensures
            final(self).follows(old(self)),
            forall|answers: spec_fn(Seq<char>) -> Fix| #[trigger]
                old(self).settled(answers) ==> outcome(r) == run_spec(
                    old(self).remaining(answers),
                ),
    {
        match self.statement() {
            Ok(f) => {
                match self.tokenizer.peek() {
                    None => Ok(f),
                    Some(extra) => Err(ParseError::ExpectedEnd { extra }),
                }
            },
            Err(error) => Err(error),
        }
    }

    /// Reads a statement: an expression.
    fn statement(&mut self) -> (r: Result<Expression, ParseError>)
        requires
            old(self).wf(),
        ensures
            final(self).follows(old(self)),
            r is Ok ==> final(self).unread() < old(self).unread(),
            final(self).parsed_by(old(self), r, |ts: Seq<Lexeme>| expression_spec(ts)),
    {
        self.expression()
    }

    /// Reads an expression.
    fn expression(&mut self) -> (r: Result<Expression, ParseError>)
        requires
            old(self).wf(),
        ensures
            final(self).follows(old(self)),
            r is Ok ==> final(self).unread() < old(self).unread(),
            final(self).parsed_by(old(self), r, |ts: Seq<Lexeme>| expression_spec(ts)),
        decreases old(self).unread(), 5nat,
    {
        self.pm_ops()
    }

    /// Reads a chain of sums and differences.
    fn pm_ops(&mut self) -> (r: Result<Expression, ParseError>)
        requires
            old(self).wf(),
        ensures
            final(self).follows(old(self)),
            r is Ok ==> final(self).unread() < old(self).unread(),
            final(self).parsed_by(old(self), r, |ts: Seq<Lexeme>| pm_ops_spec(ts)),
        decreases old(self).unread(), 4nat,
    {
        proof {
            lemma_rules_consume();
        }
        match self.md_ops() {
            Ok(left) => self.pm_ops_tail(left),
            Err(error) => Err(error),
        }
    }

    /// Reads what follows the first operand of a chain of sums and
    /// differences.
    fn pm_ops_tail(&mut self, left: Expression) -> (r: Result<Expression, ParseError>)
        requires
            old(self).wf(),
        ensures
            final(self).follows(old(self)),
            final(self).parsed_by(old(self), r, |ts: Seq<Lexeme>| pm_ops_tail_spec(left, ts)),
        decreases old(self).unread(), 0nat,
    {
        proof {
            lemma_rules_consume();
        }
        match self.tokenizer.peek() {
            Some(Token::Plus) => {
                self.tokenizer.take();
                match self.md_ops() {
                    Ok(right) => self.pm_ops_tail(Expression::sum(left, right)),
                    Err(error) => Err(error),
                }
            },
            Some(Token::Minus) => {
                self.tokenizer.take();
                match self.md_ops() {
                    Ok(right) => self.pm_ops_tail(Expression::difference(left, right)),
                    Err(error) => Err(error),
                }
            },
            _ => Ok(left),
        }
    }

    /// Reads a chain of products and quotients.
    fn md_ops(&mut self) -> (r: Result<Expression, ParseError>)
        requires
            old(self).wf(),
        ensures
            final(self).follows(old(self)),
            r is Ok ==> final(self).unread() < old(self).unread(),
            final(self).parsed_by(old(self), r, |ts: Seq<Lexeme>| md_ops_spec(ts)),
        decreases old(self).unread(), 3nat,
    {
        proof {
            lemma_rules_consume();
        }
        match self.power_ops() {
            Ok(left) => self.md_ops_tail(left),
            Err(error) => Err(error),
        }
    }

    /// Reads what follows the first operand of a chain of products and
    /// quotients.
    fn md_ops_tail(&mut self, left: Expression) -> (r: Result<Expression, ParseError>)
        requires
            old(self).wf(),
        ensures
            final(self).follows(old(self)),
            final(self).parsed_by(old(self), r, |ts: Seq<Lexeme>| md_ops_tail_spec(left, ts)),
        decreases old(self).unread(), 0nat,
    {
        proof {
            lemma_rules_consume();
        }
        match self.tokenizer.peek() {
            Some(Token::Mul) => {
                self.tokenizer.take();
                match self.power_ops() {
                    Ok(right) => self.md_ops_tail(Expression::product(left, right)),
                    Err(error) => Err(error),
                }
            },
            Some(Token::Div) => {
                self.tokenizer.take();
                match self.power_ops() {
                    Ok(right) => self.md_ops_tail(Expression::quotient(left, right)),
                    Err(error) => Err(error),
                }
            },
            _ => Ok(left),
        }
    }

    /// Reads a chain of powers.
    fn power_ops(&mut self) -> (r: Result<Expression, ParseError>)
        requires
            old(self).wf(),
        ensures
            final(self).follows(old(self)),
            r is Ok ==> final(self).unread() < old(self).unread(),
            final(self).parsed_by(old(self), r, |ts: Seq<Lexeme>| power_ops_spec(ts)),
        decreases old(self).unread(), 2nat,
    {
        proof {
            lemma_rules_consume();
        }
        match self.operand() {
            Ok(left) => self.power_ops_tail(left),
            Err(error) => Err(error),
        }
    }

    /// Reads what follows the first operand of a chain of powers. `a ^ b`
    /// becomes `exp(ln(a) * b)`.
    fn power_ops_tail(&mut self, left: Expression) -> (r: Result<Expression, ParseError>)
        requires
            old(self).wf(),
        ensures
            final(self).follows(old(self)),
            final(self).parsed_by(old(self), r, |ts: Seq<Lexeme>| power_ops_tail_spec(left, ts)),
        decreases old(self).unread(), 0nat,
    {
        proof {
            lemma_rules_consume();
        }
        match self.tokenizer.peek() {
            Some(Token::Power) => {
                self.tokenizer.take();
                match self.operand() {
                    Ok(right) => self.power_ops_tail(
                        Expression::composition(
                            Expression::Exp(Exp),
                            Expression::product(
                                Expression::composition(Expression::Ln(Ln), left),
                                right,
                            ),
                        ),
                    ),
                    Err(error) => Err(error),
                }
            },
            _ => Ok(left),
        }
    }

    /// Reads the operand of a function that has just been consumed, and
    /// applies the function to it.
    fn application(&mut self, outer: Expression) -> (r: Result<Expression, ParseError>)
        requires
            old(self).wf(),
        ensures
            final(self).follows(old(self)),
            r is Ok ==> final(self).unread() < old(self).unread(),
            final(self).parsed_by(
                old(self),
                r,
                |ts: Seq<Lexeme>| applied_to(outer, operand_spec(ts)),
            ),
        decreases old(self).unread(), 2nat,
    {
        match self.operand() {
            Ok(inner) => Ok(Expression::composition(outer, inner)),
            Err(error) => Err(error),
        }
    }

    /// Reads an operand: a number, the variable `x`, a built-in function
    /// with its operand, or an expression in parentheses.
    fn operand(&mut self) -> (r: Result<Expression, ParseError>)
        requires
            old(self).wf(),
        ensures
            final(self).follows(old(self)),
            r is Ok ==> final(self).unread() < old(self).unread(),
            final(self).parsed_by(old(self), r, |ts: Seq<Lexeme>| operand_spec(ts)),
        decreases old(self).unread(), 1nat,
    {
        match self.tokenizer.peek() {
            Some(Token::Number(value)) => {
                self.tokenizer.take();
                Ok(Expression::constant(value))
            },
            Some(Token::Identifier(name)) => {
                if name == String::from_str("x") {
                    self.tokenizer.take();
                    Ok(Expression::Identity(Identity))
                } else {
                    Err(ParseError::InvalidIdentifier { name })
                }
            },
            Some(Token::Exp) => {
                self.tokenizer.take();
                self.application(Expression::Exp(Exp))
            },
            Some(Token::Ln) => {
                self.tokenizer.take();
                self.application(Expression::Ln(Ln))
            },
            Some(Token::Sin) => {
                self.tokenizer.take();
                self.application(Expression::Sin(Sin))
            },
            Some(Token::Cos) => {
                self.tokenizer.take();
                self.application(Expression::Cos(Cos))
            },
            Some(Token::Tan) => {
                self.tokenizer.take();
                self.application(
                    Expression::quotient(Expression::Sin(Sin), Expression::Cos(Cos)),
                )
            },
            Some(Token::Cotan) => {
                self.tokenizer.take();
                self.application(
                    Expression::quotient(Expression::Cos(Cos), Expression::Sin(Sin)),
                )
            },
            Some(Token::OpenParen) => self.bracket_expr(),
            Some(found) => Err(ParseError::ExpectedOperand { found: Some(found) }),
            None => Err(ParseError::ExpectedOperand { found: None }),
        }
    }

    /// Reads an expression in parentheses.
    fn bracket_expr(&mut self) -> (r: Result<Expression, ParseError>)
        requires
            old(self).wf(),
        ensures
            final(self).follows(old(self)),
            r is Ok ==> final(self).unread() < old(self).unread(),
            final(self).parsed_by(old(self), r, |ts: Seq<Lexeme>| bracket_spec(ts)),
        decreases old(self).unread(), 0nat,
    {
        match self.expect(Token::OpenParen) {
            Err(error) => Err(error),
            Ok(()) => match self.expression() {
                Err(error) => Err(error),
                Ok(inner) => match self.expect(Token::CloseParen) {
                    Err(error) => Err(error),
                    Ok(()) => Ok(inner),
                },
            },
        }
    }

    /// Consumes the token `expected`, or fails and consumes nothing.
    fn expect(&mut self, expected: Token) -> (r: Result<(), ParseError>)
        requires
            old(self).wf(),
        ensures
            final(self).follows(old(self)),
            r is Ok ==> final(self).unread() < old(self).unread(),
            forall|answers: spec_fn(Seq<char>) -> Fix| #[trigger]
                old(self).tokenizer.settled(answers) ==> {
                    let before = old(self).tokenizer.remaining(answers);
                    let after = final(self).tokenizer.remaining(answers);
                    &&& final(self).tokenizer.settled(answers)
                    &&& match expect_spec(expected@, before) {
                        Ok(rest) => r is Ok && after == rest,
                        Err(fault) => r matches Err(error) && error@ == fault && after == before,
                    }
                },
    {
        match self.tokenizer.peek() {
            Some(found) => {
                if expected.same(&found) {
                    self.tokenizer.take();
                    Ok(())
                } else {
                    Err(ParseError::ExpectedToken { expected, found: Some(found) })
                }
            },
            None => Err(ParseError::ExpectedToken { expected, found: None }),
        }
    }
}

} // verus!
