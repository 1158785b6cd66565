use dcalc::func::{Cos, Exp, Expression, Identity, Ln, Sin};
use dcalc::number::Number;
use dcalc::parser::{ParseError, Parser};
use dcalc::tokenizer::{fail_on_invalid, ignore_invalid, InvalidTokenFix, Token, Tokenizer};
use dcalc::{parse, parse_lenient};
use std::cell::RefCell;

fn c(value: f64) -> Expression {
    Expression::constant(Number::from_bits(value.to_bits()))
}

fn num(value: f64) -> Token {
    Token::Number(Number::from_bits(value.to_bits()))
}

fn x() -> Expression {
    Expression::Identity(Identity)
}

fn apply(outer: Expression, inner: Expression) -> Expression {
    Expression::composition(outer, inner)
}

fn raised(base: Expression, exponent: Expression) -> Expression {
    apply(Expression::Exp(Exp), Expression::product(apply(Expression::Ln(Ln), base), exponent))
}

#[test]
fn operands() {
    assert_eq!(parse_lenient("42"), Ok(c(42.0)));
    assert_eq!(parse_lenient("x"), Ok(x()));
    assert_eq!(parse_lenient("(x)"), Ok(x()));
    assert_eq!(parse_lenient("((x))"), Ok(x()));
    assert_eq!(parse_lenient("  ( 1.5 ) "), Ok(c(1.5)));
}

#[test]
fn built_in_functions_apply_to_the_next_operand() {
    assert_eq!(parse_lenient("exp x"), Ok(apply(Expression::Exp(Exp), x())));
    assert_eq!(parse_lenient("ln(x)"), Ok(apply(Expression::Ln(Ln), x())));
    assert_eq!(parse_lenient("sin 2"), Ok(apply(Expression::Sin(Sin), c(2.0))));
    assert_eq!(parse_lenient("COS x"), Ok(apply(Expression::Cos(Cos), x())));
    assert_eq!(
        parse_lenient("tg x"),
        Ok(apply(Expression::quotient(Expression::Sin(Sin), Expression::Cos(Cos)), x()))
    );
    assert_eq!(
        parse_lenient("ctg x"),
        Ok(apply(Expression::quotient(Expression::Cos(Cos), Expression::Sin(Sin)), x()))
    );
    assert_eq!(
        parse_lenient("sin cos x"),
        Ok(apply(Expression::Sin(Sin), apply(Expression::Cos(Cos), x())))
    );
    assert_eq!(
        parse_lenient("sin x + 1"),
        Ok(Expression::sum(apply(Expression::Sin(Sin), x()), c(1.0)))
    );
    assert_eq!(
        parse_lenient("sin x ^ 2"),
        Ok(raised(apply(Expression::Sin(Sin), x()), c(2.0)))
    );
    assert_eq!(
        parse_lenient("sin (x + 1)"),
        Ok(apply(Expression::Sin(Sin), Expression::sum(x(), c(1.0))))
    );
}

#[test]
fn binary_operators_group_to_the_left() {
    assert_eq!(
        parse_lenient("1 + 2 + 3"),
        Ok(Expression::sum(Expression::sum(c(1.0), c(2.0)), c(3.0)))
    );
    assert_eq!(
        parse_lenient("x - x - x"),
        Ok(Expression::difference(Expression::difference(x(), x()), x()))
    );
    assert_eq!(
        parse_lenient("1 + x - 2"),
        Err(ParseError::ExpectedEnd { extra: num(-2.0) })
    );
    assert_eq!(
        parse_lenient("8 / 4 / 2"),
        Ok(Expression::quotient(Expression::quotient(c(8.0), c(4.0)), c(2.0)))
    );
    assert_eq!(
        parse_lenient("8 / 4 * 2"),
        Ok(Expression::product(Expression::quotient(c(8.0), c(4.0)), c(2.0)))
    );
    assert_eq!(parse_lenient("x ^ 2 ^ 3"), Ok(raised(raised(x(), c(2.0)), c(3.0))));
}

#[test]
fn tighter_operators_bind_first() {
    assert_eq!(
        parse_lenient("1 + 2 * 3"),
        Ok(Expression::sum(c(1.0), Expression::product(c(2.0), c(3.0))))
    );
    assert_eq!(
        parse_lenient("1 * 2 + 3"),
        Ok(Expression::sum(Expression::product(c(1.0), c(2.0)), c(3.0)))
    );
    assert_eq!(
        parse_lenient("2 * x ^ 3"),
        Ok(Expression::product(c(2.0), raised(x(), c(3.0))))
    );
    assert_eq!(
        parse_lenient("(1 + 2) * 3"),
        Ok(Expression::product(Expression::sum(c(1.0), c(2.0)), c(3.0)))
    );
    assert_eq!(
        parse_lenient("3.5 + x * 2"),
        Ok(Expression::sum(c(3.5), Expression::product(x(), c(2.0))))
    );
    assert_eq!(
        parse_lenient("x / 2 - x * x"),
        Ok(Expression::difference(
            Expression::quotient(x(), c(2.0)),
            Expression::product(x(), x())
        ))
    );
}

#[test]
fn power_is_written_with_exp_and_ln() {
    assert_eq!(
        parse_lenient("x^2"),
        Ok(apply(
            Expression::Exp(Exp),
            Expression::product(apply(Expression::Ln(Ln), x()), c(2.0))
        ))
    );
}

#[test]
fn missing_operand() {
    assert_eq!(parse_lenient(""), Err(ParseError::ExpectedOperand { found: None }));
    assert_eq!(parse_lenient("1 +"), Err(ParseError::ExpectedOperand { found: None }));
    assert_eq!(parse_lenient("sin"), Err(ParseError::ExpectedOperand { found: None }));
    assert_eq!(parse_lenient("("), Err(ParseError::ExpectedOperand { found: None }));
    assert_eq!(parse_lenient("2 ^"), Err(ParseError::ExpectedOperand { found: None }));
    assert_eq!(
        parse_lenient(")"),
        Err(ParseError::ExpectedOperand { found: Some(Token::CloseParen) })
    );
    assert_eq!(
        parse_lenient("1 * / 2"),
        Err(ParseError::ExpectedOperand { found: Some(Token::Div) })
    );
    assert_eq!(parse_lenient("-x"), Err(ParseError::ExpectedOperand { found: Some(Token::Minus) }));
    assert_eq!(
        parse_lenient("()"),
        Err(ParseError::ExpectedOperand { found: Some(Token::CloseParen) })
    );
    assert_eq!(
        parse_lenient("").unwrap_err().message(),
        "Expected an operand, found end of input."
    );
    assert_eq!(
        parse_lenient("1 * / 2").unwrap_err().message(),
        "Expected an operand, found `/`."
    );
}

#[test]
fn only_x_is_a_variable() {
    assert_eq!(
        parse_lenient("y"),
        Err(ParseError::InvalidIdentifier { name: "y".to_string() })
    );
    assert_eq!(
        parse_lenient("1 + X"),
        Err(ParseError::InvalidIdentifier { name: "X".to_string() })
    );
    assert_eq!(
        parse_lenient("sin xx"),
        Err(ParseError::InvalidIdentifier { name: "xx".to_string() })
    );
    assert_eq!(
        parse_lenient("y").unwrap_err().message(),
        "Invalid identifier `y`. Use `x` as the variable name."
    );
}

#[test]
fn missing_closing_parenthesis() {
    assert_eq!(
        parse_lenient("(1+2"),
        Err(ParseError::ExpectedToken { expected: Token::CloseParen, found: None })
    );
    assert_eq!(
        parse_lenient("(1 2)"),
        Err(ParseError::ExpectedToken { expected: Token::CloseParen, found: Some(num(2.0)) })
    );
    assert_eq!(
        parse_lenient("(x x").unwrap_err().message(),
        "Expected `)`, found `x`."
    );
    assert_eq!(
        parse_lenient("sin(x").unwrap_err().message(),
        "Expected `)`, found end of input."
    );
}

#[test]
fn trailing_tokens() {
    assert_eq!(parse_lenient("1 2"), Err(ParseError::ExpectedEnd { extra: num(2.0) }));
    assert_eq!(parse_lenient("x)"), Err(ParseError::ExpectedEnd { extra: Token::CloseParen }));
    assert_eq!(
        parse_lenient("x x"),
        Err(ParseError::ExpectedEnd { extra: Token::Identifier("x".to_string()) })
    );
    assert_eq!(
        parse_lenient("1 2").unwrap_err().message(),
        "Expected end of input, found `2`."
    );
    assert_eq!(
        parse_lenient("(x) sin").unwrap_err().message(),
        "Expected end of input, found `sin`."
    );
}

#[test]
fn parsing_under_a_policy() {
    assert_eq!(parse("1 + & 2", ignore_invalid), Ok(Expression::sum(c(1.0), c(2.0))));
    assert_eq!(
        parse("1 + & 2", fail_on_invalid),
        Err(ParseError::ExpectedOperand { found: None })
    );
    assert_eq!(parse("1 & + 2", fail_on_invalid), Ok(c(1.0)));
    let times = |_: String| InvalidTokenFix::Substitute(Token::Mul);
    assert_eq!(parse("2 ? x", times), Ok(Expression::product(c(2.0), x())));
}

#[test]
fn nothing_is_read_beyond_the_fault() {
    let seen: RefCell<Vec<String>> = RefCell::new(Vec::new());
    let policy = |text: String| {
        seen.borrow_mut().push(text);
        InvalidTokenFix::Ignore
    };
    assert_eq!(
        parse("1 ? + + 2 ! 3", policy),
        Err(ParseError::ExpectedOperand { found: Some(Token::Plus) })
    );
    assert_eq!(*seen.borrow(), vec!["?"]);
}

#[test]
fn a_parser_runs_on_a_tokenizer() {
    let mut parser = Parser::new(Tokenizer::new("x * 2", ignore_invalid));
    assert_eq!(parser.run(), Ok(Expression::product(x(), c(2.0))));
    assert_eq!(Parser::parse("x * 2", ignore_invalid), Ok(Expression::product(x(), c(2.0))));
    let mut tokenizer = Tokenizer::new("7 x", ignore_invalid);
    assert_eq!(tokenizer.take(), Some(num(7.0)));
    let mut parser = Parser::new(tokenizer);
    assert_eq!(parser.run(), Ok(x()));
}
