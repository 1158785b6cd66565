use dcalc::func::{
    Compose, Constant, Cos, DiffFunc, Div, Exp, Expression, Identity, Ln, Minus, Mul, Plus, Power,
    Sin,
};
use dcalc::number::Number;
use dcalc::parser::ParseError;
use dcalc::simplify::Simplify;
use dcalc::tokenizer::{ignore_invalid, tokenize, InvalidTokenFix, Token, Tokenizer};
use dcalc::{differentiate, interpret, parse, parse_lenient, render, simplify};
use std::cell::RefCell;

fn num(value: f64) -> Number {
    Number::from_bits(value.to_bits())
}

fn constant(value: f64) -> Expression {
    Expression::constant(num(value))
}

fn power(value: f64) -> Expression {
    Expression::power(num(value))
}

fn x() -> Expression {
    Expression::Identity(Identity)
}

fn derivative_of(text: &str) -> String {
    let parsed = parse_lenient(text).unwrap();
    render(&simplify(&differentiate(&simplify(&parsed))), "x")
}

#[test]
fn tokenizes_numbers_names_and_operators() {
    let tokens = tokenize("3.5 + x * 2", ignore_invalid);
    assert_eq!(
        tokens,
        vec![
            Token::Number(num(3.5)),
            Token::Plus,
            Token::Identifier("x".to_string()),
            Token::Mul,
            Token::Number(num(2.0)),
        ]
    );
}

#[test]
fn minus_before_a_digit_is_a_sign() {
    assert_eq!(parse_lenient("-3"), Ok(constant(-3.0)));
    assert_eq!(parse_lenient("- 3"), Ok(constant(-3.0)));
    assert_eq!(tokenize("- 3", ignore_invalid), vec![Token::Number(num(-3.0))]);
    assert_eq!(tokenize("-3", ignore_invalid), vec![Token::Number(num(-3.0))]);
}

#[test]
fn minus_before_a_name_is_an_operator() {
    assert_eq!(
        tokenize("-x", ignore_invalid),
        vec![Token::Minus, Token::Identifier("x".to_string())]
    );
    assert_eq!(parse_lenient("x-(3)"), Ok(Expression::difference(x(), constant(3.0))));
    assert_eq!(
        parse_lenient("x - x"),
        Ok(Expression::Minus(Minus {
            left: Box::new(Expression::Identity(Identity)),
            right: Box::new(Expression::Identity(Identity)),
        }))
    );
    assert_eq!(
        parse_lenient("x-(3)"),
        Ok(Expression::Minus(Minus {
            left: Box::new(Expression::Identity(Identity)),
            right: Box::new(Expression::Constant(Constant { value: num(3.0) })),
        }))
    );
}

#[test]
fn minus_before_a_digit_is_a_sign_after_an_operand_too() {
    assert_eq!(
        tokenize("x-3", ignore_invalid),
        vec![Token::Identifier("x".to_string()), Token::Number(num(-3.0))]
    );
    assert_eq!(
        parse_lenient("x-3"),
        Err(ParseError::ExpectedEnd { extra: Token::Number(num(-3.0)) })
    );
    assert_eq!(
        parse_lenient("x - 3").unwrap_err().message(),
        "Expected end of input, found `-3`."
    );
}

#[test]
fn derivative_of_a_square() {
    assert_eq!(derivative_of("x^2"), "(2 * (x^1))");
    let parsed = parse_lenient("x^2").unwrap();
    let derived = simplify(&differentiate(&simplify(&parsed)));
    assert_eq!(
        derived,
        Expression::composition(Expression::product(constant(2.0), power(1.0)), x())
    );
    assert_eq!(
        simplify(&differentiate(&power(2.0))),
        Expression::Mul(Mul {
            left: Box::new(Expression::Constant(Constant { value: num(2.0) })),
            right: Box::new(Expression::Power(Power { exponent: num(1.0) })),
        })
    );
    assert_eq!(render(&simplify(&differentiate(&power(2.0))), "x"), "(2 * (x^1))");
}

#[test]
fn derivative_of_the_sine() {
    assert_eq!(derivative_of("sin(x)"), "cos(x)");
    let parsed = parse_lenient("sin(x)").unwrap();
    assert_eq!(render(&simplify(&differentiate(&parsed)), "x"), "cos(x)");
}

#[test]
fn derivative_of_the_logarithm() {
    assert_eq!(derivative_of("ln(x)"), "(1 / (x^1))");
    let parsed = parse_lenient("ln(x)").unwrap();
    assert_eq!(render(&simplify(&differentiate(&parsed)), "x"), "(1 / (x^1))");
}

#[test]
fn simplifying_twice_is_simplifying_once() {
    let texts =
        ["x^2", "sin(x) * cos(x) + 0", "(x + (x + x)) * 1", "exp(ln(x) * 3) / 1", "0 - x", "x^0"];
    for text in texts {
        let parsed = parse_lenient(text).unwrap();
        let once = simplify(&parsed);
        let twice = simplify(&once);
        assert_eq!(once, twice);
        assert_eq!(once.simplify_step(), once);
        assert!(once.identical(&twice));
    }
}

#[test]
fn rendering_is_repeatable() {
    let parsed = parse_lenient("tg(x) / (x + 1.5)").unwrap();
    let first = render(&parsed, "t");
    let second = render(&parsed, "t");
    assert_eq!(first, second);
    assert_eq!(first, "((sin(t) / cos(t)) / (t + 1.5))");
    assert_eq!(parsed.to_str("t"), first);
}

#[test]
fn unclosed_parenthesis_is_reported() {
    let error = parse_lenient("(1+2").unwrap_err();
    assert_eq!(
        error,
        ParseError::ExpectedToken { expected: Token::CloseParen, found: None }
    );
    let message = error.message();
    assert_eq!(message, "Expected `)`, found end of input.");
    assert!(message.contains(")"));
    assert!(message.contains("end of input"));
}

#[test]
fn invalid_character_goes_to_the_policy() {
    let seen: RefCell<Vec<String>> = RefCell::new(Vec::new());
    let policy = |text: String| {
        seen.borrow_mut().push(text);
        InvalidTokenFix::Ignore
    };
    let tokens = tokenize("x & 1", policy);
    assert_eq!(tokens, vec![Token::Identifier("x".to_string()), Token::Number(num(1.0))]);
    assert_eq!(*seen.borrow(), vec!["&".to_string()]);
}

#[test]
fn interpret_gives_the_text_of_the_derivative() {
    assert_eq!(interpret("x * x", ignore_invalid), Ok("(2 * x)".to_string()));
    assert_eq!(interpret("exp(x)", ignore_invalid), Ok("exp(x)".to_string()));
    assert_eq!(interpret("7", ignore_invalid), Ok("0".to_string()));
    assert!(interpret("7 +", ignore_invalid).is_err());
    assert_eq!(parse("7", ignore_invalid), Ok(constant(7.0)));
    let _ = Plus { left: Box::new(x()), right: Box::new(x()) };
    let _ = Div { left: Box::new(x()), right: Box::new(x()) };
    let _ = (Compose { outer: Box::new(x()), inner: Box::new(x()) }, Exp, Ln, Sin, Cos);
    let mut tokenizer = Tokenizer::new("1", ignore_invalid);
    assert!(!tokenizer.eof());
}
