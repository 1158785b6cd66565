use dcalc::func::{Cos, Exp, Expression, Identity, Ln, Sin};
use dcalc::number::Number;
use dcalc::simplify::{
    simplify_compose, simplify_div, simplify_minus, simplify_mul, simplify_plus, Simplify,
};
use dcalc::{parse_lenient, render, simplify};

fn c(value: f64) -> Expression {
    Expression::constant(Number::from_bits(value.to_bits()))
}

fn p(value: f64) -> Expression {
    Expression::power(Number::from_bits(value.to_bits()))
}

fn x() -> Expression {
    Expression::Identity(Identity)
}

fn sin() -> Expression {
    Expression::Sin(Sin)
}

fn cos() -> Expression {
    Expression::Cos(Cos)
}

fn exp() -> Expression {
    Expression::Exp(Exp)
}

fn ln() -> Expression {
    Expression::Ln(Ln)
}

fn sum(l: Expression, r: Expression) -> Expression {
    Expression::sum(l, r)
}

fn diff(l: Expression, r: Expression) -> Expression {
    Expression::difference(l, r)
}

fn mul(l: Expression, r: Expression) -> Expression {
    Expression::product(l, r)
}

fn div(l: Expression, r: Expression) -> Expression {
    Expression::quotient(l, r)
}

fn of(o: Expression, i: Expression) -> Expression {
    Expression::composition(o, i)
}

#[test]
fn leaves_stay() {
    for leaf in [sin(), cos(), exp(), ln(), x(), c(2.0), c(0.0), p(2.0), p(-1.0)] {
        assert_eq!(leaf.simplify_step(), leaf);
        assert_eq!(leaf.simplify(), leaf);
    }
}

#[test]
fn power_zero_is_one() {
    assert_eq!(p(0.0).simplify_step(), c(1.0));
    assert_eq!(p(-0.0).simplify(), c(1.0));
}

#[test]
fn sum_rules() {
    assert_eq!(simplify_plus(c(1.5), c(2.0)), c(3.5));
    assert_eq!(simplify_plus(c(0.0), sin()), sin());
    assert_eq!(simplify_plus(c(-0.0), sin()), sin());
    assert_eq!(simplify_plus(sin(), c(0.0)), sin());
    assert_eq!(simplify_plus(sin(), sum(cos(), x())), sum(sum(sin(), cos()), x()));
    assert_eq!(simplify_plus(sin(), sin()), mul(c(2.0), sin()));
    assert_eq!(
        simplify_plus(of(sin(), c(0.0)), of(sin(), c(-0.0))),
        mul(c(2.0), of(sin(), c(0.0)))
    );
    assert_eq!(simplify_plus(sin(), cos()), sum(sin(), cos()));
    assert_eq!(simplify_plus(c(1.0), sin()), sum(c(1.0), sin()));
    assert_eq!(simplify_plus(sum(sin(), cos()), x()), sum(sum(sin(), cos()), x()));
    assert_eq!(simplify_plus(c(0.0), c(0.0)), c(0.0));
    assert_eq!(simplify_plus(c(0.0), sum(sin(), cos())), sum(sin(), cos()));
}

#[test]
fn difference_rules() {
    assert_eq!(simplify_minus(c(1.5), c(2.0)), c(-0.5));
    assert_eq!(simplify_minus(c(0.0), sin()), mul(c(-1.0), sin()));
    assert_eq!(simplify_minus(sin(), c(0.0)), sin());
    assert_eq!(simplify_minus(sin(), sin()), diff(sin(), sin()));
    assert_eq!(simplify_minus(sin(), c(1.0)), diff(sin(), c(1.0)));
}

#[test]
fn product_rules_with_constants() {
    assert_eq!(simplify_mul(c(1.5), c(2.0)), c(3.0));
    assert_eq!(simplify_mul(c(1.0), sin()), sin());
    assert_eq!(simplify_mul(sin(), c(1.0)), sin());
    assert_eq!(simplify_mul(c(0.0), sin()), c(0.0));
    assert_eq!(simplify_mul(sin(), c(0.0)), c(0.0));
    let zero = simplify_mul(sin(), c(-0.0));
    assert!(zero.identical(&c(0.0)));
    assert_eq!(simplify_mul(c(2.0), sin()), mul(c(2.0), sin()));
    assert_eq!(simplify_mul(c(1.0), c(0.0)), c(0.0));
}

#[test]
fn product_rules_with_powers() {
    assert_eq!(simplify_mul(p(2.0), p(3.0)), p(5.0));
    assert_eq!(simplify_mul(sin(), mul(p(2.0), p(3.0))), mul(p(5.0), sin()));
    assert_eq!(simplify_mul(p(1.0), mul(p(2.0), p(3.0))), mul(p(5.0), p(1.0)));
    assert_eq!(simplify_mul(p(2.0), mul(sin(), p(3.0))), mul(p(5.0), sin()));
    assert_eq!(simplify_mul(p(2.0), mul(p(3.0), sin())), mul(p(5.0), sin()));
    assert_eq!(simplify_mul(mul(p(2.0), p(3.0)), sin()), mul(p(5.0), sin()));
    assert_eq!(simplify_mul(mul(p(2.0), sin()), p(3.0)), mul(p(5.0), sin()));
    assert_eq!(simplify_mul(mul(sin(), p(2.0)), p(3.0)), mul(p(5.0), sin()));
    assert_eq!(simplify_mul(p(2.0), sin()), mul(p(2.0), sin()));
}

#[test]
fn product_rules_with_exponentials_and_nesting() {
    assert_eq!(
        simplify_mul(of(exp(), sin()), of(exp(), cos())),
        of(exp(), sum(sin(), cos()))
    );
    assert_eq!(simplify_mul(sin(), mul(cos(), x())), mul(mul(sin(), cos()), x()));
    assert_eq!(simplify_mul(mul(sin(), cos()), x()), mul(mul(sin(), cos()), x()));
    assert_eq!(
        simplify_mul(of(exp(), sin()), of(sin(), cos())),
        mul(of(exp(), sin()), of(sin(), cos()))
    );
    assert_eq!(simplify_mul(sin(), sin()), mul(sin(), sin()));
}

#[test]
fn quotient_rules() {
    assert_eq!(simplify_div(c(3.0), c(2.0)), c(1.5));
    assert_eq!(simplify_div(sin(), c(1.0)), sin());
    assert_eq!(simplify_div(c(1.0), sin()), div(c(1.0), sin()));
    assert_eq!(simplify_div(c(0.0), sin()), div(c(0.0), sin()));
    assert_eq!(simplify_div(sin(), sin()), div(sin(), sin()));
    assert_eq!(simplify_div(c(1.0), c(0.0)), c(f64::INFINITY));
}

#[test]
fn composition_rules() {
    assert_eq!(simplify_compose(p(2.0), p(3.0)), p(6.0));
    assert_eq!(simplify_compose(exp(), ln()), p(1.0));
    assert_eq!(simplify_compose(exp(), of(ln(), sin())), sin());
    assert_eq!(simplify_compose(exp(), mul(of(ln(), sin()), c(3.0))), of(p(3.0), sin()));
    assert_eq!(simplify_compose(exp(), mul(c(3.0), of(ln(), sin()))), of(p(3.0), sin()));
    assert_eq!(simplify_compose(ln(), exp()), p(1.0));
    assert_eq!(simplify_compose(ln(), of(exp(), sin())), sin());
    assert_eq!(simplify_compose(sin(), x()), of(sin(), x()));
    assert_eq!(simplify_compose(exp(), of(exp(), sin())), of(exp(), of(exp(), sin())));
    assert_eq!(
        simplify_compose(exp(), mul(of(ln(), sin()), cos())),
        of(exp(), mul(of(ln(), sin()), cos()))
    );
    assert_eq!(simplify_compose(p(2.0), x()), of(p(2.0), x()));
}

#[test]
fn operands_are_simplified_before_the_node() {
    assert_eq!(sum(sum(c(1.0), c(2.0)), c(3.0)).simplify_step(), c(6.0));
    assert_eq!(mul(sum(c(0.0), sin()), p(0.0)).simplify_step(), sin());
    assert_eq!(of(sum(c(0.0), p(2.0)), mul(c(1.0), p(3.0))).simplify_step(), p(6.0));
    assert_eq!(div(diff(sin(), c(0.0)), diff(c(3.0), c(2.0))).simplify_step(), sin());
    assert_eq!(diff(mul(c(0.0), sin()), p(0.0)).simplify_step(), c(-1.0));
}

#[test]
fn one_step_is_not_always_enough() {
    let tree = sum(sin(), sum(sin(), c(0.0)));
    assert_eq!(tree.simplify_step(), mul(c(2.0), sin()));
    let tree = sum(c(1.0), sum(c(2.0), sin()));
    assert_eq!(tree.simplify_step(), sum(sum(c(1.0), c(2.0)), sin()));
    assert_eq!(tree.simplify(), sum(c(3.0), sin()));
    let tree = mul(c(2.0), mul(c(3.0), sin()));
    assert_eq!(tree.simplify_step(), mul(mul(c(2.0), c(3.0)), sin()));
    assert_eq!(simplify(&tree), mul(c(6.0), sin()));
}

#[test]
fn the_result_is_a_fixed_point() {
    for text in [
        "x", "x + x", "x + (x + x)", "x * (x * x)", "(x + 1) * (x + 1)", "exp(ln(x) * 3)",
        "exp(x) * exp(2 * x)", "x^2 * x^3", "x^0 + 0 * x", "ln(exp(x))", "sin(x) / 1 - (0)",
        "0 - (0 - x)", "1 / 0", "0 / 0", "(0 / 0) * x + (0 / 0)", "x^2^3", "tg(x) * ctg(x)",
        "1 + (2 + (3 + (4 + x)))", "x * (2 * (x * (3 * x)))",
    ] {
        let parsed = parse_lenient(text).unwrap();
        let once = simplify(&parsed);
        assert!(once.simplify_step().identical(&once), "{text}");
        assert!(simplify(&once).identical(&once), "{text}");
        assert!(once.simplify().identical(&once), "{text}");
    }
}

#[test]
fn simplified_texts() {
    let cases = [
        ("x + x", "(2 * x)"),
        ("1 + 2 * 3", "7"),
        ("x * 1 + 0", "x"),
        ("0 * sin(x)", "0"),
        ("x^2", "(x^2)"),
        ("x^2^3", "((x^2)^3)"),
        ("exp(ln(x))", "x"),
        ("ln(exp(x))", "x"),
        ("exp(x) * exp(x)", "exp((2 * x))"),
        ("x + (x + x)", "(x + (2 * x))"),
        ("(x + x) + x", "((2 * x) + x)"),
        ("0 - x", "(-1 * x)"),
        ("x / 1", "x"),
        ("6 / 4", "1.5"),
        ("0.1 + 0.2", "0.30000000000000004"),
        ("1 / 0", "+Inf"),
        ("0 / 0", "NaN"),
        ("sin(x) + cos(x)", "(sin(x) + cos(x))"),
    ];
    for (text, expected) in cases {
        let parsed = parse_lenient(text).unwrap();
        assert_eq!(render(&simplify(&parsed), "x"), expected, "{text}");
    }
}

#[test]
fn numbers_are_compared_exactly() {
    let sum_of_tenths = c(0.1 + 0.2);
    assert_eq!(
        simplify_plus(of(sin(), c(0.3)), of(sin(), sum_of_tenths.clone())),
        sum(of(sin(), c(0.3)), of(sin(), sum_of_tenths.clone()))
    );
    assert_eq!(
        simplify_plus(of(sin(), sum_of_tenths.clone()), of(sin(), sum_of_tenths.clone())),
        mul(c(2.0), of(sin(), sum_of_tenths))
    );
    assert_eq!(simplify_mul(c(1.0000000000000002), sin()), mul(c(1.0000000000000002), sin()));
    assert_eq!(simplify_plus(c(5e-324), sin()), sum(c(5e-324), sin()));
    assert_eq!(simplify_compose(p(0.1), p(0.2)), p(0.1 * 0.2));
}

#[test]
fn long_chains_are_simplified() {
    let mut text = String::from("x");
    for _ in 0..60 {
        text.push_str(" + x * 2");
    }
    let parsed = parse_lenient(&text).unwrap();
    let simplified = simplify(&parsed);
    assert!(simplify(&simplified).identical(&simplified));
    let mut nested = x();
    for _ in 0..40 {
        nested = sum(c(1.0), nested);
    }
    let simplified = simplify(&nested);
    assert!(simplified.simplify_step().identical(&simplified));
}

#[test]
fn a_tree_with_a_nan_is_simplified_too() {
    let nan = c(f64::NAN);
    let tree = sum(mul(nan.clone(), x()), nan.clone());
    let simplified = simplify(&tree);
    assert!(simplified.identical(&sum(mul(nan.clone(), x()), nan)));
    assert!(simplify(&simplified).identical(&simplified));
}
