use dcalc::number::{check_literal, Number, MAX_NUMBER_TEXT};
use dcalc::text::{characters, check_digit, skip_digits};

fn n(value: f64) -> Number {
    Number::from_bits(value.to_bits())
}

fn samples() -> Vec<f64> {
    vec![
        0.0, -0.0, 1.0, -1.0, 2.0, 0.1, 0.2, 0.3, 1.5, -3.5, 1e300, -1e300, 1e-300, 5e-324,
        123456789.125, 1.0 / 3.0, f64::MAX, f64::MIN_POSITIVE, f64::INFINITY, f64::NEG_INFINITY,
    ]
}

#[test]
fn sums_are_those_of_the_hardware() {
    for a in samples() {
        for b in samples() {
            let expected = a + b;
            if !expected.is_nan() {
                assert_eq!(n(a).plus(n(b)).to_bits(), expected.to_bits(), "{a} + {b}");
            } else {
                assert!(n(a).plus(n(b)).is_nan(), "{a} + {b}");
            }
        }
    }
}

#[test]
fn differences_are_those_of_the_hardware() {
    for a in samples() {
        for b in samples() {
            let expected = a - b;
            if !expected.is_nan() {
                assert_eq!(n(a).minus(n(b)).to_bits(), expected.to_bits(), "{a} - {b}");
            } else {
                assert!(n(a).minus(n(b)).is_nan(), "{a} - {b}");
            }
        }
    }
}

#[test]
fn products_are_those_of_the_hardware() {
    for a in samples() {
        for b in samples() {
            let expected = a * b;
            if !expected.is_nan() {
                assert_eq!(n(a).times(n(b)).to_bits(), expected.to_bits(), "{a} * {b}");
            } else {
                assert!(n(a).times(n(b)).is_nan(), "{a} * {b}");
            }
        }
    }
}

#[test]
fn quotients_are_those_of_the_hardware() {
    for a in samples() {
        for b in samples() {
            let expected = a / b;
            if !expected.is_nan() {
                assert_eq!(n(a).over(n(b)).to_bits(), expected.to_bits(), "{a} / {b}");
            } else {
                assert!(n(a).over(n(b)).is_nan(), "{a} / {b}");
            }
        }
    }
}

#[test]
fn arithmetic_on_small_numbers() {
    assert_eq!(n(1.0).plus(n(1.0)), n(2.0));
    assert_eq!(n(0.1).plus(n(0.2)), n(0.30000000000000004));
    assert_eq!(n(2.0).minus(n(1.0)), n(1.0));
    assert_eq!(n(2.0).times(n(3.5)), n(7.0));
    assert_eq!(n(1.0).over(n(4.0)), n(0.25));
    assert_eq!(n(1.0).over(n(0.0)), n(f64::INFINITY));
    assert!(n(0.0).over(n(0.0)).is_nan());
    assert_ne!(n(1.0).plus(n(2.0)), n(1.0));
}

#[test]
fn constants_have_their_values() {
    assert_eq!(Number::zero().to_bits(), 0.0f64.to_bits());
    assert_eq!(Number::one().to_bits(), 1.0f64.to_bits());
    assert_eq!(Number::two().to_bits(), 2.0f64.to_bits());
    assert_eq!(Number::minus_one().to_bits(), (-1.0f64).to_bits());
    assert_eq!(Number::from_bits(7).to_bits(), 7);
}

#[test]
fn classification_follows_the_bit_pattern() {
    for v in samples() {
        assert_eq!(n(v).is_zero(), v == 0.0, "{v}");
        assert_eq!(n(v).is_one(), v == 1.0, "{v}");
        assert_eq!(n(v).is_nan(), v.is_nan(), "{v}");
    }
    assert!(n(f64::NAN).is_nan());
    assert!(n(-f64::NAN).is_nan());
    assert!(Number::from_bits(0x7ff0_0000_0000_0001).is_nan());
    assert!(Number::from_bits(0xffff_ffff_ffff_ffff).is_nan());
    assert!(!Number::from_bits(0x7ff0_0000_0000_0000).is_nan());
    assert!(!Number::from_bits(0xfff0_0000_0000_0000).is_nan());
    assert!(!n(f64::NAN).is_zero());
}

#[test]
fn equality_is_that_of_floating_point() {
    let mut values = samples();
    values.push(f64::NAN);
    for a in &values {
        for b in &values {
            assert_eq!(n(*a) == n(*b), a == b, "{a} == {b}");
        }
    }
    assert!(n(0.0) == n(-0.0));
    assert!(n(f64::NAN) != n(f64::NAN));
}

#[test]
fn texts_are_short_and_exact() {
    assert_eq!(n(2.0).text(), "2");
    assert_eq!(n(-1.0).text(), "-1");
    assert_eq!(n(0.0).text(), "0");
    assert_eq!(n(-0.0).text(), "-0");
    assert_eq!(n(3.5).text(), "3.5");
    assert_eq!(n(0.1).text(), "0.1");
    assert_eq!(n(0.30000000000000004).text(), "0.30000000000000004");
    assert_eq!(n(1.0 / 3.0).text(), "0.3333333333333333");
    assert_eq!(n(100.0).text(), "100");
    assert_eq!(n(10000.0).text(), "10000");
    assert_eq!(n(1e16).text(), "10000000000000000");
    assert_eq!(n(1e17).text(), "1.0E+17");
    assert_eq!(n(1e-7).text(), "0.0000001");
    assert_eq!(n(1e-21).text(), "1.0E-21");
    assert_eq!(n(123456789.125).text(), "123456789.125");
    assert_eq!(n(f64::NAN).text(), "NaN");
    assert_eq!(n(f64::INFINITY).text(), "+Inf");
    assert_eq!(n(f64::NEG_INFINITY).text(), "-Inf");
}

#[test]
fn texts_without_exponent_are_those_of_the_standard_library() {
    for v in [0.5, 0.25, 1.1, 2.75, 1234.5678, 0.001, 42.0, 1e-5, 6.02e15, 0.1 + 0.2, 2.0 / 3.0] {
        assert_eq!(n(v).text(), format!("{}", v));
        assert_eq!(n(-v).text(), format!("{}", -v));
    }
}

#[test]
fn literals_are_read_as_the_standard_library_reads_them() {
    for text in [
        "0", "1", "3.5", "007", "1.", "1.e5", "1e5", "1.5e3", "0.1", "123456789.125", "-3", "-0",
        "-2.5e2", "1e400", "1e0", "0.30000000000000004", "9007199254740993", "1e23",
        "179769313486231570000000000000000000000", "0.000000000000000000000000000001",
    ] {
        let expected: f64 = text.parse().unwrap();
        assert_eq!(Number::parse(text), Some(n(expected)), "{text}");
        assert_eq!(Number::parse(text).unwrap().to_bits(), expected.to_bits(), "{text}");
    }
}

#[test]
fn other_texts_are_no_literals() {
    for text in [
        "", "-", ".", ".5", "1e", "1e+5", "1e-5", "1.2.3", "1e5e", "1ee5", "1e5.", "e5", "x", "1x",
        " 1", "1 ", "+1", "--1", "inf", "nan", "NaN", "0x10p2", "1E5", "1_000", "١",
    ] {
        assert_eq!(Number::parse(text), None, "{text:?}");
        assert!(!check_literal(&text.chars().collect()), "{text:?}");
    }
    for text in ["0", "-0", "12", "1.", "1.5", "1e5", "1.e5", "1.5e35", "-1.5e35"] {
        assert!(check_literal(&text.chars().collect()), "{text:?}");
    }
}

#[test]
fn texts_read_back_as_the_number() {
    for v in samples() {
        if v.is_finite() {
            let text = n(v).text();
            let read: f64 = text.parse().unwrap();
            assert_eq!(read.to_bits(), v.to_bits(), "{text}");
        }
    }
}

#[test]
fn overlong_text_is_no_literal() {
    let text = "1".repeat(MAX_NUMBER_TEXT + 1);
    assert_eq!(Number::parse(&text), None);
    let text = "7".repeat(400);
    assert_eq!(Number::parse(&text), Some(n(f64::INFINITY)));
}

#[test]
fn characters_and_digit_runs() {
    assert_eq!(characters("a-1é"), vec!['a', '-', '1', 'é']);
    assert_eq!(characters(""), Vec::<char>::new());
    for c in (0u8..128).map(char::from) {
        assert_eq!(check_digit(c), c.is_ascii_digit());
    }
    assert!(!check_digit('٣'));
    let text: Vec<char> = "12a345".chars().collect();
    assert_eq!(skip_digits(&text, 0), 2);
    assert_eq!(skip_digits(&text, 2), 2);
    assert_eq!(skip_digits(&text, 3), 6);
    assert_eq!(skip_digits(&text, 6), 6);
}
