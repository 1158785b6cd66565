//! Numbers: IEEE-754 binary64 values carried as their 64-bit patterns.
//!
//! Classification and comparison are done here on the bit pattern. Rounded
//! arithmetic and the conversions from and to decimal text are done by a
//! software implementation of IEEE-754; their results are functions of the
//! bit patterns alone and are referred to by name in contracts.

use vstd::prelude::*;
use vstd::std_specs::cmp::PartialEqSpecImpl;
use core::str::FromStr;
use vstd::string::StrSliceExecFns;
use crate::text::characters;
use crate::text::digits_end;
use crate::text::skip_digits;
use rustc_apfloat::ieee::Double;
use rustc_apfloat::Float;

verus! {

/// Bit pattern of the sum of two binary64 values, rounded to nearest, ties to even.
pub uninterp spec fn number_sum(a: u64, b: u64) -> u64;

/// Bit pattern of the difference of two binary64 values, rounded to nearest, ties to even.
pub uninterp spec fn number_difference(a: u64, b: u64) -> u64;

/// Bit pattern of the product of two binary64 values, rounded to nearest, ties to even.
pub uninterp spec fn number_product(a: u64, b: u64) -> u64;

/// Bit pattern of the quotient of two binary64 values, rounded to nearest, ties to even.
pub uninterp spec fn number_quotient(a: u64, b: u64) -> u64;

/// Bit pattern of the binary64 value that a piece of text denotes, if it denotes one.
pub uninterp spec fn parsed_number(text: Seq<char>) -> Option<u64>;

/// The decimal text of the binary64 value with the given bit pattern, rounded
/// to at most `precision` significant digits, with an exponent where the
/// digits would have to be padded with more than twenty zeros or with digits
/// that the precision does not cover.
pub uninterp spec fn number_text_at(bits: u64, precision: usize) -> Seq<char>;

/// Longest text that is handed to the number parser. Its exponent arithmetic
/// is done in 32 bits; texts below this length keep it far from that range.
pub const MAX_NUMBER_TEXT: usize = 0x0100_0000;

/// Calls `Add::add` of `rustc_apfloat::ieee::Double` (round to nearest, ties
/// to even) on the values with the given bit patterns. The computation is done
/// on integers, so its result is a function of the two patterns alone.
#[verifier::external_body]
fn soft_add(a: u64, b: u64) -> (r: u64)
    ensures
        r == number_sum(a, b),
{
    (Double::from_bits(a as u128) + Double::from_bits(b as u128)).value.to_bits() as u64
}

/// Calls `Sub::sub` of `rustc_apfloat::ieee::Double`; the result is a function
/// of the two bit patterns alone.
#[verifier::external_body]
fn soft_sub(a: u64, b: u64) -> (r: u64)
    ensures
        r == number_difference(a, b),
{
    (Double::from_bits(a as u128) - Double::from_bits(b as u128)).value.to_bits() as u64
}

/// Calls `Mul::mul` of `rustc_apfloat::ieee::Double`; the result is a function
/// of the two bit patterns alone.
#[verifier::external_body]
fn soft_mul(a: u64, b: u64) -> (r: u64)
    ensures
        r == number_product(a, b),
{
    (Double::from_bits(a as u128) * Double::from_bits(b as u128)).value.to_bits() as u64
}

/// Calls `Div::div` of `rustc_apfloat::ieee::Double`; the result is a function
/// of the two bit patterns alone. A zero divisor gives an infinity or a NaN.
#[verifier::external_body]
fn soft_div(a: u64, b: u64) -> (r: u64)
    ensures
        r == number_quotient(a, b),
{
    (Double::from_bits(a as u128) / Double::from_bits(b as u128)).value.to_bits() as u64
}

/// Calls `FromStr::from_str` of `rustc_apfloat::ieee::Double`, which reads an
/// optionally signed decimal or hexadecimal literal or the name of a special
/// value and rounds to nearest. `None` stands for its `ParseError`. The result
/// is a function of the text alone.
#[verifier::external_body]
fn soft_parse(text: &str) -> (r: Option<u64>)
    requires
        text@.len() <= MAX_NUMBER_TEXT,
    ensures
        r == parsed_number(text@),
{
    match Double::from_str(text) {
        Ok(value) => Some(value.to_bits() as u64),
        Err(_) => None,
    }
}

/// Calls `Display::fmt` of `rustc_apfloat::ieee::Double` with width 20 and the
/// given precision, through `format`. It reads the width as the number of
/// padding zeros up to which it writes no exponent, and the precision as the
/// number of significant digits to round to. The text is a function of the
/// bit pattern and the precision alone.
#[verifier::external_body]
fn soft_text(bits: u64, precision: usize) -> (r: String)
    requires
        1 <= precision <= MOST_DIGITS,
    ensures
        r@ == number_text_at(bits, precision),
{
    format!("{:20.*}", precision, Double::from_bits(bits as u128))
}

/// The number of significant decimal digits that tells any two binary64
/// values apart.
pub const MOST_DIGITS: usize = 17;

/// A binary64 floating-point number, held as its bit pattern.
#[derive(Clone, Copy, Debug)]
pub struct Number {
    pub bits: u64,
}

/// Bit pattern of `0.0`.
pub const ZERO_BITS: u64 = 0x0000_0000_0000_0000;

/// Bit pattern of `-0.0`.
pub const NEGATIVE_ZERO_BITS: u64 = 0x8000_0000_0000_0000;

/// Bit pattern of `1.0`.
pub const ONE_BITS: u64 = 0x3FF0_0000_0000_0000;

/// Bit pattern of `2.0`.
pub const TWO_BITS: u64 = 0x4000_0000_0000_0000;

/// Bit pattern of `-1.0`.
pub const MINUS_ONE_BITS: u64 = 0xBFF0_0000_0000_0000;

/// Bit pattern of positive infinity; every pattern above it with a clear sign
/// bit is a NaN.
pub const INFINITY_BITS: u64 = 0x7FF0_0000_0000_0000;

/// Bit pattern of negative infinity; every pattern above it is a NaN.
pub const NEGATIVE_INFINITY_BITS: u64 = 0xFFF0_0000_0000_0000;

/// Whether the pattern is one of the two zeros.
pub open spec fn bits_are_zero(bits: u64) -> bool {
    bits == ZERO_BITS || bits == NEGATIVE_ZERO_BITS
}

/// Whether the pattern is a NaN: all exponent bits set and a non-zero fraction.
pub open spec fn bits_are_nan(bits: u64) -> bool {
    (INFINITY_BITS < bits && bits < NEGATIVE_ZERO_BITS) || NEGATIVE_INFINITY_BITS < bits
}

/// IEEE-754 equality of two binary64 values: a NaN equals nothing, the two
/// zeros are equal, and any other two values are equal when their patterns are.
pub open spec fn bits_equal(a: u64, b: u64) -> bool {
    !bits_are_nan(a) && !bits_are_nan(b) && (a == b || (bits_are_zero(a) && bits_are_zero(b)))
}

impl Number {
    /// The number with the given bit pattern.
    pub fn from_bits(bits: u64) -> (n: Number)
        ensures
            n.bits == bits,
    {
        Number { bits }
    }

    /// The bit pattern of the number.
    pub fn to_bits(self) -> (bits: u64)
        ensures
            bits == self.bits,
    {
        self.bits
    }

    /// The number `0`.
    pub fn zero() -> (n: Number)
        ensures
            n.bits == ZERO_BITS,
    {
        Number { bits: ZERO_BITS }
    }

    /// The number `1`.
    pub fn one() -> (n: Number)
        ensures
            n.bits == ONE_BITS,
    {
        Number { bits: ONE_BITS }
    }

    /// The number `2`.
    pub fn two() -> (n: Number)
        ensures
            n.bits == TWO_BITS,
    {
        Number { bits: TWO_BITS }
    }

    /// The number `-1`.
    pub fn minus_one() -> (n: Number)
        ensures
            n.bits == MINUS_ONE_BITS,
    {
        Number { bits: MINUS_ONE_BITS }
    }

    /// Whether the number is zero, of either sign.
    pub open spec fn is_zero_spec(self) -> bool {
        bits_are_zero(self.bits)
    }

    /// Whether the number is zero, of either sign.
    #[verifier::when_used_as_spec(is_zero_spec)]
    pub fn is_zero(self) -> (b: bool)
        ensures
            b == bits_are_zero(self.bits),
    {
        self.bits == ZERO_BITS || self.bits == NEGATIVE_ZERO_BITS
    }

    /// Whether the number is one.
    pub open spec fn is_one_spec(self) -> bool {
        self.bits == ONE_BITS
    }

    /// Whether the number is one.
    #[verifier::when_used_as_spec(is_one_spec)]
    pub fn is_one(self) -> (b: bool)
        ensures
            b == (self.bits == ONE_BITS),
    {
        self.bits == ONE_BITS
    }

    /// Whether the number is a NaN.
    pub open spec fn is_nan_spec(self) -> bool {
        bits_are_nan(self.bits)
    }

    /// Whether the number is a NaN.
    #[verifier::when_used_as_spec(is_nan_spec)]
    pub fn is_nan(self) -> (b: bool)
        ensures
            b == bits_are_nan(self.bits),
    {
        (INFINITY_BITS < self.bits && self.bits < NEGATIVE_ZERO_BITS)
            || NEGATIVE_INFINITY_BITS < self.bits
    }

    /// Whether two numbers are equal as floating-point values.
    pub open spec fn same_value(self, other: Number) -> bool {
        bits_equal(self.bits, other.bits)
    }

    /// Sum of two numbers.
    pub open spec fn plus_spec(self, other: Number) -> Number {
        Number { bits: number_sum(self.bits, other.bits) }
    }

    /// Sum of two numbers.
    #[verifier::when_used_as_spec(plus_spec)]
    pub fn plus(self, other: Number) -> (n: Number)
        ensures
            n == self.plus_spec(other),
    {
        Number { bits: soft_add(self.bits, other.bits) }
    }

    /// Difference of two numbers.
    pub open spec fn minus_spec(self, other: Number) -> Number {
        Number { bits: number_difference(self.bits, other.bits) }
    }

    /// Difference of two numbers.
    #[verifier::when_used_as_spec(minus_spec)]
    pub fn minus(self, other: Number) -> (n: Number)
        ensures
            n == self.minus_spec(other),
    {
        Number { bits: soft_sub(self.bits, other.bits) }
    }

    /// Product of two numbers.
    pub open spec fn times_spec(self, other: Number) -> Number {
        Number { bits: number_product(self.bits, other.bits) }
    }

    /// Product of two numbers.
    #[verifier::when_used_as_spec(times_spec)]
    pub fn times(self, other: Number) -> (n: Number)
        ensures
            n == self.times_spec(other),
    {
        Number { bits: soft_mul(self.bits, other.bits) }
    }

    /// Quotient of two numbers.
    pub open spec fn over_spec(self, other: Number) -> Number {
        Number { bits: number_quotient(self.bits, other.bits) }
    }

    /// Quotient of two numbers.
    #[verifier::when_used_as_spec(over_spec)]
    pub fn over(self, other: Number) -> (n: Number)
        ensures
            n == self.over_spec(other),
    {
        Number { bits: soft_div(self.bits, other.bits) }
    }

    /// The number that a literal denotes: `None` where the text is no literal
    /// or is longer than `MAX_NUMBER_TEXT` characters.
    pub open spec fn parse_spec(text: Seq<char>) -> Option<Number> {
        if text.len() <= MAX_NUMBER_TEXT && is_literal(text) {
            match parsed_number(text) {
                Some(bits) => Some(Number { bits }),
                None => None,
            }
        } else {
            None
        }
    }

    /// Reads a number from a literal: an optional `-`, digits, an optional
    /// `.` with optional digits, and an optional `e` with digits.
    pub fn parse(text: &str) -> (r: Option<Number>)
        ensures
            r == Number::parse_spec(text@),
    {
        let chars = characters(text);
        if chars.len() <= MAX_NUMBER_TEXT && check_literal(&chars) {
            match soft_parse(text) {
                Some(bits) => Some(Number { bits }),
                None => None,
            }
        } else {
            None
        }
    }

    /// The decimal text of the number: the one with the fewest significant
    /// digits that reads back as the number, written without an exponent
    /// where seventeen digits allow that.
    pub open spec fn text_spec(self) -> Seq<char> {
        let shortest = shortest_precision(self.bits, 1);
        number_text_at(self.bits, plain_precision(self.bits, shortest, shortest))
    }

    /// The decimal text of the number.
    pub fn text(self) -> (r: String)
        ensures
            r@ == self.text_spec(),
    {
        let mut shortest: usize = 1;
        while shortest < MOST_DIGITS && !check_reads_back(self.bits, shortest)
            invariant
                1 <= shortest <= MOST_DIGITS,
                shortest_precision(self.bits, shortest) == shortest_precision(self.bits, 1),
            decreases MOST_DIGITS - shortest,
        {
            shortest = shortest + 1;
        }
        let mut precision: usize = shortest;
        while precision <= MOST_DIGITS
            invariant
                shortest <= precision <= MOST_DIGITS + 1,
                1 <= shortest <= MOST_DIGITS,
                shortest == shortest_precision(self.bits, 1),
                plain_precision(self.bits, precision, shortest) == plain_precision(
                    self.bits,
                    shortest,
                    shortest,
                ),
            decreases MOST_DIGITS + 1 - precision,
        {
            let text = soft_text(self.bits, precision);
            if check_plain(text.as_str()) && check_reads_back(self.bits, precision) {
                return text;
            }
            precision = precision + 1;
        }
        soft_text(self.bits, shortest)
    }
}

/// Whether a text is a numeric literal: an optional `-`, one digit or more,
/// then optionally `.` and digits, then optionally `e` and one digit or more.
pub open spec fn is_literal(text: Seq<char>) -> bool {
    let start: int = if text.len() > 0 && text[0] == '-' {
        1
    } else {
        0
    };
    let whole = digits_end(text, start);
    let fraction = if whole < text.len() && text[whole] == '.' {
        digits_end(text, whole + 1)
    } else {
        whole
    };
    &&& start < whole
    &&& fraction == text.len() || (text[fraction] == 'e' && fraction + 1 < text.len()
        && digits_end(text, fraction + 1) == text.len())
}

/// Tells numeric literals from other texts.
pub fn check_literal(text: &Vec<char>) -> (b: bool)
    ensures
        b == is_literal(text@),
{
    let start: usize = if text.len() > 0 && text[0] == '-' {
        1
    } else {
        0
    };
    let whole = skip_digits(text, start);
    if whole == start {
        return false;
    }
    let fraction = if whole < text.len() && text[whole] == '.' {
        skip_digits(text, whole + 1)
    } else {
        whole
    };
    if fraction == text.len() {
        true
    } else {
        text[fraction] == 'e' && fraction + 1 < text.len() && skip_digits(text, fraction + 1)
            == text.len()
    }
}

/// Whether the text of a value at a precision reads back as the value.
pub open spec fn reads_back(bits: u64, precision: usize) -> bool {
    let text = number_text_at(bits, precision);
    text.len() <= MAX_NUMBER_TEXT && parsed_number(text) == Some(bits)
}

/// Tells whether the text of a value at a precision reads back as the value.
fn check_reads_back(bits: u64, precision: usize) -> (b: bool)
    requires
        1 <= precision <= MOST_DIGITS,
    ensures
        b == reads_back(bits, precision),
{
    let text = soft_text(bits, precision);
    if text.as_str().unicode_len() <= MAX_NUMBER_TEXT {
        match soft_parse(text.as_str()) {
            Some(read) => read == bits,
            None => false,
        }
    } else {
        false
    }
}

/// The least precision from `from` on at which the text of a value reads
/// back as the value; `MOST_DIGITS` where none below it does.
pub open spec fn shortest_precision(bits: u64, from: usize) -> usize
    decreases MOST_DIGITS - from,
{
    if from >= MOST_DIGITS || reads_back(bits, from) {
        from
    } else {
        shortest_precision(bits, (from + 1) as usize)
    }
}

/// Whether a text is written without an exponent.
pub open spec fn is_plain(text: Seq<char>) -> bool {
    !text.contains('E')
}

/// Tells whether a text is written without an exponent.
fn check_plain(text: &str) -> (b: bool)
    ensures
        b == is_plain(text@),
{
    let chars = characters(text);
    let mut i: usize = 0;
    while i < chars.len()
        invariant
            i <= chars.len(),
            chars@ == text@,
            forall|j: int| 0 <= j < i ==> chars@[j] != 'E',
        decreases chars.len() - i,
    {
        if chars[i] == 'E' {
            return false;
        }
        i = i + 1;
    }
    true
}

/// The least precision from `from` to `MOST_DIGITS` at which the text of a
/// value has no exponent and reads back as the value; `fallback` where there
/// is none.
pub open spec fn plain_precision(bits: u64, from: usize, fallback: usize) -> usize
    decreases MOST_DIGITS + 1 - from,
{
    if from > MOST_DIGITS {
        fallback
    } else if is_plain(number_text_at(bits, from)) && reads_back(bits, from) {
        from
    } else {
        plain_precision(bits, (from + 1) as usize, fallback)
    }
}

impl PartialEq for Number {
    /// Equality of floating-point values.
    fn eq(&self, other: &Number) -> (b: bool) {
        !self.is_nan() && !other.is_nan() && (self.bits == other.bits || (self.is_zero()
            && other.is_zero()))
    }
}

impl PartialEqSpecImpl for Number {
    open spec fn obeys_eq_spec() -> bool {
        true
    }

    open spec fn eq_spec(&self, other: &Number) -> bool {
        bits_equal(self.bits, other.bits)
    }
}

} // verus!
