//! Differentiable functions of one variable, as expression trees.
//!
//! Every kind of node is a type of its own; `Expression` is their closed
//! union. A node never stores its argument: a leaf such as `Sin` stands for
//! the sine of whatever it is composed with, and `Identity` for the variable.

use vstd::prelude::*;
use vstd::string::StringExecFns;
use crate::number::Number;
use crate::number::ONE_BITS;
use crate::number::TWO_BITS;
use crate::number::ZERO_BITS;
use crate::number::MINUS_ONE_BITS;

verus! {

/// What every differentiable function offers: its text and its derivative.
pub trait DiffFunc {
    /// Text of the function applied to an argument given as text.
    spec fn rendered(&self, arg: Seq<char>) -> Seq<char>;

    /// The derivative, as a new tree.
    spec fn derived(&self) -> Expression;

    /// Text of the function applied to an argument given as text.
    fn to_str(&self, arg: &str) -> (r: String)
        ensures
            r@ == self.rendered(arg@),
    ;

    /// The derivative, as a new tree that shares nothing with this one.
    fn derivative(&self) -> (r: Expression)
        ensures
            r == self.derived(),
    ;
}

/// The function constantly equal to `value`.
#[derive(Clone, Copy, Debug, PartialEq)]
pub struct Constant {
    pub value: Number,
}

/// The identity function: the variable itself.
#[derive(Clone, Copy, Debug, PartialEq)]
pub struct Identity;

/// The exponential function.
#[derive(Clone, Copy, Debug, PartialEq)]
pub struct Exp;

/// The natural logarithm.
#[derive(Clone, Copy, Debug, PartialEq)]
pub struct Ln;

/// The sine.
#[derive(Clone, Copy, Debug, PartialEq)]
pub struct Sin;

/// The cosine.
#[derive(Clone, Copy, Debug, PartialEq)]
pub struct Cos;

/// The argument raised to the fixed power `exponent`.
#[derive(Clone, Copy, Debug, PartialEq)]
pub struct Power {
    pub exponent: Number,
}

/// Sum of two functions.
#[derive(Debug, PartialEq)]
pub struct Plus {
    pub left: Box<Expression>,
    pub right: Box<Expression>,
}

/// Difference of two functions.
#[derive(Debug, PartialEq)]
pub struct Minus {
    pub left: Box<Expression>,
    pub right: Box<Expression>,
}

/// Product of two functions.
#[derive(Debug, PartialEq)]
pub struct Mul {
    pub left: Box<Expression>,
    pub right: Box<Expression>,
}

/// Quotient of two functions.
#[derive(Debug, PartialEq)]
pub struct Div {
    pub left: Box<Expression>,
    pub right: Box<Expression>,
}

/// `outer` applied to the value of `inner`.
#[derive(Debug, PartialEq)]
pub struct Compose {
    pub outer: Box<Expression>,
    pub inner: Box<Expression>,
}

/// A differentiable function of one variable: one of the node kinds.
#[derive(Debug, PartialEq)]
pub enum Expression {
    Constant(Constant),
    Identity(Identity),
    Exp(Exp),
    Ln(Ln),
    Sin(Sin),
    Cos(Cos),
    Power(Power),
    Plus(Plus),
    Minus(Minus),
    Mul(Mul),
    Div(Div),
    Compose(Compose),
}

/// The constant function with the given value.
pub open spec fn constant(value: Number) -> Expression {
    Expression::Constant(Constant { value })
}

/// The power function with the given exponent.
pub open spec fn power(exponent: Number) -> Expression {
    Expression::Power(Power { exponent })
}

/// The sum node over two trees.
pub open spec fn sum(left: Expression, right: Expression) -> Expression {
    Expression::Plus(Plus { left: Box::new(left), right: Box::new(right) })
}

/// The difference node over two trees.
pub open spec fn difference(left: Expression, right: Expression) -> Expression {
    Expression::Minus(Minus { left: Box::new(left), right: Box::new(right) })
}

/// The product node over two trees.
pub open spec fn product(left: Expression, right: Expression) -> Expression {
    Expression::Mul(Mul { left: Box::new(left), right: Box::new(right) })
}

/// The quotient node over two trees.
pub open spec fn quotient(left: Expression, right: Expression) -> Expression {
    Expression::Div(Div { left: Box::new(left), right: Box::new(right) })
}

/// The composition node: `outer` after `inner`.
pub open spec fn composition(outer: Expression, inner: Expression) -> Expression {
    Expression::Compose(Compose { outer: Box::new(outer), inner: Box::new(inner) })
}

impl Expression {
    /// The constant function with the given value.
    pub fn constant(value: Number) -> (e: Expression)
        ensures
            e == constant(value),
    {
        Expression::Constant(Constant { value })
    }

    /// The power function with the given exponent.
    pub fn power(exponent: Number) -> (e: Expression)
        ensures
            e == power(exponent),
    {
        Expression::Power(Power { exponent })
    }

    /// The sum of two functions.
    pub fn sum(left: Expression, right: Expression) -> (e: Expression)
        ensures
            e == sum(left, right),
    {
        Expression::Plus(Plus { left: Box::new(left), right: Box::new(right) })
    }

    /// The difference of two functions.
    pub fn difference(left: Expression, right: Expression) -> (e: Expression)
        ensures
            e == difference(left, right),
    {
        Expression::Minus(Minus { left: Box::new(left), right: Box::new(right) })
    }

    /// The product of two functions.
    pub fn product(left: Expression, right: Expression) -> (e: Expression)
        ensures
            e == product(left, right),
    {
        Expression::Mul(Mul { left: Box::new(left), right: Box::new(right) })
    }

    /// The quotient of two functions.
    pub fn quotient(left: Expression, right: Expression) -> (e: Expression)
        ensures
            e == quotient(left, right),
    {
        Expression::Div(Div { left: Box::new(left), right: Box::new(right) })
    }

    /// `outer` applied to the value of `inner`.
    pub fn composition(outer: Expression, inner: Expression) -> (e: Expression)
        ensures
            e == composition(outer, inner),
    {
        Expression::Compose(Compose { outer: Box::new(outer), inner: Box::new(inner) })
    }

    /// Whether the top node is a constant.
    pub fn is_constant(&self) -> (b: bool)
        ensures
            b == (self is Constant),
    {
        match self {
            Expression::Constant(_) => true,
            _ => false,
        }
    }

    /// Whether the top node is a power.
    pub fn is_power(&self) -> (b: bool)
        ensures
            b == (self is Power),
    {
        match self {
            Expression::Power(_) => true,
            _ => false,
        }
    }

    /// Whether the top node is a sum.
    pub fn is_plus(&self) -> (b: bool)
        ensures
            b == (self is Plus),
    {
        match self {
            Expression::Plus(_) => true,
            _ => false,
        }
    }

    /// Whether the top node is a product.
    pub fn is_mul(&self) -> (b: bool)
        ensures
            b == (self is Mul),
    {
        match self {
            Expression::Mul(_) => true,
            _ => false,
        }
    }

    /// Whether the top node is a composition.
    pub fn is_compose(&self) -> (b: bool)
        ensures
            b == (self is Compose),
    {
        match self {
            Expression::Compose(_) => true,
            _ => false,
        }
    }

    /// Whether the top node is the exponential.
    pub fn is_exp(&self) -> (b: bool)
        ensures
            b == (self is Exp),
    {
        match self {
            Expression::Exp(_) => true,
            _ => false,
        }
    }

    /// Whether the top node is the logarithm.
    pub fn is_ln(&self) -> (b: bool)
        ensures
            b == (self is Ln),
    {
        match self {
            Expression::Ln(_) => true,
            _ => false,
        }
    }

    /// The first child of a node with two children (the outer function of a
    /// composition); a leaf itself.
    pub open spec fn first_spec(&self) -> &Expression {
        match self {
            Expression::Plus(f) => &*f.left,
            Expression::Minus(f) => &*f.left,
            Expression::Mul(f) => &*f.left,
            Expression::Div(f) => &*f.left,
            Expression::Compose(f) => &*f.outer,
            _ => self,
        }
    }

    /// The first child of a node with two children (the outer function of a
    /// composition); a leaf itself.
    #[verifier::when_used_as_spec(first_spec)]
    pub fn first(&self) -> (r: &Expression)
        ensures
            r == self.first_spec(),
    {
        match self {
            Expression::Plus(f) => &*f.left,
            Expression::Minus(f) => &*f.left,
            Expression::Mul(f) => &*f.left,
            Expression::Div(f) => &*f.left,
            Expression::Compose(f) => &*f.outer,
            _ => self,
        }
    }

    /// The second child of a node with two children (the inner function of a
    /// composition); a leaf itself.
    pub open spec fn second_spec(&self) -> &Expression {
        match self {
            Expression::Plus(f) => &*f.right,
            Expression::Minus(f) => &*f.right,
            Expression::Mul(f) => &*f.right,
            Expression::Div(f) => &*f.right,
            Expression::Compose(f) => &*f.inner,
            _ => self,
        }
    }

    /// The second child of a node with two children (the inner function of a
    /// composition); a leaf itself.
    #[verifier::when_used_as_spec(second_spec)]
    pub fn second(&self) -> (r: &Expression)
        ensures
            r == self.second_spec(),
    {
        match self {
            Expression::Plus(f) => &*f.right,
            Expression::Minus(f) => &*f.right,
            Expression::Mul(f) => &*f.right,
            Expression::Div(f) => &*f.right,
            Expression::Compose(f) => &*f.inner,
            _ => self,
        }
    }

    /// The number held by a constant or a power; zero for any other node.
    pub open spec fn number_spec(&self) -> Number {
        match self {
            Expression::Constant(f) => f.value,
            Expression::Power(f) => f.exponent,
            _ => Number { bits: ZERO_BITS },
        }
    }

    /// The number held by a constant or a power; zero for any other node.
    #[verifier::when_used_as_spec(number_spec)]
    pub fn number(&self) -> (n: Number)
        ensures
            n == self.number_spec(),
    {
        match self {
            Expression::Constant(f) => f.value,
            Expression::Power(f) => f.exponent,
            _ => Number::zero(),
        }
    }

    /// Whether two trees are equal as functions are compared: the same kinds
    /// of nodes in the same places, and numbers equal as floating-point values.
    pub open spec fn same_spec(&self, other: &Expression) -> bool
        decreases *self,
    {
        match (*self, *other) {
            (Expression::Constant(a), Expression::Constant(b)) => a.value.same_value(b.value),
            (Expression::Identity(_), Expression::Identity(_)) => true,
            (Expression::Exp(_), Expression::Exp(_)) => true,
            (Expression::Ln(_), Expression::Ln(_)) => true,
            (Expression::Sin(_), Expression::Sin(_)) => true,
            (Expression::Cos(_), Expression::Cos(_)) => true,
            (Expression::Power(a), Expression::Power(b)) => a.exponent.same_value(b.exponent),
            (Expression::Plus(a), Expression::Plus(b)) => a.left.same_spec(&*b.left)
                && a.right.same_spec(&*b.right),
            (Expression::Minus(a), Expression::Minus(b)) => a.left.same_spec(&*b.left)
                && a.right.same_spec(&*b.right),
            (Expression::Mul(a), Expression::Mul(b)) => a.left.same_spec(&*b.left)
                && a.right.same_spec(&*b.right),
            (Expression::Div(a), Expression::Div(b)) => a.left.same_spec(&*b.left)
                && a.right.same_spec(&*b.right),
            (Expression::Compose(a), Expression::Compose(b)) => a.outer.same_spec(&*b.outer)
                && a.inner.same_spec(&*b.inner),
            _ => false,
        }
    }

    /// Structural equality with floating-point equality on numbers.
    #[verifier::when_used_as_spec(same_spec)]
    pub fn same(&self, other: &Expression) -> (b: bool)
        ensures
            b == self.same_spec(other),
        decreases *self,
    {
        match (self, other) {
            (Expression::Constant(a), Expression::Constant(b)) => a.value == b.value,
            (Expression::Identity(_), Expression::Identity(_)) => true,
            (Expression::Exp(_), Expression::Exp(_)) => true,
            (Expression::Ln(_), Expression::Ln(_)) => true,
            (Expression::Sin(_), Expression::Sin(_)) => true,
            (Expression::Cos(_), Expression::Cos(_)) => true,
            (Expression::Power(a), Expression::Power(b)) => a.exponent == b.exponent,
            (Expression::Plus(a), Expression::Plus(b)) => a.left.same(&b.left) && a.right.same(
                &b.right,
            ),
            (Expression::Minus(a), Expression::Minus(b)) => a.left.same(&b.left) && a.right.same(
                &b.right,
            ),
            (Expression::Mul(a), Expression::Mul(b)) => a.left.same(&b.left) && a.right.same(
                &b.right,
            ),
            (Expression::Div(a), Expression::Div(b)) => a.left.same(&b.left) && a.right.same(
                &b.right,
            ),
            (Expression::Compose(a), Expression::Compose(b)) => a.outer.same(&b.outer)
                && a.inner.same(&b.inner),
            _ => false,
        }
    }

    /// Whether two trees are the same tree: the same nodes, and numbers with
    /// the same bit patterns.
    pub fn identical(&self, other: &Expression) -> (b: bool)
        ensures
            b == (*self == *other),
        decreases *self,
    {
        match (self, other) {
            (Expression::Constant(a), Expression::Constant(b)) => a.value.bits == b.value.bits,
            (Expression::Identity(_), Expression::Identity(_)) => true,
            (Expression::Exp(_), Expression::Exp(_)) => true,
            (Expression::Ln(_), Expression::Ln(_)) => true,
            (Expression::Sin(_), Expression::Sin(_)) => true,
            (Expression::Cos(_), Expression::Cos(_)) => true,
            (Expression::Power(a), Expression::Power(b)) => a.exponent.bits == b.exponent.bits,
            (Expression::Plus(a), Expression::Plus(b)) => a.left.identical(&b.left)
                && a.right.identical(&b.right),
            (Expression::Minus(a), Expression::Minus(b)) => a.left.identical(&b.left)
                && a.right.identical(&b.right),
            (Expression::Mul(a), Expression::Mul(b)) => a.left.identical(&b.left)
                && a.right.identical(&b.right),
            (Expression::Div(a), Expression::Div(b)) => a.left.identical(&b.left)
                && a.right.identical(&b.right),
            (Expression::Compose(a), Expression::Compose(b)) => a.outer.identical(&b.outer)
                && a.inner.identical(&b.inner),
            _ => false,
        }
    }
}

/// Text of a named function applied to an argument: the name, then the
/// argument in parentheses.
pub open spec fn applied(name: Seq<char>, arg: Seq<char>) -> Seq<char> {
    name + "("@ + arg + ")"@
}

/// Text of a binary operation: both operands with the operator between them,
/// the whole in parentheses.
pub open spec fn infixed(left: Seq<char>, operator: Seq<char>, right: Seq<char>) -> Seq<char> {
    "("@ + left + operator + right + ")"@
}

/// Writes a named function applied to an argument.
fn write_applied(name: &str, arg: &str) -> (r: String)
    ensures
        r@ == applied(name@, arg@),
{
    let mut r = String::from_str(name);
    r.append("(");
    r.append(arg);
    r.append(")");
    r
}

/// Writes a binary operation in parentheses.
fn write_infixed(left: &str, operator: &str, right: &str) -> (r: String)
    ensures
        r@ == infixed(left@, operator@, right@),
{
    let mut r = String::from_str("(");
    r.append(left);
    r.append(operator);
    r.append(right);
    r.append(")");
    r
}

impl DiffFunc for Constant {
    open spec fn rendered(&self, arg: Seq<char>) -> Seq<char> {
        self.value.text_spec()
    }

    open spec fn derived(&self) -> Expression {
        constant(Number { bits: ZERO_BITS })
    }

    fn to_str(&self, arg: &str) -> (r: String) {
        self.value.text()
    }

    fn derivative(&self) -> (r: Expression) {
        Expression::constant(Number::zero())
    }
}

impl DiffFunc for Identity {
    open spec fn rendered(&self, arg: Seq<char>) -> Seq<char> {
        arg
    }

    open spec fn derived(&self) -> Expression {
        constant(Number { bits: ONE_BITS })
    }

    fn to_str(&self, arg: &str) -> (r: String) {
        String::from_str(arg)
    }

    fn derivative(&self) -> (r: Expression) {
        Expression::constant(Number::one())
    }
}

impl DiffFunc for Exp {
    open spec fn rendered(&self, arg: Seq<char>) -> Seq<char> {
        applied("exp"@, arg)
    }

    open spec fn derived(&self) -> Expression {
        Expression::Exp(Exp)
    }

    fn to_str(&self, arg: &str) -> (r: String) {
        write_applied("exp", arg)
    }

    fn derivative(&self) -> (r: Expression) {
        Expression::Exp(Exp)
    }
}

impl DiffFunc for Ln {
    open spec fn rendered(&self, arg: Seq<char>) -> Seq<char> {
        applied("ln"@, arg)
    }

    open spec fn derived(&self) -> Expression {
        quotient(constant(Number { bits: ONE_BITS }), power(Number { bits: ONE_BITS }))
    }

    fn to_str(&self, arg: &str) -> (r: String) {
        write_applied("ln", arg)
    }

    fn derivative(&self) -> (r: Expression) {
        Expression::quotient(
            Expression::constant(Number::one()),
            Expression::power(Number::one()),
        )
    }
}

impl DiffFunc for Sin {
    open spec fn rendered(&self, arg: Seq<char>) -> Seq<char> {
        applied("sin"@, arg)
    }

    open spec fn derived(&self) -> Expression {
        Expression::Cos(Cos)
    }

    fn to_str(&self, arg: &str) -> (r: String) {
        write_applied("sin", arg)
    }

    fn derivative(&self) -> (r: Expression) {
        Expression::Cos(Cos)
    }
}

impl DiffFunc for Cos {
    open spec fn rendered(&self, arg: Seq<char>) -> Seq<char> {
        applied("cos"@, arg)
    }

    open spec fn derived(&self) -> Expression {
        product(constant(Number { bits: MINUS_ONE_BITS }), Expression::Sin(Sin))
    }

    fn to_str(&self, arg: &str) -> (r: String) {
        write_applied("cos", arg)
    }

    fn derivative(&self) -> (r: Expression) {
        Expression::product(Expression::constant(Number::minus_one()), Expression::Sin(Sin))
    }
}

impl DiffFunc for Power {
    open spec fn rendered(&self, arg: Seq<char>) -> Seq<char> {
        infixed(arg, "^"@, self.exponent.text_spec())
    }

    open spec fn derived(&self) -> Expression {
        product(
            constant(self.exponent),
            power(self.exponent.minus_spec(Number { bits: ONE_BITS })),
        )
    }

    fn to_str(&self, arg: &str) -> (r: String) {
        let exponent = self.exponent.text();
        write_infixed(arg, "^", exponent.as_str())
    }

    fn derivative(&self) -> (r: Expression) {
        Expression::product(
            Expression::constant(self.exponent),
            Expression::power(self.exponent.minus(Number::one())),
        )
    }
}

impl Clone for Plus {
    fn clone(&self) -> (r: Plus)
        ensures
            r == *self,
        decreases *self,
    {
        Plus {
            left: Box::new(Expression::clone(&self.left)),
            right: Box::new(Expression::clone(&self.right)),
        }
    }
}

impl DiffFunc for Plus {
    open spec fn rendered(&self, arg: Seq<char>) -> Seq<char>
        decreases *self,
    {
        infixed(self.left.rendered(arg), " + "@, self.right.rendered(arg))
    }

    open spec fn derived(&self) -> Expression
        decreases *self,
    {
        sum(self.left.derived(), self.right.derived())
    }

    fn to_str(&self, arg: &str) -> (r: String)
        decreases *self,
    {
        let left = self.left.to_str(arg);
        let right = self.right.to_str(arg);
        write_infixed(left.as_str(), " + ", right.as_str())
    }

    fn derivative(&self) -> (r: Expression)
        decreases *self,
    {
        Expression::sum(self.left.derivative(), self.right.derivative())
    }
}

impl Clone for Minus {
    fn clone(&self) -> (r: Minus)
        ensures
            r == *self,
        decreases *self,
    {
        Minus {
            left: Box::new(Expression::clone(&self.left)),
            right: Box::new(Expression::clone(&self.right)),
        }
    }
}

impl DiffFunc for Minus {
    open spec fn rendered(&self, arg: Seq<char>) -> Seq<char>
        decreases *self,
    {
        infixed(self.left.rendered(arg), " - "@, self.right.rendered(arg))
    }

    open spec fn derived(&self) -> Expression
        decreases *self,
    {
        difference(self.left.derived(), self.right.derived())
    }

    fn to_str(&self, arg: &str) -> (r: String)
        decreases *self,
    {
        let left = self.left.to_str(arg);
        let right = self.right.to_str(arg);
        write_infixed(left.as_str(), " - ", right.as_str())
    }

    fn derivative(&self) -> (r: Expression)
        decreases *self,
    {
        Expression::difference(self.left.derivative(), self.right.derivative())
    }
}

impl Clone for Mul {
    fn clone(&self) -> (r: Mul)
        ensures
            r == *self,
        decreases *self,
    {
        Mul {
            left: Box::new(Expression::clone(&self.left)),
            right: Box::new(Expression::clone(&self.right)),
        }
    }
}

impl DiffFunc for Mul {
    open spec fn rendered(&self, arg: Seq<char>) -> Seq<char>
        decreases *self,
    {
        infixed(self.left.rendered(arg), " * "@, self.right.rendered(arg))
    }

    open spec fn derived(&self) -> Expression
        decreases *self,
    {
        sum(
            product(self.left.derived(), *self.right),
            product(*self.left, self.right.derived()),
        )
    }

    fn to_str(&self, arg: &str) -> (r: String)
        decreases *self,
    {
        let left = self.left.to_str(arg);
        let right = self.right.to_str(arg);
        write_infixed(left.as_str(), " * ", right.as_str())
    }

    fn derivative(&self) -> (r: Expression)
        decreases *self,
    {
        Expression::sum(
            Expression::product(self.left.derivative(), Expression::clone(&self.right)),
            Expression::product(Expression::clone(&self.left), self.right.derivative()),
        )
    }
}

impl Clone for Div {
    fn clone(&self) -> (r: Div)
        ensures
            r == *self,
        decreases *self,
    {
        Div {
            left: Box::new(Expression::clone(&self.left)),
            right: Box::new(Expression::clone(&self.right)),
        }
    }
}

impl DiffFunc for Div {
    open spec fn rendered(&self, arg: Seq<char>) -> Seq<char>
        decreases *self,
    {
        infixed(self.left.rendered(arg), " / "@, self.right.rendered(arg))
    }

    open spec fn derived(&self) -> Expression
        decreases *self,
    {
        quotient(
            difference(
                product(self.left.derived(), *self.right),
                product(*self.left, self.right.derived()),
            ),
            composition(power(Number { bits: TWO_BITS }), *self.right),
        )
    }

    fn to_str(&self, arg: &str) -> (r: String)
        decreases *self,
    {
        let left = self.left.to_str(arg);
        let right = self.right.to_str(arg);
        write_infixed(left.as_str(), " / ", right.as_str())
    }

    fn derivative(&self) -> (r: Expression)
        decreases *self,
    {
        Expression::quotient(
            Expression::difference(
                Expression::product(self.left.derivative(), Expression::clone(&self.right)),
                Expression::product(Expression::clone(&self.left), self.right.derivative()),
            ),
            Expression::composition(
                Expression::power(Number::two()),
                Expression::clone(&self.right),
            ),
        )
    }
}

impl Clone for Compose {
    fn clone(&self) -> (r: Compose)
        ensures
            r == *self,
        decreases *self,
    {
        Compose {
            outer: Box::new(Expression::clone(&self.outer)),
            inner: Box::new(Expression::clone(&self.inner)),
        }
    }
}

impl DiffFunc for Compose {
    open spec fn rendered(&self, arg: Seq<char>) -> Seq<char>
        decreases *self,
    {
        self.outer.rendered(self.inner.rendered(arg))
    }

    open spec fn derived(&self) -> Expression
        decreases *self,
    {
        product(composition(self.outer.derived(), *self.inner), self.inner.derived())
    }

    fn to_str(&self, arg: &str) -> (r: String)
        decreases *self,
    {
        let inner = self.inner.to_str(arg);
        self.outer.to_str(inner.as_str())
    }

    fn derivative(&self) -> (r: Expression)
        decreases *self,
    {
        Expression::product(
            Expression::composition(self.outer.derivative(), Expression::clone(&self.inner)),
            self.inner.derivative(),
        )
    }
}

impl Clone for Expression {
    /// A deep copy of the tree.
    fn clone(&self) -> (r: Expression)
        ensures
            r == *self,
        decreases *self,
    {
        match self {
            Expression::Constant(f) => Expression::Constant(*f),
            Expression::Identity(f) => Expression::Identity(*f),
            Expression::Exp(f) => Expression::Exp(*f),
            Expression::Ln(f) => Expression::Ln(*f),
            Expression::Sin(f) => Expression::Sin(*f),
            Expression::Cos(f) => Expression::Cos(*f),
            Expression::Power(f) => Expression::Power(*f),
            Expression::Plus(f) => Expression::Plus(Plus::clone(f)),
            Expression::Minus(f) => Expression::Minus(Minus::clone(f)),
            Expression::Mul(f) => Expression::Mul(Mul::clone(f)),
            Expression::Div(f) => Expression::Div(Div::clone(f)),
            Expression::Compose(f) => Expression::Compose(Compose::clone(f)),
        }
    }
}

impl DiffFunc for Expression {
    open spec fn rendered(&self, arg: Seq<char>) -> Seq<char>
        decreases *self,
    {
        match self {
            Expression::Constant(f) => f.rendered(arg),
            Expression::Identity(f) => f.rendered(arg),
            Expression::Exp(f) => f.rendered(arg),
            Expression::Ln(f) => f.rendered(arg),
            Expression::Sin(f) => f.rendered(arg),
            Expression::Cos(f) => f.rendered(arg),
            Expression::Power(f) => f.rendered(arg),
            Expression::Plus(f) => f.rendered(arg),
            Expression::Minus(f) => f.rendered(arg),
            Expression::Mul(f) => f.rendered(arg),
            Expression::Div(f) => f.rendered(arg),
            Expression::Compose(f) => f.rendered(arg),
        }
    }

    open spec fn derived(&self) -> Expression
        decreases *self,
    {
        match self {
            Expression::Constant(f) => f.derived(),
            Expression::Identity(f) => f.derived(),
            Expression::Exp(f) => f.derived(),
            Expression::Ln(f) => f.derived(),
            Expression::Sin(f) => f.derived(),
            Expression::Cos(f) => f.derived(),
            Expression::Power(f) => f.derived(),
            Expression::Plus(f) => f.derived(),
            Expression::Minus(f) => f.derived(),
            Expression::Mul(f) => f.derived(),
            Expression::Div(f) => f.derived(),
            Expression::Compose(f) => f.derived(),
        }
    }

    fn to_str(&self, arg: &str) -> (r: String)
        decreases *self,
    {
        match self {
            Expression::Constant(f) => f.to_str(arg),
            Expression::Identity(f) => f.to_str(arg),
            Expression::Exp(f) => f.to_str(arg),
            Expression::Ln(f) => f.to_str(arg),
            Expression::Sin(f) => f.to_str(arg),
            Expression::Cos(f) => f.to_str(arg),
            Expression::Power(f) => f.to_str(arg),
            Expression::Plus(f) => f.to_str(arg),
            Expression::Minus(f) => f.to_str(arg),
            Expression::Mul(f) => f.to_str(arg),
            Expression::Div(f) => f.to_str(arg),
            Expression::Compose(f) => f.to_str(arg),
        }
    }

    fn derivative(&self) -> (r: Expression)
        decreases *self,
    {
        match self {
            Expression::Constant(f) => f.derivative(),
            Expression::Identity(f) => f.derivative(),
            Expression::Exp(f) => f.derivative(),
            Expression::Ln(f) => f.derivative(),
            Expression::Sin(f) => f.derivative(),
            Expression::Cos(f) => f.derivative(),
            Expression::Power(f) => f.derivative(),
            Expression::Plus(f) => f.derivative(),
            Expression::Minus(f) => f.derivative(),
            Expression::Mul(f) => f.derivative(),
            Expression::Div(f) => f.derivative(),
            Expression::Compose(f) => f.derivative(),
        }
    }
}

} // verus!
