//! Simplification: a fixed set of rewrite rules, applied from the leaves up
//! and repeated until the tree no longer changes.

use vstd::prelude::*;
use crate::func::Expression;
use crate::func::Power;
use crate::func::Exp;
use crate::func::composition;
use crate::func::constant;
use crate::func::difference;
use crate::func::power;
use crate::func::product;
use crate::func::quotient;
use crate::func::sum;
use crate::number::Number;
use crate::number::ONE_BITS;
use crate::number::TWO_BITS;
use crate::number::ZERO_BITS;
use crate::number::MINUS_ONE_BITS;

verus! {

/// Weight of a tree: every node counts, a power and the nodes of a sum or a
/// difference count twice. No rule makes a tree heavier.
pub open spec fn weight(e: Expression) -> nat
    decreases e,
{
    match e {
        Expression::Power(_) => 2,
        Expression::Plus(f) => 2 + weight(*f.left) + weight(*f.right),
        Expression::Minus(f) => 2 + weight(*f.left) + weight(*f.right),
        Expression::Mul(f) => 1 + weight(*f.left) + weight(*f.right),
        Expression::Div(f) => 1 + weight(*f.left) + weight(*f.right),
        Expression::Compose(f) => 1 + weight(*f.outer) + weight(*f.inner),
        _ => 1,
    }
}

/// How far the sums and products of a tree lean to the right: the weights of
/// the right operands of all its sums and products, added up. Moving a nested
/// sum or product from the right operand to the left one lowers it.
pub open spec fn lean(e: Expression) -> nat
    decreases e,
{
    match e {
        Expression::Plus(f) => weight(*f.right) + lean(*f.left) + lean(*f.right),
        Expression::Minus(f) => lean(*f.left) + lean(*f.right),
        Expression::Mul(f) => weight(*f.right) + lean(*f.left) + lean(*f.right),
        Expression::Div(f) => lean(*f.left) + lean(*f.right),
        Expression::Compose(f) => lean(*f.outer) + lean(*f.inner),
        _ => 0,
    }
}

/// `a` is simpler than `b`: lighter, or as heavy and leaning less to the right.
pub open spec fn simpler(a: Expression, b: Expression) -> bool {
    weight(a) < weight(b) || (weight(a) == weight(b) && lean(a) < lean(b))
}

/// The rules for a sum whose operands `l` and `r` are already simplified; the
/// first that applies is taken.
pub open spec fn plus_rule(l: Expression, r: Expression) -> Expression {
    if l is Constant && r is Constant {
        constant(l.number().plus(r.number()))
    } else if l is Constant && l.number().is_zero() {
        r
    } else if r is Constant && r.number().is_zero() {
        l
    } else if r is Plus {
        sum(sum(l, *r.first()), *r.second())
    } else if l.same(&r) {
        product(constant(Number { bits: TWO_BITS }), l)
    } else {
        sum(l, r)
    }
}

/// The rules for a difference whose operands are already simplified.
pub open spec fn minus_rule(l: Expression, r: Expression) -> Expression {
    if l is Constant && r is Constant {
        constant(l.number().minus(r.number()))
    } else if l is Constant && l.number().is_zero() {
        product(constant(Number { bits: MINUS_ONE_BITS }), r)
    } else if r is Constant && r.number().is_zero() {
        l
    } else {
        difference(l, r)
    }
}

/// The rules for a product whose operands are already simplified.
pub open spec fn mul_rule(l: Expression, r: Expression) -> Expression {
    if l is Constant && r is Constant {
        constant(l.number().times(r.number()))
    } else if l is Constant && l.number().is_one() {
        r
    } else if r is Constant && r.number().is_one() {
        l
    } else if l is Constant && l.number().is_zero() {
        constant(Number { bits: ZERO_BITS })
    } else if r is Constant && r.number().is_zero() {
        constant(Number { bits: ZERO_BITS })
    } else if l is Power && r is Power {
        power(l.number().plus(r.number()))
    } else if r is Mul && r.first() is Power && r.second() is Power {
        product(power(r.first().number().plus(r.second().number())), l)
    } else if l is Power && r is Mul && r.second() is Power {
        product(power(l.number().plus(r.second().number())), *r.first())
    } else if l is Power && r is Mul && r.first() is Power {
        product(power(l.number().plus(r.first().number())), *r.second())
    } else if l is Mul && l.first() is Power && l.second() is Power {
        product(power(l.first().number().plus(l.second().number())), r)
    } else if l is Mul && l.first() is Power && r is Power {
        product(power(l.first().number().plus(r.number())), *l.second())
    } else if l is Mul && l.second() is Power && r is Power {
        product(power(l.second().number().plus(r.number())), *l.first())
    } else if l is Compose && l.first() is Exp && r is Compose && r.first() is Exp {
        composition(Expression::Exp(Exp), sum(*l.second(), *r.second()))
    } else if r is Mul {
        product(product(l, *r.first()), *r.second())
    } else {
        product(l, r)
    }
}

/// The rules for a quotient whose operands are already simplified.
pub open spec fn div_rule(l: Expression, r: Expression) -> Expression {
    if l is Constant && r is Constant {
        constant(l.number().over(r.number()))
    } else if r is Constant && r.number().is_one() {
        l
    } else {
        quotient(l, r)
    }
}

/// The rules for a composition whose parts `o` (outer) and `i` (inner) are
/// already simplified.
pub open spec fn compose_rule(o: Expression, i: Expression) -> Expression {
    if o is Power && i is Power {
        power(o.number().times(i.number()))
    } else if o is Exp && i is Ln {
        power(Number { bits: ONE_BITS })
    } else if o is Exp && i is Compose && i.first() is Ln {
        *i.second()
    } else if o is Exp && i is Mul && i.first() is Compose && i.first().first() is Ln
        && i.second() is Constant {
        composition(power(i.second().number()), *i.first().second())
    } else if o is Exp && i is Mul && i.first() is Constant && i.second() is Compose
        && i.second().first() is Ln {
        composition(power(i.first().number()), *i.second().second())
    } else if o is Ln && i is Exp {
        power(Number { bits: ONE_BITS })
    } else if o is Ln && i is Compose && i.first() is Exp {
        *i.second()
    } else {
        composition(o, i)
    }
}

/// One pass of the rules over a tree: the operands of the top node are
/// simplified fully, then the rules of that node are tried once.
pub open spec fn step(e: Expression) -> Expression
    decreases weight(e), lean(e), 0nat,
{
    match e {
        Expression::Power(f) => if f.exponent.is_zero() {
            constant(Number { bits: ONE_BITS })
        } else {
            e
        },
        Expression::Plus(f) => plus_rule(fixed_point(*f.left), fixed_point(*f.right)),
        Expression::Minus(f) => minus_rule(fixed_point(*f.left), fixed_point(*f.right)),
        Expression::Mul(f) => mul_rule(fixed_point(*f.left), fixed_point(*f.right)),
        Expression::Div(f) => div_rule(fixed_point(*f.left), fixed_point(*f.right)),
        Expression::Compose(f) => compose_rule(fixed_point(*f.outer), fixed_point(*f.inner)),
        _ => e,
    }
}

/// The tree that repeated passes arrive at: the first one that a further
/// pass leaves as it is. Every pass that changes a tree makes it simpler
/// (`lemma_step_simplifies`), which is what lets the passes be repeated.
pub open spec fn fixed_point(e: Expression) -> Expression
    decreases weight(e), lean(e), 1nat,
{
    let next = step(e);
    if next != e && simpler(next, e) {
        fixed_point(next)
    } else {
        next
    }
}

/// `a` is `b` or simpler than `b`.
pub open spec fn not_harder(a: Expression, b: Expression) -> bool {
    a == b || simpler(a, b)
}

/// The rules for a sum leave it as it is or make it simpler.
proof fn lemma_plus_rule(l: Expression, r: Expression)
    ensures
        not_harder(plus_rule(l, r), sum(l, r)),
{
    reveal_with_fuel(weight, 3);
    reveal_with_fuel(lean, 3);
}

/// The rules for a difference leave it as it is or make it simpler.
proof fn lemma_minus_rule(l: Expression, r: Expression)
    ensures
        not_harder(minus_rule(l, r), difference(l, r)),
{
    reveal_with_fuel(weight, 3);
    reveal_with_fuel(lean, 3);
}

/// The rules for a product leave it as it is or make it simpler.
proof fn lemma_mul_rule(l: Expression, r: Expression)
    ensures
        not_harder(mul_rule(l, r), product(l, r)),
{
    reveal_with_fuel(weight, 4);
    reveal_with_fuel(lean, 4);
}

/// The rules for a quotient leave it as it is or make it simpler.
proof fn lemma_div_rule(l: Expression, r: Expression)
    ensures
        not_harder(div_rule(l, r), quotient(l, r)),
{
    reveal_with_fuel(weight, 3);
    reveal_with_fuel(lean, 3);
}

/// The rules for a composition leave it as it is or make it simpler.
proof fn lemma_compose_rule(o: Expression, i: Expression)
    ensures
        not_harder(compose_rule(o, i), composition(o, i)),
{
    reveal_with_fuel(weight, 5);
    reveal_with_fuel(lean, 5);
}

/// A pass leaves a tree as it is or makes it simpler.
pub proof fn lemma_step_simplifies(e: Expression)
    ensures
        step(e) == e || simpler(step(e), e),
    decreases weight(e), lean(e), 0nat,
{
    reveal_with_fuel(weight, 2);
    reveal_with_fuel(lean, 2);
    match e {
        Expression::Plus(f) => {
            lemma_fixed_point(*f.left);
            lemma_fixed_point(*f.right);
            lemma_plus_rule(fixed_point(*f.left), fixed_point(*f.right));
        },
        Expression::Minus(f) => {
            lemma_fixed_point(*f.left);
            lemma_fixed_point(*f.right);
            lemma_minus_rule(fixed_point(*f.left), fixed_point(*f.right));
        },
        Expression::Mul(f) => {
            lemma_fixed_point(*f.left);
            lemma_fixed_point(*f.right);
            lemma_mul_rule(fixed_point(*f.left), fixed_point(*f.right));
        },
        Expression::Div(f) => {
            lemma_fixed_point(*f.left);
            lemma_fixed_point(*f.right);
            lemma_div_rule(fixed_point(*f.left), fixed_point(*f.right));
        },
        Expression::Compose(f) => {
            lemma_fixed_point(*f.outer);
            lemma_fixed_point(*f.inner);
            lemma_compose_rule(fixed_point(*f.outer), fixed_point(*f.inner));
        },
        _ => {},
    }
}

/// Repeated passes end in a tree that a further pass leaves as it is, and
/// that is the tree they started from or a simpler one.
pub proof fn lemma_fixed_point(e: Expression)
    ensures
        step(fixed_point(e)) == fixed_point(e),
        fixed_point(e) == e || simpler(fixed_point(e), e),
    decreases weight(e), lean(e), 1nat,
{
    lemma_step_simplifies(e);
    if step(e) != e {
        lemma_fixed_point(step(e));
    }
}

/// Applies the rules for a sum to two simplified operands.
pub fn simplify_plus(l: Expression, r: Expression) -> (e: Expression)
    ensures
        e == plus_rule(l, r),
{
    if l.is_constant() && r.is_constant() {
        Expression::constant(l.number().plus(r.number()))
    } else if l.is_constant() && l.number().is_zero() {
        r
    } else if r.is_constant() && r.number().is_zero() {
        l
    } else if r.is_plus() {
        Expression::sum(Expression::sum(l, r.first().clone()), r.second().clone())
    } else if l.same(&r) {
        Expression::product(Expression::constant(Number::two()), l)
    } else {
        Expression::sum(l, r)
    }
}

/// Applies the rules for a difference to two simplified operands.
pub fn simplify_minus(l: Expression, r: Expression) -> (e: Expression)
    ensures
        e == minus_rule(l, r),
{
    if l.is_constant() && r.is_constant() {
        Expression::constant(l.number().minus(r.number()))
    } else if l.is_constant() && l.number().is_zero() {
        Expression::product(Expression::constant(Number::minus_one()), r)
    } else if r.is_constant() && r.number().is_zero() {
        l
    } else {
        Expression::difference(l, r)
    }
}

/// Applies the rules for a product to two simplified operands.
pub fn simplify_mul(l: Expression, r: Expression) -> (e: Expression)
    ensures
        e == mul_rule(l, r),
{
    if l.is_constant() && r.is_constant() {
        Expression::constant(l.number().times(r.number()))
    } else if l.is_constant() && l.number().is_one() {
        r
    } else if r.is_constant() && r.number().is_one() {
        l
    } else if l.is_constant() && l.number().is_zero() {
        Expression::constant(Number::zero())
    } else if r.is_constant() && r.number().is_zero() {
        Expression::constant(Number::zero())
    } else if l.is_power() && r.is_power() {
        Expression::power(l.number().plus(r.number()))
    } else if r.is_mul() && r.first().is_power() && r.second().is_power() {
        Expression::product(
            Expression::power(r.first().number().plus(r.second().number())),
            l,
        )
    } else if l.is_power() && r.is_mul() && r.second().is_power() {
        Expression::product(
            Expression::power(l.number().plus(r.second().number())),
            r.first().clone(),
        )
    } else if l.is_power() && r.is_mul() && r.first().is_power() {
        Expression::product(
            Expression::power(l.number().plus(r.first().number())),
            r.second().clone(),
        )
    } else if l.is_mul() && l.first().is_power() && l.second().is_power() {
        Expression::product(
            Expression::power(l.first().number().plus(l.second().number())),
            r,
        )
    } else if l.is_mul() && l.first().is_power() && r.is_power() {
        Expression::product(
            Expression::power(l.first().number().plus(r.number())),
            l.second().clone(),
        )
    } else if l.is_mul() && l.second().is_power() && r.is_power() {
        Expression::product(
            Expression::power(l.second().number().plus(r.number())),
            l.first().clone(),
        )
    } else if l.is_compose() && l.first().is_exp() && r.is_compose() && r.first().is_exp() {
        Expression::composition(
            Expression::Exp(Exp),
            Expression::sum(l.second().clone(), r.second().clone()),
        )
    } else if r.is_mul() {
        Expression::product(Expression::product(l, r.first().clone()), r.second().clone())
    } else {
        Expression::product(l, r)
    }
}

/// Applies the rules for a quotient to two simplified operands.
pub fn simplify_div(l: Expression, r: Expression) -> (e: Expression)
    ensures
        e == div_rule(l, r),
{
    if l.is_constant() && r.is_constant() {
        Expression::constant(l.number().over(r.number()))
    } else if r.is_constant() && r.number().is_one() {
        l
    } else {
        Expression::quotient(l, r)
    }
}

/// Applies the rules for a composition to its simplified parts.
pub fn simplify_compose(o: Expression, i: Expression) -> (e: Expression)
    ensures
        e == compose_rule(o, i),
{
    if o.is_power() && i.is_power() {
        Expression::power(o.number().times(i.number()))
    } else if o.is_exp() && i.is_ln() {
        Expression::power(Number::one())
    } else if o.is_exp() && i.is_compose() && i.first().is_ln() {
        i.second().clone()
    } else if o.is_exp() && i.is_mul() && i.first().is_compose() && i.first().first().is_ln()
        && i.second().is_constant() {
        Expression::composition(
            Expression::power(i.second().number()),
            i.first().second().clone(),
        )
    } else if o.is_exp() && i.is_mul() && i.first().is_constant() && i.second().is_compose()
        && i.second().first().is_ln() {
        Expression::composition(
            Expression::power(i.first().number()),
            i.second().second().clone(),
        )
    } else if o.is_ln() && i.is_exp() {
        Expression::power(Number::one())
    } else if o.is_ln() && i.is_compose() && i.first().is_exp() {
        i.second().clone()
    } else {
        Expression::composition(o, i)
    }
}

/// Simplification of a tree.
pub trait Simplify: Sized {
    /// The tree after one pass of the rules.
    spec fn stepped(&self) -> Self;

    /// The tree that repeated passes arrive at.
    spec fn simplified(&self) -> Self;

    /// Repeats `simplify_step` until the tree no longer changes, and returns
    /// that tree, newly built.
    fn simplify(&self) -> (r: Self)
        ensures
            r == self.simplified(),
    ;

    /// Simplifies the operands of the top node fully and applies the rules of
    /// the top node once; returns the result, newly built.
    fn simplify_step(&self) -> (r: Self)
        ensures
            r == self.stepped(),
    ;
}

impl Simplify for Expression {
    open spec fn stepped(&self) -> Expression {
        step(*self)
    }

    open spec fn simplified(&self) -> Expression {
        fixed_point(*self)
    }

    fn simplify(&self) -> (r: Expression)
        decreases weight(*self), lean(*self), 1nat,
    {
        let mut old = self.clone();
        let mut new = old.simplify_step();
        while !old.identical(&new)
            invariant
                new == step(old),
                not_harder(old, *self),
                fixed_point(old) == fixed_point(*self),
            decreases weight(old), lean(old),
        {
            proof {
                lemma_step_simplifies(old);
            }
            old = new;
            new = old.simplify_step();
        }
        new
    }

    fn simplify_step(&self) -> (r: Expression)
        decreases weight(*self), lean(*self), 0nat,
    {
        match self {
            Expression::Power(f) => if f.exponent.is_zero() {
                Expression::constant(Number::one())
            } else {
                Expression::Power(Power { exponent: f.exponent })
            },
            Expression::Plus(f) => simplify_plus(f.left.simplify(), f.right.simplify()),
            Expression::Minus(f) => simplify_minus(f.left.simplify(), f.right.simplify()),
            Expression::Mul(f) => simplify_mul(f.left.simplify(), f.right.simplify()),
            Expression::Div(f) => simplify_div(f.left.simplify(), f.right.simplify()),
            Expression::Compose(f) => simplify_compose(f.outer.simplify(), f.inner.simplify()),
            _ => self.clone(),
        }
    }
}

/// The simplified form as an equation: a tree that a pass leaves as it is, is
/// its own simplified form; any other tree has the simplified form of what
/// the pass makes of it.
pub proof fn lemma_simplified_unfolds(e: Expression)
    ensures
        e.simplified() == if e.stepped() == e {
            e
        } else {
            e.stepped().simplified()
        },
{
    lemma_step_simplifies(e);
}

/// Simplifying never makes a tree heavier, and a tree of the same weight
/// never leans more to the right.
pub proof fn lemma_simplify_not_harder(e: Expression)
    ensures
        not_harder(e.simplified(), e),
        weight(e.simplified()) <= weight(e),
{
    lemma_fixed_point(e);
}

/// Simplifying a simplified tree changes nothing.
pub proof fn lemma_simplify_idempotent(e: Expression)
    ensures
        e.simplified().simplified() == e.simplified(),
        e.simplified().stepped() == e.simplified(),
{
    lemma_fixed_point(e);
}

} // verus!
