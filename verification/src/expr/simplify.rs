//! Algebraic simplification: one pass over the tree.
//!
//! A sum or a difference is rewritten after its operands have been
//! simplified. A product, a quotient or a power is matched against the
//! rules as it stands, and only a rule that keeps an operand simplifies that
//! operand. The pass is not repeated: what it returns may simplify further.
use vstd::prelude::*;
use crate::binary64::{MINUS_ONE, ONE, TWO, ZERO};
use crate::expr::expr::{con, div, neg, pow, powf, Expr};
use crate::number::number::{
    arithmetic_is_single_valued, difference, power, product, sum, Number,
};
use crate::unit::{single_valued, total, Primitive};

verus! {

/// The real constant with the pattern `b`.
pub open spec fn constant(b: u64) -> Expr {
    Expr::Const(Number::Real(b))
}

/// `e` squared: `e` raised to the constant two.
pub open spec fn squared(e: Expr) -> Expr {
    Expr::Pow(Box::new(e), Box::new(constant(TWO)))
}

/// `base` raised to one more than `exponent`: the exponent is the sum of the
/// constant one and `exponent`, left as a sum.
pub open spec fn raised(base: Expr, exponent: Expr) -> Expr {
    Expr::Pow(
        Box::new(base),
        Box::new(Expr::Add(Box::new(constant(ONE)), Box::new(exponent))),
    )
}

/// The squared cosine and the squared sine of the same tree, in either
/// order.
pub open spec fn pythagorean(a: Expr, b: Expr) -> bool {
    a is Pow && b is Pow && a.second() == constant(TWO) && b.second() == constant(TWO) && ((
    a.first() is Cos && b.first() is Sin) || (a.first() is Sin && b.first() is Cos))
        && a.first().first() == b.first().first()
}

/// `out` is the sum of the simplified trees `a` and `b`, rewritten: two
/// constants are added, a zero is dropped, a constant moves to the front,
/// and the squares of the cosine and the sine of one tree make one.
pub open spec fn sum_step<U: Fn(Primitive, u64, u64) -> u64>(
    unit: &U,
    a: Expr,
    b: Expr,
    out: Expr,
) -> bool {
    if a is Const && b is Const {
        out matches Expr::Const(z) && sum(unit, a.number(), b.number(), z)
    } else if a is Const {
        out == if a.number().zero() {
            b
        } else {
            Expr::Add(Box::new(a), Box::new(b))
        }
    } else if b is Const {
        out == if b.number().zero() {
            a
        } else {
            Expr::Add(Box::new(b), Box::new(a))
        }
    } else if pythagorean(a, b) {
        out == constant(ONE)
    } else {
        out == Expr::Add(Box::new(a), Box::new(b))
    }
}

/// `out` is the difference of the simplified trees `a` and `b`, rewritten:
/// two constants are subtracted, zero less a tree is the tree negated, a
/// tree less zero is the tree, and a tree less a negation is the sum,
/// rewritten as a sum.
pub open spec fn difference_step<U: Fn(Primitive, u64, u64) -> u64>(
    unit: &U,
    a: Expr,
    b: Expr,
    out: Expr,
) -> bool {
    if a is Const && b is Const {
        out matches Expr::Const(z) && difference(unit, a.number(), b.number(), z)
    } else if a is Const {
        out == if a.number().zero() {
            Expr::Neg(Box::new(b))
        } else {
            Expr::Sub(Box::new(a), Box::new(b))
        }
    } else if b is Const {
        out == if b.number().zero() {
            a
        } else {
            Expr::Sub(Box::new(a), Box::new(b))
        }
    } else if b is Neg {
        sum_step(unit, a, b.first(), out)
    } else {
        out == Expr::Sub(Box::new(a), Box::new(b))
    }
}

/// `out` is the tree `e` after one pass of simplification.
///
/// - A negation keeps its place over its simplified operand.
/// - A sum and a difference have their operands simplified and are then
///   rewritten as [`sum_step`] and [`difference_step`] say.
/// - A product of two constants is their product. With one constant factor
///   it is zero if the constant is zero, the other factor simplified if the
///   constant is one, that negated if the constant is minus one, and else
///   the constant times the other factor simplified. A tree times its own
///   negation is its square negated; a tree times a power of itself is a
///   power with one more in the exponent; a tree times itself is its
///   square. Any other product of a negation or a power stays, a power on
///   the left moving to the right; and what is left is the product of the
///   simplified factors.
/// - A quotient by the constant one is the simplified numerator, by a
///   constant zero the undefined constant, and else the quotient of the
///   simplified operands.
/// - A power of two constants is their power, a power to the constant one is
///   the simplified base, and else the power of the simplified operands.
/// - Every other tree is returned as it is.
pub open spec fn simplified<U: Fn(Primitive, u64, u64) -> u64>(unit: &U, e: Expr, out: Expr) -> bool
    decreases e,
{
    match e {
        Expr::Neg(i) => out matches Expr::Neg(j) && simplified(unit, *i, *j),
        Expr::Add(_, _) => exists|a: Expr, b: Expr|
            simplified(unit, e.first(), a) && simplified(unit, e.second(), b) && #[trigger] sum_step(
                unit,
                a,
                b,
                out,
            ),
        Expr::Sub(_, _) => exists|a: Expr, b: Expr|
            simplified(unit, e.first(), a) && simplified(unit, e.second(), b)
                && #[trigger] difference_step(unit, a, b, out),
        Expr::Mul(l, r) => if *l is Const && *r is Const {
            out matches Expr::Const(z) && product(unit, (*l).number(), (*r).number(), z)
        } else if *l is Const || *r is Const {
            if scalar(e).zero() {
                out == constant(ZERO)
            } else if scalar(e).real_equals(ONE) {
                simplified(unit, scaled(e), out)
            } else if scalar(e).real_equals(MINUS_ONE) {
                out matches Expr::Neg(j) && simplified(unit, scaled(e), *j)
            } else {
                out matches Expr::Mul(c, j) && *c == Expr::Const(scalar(e)) && simplified(
                    unit,
                    scaled(e),
                    *j,
                )
            }
        } else if *r is Neg {
            out == if *l == r.first() {
                Expr::Neg(Box::new(squared(*l)))
            } else {
                e
            }
        } else if *l is Neg {
            out == if l.first() == *r {
                Expr::Neg(Box::new(squared(*r)))
            } else {
                e
            }
        } else if *r is Pow {
            out == if *l == r.first() {
                raised(*l, r.second())
            } else {
                e
            }
        } else if *l is Pow {
            out == if l.first() == *r {
                raised(*r, l.second())
            } else {
                Expr::Mul(r, l)
            }
        } else if *l == *r {
            out == squared(*l)
        } else {
            out matches Expr::Mul(a, b) && simplified(unit, *l, *a) && simplified(unit, *r, *b)
        },
        Expr::Div(l, r) => if *r is Const {
            if (*r).number().real_equals(ONE) {
                simplified(unit, *l, out)
            } else if (*r).number().real_equals(ZERO) {
                out == Expr::Const(Number::NaN)
            } else {
                out matches Expr::Div(a, b) && simplified(unit, *l, *a) && *b == *r
            }
        } else {
            out matches Expr::Div(a, b) && simplified(unit, *l, *a) && simplified(unit, *r, *b)
        },
        Expr::Pow(l, r) => if *l is Const && *r is Const {
            out matches Expr::Const(z) && power(unit, (*l).number(), (*r).number(), z)
        } else if *r is Const {
            if (*r).number().real_equals(ONE) {
                simplified(unit, *l, out)
            } else {
                out matches Expr::Pow(a, b) && simplified(unit, *l, *a) && *b == *r
            }
        } else {
            out matches Expr::Pow(a, b) && simplified(unit, *l, *a) && simplified(unit, *r, *b)
        },
        _ => out == e,
    }
}

/// The constant factor of a product with one: the left one if both are.
pub open spec fn scalar(e: Expr) -> Number {
    if e.first() is Const {
        e.first().number()
    } else {
        e.second().number()
    }
}

/// The other factor of a product with a constant factor.
pub open spec fn scaled(e: Expr) -> Expr {
    if e.first() is Const {
        e.second()
    } else {
        e.first()
    }
}

/// With a unit that is a function, simplification is a function: a tree has
/// one simplified form.
pub proof fn simplified_is_single_valued<U: Fn(Primitive, u64, u64) -> u64>(
    unit: &U,
    e: Expr,
    out1: Expr,
    out2: Expr,
)
    requires
        single_valued(unit),
        simplified(unit, e, out1),
        simplified(unit, e, out2),
    ensures
        out1 == out2,
    decreases e,
{
    match e {
        Expr::Neg(i) => {
            simplified_is_single_valued(unit, *i, out1.first(), out2.first());
        },
        Expr::Add(_, _) => {
            let (a1, b1) = choose|a: Expr, b: Expr|
                simplified(unit, e.first(), a) && simplified(unit, e.second(), b)
                    && #[trigger] sum_step(unit, a, b, out1);
            let (a2, b2) = choose|a: Expr, b: Expr|
                simplified(unit, e.first(), a) && simplified(unit, e.second(), b)
                    && #[trigger] sum_step(unit, a, b, out2);
            simplified_is_single_valued(unit, e.first(), a1, a2);
            simplified_is_single_valued(unit, e.second(), b1, b2);
            step_is_single_valued(unit, a1, b1, out1, out2);
        },
        Expr::Sub(_, _) => {
            let (a1, b1) = choose|a: Expr, b: Expr|
                simplified(unit, e.first(), a) && simplified(unit, e.second(), b)
                    && #[trigger] difference_step(unit, a, b, out1);
            let (a2, b2) = choose|a: Expr, b: Expr|
                simplified(unit, e.first(), a) && simplified(unit, e.second(), b)
                    && #[trigger] difference_step(unit, a, b, out2);
            simplified_is_single_valued(unit, e.first(), a1, a2);
            simplified_is_single_valued(unit, e.second(), b1, b2);
            step_is_single_valued(unit, a1, b1, out1, out2);
        },
        Expr::Mul(l, r) => {
            if *l is Const && *r is Const {
                arithmetic_is_single_valued(
                    unit,
                    (*l).number(),
                    (*r).number(),
                    out1.number(),
                    out2.number(),
                );
            } else if *l is Const || *r is Const {
                if scalar(e).zero() {
                } else if scalar(e).real_equals(ONE) {
                    simplified_is_single_valued(unit, scaled(e), out1, out2);
                } else if scalar(e).real_equals(MINUS_ONE) {
                    simplified_is_single_valued(unit, scaled(e), out1.first(), out2.first());
                } else {
                    simplified_is_single_valued(unit, scaled(e), out1.second(), out2.second());
                }
            } else if *r is Neg || *l is Neg || *r is Pow || *l is Pow || *l == *r {
            } else {
                simplified_is_single_valued(unit, *l, out1.first(), out2.first());
                simplified_is_single_valued(unit, *r, out1.second(), out2.second());
            }
        },
        Expr::Div(l, r) => {
            if *r is Const {
                if (*r).number().real_equals(ONE) {
                    simplified_is_single_valued(unit, *l, out1, out2);
                } else if (*r).number().real_equals(ZERO) {
                } else {
                    simplified_is_single_valued(unit, *l, out1.first(), out2.first());
                }
            } else {
                simplified_is_single_valued(unit, *l, out1.first(), out2.first());
                simplified_is_single_valued(unit, *r, out1.second(), out2.second());
            }
        },
        Expr::Pow(l, r) => {
            if *l is Const && *r is Const {
                arithmetic_is_single_valued(
                    unit,
                    (*l).number(),
                    (*r).number(),
                    out1.number(),
                    out2.number(),
                );
            } else if *r is Const {
                if (*r).number().real_equals(ONE) {
                    simplified_is_single_valued(unit, *l, out1, out2);
                } else {
                    simplified_is_single_valued(unit, *l, out1.first(), out2.first());
                }
            } else {
                simplified_is_single_valued(unit, *l, out1.first(), out2.first());
                simplified_is_single_valued(unit, *r, out1.second(), out2.second());
            }
        },
        _ => {},
    }
}

/// With a unit that is a function, the rewriting of a sum or a difference
/// has one result.
proof fn step_is_single_valued<U: Fn(Primitive, u64, u64) -> u64>(
    unit: &U,
    a: Expr,
    b: Expr,
    out1: Expr,
    out2: Expr,
)
    requires
        single_valued(unit),
    ensures
        sum_step(unit, a, b, out1) && sum_step(unit, a, b, out2) ==> out1 == out2,
        difference_step(unit, a, b, out1) && difference_step(unit, a, b, out2) ==> out1 == out2,
{
    arithmetic_is_single_valued(unit, a.number(), b.number(), out1.number(), out2.number());
    arithmetic_is_single_valued(
        unit,
        a.number(),
        b.first().number(),
        out1.number(),
        out2.number(),
    );
}

/// One pass never makes a tree larger, and never brings in a variable that
/// the tree did not hold.
pub proof fn simplification_never_grows<U: Fn(Primitive, u64, u64) -> u64>(
    unit: &U,
    e: Expr,
    out: Expr,
    c: char,
)
    requires
        simplified(unit, e, out),
    ensures
        out.size() <= e.size(),
        out.mentions(c) ==> e.mentions(c),
    decreases e,
{
    match e {
        Expr::Neg(i) => {
            simplification_never_grows(unit, *i, out.first(), c);
        },
        Expr::Add(_, _) => {
            let (a, b) = choose|a: Expr, b: Expr|
                simplified(unit, e.first(), a) && simplified(unit, e.second(), b)
                    && #[trigger] sum_step(unit, a, b, out);
            simplification_never_grows(unit, e.first(), a, c);
            simplification_never_grows(unit, e.second(), b, c);
            step_never_grows(unit, a, b, out, c);
        },
        Expr::Sub(_, _) => {
            let (a, b) = choose|a: Expr, b: Expr|
                simplified(unit, e.first(), a) && simplified(unit, e.second(), b)
                    && #[trigger] difference_step(unit, a, b, out);
            simplification_never_grows(unit, e.first(), a, c);
            simplification_never_grows(unit, e.second(), b, c);
            step_never_grows(unit, a, b, out, c);
        },
        Expr::Mul(l, r) => {
            if *l is Const && *r is Const {
            } else if *l is Const || *r is Const {
                if scalar(e).zero() {
                } else if scalar(e).real_equals(ONE) {
                    simplification_never_grows(unit, scaled(e), out, c);
                } else {
                    simplification_never_grows(
                        unit,
                        scaled(e),
                        if out is Neg {
                            out.first()
                        } else {
                            out.second()
                        },
                        c,
                    );
                }
            } else if *r is Neg || *l is Neg || *r is Pow || *l is Pow || *l == *r {
                built_trees(*l, r.second(), c);
                built_trees(*r, l.second(), c);
            } else {
                simplification_never_grows(unit, *l, out.first(), c);
                simplification_never_grows(unit, *r, out.second(), c);
            }
        },
        Expr::Div(l, r) => {
            if *r is Const {
                if (*r).number().real_equals(ONE) {
                    simplification_never_grows(unit, *l, out, c);
                } else if (*r).number().real_equals(ZERO) {
                } else {
                    simplification_never_grows(unit, *l, out.first(), c);
                }
            } else {
                simplification_never_grows(unit, *l, out.first(), c);
                simplification_never_grows(unit, *r, out.second(), c);
            }
        },
        Expr::Pow(l, r) => {
            if *l is Const && *r is Const {
            } else if *r is Const {
                if (*r).number().real_equals(ONE) {
                    simplification_never_grows(unit, *l, out, c);
                } else {
                    simplification_never_grows(unit, *l, out.first(), c);
                }
            } else {
                simplification_never_grows(unit, *l, out.first(), c);
                simplification_never_grows(unit, *r, out.second(), c);
            }
        },
        _ => {},
    }
}

/// The sizes and the variables of the trees that the rules of products
/// build from a base `x` and an exponent `p`.
proof fn built_trees(x: Expr, p: Expr, c: char)
    ensures
        squared(x).size() == x.size() + 2,
        squared(x).mentions(c) == x.mentions(c),
        Expr::Neg(Box::new(squared(x))).size() == x.size() + 3,
        Expr::Neg(Box::new(squared(x))).mentions(c) == x.mentions(c),
        raised(x, p).size() == x.size() + p.size() + 3,
        raised(x, p).mentions(c) == (x.mentions(c) || p.mentions(c)),
{
    reveal_with_fuel(Expr::size, 4);
    reveal_with_fuel(Expr::mentions, 4);
}

/// The rewriting of a sum or a difference gives a tree no larger than the
/// sum or difference itself, with no variable that the operands did not hold.
proof fn step_never_grows<U: Fn(Primitive, u64, u64) -> u64>(
    unit: &U,
    a: Expr,
    b: Expr,
    out: Expr,
    c: char,
)
    requires
        sum_step(unit, a, b, out) || difference_step(unit, a, b, out),
    ensures
        out.size() <= 1 + a.size() + b.size(),
        out.mentions(c) ==> a.mentions(c) || b.mentions(c),
{
    reveal_with_fuel(Expr::size, 2);
    reveal_with_fuel(Expr::mentions, 2);
}

/// Do `a` and `b` hold the squared cosine and the squared sine of one tree?
fn is_pythagorean(a: &Expr, b: &Expr) -> (r: bool)
    ensures
        r == pythagorean(*a, *b),
{
    match (a, b) {
        (Expr::Pow(p, n), Expr::Pow(q, m)) => {
            let two = con(TWO);
            if **n == two && **m == two {
                match (&**p, &**q) {
                    (Expr::Cos(x), Expr::Sin(y)) => **x == **y,
                    (Expr::Sin(x), Expr::Cos(y)) => **x == **y,
                    _ => false,
                }
            } else {
                false
            }
        },
        _ => false,
    }
}

/// Rewrites the sum of two simplified trees.
fn add_step<U: Fn(Primitive, u64, u64) -> u64>(a: Expr, b: Expr, unit: &U) -> (out: Expr)
    requires
        total(unit),
    ensures
        sum_step(unit, a, b, out),
{
    match (a, b) {
        (Expr::Const(x), Expr::Const(y)) => Expr::Const(x.add(y, unit)),
        (Expr::Const(x), b) => {
            if x.is_zero() {
                b
            } else {
                crate::expr::expr::add(Expr::Const(x), b)
            }
        },
        (a, Expr::Const(x)) => {
            if x.is_zero() {
                a
            } else {
                crate::expr::expr::add(Expr::Const(x), a)
            }
        },
        (a, b) => {
            if is_pythagorean(&a, &b) {
                con(ONE)
            } else {
                crate::expr::expr::add(a, b)
            }
        },
    }
}

/// Rewrites the difference of two simplified trees.
fn sub_step<U: Fn(Primitive, u64, u64) -> u64>(a: Expr, b: Expr, unit: &U) -> (out: Expr)
    requires
        total(unit),
    ensures
        difference_step(unit, a, b, out),
{
    match (a, b) {
        (Expr::Const(x), Expr::Const(y)) => Expr::Const(x.sub(y, unit)),
        (Expr::Const(x), b) => {
            if x.is_zero() {
                neg(b)
            } else {
                crate::expr::expr::sub(Expr::Const(x), b)
            }
        },
        (a, Expr::Const(x)) => {
            if x.is_zero() {
                a
            } else {
                crate::expr::expr::sub(a, Expr::Const(x))
            }
        },
        (a, Expr::Neg(i)) => add_step(a, *i, unit),
        (a, b) => crate::expr::expr::sub(a, b),
    }
}

/// One pass of simplification over the tree `e`.
pub fn simplify<U: Fn(Primitive, u64, u64) -> u64>(e: Expr, unit: &U) -> (out: Expr)
    requires
        total(unit),
    ensures
        simplified(unit, e, out),
    decreases e,
{
    match e {
        Expr::Neg(i) => neg(simplify(*i, unit)),
        Expr::Add(l, r) => {
            let left = simplify(*l, unit);
            let right = simplify(*r, unit);
            add_step(left, right, unit)
        },
        Expr::Sub(l, r) => {
            let left = simplify(*l, unit);
            let right = simplify(*r, unit);
            sub_step(left, right, unit)
        },
        Expr::Mul(l, r) => {
            match (*l, *r) {
                (Expr::Const(x), Expr::Const(y)) => Expr::Const(x.mul(y, unit)),
                (Expr::Const(x), t) | (t, Expr::Const(x)) => {
                    if x.is_zero() {
                        con(ZERO)
                    } else if x.real_eq(ONE) {
                        simplify(t, unit)
                    } else if x.real_eq(MINUS_ONE) {
                        neg(simplify(t, unit))
                    } else {
                        crate::expr::expr::mul(Expr::Const(x), simplify(t, unit))
                    }
                },
                (left, Expr::Neg(rn)) => {
                    if left == *rn {
                        neg(powf(left, TWO))
                    } else {
                        crate::expr::expr::mul(left, Expr::Neg(rn))
                    }
                },
                (Expr::Neg(ln), right) => {
                    if *ln == right {
                        neg(powf(right, TWO))
                    } else {
                        crate::expr::expr::mul(Expr::Neg(ln), right)
                    }
                },
                (left, Expr::Pow(b, p)) => {
                    if left == *b {
                        pow(left, crate::expr::expr::add(con(ONE), *p))
                    } else {
                        crate::expr::expr::mul(left, Expr::Pow(b, p))
                    }
                },
                (Expr::Pow(a, p), right) => {
                    if *a == right {
                        pow(right, crate::expr::expr::add(con(ONE), *p))
                    } else {
                        crate::expr::expr::mul(right, Expr::Pow(a, p))
                    }
                },
                (a, b) => {
                    if a == b {
                        powf(a, TWO)
                    } else {
                        crate::expr::expr::mul(simplify(a, unit), simplify(b, unit))
                    }
                },
            }
        },
        Expr::Div(l, r) => {
            match (*l, *r) {
                (numerator, Expr::Const(x)) => {
                    if x.real_eq(ONE) {
                        simplify(numerator, unit)
                    } else if x.real_eq(ZERO) {
                        Expr::Const(Number::NaN)
                    } else {
                        div(simplify(numerator, unit), Expr::Const(x))
                    }
                },
                (a, b) => div(simplify(a, unit), simplify(b, unit)),
            }
        },
        Expr::Pow(l, r) => {
            match (*l, *r) {
                (Expr::Const(b), Expr::Const(p)) => Expr::Const(b.pow(p, unit)),
                (a, Expr::Const(b)) => {
                    if b.real_eq(ONE) {
                        simplify(a, unit)
                    } else {
                        pow(simplify(a, unit), Expr::Const(b))
                    }
                },
                (a, b) => pow(simplify(a, unit), simplify(b, unit)),
            }
        },
        other => other,
    }
}

} // verus!
