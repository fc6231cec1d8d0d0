//! Symbolic differentiation in one variable, every other variable held
//! constant.
//!
//! The rules are those of sums, products, quotients, the sine, the cosine,
//! the exponential, and powers with a constant exponent. A tree of any other
//! shape has the derivative zero: the negation, the hyperbolic and inverse
//! functions, the logarithm, the factorial, the gamma function and a power
//! with an exponent that is not a constant are not differentiated.
use vstd::prelude::*;
use crate::binary64::{ONE, TWO, ZERO};
use crate::expr::expr::{con, cos, div, exp, neg, pow, sin, var, varf, Expr, Oper};
use crate::number::number::Number;
use crate::unit::{apply, single_valued, total, yields, Primitive};

verus! {

/// The constant zero.
pub open spec fn nothing() -> Expr {
    Expr::Const(Number::Real(ZERO))
}

/// The constant one.
pub open spec fn unity() -> Expr {
    Expr::Const(Number::Real(ONE))
}

/// The variable `sym`.
pub open spec fn variable(sym: char) -> Expr {
    Expr::Var(sym)
}

/// The product rule: `f * dg + g * df`.
pub open spec fn product_rule(f: Expr, g: Expr, df: Expr, dg: Expr) -> Expr {
    Expr::Add(
        Box::new(Expr::Mul(Box::new(f), Box::new(dg))),
        Box::new(Expr::Mul(Box::new(g), Box::new(df))),
    )
}

/// The quotient rule: `(g * df - dg * f) / g^2`.
pub open spec fn quotient_rule(f: Expr, g: Expr, df: Expr, dg: Expr) -> Expr {
    Expr::Div(
        Box::new(
            Expr::Sub(
                Box::new(Expr::Mul(Box::new(g), Box::new(df))),
                Box::new(Expr::Mul(Box::new(dg), Box::new(f))),
            ),
        ),
        Box::new(Expr::Pow(Box::new(g), Box::new(Expr::Const(Number::Real(TWO))))),
    )
}

/// The chain rule on a sine: `df * cos(f)`.
pub open spec fn sine_rule(f: Expr, df: Expr) -> Expr {
    Expr::Mul(Box::new(df), Box::new(Expr::Cos(Box::new(f))))
}

/// The chain rule on a cosine: `-(df) * sin(f)`.
pub open spec fn cosine_rule(f: Expr, df: Expr) -> Expr {
    Expr::Mul(Box::new(Expr::Neg(Box::new(df))), Box::new(Expr::Sin(Box::new(f))))
}

/// The chain rule on an exponential: `df * e^f`.
pub open spec fn exponential_rule(f: Expr, df: Expr) -> Expr {
    Expr::Mul(Box::new(df), Box::new(Expr::Exp(Box::new(f))))
}

/// The power rule on the variable itself: `n * sym^m`, where `m` is the
/// exponent less one.
pub open spec fn monomial_rule(sym: char, n: Number, m: u64) -> Expr {
    Expr::Mul(
        Box::new(Expr::Const(n)),
        Box::new(
            Expr::Pow(Box::new(Expr::Var(sym)), Box::new(Expr::Const(Number::Real(m)))),
        ),
    )
}

/// The power rule with the chain rule: `(n * f^m) * df`, where `m` is the
/// exponent less one.
pub open spec fn power_rule(f: Expr, n: Number, m: u64, df: Expr) -> Expr {
    Expr::Mul(
        Box::new(
            Expr::Mul(
                Box::new(Expr::Const(n)),
                Box::new(Expr::Pow(Box::new(f), Box::new(Expr::Const(Number::Real(m))))),
            ),
        ),
        Box::new(df),
    )
}

/// `m` is a rounding of the real part of `n` less one.
pub open spec fn lowered<U: Fn(Primitive, u64, u64) -> u64>(unit: &U, n: Number, m: u64) -> bool {
    yields(unit, Primitive::Sub, n.re(), ONE, m)
}

/// `out` is the derivative of the tree `e` in the variable `sym`.
///
/// - A constant and any variable but `sym` give zero; `sym` gives one.
/// - A sum or a difference gives that of the derivatives.
/// - A constant times a variable, in either order, gives the constant if
///   the variable is `sym` and zero if not; any other product follows the
///   product rule.
/// - A quotient follows the quotient rule.
/// - The sine and the cosine of `sym` give the cosine and the negated sine;
///   of another variable, zero; of any other tree, the chain rule.
/// - A power with a constant exponent `n`: of `sym` it gives one for `n = 1`,
///   `2 * sym` for `n = 2` and else `n * sym^(n-1)`; of any other tree `f` it
///   gives `(n * f^(n-1)) * f'`. The exponent less one is taken by the unit,
///   from the real part of `n`. A power with any other exponent gives zero.
/// - The exponential of a constant gives zero, the exponential of `sym`
///   gives itself, and that of any other tree `f` gives `f' * e^f`.
/// - Every other tree gives zero.
pub open spec fn derivative<U: Fn(Primitive, u64, u64) -> u64>(
    unit: &U,
    e: Expr,
    sym: char,
    out: Expr,
) -> bool
    decreases e,
{
    match e {
        Expr::Const(_) => out == nothing(),
        Expr::Var(s) => out == if s == sym {
            unity()
        } else {
            nothing()
        },
        Expr::Add(_, _) | Expr::Sub(_, _) => exists|dl: Expr, dr: Expr|
            derivative(unit, e.first(), sym, dl) && derivative(unit, e.second(), sym, dr) && out
                == #[trigger] Expr::binary(e.oper(), dl, dr),
        Expr::Mul(l, r) => if *l is Const && *r is Var {
            out == if *r == variable(sym) {
                *l
            } else {
                nothing()
            }
        } else if *l is Var && *r is Const {
            out == if *l == variable(sym) {
                *r
            } else {
                nothing()
            }
        } else {
            exists|dl: Expr, dr: Expr|
                derivative(unit, e.first(), sym, dl) && derivative(unit, e.second(), sym, dr)
                    && out == #[trigger] product_rule(e.first(), e.second(), dl, dr)
        },
        Expr::Div(_, _) => exists|dl: Expr, dr: Expr|
            derivative(unit, e.first(), sym, dl) && derivative(unit, e.second(), sym, dr) && out
                == #[trigger] quotient_rule(e.first(), e.second(), dl, dr),
        Expr::Sin(i) => if *i is Var {
            out == if *i == variable(sym) {
                Expr::Cos(i)
            } else {
                nothing()
            }
        } else {
            exists|d: Expr|
                derivative(unit, e.first(), sym, d) && out == #[trigger] sine_rule(e.first(), d)
        },
        Expr::Cos(i) => if *i is Var {
            out == if *i == variable(sym) {
                Expr::Neg(Box::new(Expr::Sin(i)))
            } else {
                nothing()
            }
        } else {
            exists|d: Expr|
                derivative(unit, e.first(), sym, d) && out == #[trigger] cosine_rule(e.first(), d)
        },
        Expr::Pow(l, r) => if !(*r is Const) {
            out == nothing()
        } else if *l == variable(sym) {
            if (*r).number().real_equals(ONE) {
                out == unity()
            } else if (*r).number().real_equals(TWO) {
                out == Expr::Mul(Box::new(Expr::Const(Number::Real(TWO))), l)
            } else {
                exists|m: u64|
                    lowered(unit, e.second().number(), m) && out == #[trigger] monomial_rule(
                        sym,
                        e.second().number(),
                        m,
                    )
            }
        } else {
            exists|m: u64, d: Expr|
                lowered(unit, e.second().number(), m) && derivative(unit, e.first(), sym, d)
                    && out == #[trigger] power_rule(e.first(), e.second().number(), m, d)
        },
        Expr::Exp(i) => if *i is Const {
            out == nothing()
        } else if *i == variable(sym) {
            out == e
        } else {
            exists|d: Expr|
                derivative(unit, e.first(), sym, d) && out == #[trigger] exponential_rule(
                    e.first(),
                    d,
                )
        },
        _ => out == nothing(),
    }
}

/// With a unit that is a function, differentiation is a function: a tree has
/// one derivative in a variable.
pub proof fn derivative_is_single_valued<U: Fn(Primitive, u64, u64) -> u64>(
    unit: &U,
    e: Expr,
    sym: char,
    out1: Expr,
    out2: Expr,
)
    requires
        single_valued(unit),
        derivative(unit, e, sym, out1),
        derivative(unit, e, sym, out2),
    ensures
        out1 == out2,
    decreases e,
{
    match e {
        Expr::Add(_, _) | Expr::Sub(_, _) => {
            let (l1, r1) = choose|dl: Expr, dr: Expr|
                derivative(unit, e.first(), sym, dl) && derivative(unit, e.second(), sym, dr)
                    && out1 == #[trigger] Expr::binary(e.oper(), dl, dr);
            let (l2, r2) = choose|dl: Expr, dr: Expr|
                derivative(unit, e.first(), sym, dl) && derivative(unit, e.second(), sym, dr)
                    && out2 == #[trigger] Expr::binary(e.oper(), dl, dr);
            derivative_is_single_valued(unit, e.first(), sym, l1, l2);
            derivative_is_single_valued(unit, e.second(), sym, r1, r2);
        },
        Expr::Mul(l, r) => {
            if !(*l is Const && *r is Var) && !(*l is Var && *r is Const) {
                let (l1, r1) = choose|dl: Expr, dr: Expr|
                    derivative(unit, e.first(), sym, dl) && derivative(unit, e.second(), sym, dr)
                        && out1 == #[trigger] product_rule(e.first(), e.second(), dl, dr);
                let (l2, r2) = choose|dl: Expr, dr: Expr|
                    derivative(unit, e.first(), sym, dl) && derivative(unit, e.second(), sym, dr)
                        && out2 == #[trigger] product_rule(e.first(), e.second(), dl, dr);
                derivative_is_single_valued(unit, e.first(), sym, l1, l2);
                derivative_is_single_valued(unit, e.second(), sym, r1, r2);
            }
        },
        Expr::Div(_, _) => {
            let (l1, r1) = choose|dl: Expr, dr: Expr|
                derivative(unit, e.first(), sym, dl) && derivative(unit, e.second(), sym, dr)
                    && out1 == #[trigger] quotient_rule(e.first(), e.second(), dl, dr);
            let (l2, r2) = choose|dl: Expr, dr: Expr|
                derivative(unit, e.first(), sym, dl) && derivative(unit, e.second(), sym, dr)
                    && out2 == #[trigger] quotient_rule(e.first(), e.second(), dl, dr);
            derivative_is_single_valued(unit, e.first(), sym, l1, l2);
            derivative_is_single_valued(unit, e.second(), sym, r1, r2);
        },
        Expr::Sin(i) => {
            if !(*i is Var) {
                let d1 = choose|d: Expr|
                    derivative(unit, e.first(), sym, d) && out1 == #[trigger] sine_rule(
                        e.first(),
                        d,
                    );
                let d2 = choose|d: Expr|
                    derivative(unit, e.first(), sym, d) && out2 == #[trigger] sine_rule(
                        e.first(),
                        d,
                    );
                derivative_is_single_valued(unit, e.first(), sym, d1, d2);
            }
        },
        Expr::Cos(i) => {
            if !(*i is Var) {
                let d1 = choose|d: Expr|
                    derivative(unit, e.first(), sym, d) && out1 == #[trigger] cosine_rule(
                        e.first(),
                        d,
                    );
                let d2 = choose|d: Expr|
                    derivative(unit, e.first(), sym, d) && out2 == #[trigger] cosine_rule(
                        e.first(),
                        d,
                    );
                derivative_is_single_valued(unit, e.first(), sym, d1, d2);
            }
        },
        Expr::Pow(l, r) => {
            if *r is Const && *l != variable(sym) {
                let (m1, d1) = choose|m: u64, d: Expr|
                    lowered(unit, e.second().number(), m) && derivative(unit, e.first(), sym, d)
                        && out1 == #[trigger] power_rule(e.first(), e.second().number(), m, d);
                let (m2, d2) = choose|m: u64, d: Expr|
                    lowered(unit, e.second().number(), m) && derivative(unit, e.first(), sym, d)
                        && out2 == #[trigger] power_rule(e.first(), e.second().number(), m, d);
                derivative_is_single_valued(unit, e.first(), sym, d1, d2);
            } else if *r is Const {
                let m1 = choose|m: u64|
                    lowered(unit, e.second().number(), m) && out1 == #[trigger] monomial_rule(
                        sym,
                        e.second().number(),
                        m,
                    );
                let m2 = choose|m: u64|
                    lowered(unit, e.second().number(), m) && out2 == #[trigger] monomial_rule(
                        sym,
                        e.second().number(),
                        m,
                    );
            }
        },
        Expr::Exp(i) => {
            if !(*i is Const) && *i != variable(sym) {
                let d1 = choose|d: Expr|
                    derivative(unit, e.first(), sym, d) && out1 == #[trigger] exponential_rule(
                        e.first(),
                        d,
                    );
                let d2 = choose|d: Expr|
                    derivative(unit, e.first(), sym, d) && out2 == #[trigger] exponential_rule(
                        e.first(),
                        d,
                    );
                derivative_is_single_valued(unit, e.first(), sym, d1, d2);
            }
        },
        _ => {},
    }
}

/// A derivative holds no variable that the tree did not hold.
pub proof fn derivative_adds_no_variable<U: Fn(Primitive, u64, u64) -> u64>(
    unit: &U,
    e: Expr,
    sym: char,
    out: Expr,
    c: char,
)
    requires
        derivative(unit, e, sym, out),
        out.mentions(c),
    ensures
        e.mentions(c),
    decreases e,
{
    reveal_with_fuel(Expr::mentions, 4);
    match e {
        Expr::Add(_, _) | Expr::Sub(_, _) => {
            let (dl, dr) = choose|dl: Expr, dr: Expr|
                derivative(unit, e.first(), sym, dl) && derivative(unit, e.second(), sym, dr)
                    && out == #[trigger] Expr::binary(e.oper(), dl, dr);
            if dl.mentions(c) {
                derivative_adds_no_variable(unit, e.first(), sym, dl, c);
            }
            if dr.mentions(c) {
                derivative_adds_no_variable(unit, e.second(), sym, dr, c);
            }
        },
        Expr::Mul(l, r) => {
            if !(*l is Const && *r is Var) && !(*l is Var && *r is Const) {
                let (dl, dr) = choose|dl: Expr, dr: Expr|
                    derivative(unit, e.first(), sym, dl) && derivative(unit, e.second(), sym, dr)
                        && out == #[trigger] product_rule(e.first(), e.second(), dl, dr);
                if dl.mentions(c) {
                    derivative_adds_no_variable(unit, e.first(), sym, dl, c);
                }
                if dr.mentions(c) {
                    derivative_adds_no_variable(unit, e.second(), sym, dr, c);
                }
            }
        },
        Expr::Div(_, _) => {
            let (dl, dr) = choose|dl: Expr, dr: Expr|
                derivative(unit, e.first(), sym, dl) && derivative(unit, e.second(), sym, dr)
                    && out == #[trigger] quotient_rule(e.first(), e.second(), dl, dr);
            if dl.mentions(c) {
                derivative_adds_no_variable(unit, e.first(), sym, dl, c);
            }
            if dr.mentions(c) {
                derivative_adds_no_variable(unit, e.second(), sym, dr, c);
            }
        },
        Expr::Sin(i) => {
            if !(*i is Var) {
                let d = choose|d: Expr|
                    derivative(unit, e.first(), sym, d) && out == #[trigger] sine_rule(
                        e.first(),
                        d,
                    );
                if d.mentions(c) {
                    derivative_adds_no_variable(unit, e.first(), sym, d, c);
                }
            }
        },
        Expr::Cos(i) => {
            if !(*i is Var) {
                let d = choose|d: Expr|
                    derivative(unit, e.first(), sym, d) && out == #[trigger] cosine_rule(
                        e.first(),
                        d,
                    );
                if d.mentions(c) {
                    derivative_adds_no_variable(unit, e.first(), sym, d, c);
                }
            }
        },
        Expr::Pow(l, r) => {
            if *r is Const && *l != variable(sym) {
                let (m, d) = choose|m: u64, d: Expr|
                    lowered(unit, e.second().number(), m) && derivative(unit, e.first(), sym, d)
                        && out == #[trigger] power_rule(e.first(), e.second().number(), m, d);
                if d.mentions(c) {
                    derivative_adds_no_variable(unit, e.first(), sym, d, c);
                }
            }
        },
        Expr::Exp(i) => {
            if !(*i is Const) && *i != variable(sym) {
                let d = choose|d: Expr|
                    derivative(unit, e.first(), sym, d) && out == #[trigger] exponential_rule(
                        e.first(),
                        d,
                    );
                if d.mentions(c) {
                    derivative_adds_no_variable(unit, e.first(), sym, d, c);
                }
            }
        },
        _ => {},
    }
}

/// The derivative of the tree `e` in the variable `sym`.
pub fn derive<U: Fn(Primitive, u64, u64) -> u64>(e: Expr, sym: char, unit: &U) -> (out: Expr)
    requires
        total(unit),
    ensures
        derivative(unit, e, sym, out),
    decreases e,
{
    match e {
        Expr::Const(_) => con(ZERO),
        Expr::Var(s) => if s == sym {
            con(ONE)
        } else {
            con(ZERO)
        },
        Expr::Add(l, r) => {
            let dl = derive(*l, sym, unit);
            let dr = derive(*r, sym, unit);
            assert(Expr::Add(Box::new(dl), Box::new(dr)) == Expr::binary(Oper::Add, dl, dr));
            crate::expr::expr::add(dl, dr)
        },
        Expr::Sub(l, r) => {
            let dl = derive(*l, sym, unit);
            let dr = derive(*r, sym, unit);
            assert(Expr::Sub(Box::new(dl), Box::new(dr)) == Expr::binary(Oper::Sub, dl, dr));
            crate::expr::expr::sub(dl, dr)
        },
        Expr::Mul(l, r) => {
            match (*l, *r) {
                (Expr::Const(x), Expr::Var(s)) => {
                    if s == sym {
                        Expr::Const(x)
                    } else {
                        con(ZERO)
                    }
                },
                (Expr::Var(s), Expr::Const(x)) => {
                    if s == sym {
                        Expr::Const(x)
                    } else {
                        con(ZERO)
                    }
                },
                (a, b) => {
                    let a1 = a.clone();
                    let b1 = b.clone();
                    let db = derive(b, sym, unit);
                    let da = derive(a1, sym, unit);
                    assert(product_rule(a, b1, da, db) == product_rule(
                        e.first(),
                        e.second(),
                        da,
                        db,
                    ));
                    crate::expr::expr::add(
                        crate::expr::expr::mul(a, db),
                        crate::expr::expr::mul(b1, da),
                    )
                },
            }
        },
        Expr::Div(l, r) => {
            let f = *l;
            let g = *r;
            let f2 = f.clone();
            let g2 = g.clone();
            let g3 = g.clone();
            let fp = derive(f, sym, unit);
            let gp = derive(g, sym, unit);
            assert(quotient_rule(f2, g2, fp, gp) == quotient_rule(e.first(), e.second(), fp, gp));
            div(
                crate::expr::expr::sub(
                    crate::expr::expr::mul(g2, fp),
                    crate::expr::expr::mul(gp, f2),
                ),
                pow(g3, con(TWO)),
            )
        },
        Expr::Sin(i) => {
            match *i {
                Expr::Var(c) => {
                    if c == sym {
                        cos(var(c))
                    } else {
                        con(ZERO)
                    }
                },
                f => {
                    let f2 = f.clone();
                    let d = derive(f, sym, unit);
                    assert(sine_rule(f2, d) == sine_rule(e.first(), d));
                    crate::expr::expr::mul(d, cos(f2))
                },
            }
        },
        Expr::Cos(i) => {
            match *i {
                Expr::Var(c) => {
                    if c == sym {
                        neg(sin(var(c)))
                    } else {
                        con(ZERO)
                    }
                },
                f => {
                    let f2 = f.clone();
                    let d = derive(f, sym, unit);
                    assert(cosine_rule(f2, d) == cosine_rule(e.first(), d));
                    crate::expr::expr::mul(neg(d), sin(f2))
                },
            }
        },
        Expr::Pow(l, r) => {
            match (*l, *r) {
                (Expr::Var(c), Expr::Const(n)) => {
                    if c != sym {
                        let m = apply(unit, Primitive::Sub, n.real_part(), ONE);
                        let d = derive(Expr::Var(c), sym, unit);
                        assert(power_rule(Expr::Var(c), n, m, d) == power_rule(
                            e.first(),
                            e.second().number(),
                            m,
                            d,
                        ));
                        crate::expr::expr::mul(
                            crate::expr::expr::mul(Expr::Const(n), pow(Expr::Var(c), con(m))),
                            d,
                        )
                    } else if n.real_eq(ONE) {
                        con(ONE)
                    } else if n.real_eq(TWO) {
                        varf(sym, TWO)
                    } else {
                        let m = apply(unit, Primitive::Sub, n.real_part(), ONE);
                        assert(monomial_rule(sym, n, m) == monomial_rule(
                            sym,
                            e.second().number(),
                            m,
                        ));
                        crate::expr::expr::mul(Expr::Const(n), pow(var(sym), con(m)))
                    }
                },
                (f, Expr::Const(n)) => {
                    let f2 = f.clone();
                    let d = derive(f, sym, unit);
                    let m = apply(unit, Primitive::Sub, n.real_part(), ONE);
                    assert(power_rule(f2, n, m, d) == power_rule(
                        e.first(),
                        e.second().number(),
                        m,
                        d,
                    ));
                    crate::expr::expr::mul(
                        crate::expr::expr::mul(Expr::Const(n), pow(f2, con(m))),
                        d,
                    )
                },
                _ => con(ZERO),
            }
        },
        Expr::Exp(i) => {
            match *i {
                Expr::Const(_) => con(ZERO),
                f => {
                    let is_symbol = match &f {
                        Expr::Var(c) => *c == sym,
                        _ => false,
                    };
                    if is_symbol {
                        exp(var(sym))
                    } else {
                        let f2 = f.clone();
                        let d = derive(f, sym, unit);
                        assert(exponential_rule(f2, d) == exponential_rule(e.first(), d));
                        crate::expr::expr::mul(d, exp(f2))
                    }
                },
            }
        },
        _ => con(ZERO),
    }
}

} // verus!
