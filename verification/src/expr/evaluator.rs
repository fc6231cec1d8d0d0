//! Evaluation at a point: a value is put for one variable and the tree is
//! folded to a number.
//!
//! A variable other than the one that is given a value has no value: it
//! evaluates to the undefined number. A factorial of a value outside its
//! domain stops the evaluation with an error.
use vstd::prelude::*;
use crate::expr::expr::{Expr, Func, Node, Oper};
use crate::number::number::{
    arithmetic_is_single_valued, difference, factorial_of, functions_are_single_valued, image,
    power, product, quotient, sum, Number,
};
use crate::unit::{single_valued, total, Primitive};

verus! {

/// Why an evaluation stopped.
#[derive(Clone, Copy, Debug, PartialEq, Eq, Structural)]
pub enum EvalError {
    /// The factorial was asked of a real that is not a natural number up to
    /// the limit.
    Factorial,
}

/// The unit's operation behind a function of one real operand.
pub open spec fn primitive(func: Func) -> Primitive {
    match func {
        Func::Sin => Primitive::Sin,
        Func::Cos => Primitive::Cos,
        Func::Sinh => Primitive::Sinh,
        Func::Cosh => Primitive::Cosh,
        Func::Asin => Primitive::Asin,
        Func::Acos => Primitive::Acos,
        Func::Asinh => Primitive::Asinh,
        Func::Acosh => Primitive::Acosh,
        Func::Ln => Primitive::Ln,
        _ => Primitive::Exp,
    }
}

/// `out` is what `func` makes of the number `n`: the negated number, the
/// image under a function of one real operand, the factorial or the error
/// for a value outside its domain, and the undefined number for the gamma
/// function.
pub open spec fn applied<U: Fn(Primitive, u64, u64) -> u64>(
    unit: &U,
    func: Func,
    n: Number,
    out: Result<Number, EvalError>,
) -> bool {
    match func {
        Func::Neg => out == Ok::<Number, EvalError>(n.negated()),
        Func::Gamma => out == Ok::<Number, EvalError>(Number::NaN),
        Func::Factorial => if n.factorial_defined() {
            out matches Ok(r) && factorial_of(unit, n, r)
        } else {
            out == Err::<Number, EvalError>(EvalError::Factorial)
        },
        _ => out matches Ok(r) && image(unit, primitive(func), n, r),
    }
}

/// `r` is what `oper` makes of the numbers `a` and `b`.
pub open spec fn combined<U: Fn(Primitive, u64, u64) -> u64>(
    unit: &U,
    oper: Oper,
    a: Number,
    b: Number,
    r: Number,
) -> bool {
    match oper {
        Oper::Add => sum(unit, a, b, r),
        Oper::Sub => difference(unit, a, b, r),
        Oper::Mul => product(unit, a, b, r),
        Oper::Div => quotient(unit, a, b, r),
        Oper::Pow => power(unit, a, b, r),
    }
}

/// `out` is what `func` makes of the outcome `a`: an error stays, a number
/// is handed to `func`.
pub open spec fn lifted<U: Fn(Primitive, u64, u64) -> u64>(
    unit: &U,
    func: Func,
    a: Result<Number, EvalError>,
    out: Result<Number, EvalError>,
) -> bool {
    match a {
        Err(x) => out == Err::<Number, EvalError>(x),
        Ok(n) => applied(unit, func, n, out),
    }
}

/// `out` is what `oper` makes of the outcomes `a` and `b`: the first error
/// stays, two numbers are handed to `oper`.
pub open spec fn merged<U: Fn(Primitive, u64, u64) -> u64>(
    unit: &U,
    oper: Oper,
    a: Result<Number, EvalError>,
    b: Result<Number, EvalError>,
    out: Result<Number, EvalError>,
) -> bool {
    match a {
        Err(x) => out == Err::<Number, EvalError>(x),
        Ok(p) => match b {
            Err(y) => out == Err::<Number, EvalError>(y),
            Ok(q) => out matches Ok(r) && combined(unit, oper, p, q, r),
        },
    }
}

/// `out` is the value of the tree `e` where the variable `sym` has the value
/// `v`.
///
/// A constant is its number, `sym` is `v`, and any other variable is
/// undefined. An operation is applied to the values of its operands, the
/// left one taken first; the right operand of a node whose left operand
/// failed is not looked at.
pub open spec fn value<U: Fn(Primitive, u64, u64) -> u64>(
    unit: &U,
    e: Expr,
    sym: char,
    v: Number,
    out: Result<Number, EvalError>,
) -> bool
    decreases e,
{
    match e {
        Expr::Const(c) => out == Ok::<Number, EvalError>(c),
        Expr::Var(x) => out == Ok::<Number, EvalError>(
            if x == sym {
                v
            } else {
                Number::NaN
            },
        ),
        _ => if e.node() is Binary {
            exists|a: Result<Number, EvalError>, b: Result<Number, EvalError>|
                value(unit, e.first(), sym, v, a) && (a is Ok ==> value(
                    unit,
                    e.second(),
                    sym,
                    v,
                    b,
                )) && #[trigger] merged(unit, e.oper(), a, b, out)
        } else {
            exists|a: Result<Number, EvalError>|
                value(unit, e.first(), sym, v, a) && #[trigger] lifted(unit, e.func(), a, out)
        },
    }
}

/// With a unit that is a function, what a function or an operator makes of
/// its numbers is one outcome.
pub proof fn folding_is_single_valued<U: Fn(Primitive, u64, u64) -> u64>(
    unit: &U,
    func: Func,
    oper: Oper,
    a: Number,
    b: Number,
    out1: Result<Number, EvalError>,
    out2: Result<Number, EvalError>,
)
    requires
        single_valued(unit),
    ensures
        applied(unit, func, a, out1) && applied(unit, func, a, out2) ==> out1 == out2,
        out1 is Ok && out2 is Ok && combined(unit, oper, a, b, out1->Ok_0) && combined(
            unit,
            oper,
            a,
            b,
            out2->Ok_0,
        ) ==> out1 == out2,
{
    if out1 is Ok && out2 is Ok {
        functions_are_single_valued(unit, primitive(func), a, out1->Ok_0, out2->Ok_0);
        arithmetic_is_single_valued(unit, a, b, out1->Ok_0, out2->Ok_0);
    }
}

/// With a unit that is a function, evaluation is a function: a tree has one
/// value at a point.
pub proof fn value_is_single_valued<U: Fn(Primitive, u64, u64) -> u64>(
    unit: &U,
    e: Expr,
    sym: char,
    v: Number,
    out1: Result<Number, EvalError>,
    out2: Result<Number, EvalError>,
)
    requires
        single_valued(unit),
        value(unit, e, sym, v, out1),
        value(unit, e, sym, v, out2),
    ensures
        out1 == out2,
    decreases e,
{
    match e {
        Expr::Const(_) => {},
        Expr::Var(_) => {},
        _ => {
            if e.node() is Binary {
                let (a1, b1) = choose|a: Result<Number, EvalError>, b: Result<Number, EvalError>|
                    value(unit, e.first(), sym, v, a) && (a is Ok ==> value(
                        unit,
                        e.second(),
                        sym,
                        v,
                        b,
                    )) && #[trigger] merged(unit, e.oper(), a, b, out1);
                let (a2, b2) = choose|a: Result<Number, EvalError>, b: Result<Number, EvalError>|
                    value(unit, e.first(), sym, v, a) && (a is Ok ==> value(
                        unit,
                        e.second(),
                        sym,
                        v,
                        b,
                    )) && #[trigger] merged(unit, e.oper(), a, b, out2);
                value_is_single_valued(unit, e.first(), sym, v, a1, a2);
                if a1 is Ok {
                    value_is_single_valued(unit, e.second(), sym, v, b1, b2);
                    if b1 is Ok {
                        folding_is_single_valued(
                            unit,
                            e.func(),
                            e.oper(),
                            a1->Ok_0,
                            b1->Ok_0,
                            out1,
                            out2,
                        );
                    }
                }
            } else {
                let a1 = choose|a: Result<Number, EvalError>|
                    value(unit, e.first(), sym, v, a) && #[trigger] lifted(unit, e.func(), a, out1);
                let a2 = choose|a: Result<Number, EvalError>|
                    value(unit, e.first(), sym, v, a) && #[trigger] lifted(unit, e.func(), a, out2);
                value_is_single_valued(unit, e.first(), sym, v, a1, a2);
                if a1 is Ok {
                    folding_is_single_valued(
                        unit,
                        e.func(),
                        e.oper(),
                        a1->Ok_0,
                        a1->Ok_0,
                        out1,
                        out2,
                    );
                }
            }
        },
    }
}

/// Applies a function of one operand to a number.
pub fn apply_func<U: Fn(Primitive, u64, u64) -> u64>(func: Func, n: Number, unit: &U) -> (out:
    Result<Number, EvalError>)
    requires
        total(unit),
    ensures
        applied(unit, func, n, out),
{
    match func {
        Func::Neg => Ok(n.neg()),
        Func::Sin => Ok(n.sin(unit)),
        Func::Cos => Ok(n.cos(unit)),
        Func::Sinh => Ok(n.sinh(unit)),
        Func::Cosh => Ok(n.cosh(unit)),
        Func::Asin => Ok(n.asin(unit)),
        Func::Acos => Ok(n.acos(unit)),
        Func::Asinh => Ok(n.asinh(unit)),
        Func::Acosh => Ok(n.acosh(unit)),
        Func::Ln => Ok(n.ln(unit)),
        Func::Exp => Ok(n.exp(unit)),
        Func::Factorial => {
            if n.has_factorial() {
                Ok(n.factorial(unit))
            } else {
                Err(EvalError::Factorial)
            }
        },
        Func::Gamma => Ok(Number::NaN),
    }
}

/// Applies an operator of two operands to two numbers.
pub fn apply_oper<U: Fn(Primitive, u64, u64) -> u64>(
    oper: Oper,
    a: Number,
    b: Number,
    unit: &U,
) -> (r: Number)
    requires
        total(unit),
    ensures
        combined(unit, oper, a, b, r),
{
    match oper {
        Oper::Add => a.add(b, unit),
        Oper::Sub => a.sub(b, unit),
        Oper::Mul => a.mul(b, unit),
        Oper::Div => a.div(b, unit),
        Oper::Pow => a.pow(b, unit),
    }
}

/// The value of the tree `e` where the variable `sym` has the value `v`.
pub fn evaluate<U: Fn(Primitive, u64, u64) -> u64>(e: Expr, sym: char, v: Number, unit: &U) -> (out:
    Result<Number, EvalError>)
    requires
        total(unit),
    ensures
        value(unit, e, sym, v, out),
    decreases e,
{
    match e.into_node() {
        Node::Const(c) => Ok(c),
        Node::Var(x) => if x == sym {
            Ok(v)
        } else {
            Ok(Number::NaN)
        },
        Node::Unary(func, i) => {
            let a = evaluate(i, sym, v, unit);
            let out = match a {
                Err(x) => Err(x),
                Ok(n) => apply_func(func, n, unit),
            };
            assert(lifted(unit, e.func(), a, out));
            out
        },
        Node::Binary(oper, l, r) => {
            let a = evaluate(l, sym, v, unit);
            match a {
                Err(x) => {
                    assert(merged(unit, e.oper(), a, a, a));
                    Err(x)
                },
                Ok(p) => {
                    let b = evaluate(r, sym, v, unit);
                    let out = match b {
                        Err(y) => Err(y),
                        Ok(q) => Ok(apply_oper(oper, p, q, unit)),
                    };
                    assert(merged(unit, e.oper(), a, b, out));
                    out
                },
            }
        },
    }
}

} // verus!
