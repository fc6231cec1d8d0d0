//! Integration, as far as it goes: the antiderivative of a constant.
use vstd::prelude::*;
use crate::binary64::ZERO;
use crate::expr::expr::Expr;
use crate::number::number::Number;

verus! {

/// The antiderivative of `e` in the variable `sym`: a constant `c` gives
/// `c * sym + C`, with the variable `C` for the constant of integration.
/// Nothing else is integrated: any other tree gives the constant zero.
pub open spec fn antiderivative(e: Expr, sym: char) -> Expr {
    match e {
        Expr::Const(c) => Expr::Add(
            Box::new(Expr::Mul(Box::new(Expr::Const(c)), Box::new(Expr::Var(sym)))),
            Box::new(Expr::Var('C')),
        ),
        _ => Expr::Const(Number::Real(ZERO)),
    }
}

/// The antiderivative of `e` in the variable `sym`.
pub fn integrate(e: Expr, sym: char) -> (r: Expr)
    ensures
        r == antiderivative(e, sym),
{
    match e {
        Expr::Const(c) => crate::expr::expr::add(
            crate::expr::expr::mul(Expr::Const(c), Expr::Var(sym)),
            Expr::Var('C'),
        ),
        _ => Expr::Const(Number::Real(ZERO)),
    }
}

} // verus!
