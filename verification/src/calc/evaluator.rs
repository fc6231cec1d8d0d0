//! Partial evaluation: a value is put for one variable, every operation
//! whose operands have become constants is folded, and what still holds
//! another variable stays a tree.
use vstd::prelude::*;
use crate::expr::evaluator::{
    applied, apply_func, apply_oper, combined, folding_is_single_valued, lifted, merged, value,
    EvalError,
};
use crate::expr::expr::{Expr, Func, Node, Oper};
use crate::number::number::Number;
use crate::unit::{single_valued, total, Primitive};

verus! {

/// No variable but `sym` occurs in the tree `e`.
pub open spec fn closed(e: Expr, sym: char) -> bool
    decreases e,
{
    match e {
        Expr::Const(_) => true,
        Expr::Var(x) => x == sym,
        _ => if e.node() is Binary {
            closed(e.first(), sym) && closed(e.second(), sym)
        } else {
            closed(e.first(), sym)
        },
    }
}

/// `out` is the outcome of `func` on the partly evaluated operand `a`: an
/// error stays, a constant is folded, and any other tree is put back under
/// `func`.
pub open spec fn folded_unary<U: Fn(Primitive, u64, u64) -> u64>(
    unit: &U,
    func: Func,
    a: Result<Expr, EvalError>,
    out: Result<Expr, EvalError>,
) -> bool {
    match a {
        Err(x) => out == Err::<Expr, EvalError>(x),
        Ok(i) => if i is Const {
            match out {
                Ok(t) => t is Const && applied(
                    unit,
                    func,
                    i.number(),
                    Ok::<Number, EvalError>(t.number()),
                ),
                Err(x) => applied(unit, func, i.number(), Err::<Number, EvalError>(x)),
            }
        } else {
            out == Ok::<Expr, EvalError>(Expr::unary(func, i))
        },
    }
}

/// `out` is the outcome of `oper` on the partly evaluated operands `a` and
/// `b`: the first error stays, two constants are folded, and any other pair
/// is put back under `oper`.
pub open spec fn folded_binary<U: Fn(Primitive, u64, u64) -> u64>(
    unit: &U,
    oper: Oper,
    a: Result<Expr, EvalError>,
    b: Result<Expr, EvalError>,
    out: Result<Expr, EvalError>,
) -> bool {
    match a {
        Err(x) => out == Err::<Expr, EvalError>(x),
        Ok(l) => match b {
            Err(y) => out == Err::<Expr, EvalError>(y),
            Ok(r) => if l is Const && r is Const {
                out matches Ok(t) && t is Const && combined(
                    unit,
                    oper,
                    l.number(),
                    r.number(),
                    t.number(),
                )
            } else {
                out == Ok::<Expr, EvalError>(Expr::binary(oper, l, r))
            },
        },
    }
}

/// `out` is the tree `e` partly evaluated where the variable `sym` has the
/// value `v`.
///
/// `sym` becomes the constant `v` and every other leaf stays. The operands
/// of an operation are evaluated first, the left one before the right; the
/// operation is folded if and only if all of them have become constants.
pub open spec fn residue<U: Fn(Primitive, u64, u64) -> u64>(
    unit: &U,
    e: Expr,
    sym: char,
    v: Number,
    out: Result<Expr, EvalError>,
) -> bool
    decreases e,
{
    match e {
        Expr::Const(_) => out == Ok::<Expr, EvalError>(e),
        Expr::Var(x) => out == Ok::<Expr, EvalError>(
            if x == sym {
                Expr::Const(v)
            } else {
                e
            },
        ),
        _ => if e.node() is Binary {
            exists|a: Result<Expr, EvalError>, b: Result<Expr, EvalError>|
                residue(unit, e.first(), sym, v, a) && (a is Ok ==> residue(
                    unit,
                    e.second(),
                    sym,
                    v,
                    b,
                )) && #[trigger] folded_binary(unit, e.oper(), a, b, out)
        } else {
            exists|a: Result<Expr, EvalError>|
                residue(unit, e.first(), sym, v, a) && #[trigger] folded_unary(
                    unit,
                    e.func(),
                    a,
                    out,
                )
        },
    }
}

/// A tree is closed in `sym` if and only if `sym` is the only variable that
/// can occur in it.
pub proof fn closed_holds_no_other_variable(e: Expr, sym: char)
    ensures
        closed(e, sym) <==> forall|c: char| e.mentions(c) ==> c == sym,
    decreases e,
{
    match e.node() {
        Node::Const(_) => {},
        Node::Var(x) => {
            assert(e.mentions(x));
        },
        Node::Unary(_, i) => {
            closed_holds_no_other_variable(i, sym);
            assert forall|c: char| e.mentions(c) == i.mentions(c) by {}
        },
        Node::Binary(_, l, r) => {
            closed_holds_no_other_variable(l, sym);
            closed_holds_no_other_variable(r, sym);
            assert forall|c: char| e.mentions(c) == (l.mentions(c) || r.mentions(c)) by {}
        },
    }
}

/// What a partial evaluation leaves no longer holds the variable that was
/// given a value, and holds no variable that the tree did not hold.
pub proof fn residue_forgets_the_variable<U: Fn(Primitive, u64, u64) -> u64>(
    unit: &U,
    e: Expr,
    sym: char,
    v: Number,
    t: Expr,
    c: char,
)
    requires
        residue(unit, e, sym, v, Ok::<Expr, EvalError>(t)),
    ensures
        !t.mentions(sym),
        t.mentions(c) ==> e.mentions(c),
    decreases e,
{
    let out = Ok::<Expr, EvalError>(t);
    match e {
        Expr::Const(_) => {},
        Expr::Var(_) => {},
        _ => {
            if e.node() is Binary {
                let (a, b) = choose|a: Result<Expr, EvalError>, b: Result<Expr, EvalError>|
                    residue(unit, e.first(), sym, v, a) && (a is Ok ==> residue(
                        unit,
                        e.second(),
                        sym,
                        v,
                        b,
                    )) && #[trigger] folded_binary(unit, e.oper(), a, b, out);
                residue_forgets_the_variable(unit, e.first(), sym, v, a->Ok_0, c);
                residue_forgets_the_variable(unit, e.second(), sym, v, b->Ok_0, c);
            } else {
                let a = choose|a: Result<Expr, EvalError>|
                    residue(unit, e.first(), sym, v, a) && #[trigger] folded_unary(
                        unit,
                        e.func(),
                        a,
                        out,
                    );
                residue_forgets_the_variable(unit, e.first(), sym, v, a->Ok_0, c);
            }
        },
    }
}

/// With a unit that is a function, partial evaluation is a function: a tree
/// has one residue at a point.
pub proof fn residue_is_single_valued<U: Fn(Primitive, u64, u64) -> u64>(
    unit: &U,
    e: Expr,
    sym: char,
    v: Number,
    out1: Result<Expr, EvalError>,
    out2: Result<Expr, EvalError>,
)
    requires
        single_valued(unit),
        residue(unit, e, sym, v, out1),
        residue(unit, e, sym, v, out2),
    ensures
        out1 == out2,
    decreases e,
{
    match e {
        Expr::Const(_) => {},
        Expr::Var(_) => {},
        _ => {
            if e.node() is Binary {
                let (a1, b1) = choose|a: Result<Expr, EvalError>, b: Result<Expr, EvalError>|
                    residue(unit, e.first(), sym, v, a) && (a is Ok ==> residue(
                        unit,
                        e.second(),
                        sym,
                        v,
                        b,
                    )) && #[trigger] folded_binary(unit, e.oper(), a, b, out1);
                let (a2, b2) = choose|a: Result<Expr, EvalError>, b: Result<Expr, EvalError>|
                    residue(unit, e.first(), sym, v, a) && (a is Ok ==> residue(
                        unit,
                        e.second(),
                        sym,
                        v,
                        b,
                    )) && #[trigger] folded_binary(unit, e.oper(), a, b, out2);
                residue_is_single_valued(unit, e.first(), sym, v, a1, a2);
                if a1 is Ok {
                    residue_is_single_valued(unit, e.second(), sym, v, b1, b2);
                    if b1 is Ok && a1->Ok_0 is Const && b1->Ok_0 is Const {
                        folding_is_single_valued(
                            unit,
                            e.func(),
                            e.oper(),
                            (a1->Ok_0).number(),
                            (b1->Ok_0).number(),
                            numeric(out1),
                            numeric(out2),
                        );
                    }
                }
            } else {
                let a1 = choose|a: Result<Expr, EvalError>|
                    residue(unit, e.first(), sym, v, a) && #[trigger] folded_unary(
                        unit,
                        e.func(),
                        a,
                        out1,
                    );
                let a2 = choose|a: Result<Expr, EvalError>|
                    residue(unit, e.first(), sym, v, a) && #[trigger] folded_unary(
                        unit,
                        e.func(),
                        a,
                        out2,
                    );
                residue_is_single_valued(unit, e.first(), sym, v, a1, a2);
                if a1 is Ok && a1->Ok_0 is Const {
                    folding_is_single_valued(
                        unit,
                        e.func(),
                        e.oper(),
                        (a1->Ok_0).number(),
                        (a1->Ok_0).number(),
                        numeric(out1),
                        numeric(out2),
                    );
                }
            }
        },
    }
}

/// The outcome of a partial evaluation read as that of an evaluation: the
/// number of the tree, or the error.
pub open spec fn numeric(out: Result<Expr, EvalError>) -> Result<Number, EvalError> {
    match out {
        Ok(t) => Ok(t.number()),
        Err(x) => Err(x),
    }
}

/// On a tree in which no variable but `sym` occurs, partial evaluation goes
/// all the way: what it gives is an error or a constant, and that constant
/// holds a value of the tree.
pub proof fn closed_residue_is_value<U: Fn(Primitive, u64, u64) -> u64>(
    unit: &U,
    e: Expr,
    sym: char,
    v: Number,
    out: Result<Expr, EvalError>,
)
    requires
        closed(e, sym),
        residue(unit, e, sym, v, out),
    ensures
        out matches Ok(t) ==> t is Const,
        value(unit, e, sym, v, numeric(out)),
    decreases e,
{
    match e {
        Expr::Const(_) => {},
        Expr::Var(_) => {},
        _ => {
            if e.node() is Binary {
                let (a, b) = choose|a: Result<Expr, EvalError>, b: Result<Expr, EvalError>|
                    residue(unit, e.first(), sym, v, a) && (a is Ok ==> residue(
                        unit,
                        e.second(),
                        sym,
                        v,
                        b,
                    )) && #[trigger] folded_binary(unit, e.oper(), a, b, out);
                closed_residue_is_value(unit, e.first(), sym, v, a);
                if a is Ok {
                    closed_residue_is_value(unit, e.second(), sym, v, b);
                }
                assert(merged(unit, e.oper(), numeric(a), numeric(b), numeric(out)));
            } else {
                let a = choose|a: Result<Expr, EvalError>|
                    residue(unit, e.first(), sym, v, a) && #[trigger] folded_unary(
                        unit,
                        e.func(),
                        a,
                        out,
                    );
                closed_residue_is_value(unit, e.first(), sym, v, a);
                assert(lifted(unit, e.func(), numeric(a), numeric(out)));
            }
        },
    }
}

/// The tree `e` partly evaluated where the variable `sym` has the value `v`.
/// A tree in which no other variable occurs comes out as a constant.
pub fn evaluate<U: Fn(Primitive, u64, u64) -> u64>(e: Expr, sym: char, v: Number, unit: &U) -> (out:
    Result<Expr, EvalError>)
    requires
        total(unit),
    ensures
        residue(unit, e, sym, v, out),
        closed(e, sym) ==> (out matches Ok(t) ==> t is Const),
    decreases e,
{
    match e.into_node() {
        Node::Const(c) => Ok(Expr::Const(c)),
        Node::Var(x) => if x == sym {
            Ok(Expr::Const(v))
        } else {
            Ok(Expr::Var(x))
        },
        Node::Unary(func, i) => {
            let a = evaluate(i, sym, v, unit);
            let out = match a {
                Err(x) => Err(x),
                Ok(Expr::Const(n)) => match apply_func(func, n, unit) {
                    Ok(m) => Ok(Expr::Const(m)),
                    Err(x) => Err(x),
                },
                Ok(t) => Ok(Expr::apply(func, t)),
            };
            assert(folded_unary(unit, e.func(), a, out));
            out
        },
        Node::Binary(oper, l, r) => {
            let a = evaluate(l, sym, v, unit);
            match a {
                Err(x) => {
                    assert(folded_binary(unit, e.oper(), a, a, a));
                    Err(x)
                },
                Ok(p) => {
                    let b = evaluate(r, sym, v, unit);
                    let out = match b {
                        Err(y) => Err(y),
                        Ok(q) => match (p, q) {
                            (Expr::Const(x), Expr::Const(y)) => Ok(
                                Expr::Const(apply_oper(oper, x, y, unit)),
                            ),
                            (p, q) => Ok(Expr::combine(oper, p, q)),
                        },
                    };
                    assert(folded_binary(unit, e.oper(), a, b, out));
                    out
                },
            }
        },
    }
}

} // verus!
