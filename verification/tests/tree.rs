use mathy::calc::integrator::integrate;
use mathy::expr::evaluator::{apply_func, apply_oper, evaluate, EvalError};
use mathy::expr::expr::{
    acos, acosh, asin, asinh, base10, base2, con, cos, cosh, cube, div, e, exp, factorial, gamma,
    ln, log, nan, neg, one, pack, pi, pow, powf, sin, sinh, sqrt, square, tan, two, unpack, var,
    varf, zero, Expr, Func, Node, Oper,
};
use mathy::expr::simplify::simplify;
use mathy::number::number::{complex, real_number, Number};
use mathy::unit::Primitive;

fn bits(x: f64) -> u64 {
    x.to_bits()
}

fn machine(op: Primitive, a: u64, b: u64) -> u64 {
    let x = f64::from_bits(a);
    let y = f64::from_bits(b);
    let r = match op {
        Primitive::Add => x + y,
        Primitive::Sub => x - y,
        Primitive::Mul => x * y,
        Primitive::Div => x / y,
        Primitive::Pow => x.powf(y),
        Primitive::Atan2 => x.atan2(y),
        Primitive::Sin => x.sin(),
        Primitive::Cos => x.cos(),
        Primitive::Tan => x.tan(),
        Primitive::Sinh => x.sinh(),
        Primitive::Cosh => x.cosh(),
        Primitive::Tanh => x.tanh(),
        Primitive::Asin => x.asin(),
        Primitive::Acos => x.acos(),
        Primitive::Atan => x.atan(),
        Primitive::Asinh => x.asinh(),
        Primitive::Acosh => x.acosh(),
        Primitive::Atanh => x.atanh(),
        Primitive::Exp => x.exp(),
        Primitive::Ln => x.ln(),
    };
    r.to_bits()
}

fn show(b: u64) -> String {
    format!("{}", f64::from_bits(b))
}

fn re(x: f64) -> Number {
    real_number(bits(x))
}

fn num(x: f64) -> Expr {
    con(bits(x))
}

fn plus(l: Expr, r: Expr) -> Expr {
    mathy::expr::expr::add(l, r)
}

fn minus(l: Expr, r: Expr) -> Expr {
    mathy::expr::expr::sub(l, r)
}

fn times(l: Expr, r: Expr) -> Expr {
    mathy::expr::expr::mul(l, r)
}

fn x() -> Expr {
    var('x')
}

fn y() -> Expr {
    var('y')
}

#[test]
fn derive_square_test() {
    let square = powf(var('x'), bits(2.0));
    let deriv = times(num(2.0), var('x'));
    let square_d = simplify(mathy::calc::deriver::derive(square, 'x', &machine), &machine);

    assert_eq!(deriv, square_d);
}

#[test]
fn derive_tangent_test() {
    let f1 = tan(var('x'));
    let derivative = mathy::calc::deriver::derive(f1, 'x', &machine);
    let simple_deriv = simplify(derivative, &machine);

    let expected = div(num(1.0), square(cos(var('x'))));
    assert_eq!(simple_deriv, expected, "Uhoh division rule messed up?");
}

#[test]
fn derive_exp_funcs() {
    let f1 = exp(powf(var('x'), bits(2.0)));
    let f2 = times(varf('x', bits(2.0)), exp(powf(var('x'), bits(2.0))));
    let f1d = mathy::calc::deriver::derive(f1, 'x', &machine);

    assert_eq!(f1d, f2);
}

#[test]
fn evaluate_test() {
    let expr = plus(num(3.0), var('x'));
    let value = evaluate(expr, 'x', re(7.0), &machine);
    assert_eq!(Ok(re(10.0)), value);
}

#[test]
fn evaluator_evaluate_test() {
    let expr = plus(num(3.0), var('x'));
    let value = mathy::calc::evaluator::evaluate(expr, 'x', re(7.0), &machine);
    assert_eq!(Ok(num(10.0)), value);
}

#[test]
fn square_test() {
    let f = powf(var('x'), bits(2.0));
    let v = evaluate(f, 'x', re(7.0), &machine);
    assert_eq!(Ok(re(49.0)), v);
}

#[test]
fn test_complex_sqrt() {
    let expr = sqrt(var('x'));
    let value = evaluate(expr, 'x', re(-1.0), &machine);
    assert_eq!(value, Ok(complex(bits(0.0), bits(1.0))));

    let expr2 = sqrt(var('x'));
    let value2 = evaluate(expr2, 'x', re(-3.0), &machine);
    assert_eq!(value2, Ok(complex(bits(0.0), bits(1.7320508075688772))));

    let expr3 = sqrt(var('x'));
    let value3 = evaluate(expr3, 'x', re(-4.0), &machine);
    assert_eq!(value3, Ok(complex(bits(0.0), bits(2.0))));
}

#[test]
fn has_var_test() {
    let expr = varf('x', bits(3.0));
    let expr2 = varf('y', bits(3.0));
    let expr3 = num(3.0);
    assert_eq!(true, expr.has_var('x'));
    assert_eq!(false, expr2.has_var('x'));
    assert_eq!(false, expr3.has_var('x'));
}

#[test]
fn expr_has_var_test() {
    let expr = varf('x', bits(3.0));
    let expr2 = varf('y', bits(3.0));
    let expr3 = num(3.0);
    assert_eq!(true, expr.has_var('x'));
    assert_eq!(false, expr2.has_var('x'));
    assert_eq!(false, expr3.has_var('x'));
}

#[test]
fn is_equal_test() {
    let f1 = plus(num(2.0), num(2.0));
    let f2 = plus(num(2.0), num(2.0));
    assert_eq!(f1, f2);

    let s1 = sin(var('x'));
    let s2 = sin(var('x'));
    assert_eq!(s1, s2);
}

#[test]
fn test_add_simplify() {
    let tests = vec![
        plus(zero(), num(1.0)),
        plus(num(1.0), zero()),
        plus(zero(), zero()),
        plus(num(1.0), num(1.0)),
    ];

    let answers = vec![
        Expr::Const(Number::Real(bits(1.0))),
        Expr::Const(Number::Real(bits(1.0))),
        Expr::Const(Number::Real(bits(0.0))),
        num(2.0),
    ];

    for (l, r) in tests.iter().zip(answers.iter()) {
        println!("Left: {:?}", l);
        println!("Right: {:?}", r);
        println!("Simplified left: {:?}", simplify(l.clone(), &machine));
        assert_eq!(simplify(l.clone(), &machine), r.clone());
    }
}

#[test]
fn simplify_test_add_simplify() {
    let tests = vec![
        plus(zero(), num(1.0)),
        plus(num(1.0), zero()),
        plus(zero(), zero()),
        plus(num(1.0), num(1.0)),
    ];

    let answers = vec![num(1.0), num(1.0), num(0.0), num(2.0)];

    for (l, r) in tests.iter().zip(answers.iter()) {
        assert_eq!(simplify(l.clone(), &machine), r.clone());
    }
}

#[test]
fn structure_decides_equality() {
    assert_ne!(plus(num(2.0), x()), plus(x(), num(2.0)));
    assert_ne!(sin(x()), cos(x()));
    assert_ne!(x(), y());
    assert_ne!(num(0.0), num(-0.0));
    assert_eq!(minus(x(), num(1.5)), minus(x(), num(1.5)));
    assert_ne!(times(x(), y()), div(x(), y()));
    assert_ne!(sinh(x()), asinh(x()));
    assert_ne!(factorial(x()), gamma(x()));
}

#[test]
fn a_copy_equals_its_tree() {
    let tree = div(plus(sin(x()), pow(y(), num(2.0))), neg(factorial(ln(cosh(x())))));
    assert_eq!(tree.clone(), tree);
    assert_eq!(*tree.pack(), tree);
    assert_eq!(*pack(tree.clone()), tree);
    assert_eq!(unpack(&Box::new(tree.clone())), tree);
}

#[test]
fn constructors_build_the_nodes_they_name() {
    let b = |t: Expr| Box::new(t);
    assert_eq!(nan(), Expr::Const(Number::NaN));
    assert_eq!(zero(), num(0.0));
    assert_eq!(one(), num(1.0));
    assert_eq!(two(), num(2.0));
    assert_eq!(pi(), num(3.14159265359));
    assert_eq!(e(), num(2.71828182845));
    assert_eq!(num(4.5), Expr::Const(Number::Real(bits(4.5))));
    assert_eq!(x(), Expr::Var('x'));
    assert_eq!(neg(x()), Expr::Neg(b(x())));
    assert_eq!(exp(x()), Expr::Exp(b(x())));
    assert_eq!(varf('x', bits(3.0)), Expr::Mul(b(num(3.0)), b(x())));
    assert_eq!(plus(x(), y()), Expr::Add(b(x()), b(y())));
    assert_eq!(minus(x(), y()), Expr::Sub(b(x()), b(y())));
    assert_eq!(times(x(), y()), Expr::Mul(b(x()), b(y())));
    assert_eq!(div(x(), y()), Expr::Div(b(x()), b(y())));
    assert_eq!(pow(x(), y()), Expr::Pow(b(x()), b(y())));
    assert_eq!(powf(x(), bits(4.0)), Expr::Pow(b(x()), b(num(4.0))));
    assert_eq!(sqrt(x()), Expr::Pow(b(x()), b(num(0.5))));
    assert_eq!(square(x()), Expr::Pow(b(x()), b(num(2.0))));
    assert_eq!(cube(x()), Expr::Pow(b(x()), b(num(3.0))));
    assert_eq!(sin(x()), Expr::Sin(b(x())));
    assert_eq!(cos(x()), Expr::Cos(b(x())));
    assert_eq!(sinh(x()), Expr::Sinh(b(x())));
    assert_eq!(cosh(x()), Expr::Cosh(b(x())));
    assert_eq!(asin(x()), Expr::Asin(b(x())));
    assert_eq!(acos(x()), Expr::Acos(b(x())));
    assert_eq!(asinh(x()), Expr::Asinh(b(x())));
    assert_eq!(acosh(x()), Expr::Acosh(b(x())));
    assert_eq!(ln(x()), Expr::Ln(b(x())));
    assert_eq!(factorial(x()), Expr::Factorial(b(x())));
    assert_eq!(gamma(x()), Expr::Gamma(b(x())));
    assert_eq!(tan(x()), Expr::Div(b(Expr::Sin(b(x()))), b(Expr::Cos(b(x())))));
    assert_eq!(log(bits(7.0), x()), div(ln(x()), ln(num(7.0))));
    assert_eq!(base2(x()), div(ln(x()), ln(num(2.0))));
    assert_eq!(base10(x()), div(ln(x()), ln(num(10.0))));
}

#[test]
fn nodes_come_apart_and_go_together() {
    let funcs = [
        Func::Neg,
        Func::Sin,
        Func::Cos,
        Func::Sinh,
        Func::Cosh,
        Func::Asin,
        Func::Acos,
        Func::Asinh,
        Func::Acosh,
        Func::Ln,
        Func::Exp,
        Func::Factorial,
        Func::Gamma,
    ];
    for &func in funcs.iter() {
        match Expr::apply(func, x()).into_node() {
            Node::Unary(f, i) => {
                assert_eq!(f, func);
                assert_eq!(i, x());
            },
            other => panic!("a node of one operand was expected, not {:?}", other),
        }
    }
    let opers = [Oper::Add, Oper::Sub, Oper::Mul, Oper::Div, Oper::Pow];
    for &oper in opers.iter() {
        match Expr::combine(oper, x(), y()).into_node() {
            Node::Binary(o, l, r) => {
                assert_eq!(o, oper);
                assert_eq!(l, x());
                assert_eq!(r, y());
            },
            other => panic!("a node of two operands was expected, not {:?}", other),
        }
    }
    assert_eq!(Expr::apply(Func::Sinh, x()), sinh(x()));
    assert_eq!(Expr::combine(Oper::Pow, x(), y()), pow(x(), y()));
    assert!(matches!(num(1.0).into_node(), Node::Const(_)));
    assert!(matches!(x().into_node(), Node::Var('x')));
}

#[test]
fn queries_on_the_root() {
    assert!(num(1.0).is_const());
    assert!(!x().is_const());
    assert!(!sin(x()).is_const());
    assert!(x().is_var());
    assert!(!num(1.0).is_var());
    assert!(!plus(x(), y()).is_var());
    assert!(plus(x(), y()).is_op());
    assert!(gamma(x()).is_op());
    assert!(!x().is_op());
    assert!(!num(1.0).is_op());
}

#[test]
fn a_variable_is_found_under_every_node() {
    let wrap: Vec<fn(Expr) -> Expr> = vec![
        neg, sin, cos, sinh, cosh, asin, acos, asinh, acosh, ln, exp, factorial, gamma,
    ];
    for f in wrap.iter() {
        assert!(f(x()).has_var('x'));
        assert!(!f(x()).has_var('y'));
        assert!(!f(num(1.0)).has_var('x'));
    }
    let join: Vec<fn(Expr, Expr) -> Expr> = vec![plus, minus, times, div, pow];
    for f in join.iter() {
        assert!(f(x(), num(1.0)).has_var('x'));
        assert!(f(num(1.0), x()).has_var('x'));
        assert!(!f(y(), num(1.0)).has_var('x'));
    }
    assert!(div(num(1.0), sinh(factorial(plus(y(), x())))).has_var('x'));
}

#[test]
fn substitution_reaches_every_leaf() {
    let tree = div(
        plus(sin(x()), pow(y(), x())),
        neg(factorial(ln(gamma(cosh(minus(x(), num(1.0))))))),
    );
    let z = || var('z');
    let expected = div(
        plus(sin(z()), pow(y(), z())),
        neg(factorial(ln(gamma(cosh(minus(z(), num(1.0))))))),
    );
    assert_eq!(tree.substitute('x', 'z'), expected);
    assert_eq!(tree.substitute('q', 'z'), tree);
    assert_eq!(tree.substitute('x', 'x'), tree);
    assert!(!tree.substitute('x', 'z').has_var('x'));
    let wrap: Vec<fn(Expr) -> Expr> = vec![
        neg, sin, cos, sinh, cosh, asin, acos, asinh, acosh, ln, exp, factorial, gamma,
    ];
    for f in wrap.iter() {
        assert_eq!(f(x()).substitute('x', 'y'), f(y()));
    }
    let join: Vec<fn(Expr, Expr) -> Expr> = vec![plus, minus, times, div, pow];
    for f in join.iter() {
        assert_eq!(f(x(), y()).substitute('x', 'y'), f(y(), y()));
    }
}

#[test]
fn texts_of_trees() {
    assert_eq!(x().to_string(&show), "x");
    assert_eq!(num(3.0).to_string(&show), "3");
    assert_eq!(nan().to_string(&show), "NaN");
    assert_eq!(neg(x()).to_string(&show), "-(x)");
    assert_eq!(sin(x()).to_string(&show), "sin(x)");
    assert_eq!(cos(x()).to_string(&show), "cos(x)");
    assert_eq!(sinh(x()).to_string(&show), "sinh(x)");
    assert_eq!(cosh(x()).to_string(&show), "cosh(x)");
    assert_eq!(asin(x()).to_string(&show), "asin(x)");
    assert_eq!(acos(x()).to_string(&show), "acos(x)");
    assert_eq!(asinh(x()).to_string(&show), "asinh(x)");
    assert_eq!(acosh(x()).to_string(&show), "acosh(x)");
    assert_eq!(ln(x()).to_string(&show), "ln(x)");
    assert_eq!(exp(x()).to_string(&show), "e^(x)");
    assert_eq!(factorial(x()).to_string(&show), "(x)!");
    assert_eq!(gamma(x()).to_string(&show), "gamma(x)");
    assert_eq!(plus(num(3.0), x()).to_string(&show), "3 + x");
    assert_eq!(minus(x(), num(0.5)).to_string(&show), "x - 0.5");
    assert_eq!(times(num(2.0), x()).to_string(&show), "2 * x");
    assert_eq!(div(x(), y()).to_string(&show), "x / y");
    assert_eq!(pow(x(), num(2.0)).to_string(&show), "x^2");
    assert_eq!(plus(sin(x()), num(1.0)).to_string(&show), "(sin(x)) + 1");
    assert_eq!(
        times(plus(x(), num(1.0)), minus(x(), num(1.0))).to_string(&show),
        "(x + 1) * (x - 1)"
    );
    assert_eq!(pow(plus(x(), y()), neg(x())).to_string(&show), "(x + y)^(-(x))");
    assert_eq!(
        times(Expr::Const(complex(bits(1.0), bits(2.0))), x()).to_string(&show),
        "(1+2j) * x"
    );
    assert_eq!(
        minus(var('x'), div(minus(powf(var('x'), bits(2.0)), num(612.0)), times(num(2.0), var('x'))))
            .to_string(&show),
        "x - (((x^2) - 612) / (2 * x))"
    );
}

#[test]
fn numbers_under_functions_and_operators() {
    assert_eq!(apply_func(Func::Neg, re(2.0), &machine), Ok(re(-2.0)));
    assert_eq!(apply_func(Func::Sin, re(0.5), &machine), Ok(re(0.5f64.sin())));
    assert_eq!(apply_func(Func::Cos, re(0.5), &machine), Ok(re(0.5f64.cos())));
    assert_eq!(apply_func(Func::Sinh, re(0.5), &machine), Ok(re(0.5f64.sinh())));
    assert_eq!(apply_func(Func::Cosh, re(0.5), &machine), Ok(re(0.5f64.cosh())));
    assert_eq!(apply_func(Func::Asin, re(0.5), &machine), Ok(re(0.5f64.asin())));
    assert_eq!(apply_func(Func::Acos, re(0.5), &machine), Ok(re(0.5f64.acos())));
    assert_eq!(apply_func(Func::Asinh, re(0.5), &machine), Ok(re(0.5f64.asinh())));
    assert_eq!(apply_func(Func::Acosh, re(1.5), &machine), Ok(re(1.5f64.acosh())));
    assert_eq!(apply_func(Func::Ln, re(0.5), &machine), Ok(re(0.5f64.ln())));
    assert_eq!(apply_func(Func::Exp, re(0.5), &machine), Ok(re(0.5f64.exp())));
    assert_eq!(apply_func(Func::Factorial, re(4.0), &machine), Ok(re(24.0)));
    assert_eq!(apply_func(Func::Factorial, re(4.5), &machine), Err(EvalError::Factorial));
    assert_eq!(apply_func(Func::Gamma, re(4.0), &machine), Ok(Number::NaN));
    assert_eq!(apply_oper(Oper::Add, re(6.0), re(3.0), &machine), re(9.0));
    assert_eq!(apply_oper(Oper::Sub, re(6.0), re(3.0), &machine), re(3.0));
    assert_eq!(apply_oper(Oper::Mul, re(6.0), re(3.0), &machine), re(18.0));
    assert_eq!(apply_oper(Oper::Div, re(6.0), re(3.0), &machine), re(2.0));
    assert_eq!(apply_oper(Oper::Pow, re(6.0), re(3.0), &machine), re(216.0));
}

#[test]
fn evaluation_folds_every_node() {
    let at = |t: Expr, v: f64| evaluate(t, 'x', re(v), &machine);
    assert_eq!(at(num(4.0), 1.0), Ok(re(4.0)));
    assert_eq!(at(x(), 1.5), Ok(re(1.5)));
    assert_eq!(at(neg(x()), 1.5), Ok(re(-1.5)));
    assert_eq!(at(minus(x(), num(1.0)), 1.5), Ok(re(0.5)));
    assert_eq!(at(times(x(), x()), 1.5), Ok(re(2.25)));
    assert_eq!(at(div(x(), num(4.0)), 1.0), Ok(re(0.25)));
    assert_eq!(at(div(x(), num(0.0)), 1.0), Ok(Number::NaN));
    assert_eq!(at(sin(x()), 0.5), Ok(re(0.5f64.sin())));
    assert_eq!(at(cos(x()), 0.5), Ok(re(0.5f64.cos())));
    assert_eq!(at(sinh(x()), 0.5), Ok(re(0.5f64.sinh())));
    assert_eq!(at(cosh(x()), 0.5), Ok(re(0.5f64.cosh())));
    assert_eq!(at(asin(x()), 0.5), Ok(re(0.5f64.asin())));
    assert_eq!(at(acos(x()), 0.5), Ok(re(0.5f64.acos())));
    assert_eq!(at(asinh(x()), 0.5), Ok(re(0.5f64.asinh())));
    assert_eq!(at(acosh(x()), 1.5), Ok(re(1.5f64.acosh())));
    assert_eq!(at(ln(x()), 0.5), Ok(re(0.5f64.ln())));
    assert_eq!(at(exp(x()), 0.5), Ok(re(0.5f64.exp())));
    assert_eq!(at(tan(x()), 0.5), Ok(re(0.5f64.sin() / 0.5f64.cos())));
    assert_eq!(at(factorial(x()), 5.0), Ok(re(120.0)));
    assert_eq!(at(gamma(x()), 5.0), Ok(Number::NaN));
    assert_eq!(
        at(plus(times(num(2.0), pow(x(), num(3.0))), neg(sqrt(x()))), 4.0),
        Ok(re(126.0))
    );
}

#[test]
fn another_variable_has_no_value() {
    assert_eq!(evaluate(y(), 'x', re(1.0), &machine), Ok(Number::NaN));
    assert_eq!(evaluate(plus(x(), y()), 'x', re(1.0), &machine), Ok(Number::NaN));
    assert_eq!(evaluate(sin(y()), 'x', re(1.0), &machine), Ok(Number::NaN));
}

#[test]
fn a_factorial_outside_its_domain_stops_the_evaluation() {
    let at = |t: Expr, v: f64| evaluate(t, 'x', re(v), &machine);
    assert_eq!(at(factorial(x()), 101.0), Err(EvalError::Factorial));
    assert_eq!(at(factorial(x()), 100.0), Err(EvalError::Factorial));
    assert_eq!(at(factorial(x()), -1.0), Err(EvalError::Factorial));
    assert_eq!(at(factorial(x()), 0.5), Err(EvalError::Factorial));
    assert_eq!(at(plus(num(1.0), sin(factorial(x()))), 101.0), Err(EvalError::Factorial));
    assert_eq!(at(plus(factorial(x()), num(1.0)), 101.0), Err(EvalError::Factorial));
    assert_eq!(at(gamma(factorial(x())), 101.0), Err(EvalError::Factorial));
    assert_eq!(at(factorial(y()), 101.0), Ok(Number::NaN));
    let part = |t: Expr, v: f64| mathy::calc::evaluator::evaluate(t, 'x', re(v), &machine);
    assert_eq!(part(factorial(x()), 101.0), Err(EvalError::Factorial));
    assert_eq!(part(plus(y(), factorial(x())), 101.0), Err(EvalError::Factorial));
    assert_eq!(part(plus(factorial(x()), y()), 2.5), Err(EvalError::Factorial));
    assert_eq!(part(factorial(y()), 101.0), Ok(factorial(y())));
}

#[test]
fn partial_evaluation_keeps_what_holds_another_variable() {
    let part = |t: Expr, v: f64| mathy::calc::evaluator::evaluate(t, 'x', re(v), &machine);
    assert_eq!(part(y(), 3.0), Ok(y()));
    assert_eq!(part(x(), 3.0), Ok(num(3.0)));
    assert_eq!(
        part(plus(times(num(2.0), x()), y()), 3.0),
        Ok(plus(num(6.0), y()))
    );
    assert_eq!(part(minus(y(), x()), 3.0), Ok(minus(y(), num(3.0))));
    assert_eq!(part(div(y(), sin(x())), 0.5), Ok(div(y(), num(0.5f64.sin()))));
    assert_eq!(part(pow(x(), y()), 3.0), Ok(pow(num(3.0), y())));
    assert_eq!(part(sin(plus(x(), y())), 3.0), Ok(sin(plus(num(3.0), y()))));
    assert_eq!(part(gamma(y()), 3.0), Ok(gamma(y())));
    assert_eq!(part(gamma(x()), 3.0), Ok(nan()));
    assert_eq!(part(factorial(x()), 3.0), Ok(num(6.0)));
    assert_eq!(part(neg(x()), 3.0), Ok(num(-3.0)));
}

#[test]
fn partial_evaluation_of_a_closed_tree_is_its_value() {
    let trees = vec![
        plus(num(3.0), x()),
        sqrt(x()),
        div(sin(x()), cos(x())),
        pow(x(), minus(x(), num(1.0))),
        exp(neg(times(x(), x()))),
        factorial(num(6.0)),
        gamma(x()),
        div(x(), num(0.0)),
    ];
    for &v in [-4.0, 0.0, 0.5, 2.0].iter() {
        for t in trees.iter() {
            let whole = evaluate(t.clone(), 'x', re(v), &machine);
            let part = mathy::calc::evaluator::evaluate(t.clone(), 'x', re(v), &machine);
            assert_eq!(part, whole.map(Expr::Const));
        }
    }
}

#[test]
fn derivatives_of_leaves_sums_and_differences() {
    let d = |t: Expr| mathy::calc::deriver::derive(t, 'x', &machine);
    assert_eq!(d(num(5.0)), num(0.0));
    assert_eq!(d(x()), num(1.0));
    assert_eq!(d(y()), num(0.0));
    assert_eq!(d(plus(x(), y())), plus(num(1.0), num(0.0)));
    assert_eq!(d(minus(x(), num(3.0))), minus(num(1.0), num(0.0)));
}

#[test]
fn derivatives_of_products_and_quotients() {
    let d = |t: Expr| mathy::calc::deriver::derive(t, 'x', &machine);
    assert_eq!(d(times(num(3.0), x())), num(3.0));
    assert_eq!(d(times(x(), num(3.0))), num(3.0));
    assert_eq!(d(times(num(3.0), y())), num(0.0));
    assert_eq!(d(times(y(), num(3.0))), num(0.0));
    assert_eq!(
        d(times(x(), sin(x()))),
        plus(times(x(), cos(x())), times(sin(x()), num(1.0)))
    );
    assert_eq!(
        d(div(x(), y())),
        div(
            minus(times(y(), num(1.0)), times(num(0.0), x())),
            pow(y(), num(2.0))
        )
    );
}

#[test]
fn derivatives_of_sines_cosines_and_exponentials() {
    let d = |t: Expr| mathy::calc::deriver::derive(t, 'x', &machine);
    assert_eq!(d(sin(x())), cos(x()));
    assert_eq!(d(sin(y())), num(0.0));
    assert_eq!(d(cos(x())), neg(sin(x())));
    assert_eq!(d(cos(y())), num(0.0));
    assert_eq!(
        d(sin(times(num(2.0), x()))),
        times(num(2.0), cos(times(num(2.0), x())))
    );
    assert_eq!(
        d(cos(times(num(2.0), x()))),
        times(neg(num(2.0)), sin(times(num(2.0), x())))
    );
    assert_eq!(d(exp(x())), exp(x()));
    assert_eq!(d(exp(num(2.0))), num(0.0));
    assert_eq!(d(exp(y())), times(num(0.0), exp(y())));
    assert_eq!(
        d(exp(times(num(2.0), x()))),
        times(num(2.0), exp(times(num(2.0), x())))
    );
}

#[test]
fn derivatives_of_powers() {
    let d = |t: Expr| mathy::calc::deriver::derive(t, 'x', &machine);
    assert_eq!(d(pow(x(), num(1.0))), num(1.0));
    assert_eq!(d(pow(x(), num(2.0))), times(num(2.0), x()));
    assert_eq!(d(pow(x(), num(3.0))), times(num(3.0), pow(x(), num(2.0))));
    assert_eq!(d(pow(x(), num(0.5))), times(num(0.5), pow(x(), num(-0.5))));
    assert_eq!(
        d(pow(sin(x()), num(3.0))),
        times(times(num(3.0), pow(sin(x()), num(2.0))), cos(x()))
    );
    assert_eq!(
        d(pow(y(), num(3.0))),
        times(times(num(3.0), pow(y(), num(2.0))), num(0.0))
    );
    assert_eq!(
        d(pow(x(), Expr::Const(complex(bits(3.0), bits(1.0))))),
        times(Expr::Const(complex(bits(3.0), bits(1.0))), pow(x(), num(2.0)))
    );
    assert_eq!(d(pow(x(), x())), num(0.0));
    assert_eq!(d(pow(num(2.0), x())), num(0.0));
}

#[test]
fn shapes_without_a_rule_have_the_derivative_zero() {
    let d = |t: Expr| mathy::calc::deriver::derive(t, 'x', &machine);
    let wrap: Vec<fn(Expr) -> Expr> =
        vec![neg, sinh, cosh, asin, acos, asinh, acosh, ln, factorial, gamma];
    for f in wrap.iter() {
        assert_eq!(d(f(x())), num(0.0));
    }
}

#[test]
fn the_antiderivative_of_a_constant() {
    assert_eq!(integrate(num(3.0), 'x'), plus(times(num(3.0), x()), var('C')));
    assert_eq!(integrate(x(), 'x'), num(0.0));
    assert_eq!(integrate(sin(x()), 'x'), num(0.0));
}

#[test]
fn sums_are_rewritten() {
    let s = |t: Expr| simplify(t, &machine);
    assert_eq!(s(plus(num(2.0), num(3.0))), num(5.0));
    assert_eq!(s(plus(num(0.0), x())), x());
    assert_eq!(s(plus(x(), num(0.0))), x());
    assert_eq!(s(plus(num(-0.0), x())), x());
    assert_eq!(s(plus(num(2.0), x())), plus(num(2.0), x()));
    assert_eq!(s(plus(x(), num(2.0))), plus(num(2.0), x()));
    assert_eq!(s(plus(x(), y())), plus(x(), y()));
    assert_eq!(s(plus(plus(num(1.0), num(2.0)), x())), plus(num(3.0), x()));
    assert_eq!(s(plus(square(cos(x())), square(sin(x())))), num(1.0));
    assert_eq!(s(plus(square(sin(x())), square(cos(x())))), num(1.0));
    assert_eq!(
        s(plus(square(cos(plus(num(0.0), x()))), square(sin(x())))),
        plus(square(cos(plus(num(0.0), x()))), square(sin(x())))
    );
    assert_eq!(
        s(plus(square(cos(x())), square(sin(y())))),
        plus(square(cos(x())), square(sin(y())))
    );
    assert_eq!(
        s(plus(square(cos(x())), cube(sin(x())))),
        plus(square(cos(x())), cube(sin(x())))
    );
    assert_eq!(
        s(plus(square(cos(x())), square(cos(x())))),
        plus(square(cos(x())), square(cos(x())))
    );
}

#[test]
fn differences_are_rewritten() {
    let s = |t: Expr| simplify(t, &machine);
    assert_eq!(s(minus(num(5.0), num(3.0))), num(2.0));
    assert_eq!(s(minus(num(0.0), x())), neg(x()));
    assert_eq!(s(minus(x(), num(0.0))), x());
    assert_eq!(s(minus(num(2.0), x())), minus(num(2.0), x()));
    assert_eq!(s(minus(x(), num(2.0))), minus(x(), num(2.0)));
    assert_eq!(s(minus(x(), neg(y()))), plus(x(), y()));
    assert_eq!(s(minus(sin(x()), neg(num(2.0)))), plus(num(2.0), sin(x())));
    assert_eq!(s(minus(x(), y())), minus(x(), y()));
}

#[test]
fn products_are_rewritten() {
    let s = |t: Expr| simplify(t, &machine);
    assert_eq!(s(times(num(2.0), num(3.0))), num(6.0));
    assert_eq!(s(times(num(0.0), x())), num(0.0));
    assert_eq!(s(times(x(), num(0.0))), num(0.0));
    assert_eq!(s(times(num(1.0), x())), x());
    assert_eq!(s(times(x(), num(1.0))), x());
    assert_eq!(s(times(num(-1.0), x())), neg(x()));
    assert_eq!(s(times(x(), num(-1.0))), neg(x()));
    assert_eq!(s(times(num(3.0), x())), times(num(3.0), x()));
    assert_eq!(s(times(x(), num(3.0))), times(num(3.0), x()));
    assert_eq!(s(times(num(3.0), plus(num(0.0), x()))), times(num(3.0), x()));
    assert_eq!(s(times(x(), neg(x()))), neg(square(x())));
    assert_eq!(s(times(neg(x()), x())), neg(square(x())));
    assert_eq!(s(times(x(), neg(y()))), times(x(), neg(y())));
    assert_eq!(s(times(neg(x()), y())), times(neg(x()), y()));
    assert_eq!(s(times(x(), x())), square(x()));
    assert_eq!(s(times(x(), y())), times(x(), y()));
    assert_eq!(s(times(sin(x()), sin(x()))), square(sin(x())));
    assert_eq!(
        s(times(x(), pow(x(), num(2.0)))),
        pow(x(), plus(num(1.0), num(2.0)))
    );
    assert_eq!(
        s(times(pow(x(), y()), x())),
        pow(x(), plus(num(1.0), y()))
    );
    assert_eq!(s(times(x(), pow(y(), num(2.0)))), times(x(), pow(y(), num(2.0))));
    assert_eq!(s(times(pow(y(), num(2.0)), x())), times(x(), pow(y(), num(2.0))));
    assert_eq!(
        s(times(plus(num(0.0), x()), sin(y()))),
        times(x(), sin(y()))
    );
}

#[test]
fn quotients_are_rewritten() {
    let s = |t: Expr| simplify(t, &machine);
    assert_eq!(s(div(x(), num(1.0))), x());
    assert_eq!(s(div(plus(num(0.0), x()), num(1.0))), x());
    assert_eq!(s(div(x(), num(0.0))), nan());
    assert_eq!(s(div(x(), num(-0.0))), nan());
    assert_eq!(s(div(plus(num(0.0), x()), num(2.0))), div(x(), num(2.0)));
    assert_eq!(s(div(num(6.0), num(3.0))), div(num(6.0), num(3.0)));
    assert_eq!(
        s(div(plus(num(0.0), x()), plus(y(), num(0.0)))),
        div(x(), y())
    );
}

#[test]
fn powers_are_rewritten() {
    let s = |t: Expr| simplify(t, &machine);
    assert_eq!(s(pow(num(2.0), num(10.0))), num(1024.0));
    assert_eq!(
        s(pow(num(-4.0), num(0.5))),
        Expr::Const(complex(bits(0.0), bits(2.0)))
    );
    assert_eq!(s(pow(x(), num(1.0))), x());
    assert_eq!(s(pow(plus(x(), num(0.0)), num(1.0))), x());
    assert_eq!(s(pow(plus(x(), num(0.0)), num(3.0))), pow(x(), num(3.0)));
    assert_eq!(
        s(pow(plus(x(), num(0.0)), plus(num(0.0), y()))),
        pow(x(), y())
    );
}

#[test]
fn other_shapes_pass_through() {
    let s = |t: Expr| simplify(t, &machine);
    assert_eq!(s(num(3.0)), num(3.0));
    assert_eq!(s(x()), x());
    assert_eq!(s(neg(plus(num(0.0), x()))), neg(x()));
    let wrap: Vec<fn(Expr) -> Expr> =
        vec![sin, cos, sinh, cosh, asin, acos, asinh, acosh, ln, exp, factorial, gamma];
    for f in wrap.iter() {
        let tree = f(plus(num(0.0), x()));
        assert_eq!(s(tree.clone()), tree);
    }
}

#[test]
fn one_pass_is_not_always_the_last() {
    let s = |t: Expr| simplify(t, &machine);
    let tree = times(x(), pow(x(), num(2.0)));
    let once = s(tree);
    let twice = s(once.clone());
    assert_eq!(once, pow(x(), plus(num(1.0), num(2.0))));
    assert_eq!(twice, pow(x(), num(3.0)));
    assert_ne!(once, twice);

    let corpus = vec![
        plus(num(0.0), x()),
        plus(square(cos(x())), square(sin(x()))),
        mathy::calc::deriver::derive(tan(x()), 'x', &machine),
        mathy::calc::deriver::derive(powf(x(), bits(2.0)), 'x', &machine),
        times(num(3.0), plus(x(), num(0.0))),
        minus(x(), neg(y())),
        div(times(x(), x()), num(1.0)),
        sin(plus(num(0.0), x())),
        times(plus(num(0.0), x()), x()),
        times(pow(x(), num(2.0)), x()),
    ];
    let mut settled = 0;
    let mut moving = 0;
    for t in corpus.into_iter() {
        let once = s(t);
        let twice = s(once.clone());
        if once == twice {
            settled += 1;
        } else {
            moving += 1;
        }
    }
    assert_eq!(settled, 8);
    assert_eq!(moving, 2);
}
