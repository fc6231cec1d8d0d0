use mathy::expr::evaluator::evaluate;
use mathy::expr::expr::{con, cos, div, exp, neg, pow, sin, var, Expr};
use mathy::expr::simplify::simplify;
use mathy::number::number::{real_number, Number};
use mathy::unit::Primitive;

fn machine(op: Primitive, a: u64, b: u64) -> u64 {
    let x = f64::from_bits(a);
    let y = f64::from_bits(b);
    let r = match op {
        Primitive::Add => x + y,
        Primitive::Sub => x - y,
        Primitive::Mul => x * y,
        Primitive::Div => x / y,
        Primitive::Pow => x.powf(y),
        Primitive::Atan2 => x.atan2(y),
        Primitive::Sin => x.sin(),
        Primitive::Cos => x.cos(),
        Primitive::Tan => x.tan(),
        Primitive::Sinh => x.sinh(),
        Primitive::Cosh => x.cosh(),
        Primitive::Tanh => x.tanh(),
        Primitive::Asin => x.asin(),
        Primitive::Acos => x.acos(),
        Primitive::Atan => x.atan(),
        Primitive::Asinh => x.asinh(),
        Primitive::Acosh => x.acosh(),
        Primitive::Atanh => x.atanh(),
        Primitive::Exp => x.exp(),
        Primitive::Ln => x.ln(),
    };
    r.to_bits()
}

fn plus(l: Expr, r: Expr) -> Expr {
    mathy::expr::expr::add(l, r)
}

fn minus(l: Expr, r: Expr) -> Expr {
    mathy::expr::expr::sub(l, r)
}

fn times(l: Expr, r: Expr) -> Expr {
    mathy::expr::expr::mul(l, r)
}

/// A small generator of numbers: the same sequence on every run.
struct Dice(u64);

impl Dice {
    fn roll(&mut self, sides: u64) -> u64 {
        self.0 = self.0.wrapping_mul(6364136223846793005).wrapping_add(1442695040888963407);
        (self.0 >> 33) % sides
    }
}

/// A tree in `x` of the given depth, built of the operations that have a
/// derivative and a real value everywhere.
fn smooth_tree(dice: &mut Dice, depth: u32) -> Expr {
    if depth == 0 {
        return match dice.roll(3) {
            0 => var('x'),
            1 => con((dice.roll(5) as f64).to_bits()),
            _ => con((0.5 + dice.roll(4) as f64).to_bits()),
        };
    }
    let l = smooth_tree(dice, depth - 1);
    let r = smooth_tree(dice, depth - 1);
    match dice.roll(8) {
        0 => plus(l, r),
        1 => minus(l, r),
        2 => times(l, r),
        3 => sin(l),
        4 => cos(l),
        5 => exp(times(con(0.125f64.to_bits()), l)),
        6 => pow(l, con((1.0 + dice.roll(3) as f64).to_bits())),
        _ => div(l, plus(con(2.0f64.to_bits()), times(r.clone(), r))),
    }
}

/// The value of a tree at `x`, computed here without the library.
fn direct(e: &Expr, x: f64) -> f64 {
    match e {
        Expr::Const(Number::Real(b)) => f64::from_bits(*b),
        Expr::Const(_) => f64::NAN,
        Expr::Var(_) => x,
        Expr::Neg(i) => -direct(i, x),
        Expr::Add(l, r) => direct(l, x) + direct(r, x),
        Expr::Sub(l, r) => direct(l, x) - direct(r, x),
        Expr::Mul(l, r) => direct(l, x) * direct(r, x),
        Expr::Div(l, r) => direct(l, x) / direct(r, x),
        Expr::Pow(l, r) => direct(l, x).powf(direct(r, x)),
        Expr::Sin(i) => direct(i, x).sin(),
        Expr::Cos(i) => direct(i, x).cos(),
        Expr::Exp(i) => direct(i, x).exp(),
        other => panic!("no such node is generated: {:?}", other),
    }
}

fn value(e: &Expr, x: f64) -> f64 {
    match evaluate(e.clone(), 'x', real_number(x.to_bits()), &machine) {
        Ok(Number::Real(b)) => f64::from_bits(b),
        other => panic!("a real was expected, not {:?}", other),
    }
}

fn close(a: f64, b: f64, tolerance: f64) -> bool {
    (a - b).abs() <= tolerance * (1.0 + a.abs().max(b.abs()))
}

#[test]
fn evaluation_is_the_direct_computation() {
    let mut dice = Dice(7);
    for round in 0..200 {
        let tree = smooth_tree(&mut dice, 1 + round % 4);
        for &x in [0.25, 1.0, 1.75, 3.5].iter() {
            assert_eq!(value(&tree, x).to_bits(), direct(&tree, x).to_bits());
        }
    }
}

#[test]
fn a_simplified_tree_has_the_value_of_its_tree() {
    let mut dice = Dice(11);
    for round in 0..200 {
        let tree = smooth_tree(&mut dice, 1 + round % 4);
        let simple = simplify(tree.clone(), &machine);
        for &x in [0.25, 1.0, 1.75, 3.5].iter() {
            let before = direct(&tree, x);
            let after = value(&simple, x);
            assert!(close(before, after, 1e-9), "{:?} became {:?}", tree, simple);
        }
    }
}

#[test]
fn a_derivative_is_the_slope() {
    let mut dice = Dice(13);
    for round in 0..200 {
        let tree = smooth_tree(&mut dice, 1 + round % 3);
        let slope = mathy::calc::deriver::derive(tree.clone(), 'x', &machine);
        let simple = simplify(slope.clone(), &machine);
        for &x in [0.25, 1.0, 1.75].iter() {
            let h = 1e-6;
            let measured = (direct(&tree, x + h) - direct(&tree, x - h)) / (2.0 * h);
            assert!(close(value(&slope, x), measured, 1e-5), "{:?}", tree);
            assert!(close(value(&simple, x), measured, 1e-5), "{:?}", tree);
        }
    }
}

#[test]
fn negation_has_no_derivative_rule_but_simplifies() {
    let tree = neg(plus(con(0.0f64.to_bits()), var('x')));
    assert_eq!(simplify(tree, &machine), neg(var('x')));
}
