//! The numeric tower: undefined, real and complex values, closed under its
//! arithmetic.
//!
//! A component is a binary64 held by its bit pattern. Operations that round
//! take the arithmetic unit; their contracts are relations between the
//! operands, what the unit handed back, and the result.
use vstd::prelude::*;
use vstd::string::*;
use crate::binary64;
use crate::binary64::{ONE, ZERO};
use crate::unit::{
    apply, legible, print, renders, shown, single_valued, single_worded, total, yields, Primitive,
};

verus! {

/// A value of the tower. `NaN` is the undefined value: it absorbs every
/// operation. A real and a complex with a zero imaginary part are different
/// values: nothing normalises one into the other.
#[derive(Clone, Copy, Debug, PartialEq, Eq, Structural)]
pub enum Number {
    NaN,
    Real(u64),
    Complex(u64, u64),
}

/// `r` is a rounding of `a * b + c * d`, each step taken by the unit.
pub open spec fn dot<U: Fn(Primitive, u64, u64) -> u64>(
    unit: &U,
    a: u64,
    b: u64,
    c: u64,
    d: u64,
    r: u64,
) -> bool {
    exists|p: u64, q: u64|
        yields(unit, Primitive::Mul, a, b, p) && yields(unit, Primitive::Mul, c, d, q)
            && #[trigger] yields(unit, Primitive::Add, p, q, r)
}

/// `r` is a rounding of `a * b - c * d`, each step taken by the unit.
pub open spec fn cross<U: Fn(Primitive, u64, u64) -> u64>(
    unit: &U,
    a: u64,
    b: u64,
    c: u64,
    d: u64,
    r: u64,
) -> bool {
    exists|p: u64, q: u64|
        yields(unit, Primitive::Mul, a, b, p) && yields(unit, Primitive::Mul, c, d, q)
            && #[trigger] yields(unit, Primitive::Sub, p, q, r)
}

/// `r` is `a` under a function of one real operand: the unit's result on a
/// real, undefined on anything else.
pub open spec fn image<U: Fn(Primitive, u64, u64) -> u64>(
    unit: &U,
    op: Primitive,
    a: Number,
    r: Number,
) -> bool {
    match a {
        Number::Real(x) => r matches Number::Real(y) && yields(unit, op, x, ZERO, y),
        _ => r == Number::NaN,
    }
}

/// `r` is `a + b`. Two reals give a real. With a complex operand a real one
/// is promoted to a complex with imaginary part zero, and the components are
/// added.
pub open spec fn sum<U: Fn(Primitive, u64, u64) -> u64>(
    unit: &U,
    a: Number,
    b: Number,
    r: Number,
) -> bool {
    match (a, b) {
        (Number::NaN, _) | (_, Number::NaN) => r == Number::NaN,
        (Number::Real(x), Number::Real(y)) => r matches Number::Real(z) && yields(
            unit,
            Primitive::Add,
            x,
            y,
            z,
        ),
        _ => r matches Number::Complex(re, im) && yields(unit, Primitive::Add, a.re(), b.re(), re)
            && yields(unit, Primitive::Add, a.im(), b.im(), im),
    }
}

/// `r` is `a - b`, with the promotion of [`sum`].
pub open spec fn difference<U: Fn(Primitive, u64, u64) -> u64>(
    unit: &U,
    a: Number,
    b: Number,
    r: Number,
) -> bool {
    match (a, b) {
        (Number::NaN, _) | (_, Number::NaN) => r == Number::NaN,
        (Number::Real(x), Number::Real(y)) => r matches Number::Real(z) && yields(
            unit,
            Primitive::Sub,
            x,
            y,
            z,
        ),
        _ => r matches Number::Complex(re, im) && yields(unit, Primitive::Sub, a.re(), b.re(), re)
            && yields(unit, Primitive::Sub, a.im(), b.im(), im),
    }
}

/// `r` is `a * b`. With a complex operand the product is
/// `(x*u - y*v) + (x*v + y*u)i` for `a = x + yi` and `b = u + vi`.
pub open spec fn product<U: Fn(Primitive, u64, u64) -> u64>(
    unit: &U,
    a: Number,
    b: Number,
    r: Number,
) -> bool {
    match (a, b) {
        (Number::NaN, _) | (_, Number::NaN) => r == Number::NaN,
        (Number::Real(x), Number::Real(y)) => r matches Number::Real(z) && yields(
            unit,
            Primitive::Mul,
            x,
            y,
            z,
        ),
        _ => r matches Number::Complex(re, im) && cross(unit, a.re(), b.re(), a.im(), b.im(), re)
            && dot(unit, a.re(), b.im(), a.im(), b.re(), im),
    }
}

/// `r` is a rounding of `(a * b + c * d) / e`, each step taken by the unit.
pub open spec fn dot_ratio<U: Fn(Primitive, u64, u64) -> u64>(
    unit: &U,
    a: u64,
    b: u64,
    c: u64,
    d: u64,
    e: u64,
    r: u64,
) -> bool {
    exists|n: u64| dot(unit, a, b, c, d, n) && #[trigger] yields(unit, Primitive::Div, n, e, r)
}

/// `r` is a rounding of `(a * b - c * d) / e`, each step taken by the unit.
pub open spec fn cross_ratio<U: Fn(Primitive, u64, u64) -> u64>(
    unit: &U,
    a: u64,
    b: u64,
    c: u64,
    d: u64,
    e: u64,
    r: u64,
) -> bool {
    exists|n: u64| cross(unit, a, b, c, d, n) && #[trigger] yields(unit, Primitive::Div, n, e, r)
}

/// `r` is `(u + vi) / (x + yi)` where the squared modulus of the divisor was
/// rounded to `d`: undefined if `d` is zero, else
/// `(u*x + v*y)/d + ((v*x - u*y)/d)i`.
pub open spec fn complex_quotient<U: Fn(Primitive, u64, u64) -> u64>(
    unit: &U,
    u: u64,
    v: u64,
    x: u64,
    y: u64,
    d: u64,
    r: Number,
) -> bool {
    if binary64::zero(d) {
        r == Number::NaN
    } else {
        r matches Number::Complex(re, im) && dot_ratio(unit, u, x, v, y, d, re) && cross_ratio(
            unit,
            v,
            x,
            u,
            y,
            d,
            im,
        )
    }
}

/// `r` is `a / b`. A real divided by a real zero is undefined, and so is
/// anything divided by a complex, or promoted, divisor whose squared modulus
/// rounds to zero.
pub open spec fn quotient<U: Fn(Primitive, u64, u64) -> u64>(
    unit: &U,
    a: Number,
    b: Number,
    r: Number,
) -> bool {
    match (a, b) {
        (Number::NaN, _) | (_, Number::NaN) => r == Number::NaN,
        (Number::Real(x), Number::Real(y)) => if binary64::zero(y) {
            r == Number::NaN
        } else {
            r matches Number::Real(z) && yields(unit, Primitive::Div, x, y, z)
        },
        _ => exists|d: u64|
            dot(unit, b.re(), b.re(), b.im(), b.im(), d) && #[trigger] complex_quotient(
                unit,
                a.re(),
                a.im(),
                b.re(),
                b.im(),
                d,
                r,
            ),
    }
}

/// `r` is `1 / a`: undefined for a real zero and for a complex whose squared
/// modulus rounds to zero, else `1/x`, or `x/d - (y/d)i` for `a = x + yi`
/// with squared modulus `d`.
pub open spec fn inverse<U: Fn(Primitive, u64, u64) -> u64>(unit: &U, a: Number, r: Number) -> bool {
    match a {
        Number::NaN => r == Number::NaN,
        Number::Real(x) => if binary64::zero(x) {
            r == Number::NaN
        } else {
            r matches Number::Real(z) && yields(unit, Primitive::Div, ONE, x, z)
        },
        Number::Complex(x, y) => exists|d: u64|
            dot(unit, x, x, y, y, d) && #[trigger] complex_inverse(unit, x, y, d, r),
    }
}

/// The complex case of [`inverse`], the squared modulus being `d`.
pub open spec fn complex_inverse<U: Fn(Primitive, u64, u64) -> u64>(
    unit: &U,
    x: u64,
    y: u64,
    d: u64,
    r: Number,
) -> bool {
    if binary64::zero(d) {
        r == Number::NaN
    } else {
        r matches Number::Complex(re, im) && yields(unit, Primitive::Div, x, d, re) && yields(
            unit,
            Primitive::Div,
            y,
            d,
            binary64::negation(im),
        )
    }
}

/// `r` is the arc tangent of `a / b` by the signs of both, for two reals;
/// undefined otherwise.
pub open spec fn angle<U: Fn(Primitive, u64, u64) -> u64>(
    unit: &U,
    a: Number,
    b: Number,
    r: Number,
) -> bool {
    match (a, b) {
        (Number::Real(x), Number::Real(y)) => r matches Number::Real(z) && yields(
            unit,
            Primitive::Atan2,
            x,
            y,
            z,
        ),
        _ => r == Number::NaN,
    }
}

/// `r` is `a` raised to `b`, for two reals. A base below zero under an
/// exponent of one half, one quarter, one eighth and so on gives a number on
/// the imaginary axis: the power of the base's magnitude, as the imaginary
/// part. Every other pair of reals gives the real power. Anything else is
/// undefined.
pub open spec fn power<U: Fn(Primitive, u64, u64) -> u64>(
    unit: &U,
    a: Number,
    b: Number,
    r: Number,
) -> bool {
    match (a, b) {
        (Number::Real(x), Number::Real(p)) => if binary64::negative(x)
            && binary64::inverse_power_of_two(p) {
            r matches Number::Complex(re, im) && re == ZERO && yields(
                unit,
                Primitive::Pow,
                binary64::magnitude(x),
                p,
                im,
            )
        } else {
            r matches Number::Real(z) && yields(unit, Primitive::Pow, x, p, z)
        },
        _ => r == Number::NaN,
    }
}

/// `r` is a rounding of `1 * 1 * 2 * ... * n`: begun at one and multiplied
/// by each natural number up to `n` in turn, every product taken by the unit.
pub open spec fn rising_product<U: Fn(Primitive, u64, u64) -> u64>(unit: &U, n: nat, r: u64) -> bool
    decreases n,
{
    if n == 0 {
        r == ONE
    } else {
        exists|p: u64, m: u64|
            rising_product(unit, (n - 1) as nat, p) && m < binary64::SIGN && binary64::encodes(m, n)
                && #[trigger] yields(unit, Primitive::Mul, p, m, r)
    }
}

/// `r` is a rounding of the factorial of the natural number that `x` holds.
pub open spec fn real_factorial<U: Fn(Primitive, u64, u64) -> u64>(unit: &U, x: u64, r: u64) -> bool {
    exists|n: nat|
        n <= FACTORIAL_LIMIT && x <= binary64::SIGN && #[trigger] binary64::encodes(x, n)
            && rising_product(unit, n, r)
}

/// `r` is the factorial of `a`: the rising product for a real, a real zero
/// for a complex (no estimate of the gamma function is made), undefined for
/// the undefined value.
pub open spec fn factorial_of<U: Fn(Primitive, u64, u64) -> u64>(
    unit: &U,
    a: Number,
    r: Number,
) -> bool {
    match a {
        Number::NaN => r == Number::NaN,
        Number::Real(x) => r matches Number::Real(z) && real_factorial(unit, x, z),
        Number::Complex(_, _) => r == Number::Real(ZERO),
    }
}

/// `s` is the text of a complex: the real part, a plus sign unless the
/// imaginary part is below zero and so brings its own sign, the imaginary
/// part, and the letter j.
pub open spec fn complex_text<S: Fn(u64) -> String>(
    show: &S,
    x: u64,
    z: u64,
    s: Seq<char>,
) -> bool {
    exists|p: Seq<char>, q: Seq<char>|
        shown(show, x, p) && shown(show, z, q) && s == #[trigger] joined(
            p,
            binary64::negative(z),
            q,
        )
}

/// The two parts of a complex put together.
pub open spec fn joined(p: Seq<char>, signed: bool, q: Seq<char>) -> Seq<char> {
    if signed {
        p + q + "j"@
    } else {
        p + "+"@ + q + "j"@
    }
}

/// The largest natural number whose factorial is computed.
pub const FACTORIAL_LIMIT: u64 = 99;

/// Takes `a * b + c * d` by the unit.
fn dot_of<U: Fn(Primitive, u64, u64) -> u64>(unit: &U, a: u64, b: u64, c: u64, d: u64) -> (r: u64)
    requires
        total(unit),
    ensures
        dot(unit, a, b, c, d, r),
{
    let p = apply(unit, Primitive::Mul, a, b);
    let q = apply(unit, Primitive::Mul, c, d);
    apply(unit, Primitive::Add, p, q)
}

/// Takes `a * b - c * d` by the unit.
fn cross_of<U: Fn(Primitive, u64, u64) -> u64>(unit: &U, a: u64, b: u64, c: u64, d: u64) -> (r:
    u64)
    requires
        total(unit),
    ensures
        cross(unit, a, b, c, d, r),
{
    let p = apply(unit, Primitive::Mul, a, b);
    let q = apply(unit, Primitive::Mul, c, d);
    apply(unit, Primitive::Sub, p, q)
}

impl Number {
    /// The real component: zero for the undefined value.
    pub open spec fn re(self) -> u64 {
        match self {
            Number::NaN => ZERO,
            Number::Real(x) => x,
            Number::Complex(x, _) => x,
        }
    }

    /// The imaginary component: zero for anything but a complex.
    pub open spec fn im(self) -> u64 {
        match self {
            Number::Complex(_, y) => y,
            _ => ZERO,
        }
    }

    /// Every component is a zero; the undefined value is not zero.
    pub open spec fn zero(self) -> bool {
        match self {
            Number::NaN => false,
            Number::Real(x) => binary64::zero(x),
            Number::Complex(x, y) => binary64::zero(x) && binary64::zero(y),
        }
    }

    /// A real whose value equals that of `v`.
    pub open spec fn real_equals(self, v: u64) -> bool {
        self matches Number::Real(x) && binary64::equal(x, v)
    }

    /// A complex whose components equal those of `v1` and `v2` in value.
    pub open spec fn complex_equals(self, v1: u64, v2: u64) -> bool {
        self matches Number::Complex(x, y) && binary64::equal(x, v1) && binary64::equal(y, v2)
    }

    /// The negated value: every component negated.
    pub open spec fn negated(self) -> Number {
        match self {
            Number::NaN => Number::NaN,
            Number::Real(x) => Number::Real(binary64::negation(x)),
            Number::Complex(x, y) => Number::Complex(binary64::negation(x), binary64::negation(y)),
        }
    }

    /// The complex conjugate: the imaginary component negated.
    pub open spec fn conjugated(self) -> Number {
        match self {
            Number::NaN => Number::NaN,
            Number::Real(x) => Number::Real(x),
            Number::Complex(x, y) => Number::Complex(x, binary64::negation(y)),
        }
    }

    /// A real holds a natural number up to the limit; a complex and the
    /// undefined value always have a factorial.
    pub open spec fn factorial_defined(self) -> bool {
        self matches Number::Real(x) ==> binary64::natural_within(x, FACTORIAL_LIMIT as nat)
    }

    /// Every component is whole; the undefined value is not.
    pub open spec fn whole(self) -> bool {
        match self {
            Number::NaN => false,
            Number::Real(x) => binary64::whole(x),
            Number::Complex(x, y) => binary64::whole(x) && binary64::whole(y),
        }
    }

    /// `s` is the text of the value: `NaN`, the formatter's text of a real,
    /// or the two parts of a complex.
    pub open spec fn text<S: Fn(u64) -> String>(self, show: &S, s: Seq<char>) -> bool {
        match self {
            Number::NaN => s == "NaN"@,
            Number::Real(x) => shown(show, x, s),
            Number::Complex(x, z) => complex_text(show, x, z, s),
        }
    }

    /// Is this the undefined value?
    pub fn is_nan(&self) -> (r: bool)
        ensures
            r == (*self is NaN),
    {
        match self {
            Number::NaN => true,
            _ => false,
        }
    }

    /// Is every component a zero? False for the undefined value.
    pub fn is_zero(&self) -> (r: bool)
        ensures
            r == self.zero(),
    {
        match self {
            Number::NaN => false,
            Number::Real(x) => binary64::is_zero(*x),
            Number::Complex(x, y) => binary64::is_zero(*x) && binary64::is_zero(*y),
        }
    }

    /// The pattern of the real component; positive zero for the undefined
    /// value.
    pub fn real_part(&self) -> (r: u64)
        ensures
            r == self.re(),
    {
        match self {
            Number::NaN => ZERO,
            Number::Real(x) => *x,
            Number::Complex(x, _) => *x,
        }
    }

    /// The pattern of the imaginary component; positive zero for anything but
    /// a complex.
    pub fn imag(&self) -> (r: u64)
        ensures
            r == self.im(),
    {
        match self {
            Number::Complex(_, y) => *y,
            _ => ZERO,
        }
    }

    /// Is this a real of the same value as `v`?
    pub fn real_eq(&self, v: u64) -> (r: bool)
        ensures
            r == self.real_equals(v),
    {
        match self {
            Number::Real(x) => binary64::is_equal(*x, v),
            _ => false,
        }
    }

    /// Is this a complex with the same component values as `v1` and `v2`?
    pub fn complex_eq(self, v1: u64, v2: u64) -> (r: bool)
        ensures
            r == self.complex_equals(v1, v2),
    {
        match self {
            Number::Complex(x, y) => binary64::is_equal(x, v1) && binary64::is_equal(y, v2),
            _ => false,
        }
    }

    /// The negated value.
    pub fn neg(self) -> (r: Number)
        ensures
            r == self.negated(),
    {
        match self {
            Number::NaN => Number::NaN,
            Number::Real(x) => Number::Real(binary64::negate(x)),
            Number::Complex(x, y) => Number::Complex(binary64::negate(x), binary64::negate(y)),
        }
    }

    /// The complex conjugate.
    pub fn conjugate(&self) -> (r: Number)
        ensures
            r == self.conjugated(),
    {
        match self {
            Number::NaN => Number::NaN,
            Number::Real(x) => Number::Real(*x),
            Number::Complex(x, y) => Number::Complex(*x, binary64::negate(*y)),
        }
    }

    /// The sum of two values.
    pub fn add<U: Fn(Primitive, u64, u64) -> u64>(self, other: Number, unit: &U) -> (r: Number)
        requires
            total(unit),
        ensures
            sum(unit, self, other, r),
    {
        match (self, other) {
            (Number::NaN, _) => Number::NaN,
            (_, Number::NaN) => Number::NaN,
            (Number::Real(x), Number::Real(y)) => Number::Real(apply(unit, Primitive::Add, x, y)),
            _ => {
                let re = apply(unit, Primitive::Add, self.real_part(), other.real_part());
                let im = apply(unit, Primitive::Add, self.imag(), other.imag());
                Number::Complex(re, im)
            },
        }
    }

    /// The difference of two values.
    pub fn sub<U: Fn(Primitive, u64, u64) -> u64>(self, other: Number, unit: &U) -> (r: Number)
        requires
            total(unit),
        ensures
            difference(unit, self, other, r),
    {
        match (self, other) {
            (Number::NaN, _) => Number::NaN,
            (_, Number::NaN) => Number::NaN,
            (Number::Real(x), Number::Real(y)) => Number::Real(apply(unit, Primitive::Sub, x, y)),
            _ => {
                let re = apply(unit, Primitive::Sub, self.real_part(), other.real_part());
                let im = apply(unit, Primitive::Sub, self.imag(), other.imag());
                Number::Complex(re, im)
            },
        }
    }

    /// The product of two values.
    pub fn mul<U: Fn(Primitive, u64, u64) -> u64>(self, other: Number, unit: &U) -> (r: Number)
        requires
            total(unit),
        ensures
            product(unit, self, other, r),
    {
        match (self, other) {
            (Number::NaN, _) => Number::NaN,
            (_, Number::NaN) => Number::NaN,
            (Number::Real(x), Number::Real(y)) => Number::Real(apply(unit, Primitive::Mul, x, y)),
            _ => {
                let re = cross_of(unit, self.real_part(), other.real_part(), self.imag(), other.imag());
                let im = dot_of(unit, self.real_part(), other.imag(), self.imag(), other.real_part());
                Number::Complex(re, im)
            },
        }
    }

    /// The quotient of two values; undefined where the divisor is zero.
    pub fn div<U: Fn(Primitive, u64, u64) -> u64>(self, other: Number, unit: &U) -> (r: Number)
        requires
            total(unit),
        ensures
            quotient(unit, self, other, r),
    {
        match (self, other) {
            (Number::NaN, _) => Number::NaN,
            (_, Number::NaN) => Number::NaN,
            (Number::Real(x), Number::Real(y)) => {
                if binary64::is_zero(y) {
                    Number::NaN
                } else {
                    Number::Real(apply(unit, Primitive::Div, x, y))
                }
            },
            _ => {
                let u = self.real_part();
                let v = self.imag();
                let x = other.real_part();
                let y = other.imag();
                let d = dot_of(unit, x, x, y, y);
                let r = if binary64::is_zero(d) {
                    Number::NaN
                } else {
                    let n = dot_of(unit, u, x, v, y);
                    let m = cross_of(unit, v, x, u, y);
                    let re = apply(unit, Primitive::Div, n, d);
                    let im = apply(unit, Primitive::Div, m, d);
                    Number::Complex(re, im)
                };
                assert(complex_quotient(unit, u, v, x, y, d, r));
                r
            },
        }
    }

    /// One divided by this value; undefined where this value is zero.
    pub fn reciprocal<U: Fn(Primitive, u64, u64) -> u64>(&self, unit: &U) -> (r: Number)
        requires
            total(unit),
        ensures
            inverse(unit, *self, r),
    {
        match self {
            Number::NaN => Number::NaN,
            Number::Real(x) => {
                if binary64::is_zero(*x) {
                    Number::NaN
                } else {
                    Number::Real(apply(unit, Primitive::Div, ONE, *x))
                }
            },
            Number::Complex(x, y) => {
                let d = dot_of(unit, *x, *x, *y, *y);
                let r = if binary64::is_zero(d) {
                    Number::NaN
                } else {
                    let re = apply(unit, Primitive::Div, *x, d);
                    let im = apply(unit, Primitive::Div, *y, d);
                    Number::Complex(re, binary64::negate(im))
                };
                assert(complex_inverse(unit, *x, *y, d, r));
                r
            },
        }
    }

    /// Is every component a whole number? False for the undefined value.
    pub fn is_whole(&self) -> (r: bool)
        ensures
            r == self.whole(),
    {
        match self {
            Number::NaN => false,
            Number::Real(x) => binary64::is_whole(*x),
            Number::Complex(x, y) => binary64::is_whole(*x) && binary64::is_whole(*y),
        }
    }

    /// The text of the value, each component written by `show`.
    pub fn to_string<S: Fn(u64) -> String>(&self, show: &S) -> (r: String)
        requires
            legible(show),
        ensures
            self.text(show, r@),
    {
        match self {
            Number::NaN => String::from_str("NaN"),
            Number::Real(x) => print(show, *x),
            Number::Complex(x, z) => {
                let p = print(show, *x);
                let q = print(show, *z);
                let mut out = p.clone();
                if !binary64::is_negative(*z) {
                    out.append("+");
                }
                out.append(q.as_str());
                out.append("j");
                assert(out@ == joined(p@, binary64::negative(*z), q@));
                out
            },
        }
    }

    /// A function of one real operand: the unit's result on a real,
    /// undefined on anything else.
    fn map_real<U: Fn(Primitive, u64, u64) -> u64>(&self, op: Primitive, unit: &U) -> (r: Number)
        requires
            total(unit),
        ensures
            image(unit, op, *self, r),
    {
        match self {
            Number::Real(x) => Number::Real(apply(unit, op, *x, ZERO)),
            _ => Number::NaN,
        }
    }

    /// The sine of a real; undefined for anything else.
    pub fn sin<U: Fn(Primitive, u64, u64) -> u64>(&self, unit: &U) -> (r: Number)
        requires
            total(unit),
        ensures
            image(unit, Primitive::Sin, *self, r),
    {
        self.map_real(Primitive::Sin, unit)
    }

    /// The cosine of a real; undefined for anything else.
    pub fn cos<U: Fn(Primitive, u64, u64) -> u64>(&self, unit: &U) -> (r: Number)
        requires
            total(unit),
        ensures
            image(unit, Primitive::Cos, *self, r),
    {
        self.map_real(Primitive::Cos, unit)
    }

    /// The tangent of a real; undefined for anything else.
    pub fn tan<U: Fn(Primitive, u64, u64) -> u64>(&self, unit: &U) -> (r: Number)
        requires
            total(unit),
        ensures
            image(unit, Primitive::Tan, *self, r),
    {
        self.map_real(Primitive::Tan, unit)
    }

    /// The natural logarithm of a real; undefined for anything else.
    pub fn ln<U: Fn(Primitive, u64, u64) -> u64>(&self, unit: &U) -> (r: Number)
        requires
            total(unit),
        ensures
            image(unit, Primitive::Ln, *self, r),
    {
        self.map_real(Primitive::Ln, unit)
    }

    /// This value raised to `other`; see [`power`] for the rule on bases
    /// below zero.
    pub fn pow<U: Fn(Primitive, u64, u64) -> u64>(&self, other: Number, unit: &U) -> (r: Number)
        requires
            total(unit),
        ensures
            power(unit, *self, other, r),
    {
        match (*self, other) {
            (Number::Real(base), Number::Real(p)) => {
                if binary64::is_negative(base) && binary64::is_inverse_power_of_two(p) {
                    Number::Complex(ZERO, apply(unit, Primitive::Pow, binary64::absolute(base), p))
                } else {
                    Number::Real(apply(unit, Primitive::Pow, base, p))
                }
            },
            _ => Number::NaN,
        }
    }

    /// This value raised to the real with the pattern `p`.
    pub fn powf<U: Fn(Primitive, u64, u64) -> u64>(&self, p: u64, unit: &U) -> (r: Number)
        requires
            total(unit),
        ensures
            power(unit, *self, Number::Real(p), r),
    {
        match self {
            Number::Real(_) => self.pow(Number::Real(p), unit),
            _ => Number::NaN,
        }
    }

    /// The exponential of a real; undefined for anything else.
    pub fn exp<U: Fn(Primitive, u64, u64) -> u64>(&self, unit: &U) -> (r: Number)
        requires
            total(unit),
        ensures
            image(unit, Primitive::Exp, *self, r),
    {
        self.map_real(Primitive::Exp, unit)
    }

    /// The hyperbolic sine of a real; undefined for anything else.
    pub fn sinh<U: Fn(Primitive, u64, u64) -> u64>(&self, unit: &U) -> (r: Number)
        requires
            total(unit),
        ensures
            image(unit, Primitive::Sinh, *self, r),
    {
        self.map_real(Primitive::Sinh, unit)
    }

    /// The hyperbolic cosine of a real; undefined for anything else.
    pub fn cosh<U: Fn(Primitive, u64, u64) -> u64>(&self, unit: &U) -> (r: Number)
        requires
            total(unit),
        ensures
            image(unit, Primitive::Cosh, *self, r),
    {
        self.map_real(Primitive::Cosh, unit)
    }

    /// The hyperbolic tangent of a real; undefined for anything else.
    pub fn tanh<U: Fn(Primitive, u64, u64) -> u64>(&self, unit: &U) -> (r: Number)
        requires
            total(unit),
        ensures
            image(unit, Primitive::Tanh, *self, r),
    {
        self.map_real(Primitive::Tanh, unit)
    }

    /// The arc sine of a real; undefined for anything else.
    pub fn asin<U: Fn(Primitive, u64, u64) -> u64>(&self, unit: &U) -> (r: Number)
        requires
            total(unit),
        ensures
            image(unit, Primitive::Asin, *self, r),
    {
        self.map_real(Primitive::Asin, unit)
    }

    /// The arc cosine of a real; undefined for anything else.
    pub fn acos<U: Fn(Primitive, u64, u64) -> u64>(&self, unit: &U) -> (r: Number)
        requires
            total(unit),
        ensures
            image(unit, Primitive::Acos, *self, r),
    {
        self.map_real(Primitive::Acos, unit)
    }

    /// The arc tangent of a real; undefined for anything else.
    pub fn atan<U: Fn(Primitive, u64, u64) -> u64>(&self, unit: &U) -> (r: Number)
        requires
            total(unit),
        ensures
            image(unit, Primitive::Atan, *self, r),
    {
        self.map_real(Primitive::Atan, unit)
    }

    /// The inverse hyperbolic sine of a real; undefined for anything else.
    pub fn asinh<U: Fn(Primitive, u64, u64) -> u64>(&self, unit: &U) -> (r: Number)
        requires
            total(unit),
        ensures
            image(unit, Primitive::Asinh, *self, r),
    {
        self.map_real(Primitive::Asinh, unit)
    }

    /// The inverse hyperbolic cosine of a real; undefined for anything else.
    pub fn acosh<U: Fn(Primitive, u64, u64) -> u64>(&self, unit: &U) -> (r: Number)
        requires
            total(unit),
        ensures
            image(unit, Primitive::Acosh, *self, r),
    {
        self.map_real(Primitive::Acosh, unit)
    }

    /// The inverse hyperbolic tangent of a real; undefined for anything else.
    pub fn atanh<U: Fn(Primitive, u64, u64) -> u64>(&self, unit: &U) -> (r: Number)
        requires
            total(unit),
        ensures
            image(unit, Primitive::Atanh, *self, r),
    {
        self.map_real(Primitive::Atanh, unit)
    }

    /// Can the factorial of this value be taken?
    pub fn has_factorial(&self) -> (r: bool)
        ensures
            r == self.factorial_defined(),
    {
        match self {
            Number::Real(x) => binary64::to_index(*x, FACTORIAL_LIMIT).is_some(),
            _ => true,
        }
    }

    /// The factorial, by repeated multiplication. A real must hold a natural
    /// number up to the limit.
    pub fn factorial<U: Fn(Primitive, u64, u64) -> u64>(&self, unit: &U) -> (r: Number)
        requires
            total(unit),
            self.factorial_defined(),
        ensures
            factorial_of(unit, *self, r),
    {
        match self {
            Number::NaN => Number::NaN,
            Number::Complex(x, z) => Number::Complex(*x, *z).gamma(10),
            Number::Real(x) => {
                let n: u64 = binary64::to_index(*x, FACTORIAL_LIMIT).unwrap();
                let mut acc: u64 = ONE;
                let mut i: u64 = 0;
                while i < n
                    invariant
                        total(unit),
                        i <= n <= FACTORIAL_LIMIT,
                        rising_product(unit, i as nat, acc),
                    decreases n - i,
                {
                    i += 1;
                    let m = binary64::from_index(i);
                    let next = apply(unit, Primitive::Mul, acc, m);
                    acc = next;
                }
                Number::Real(acc)
            },
        }
    }

    /// The gamma function is not estimated: a complex gives a real zero,
    /// anything else is undefined. The number of iterations is not read.
    pub fn gamma(&self, _iters: usize) -> (r: Number)
        ensures
            r == (if *self is Complex {
                Number::Real(ZERO)
            } else {
                Number::NaN
            }),
    {
        match self {
            Number::Complex(_, _) => Number::Real(ZERO),
            _ => Number::NaN,
        }
    }

    /// The arc tangent of the quotient of two reals, in the quadrant that
    /// their signs give; undefined for anything else.
    pub fn atan2<U: Fn(Primitive, u64, u64) -> u64>(&self, other: Number, unit: &U) -> (r: Number)
        requires
            total(unit),
        ensures
            angle(unit, *self, other, r),
    {
        match (*self, other) {
            (Number::Real(x), Number::Real(y)) => Number::Real(
                apply(unit, Primitive::Atan2, x, y),
            ),
            _ => Number::NaN,
        }
    }
}

/// The sum of two reals is a real, and no other: the one whose pattern the
/// unit gives for the sum of their patterns.
pub proof fn real_sum<U: Fn(Primitive, u64, u64) -> u64>(unit: &U, a: u64, b: u64, r: Number)
    ensures
        sum(unit, Number::Real(a), Number::Real(b), r) <==> (r matches Number::Real(z) && yields(
            unit,
            Primitive::Add,
            a,
            b,
            z,
        )),
{
}

/// The difference of two reals is a real, and no other: the one whose
/// pattern the unit gives for the difference of their patterns.
pub proof fn real_difference<U: Fn(Primitive, u64, u64) -> u64>(
    unit: &U,
    a: u64,
    b: u64,
    r: Number,
)
    ensures
        difference(unit, Number::Real(a), Number::Real(b), r) <==> (r matches Number::Real(z)
            && yields(unit, Primitive::Sub, a, b, z)),
{
}

/// The product of two reals is a real, and no other: the one whose pattern
/// the unit gives for the product of their patterns.
pub proof fn real_product<U: Fn(Primitive, u64, u64) -> u64>(unit: &U, a: u64, b: u64, r: Number)
    ensures
        product(unit, Number::Real(a), Number::Real(b), r) <==> (r matches Number::Real(z)
            && yields(unit, Primitive::Mul, a, b, z)),
{
}

/// A real divided by a real zero, of either sign, is undefined, whatever the
/// unit would give.
pub proof fn real_quotient_by_zero<U: Fn(Primitive, u64, u64) -> u64>(
    unit: &U,
    a: u64,
    b: u64,
    r: Number,
)
    requires
        binary64::zero(b),
    ensures
        quotient(unit, Number::Real(a), Number::Real(b), r) <==> r == Number::NaN,
{
}

/// A real divided by a real that is not zero is a real, and no other: the
/// one whose pattern the unit gives for the quotient of their patterns.
pub proof fn real_quotient<U: Fn(Primitive, u64, u64) -> u64>(unit: &U, a: u64, b: u64, r: Number)
    requires
        !binary64::zero(b),
    ensures
        quotient(unit, Number::Real(a), Number::Real(b), r) <==> (r matches Number::Real(z)
            && yields(unit, Primitive::Div, a, b, z)),
{
}

/// The undefined value absorbs: with it as an operand, on either side, every
/// operation of two operands gives it back.
pub proof fn undefined_absorbs<U: Fn(Primitive, u64, u64) -> u64>(
    unit: &U,
    a: Number,
    b: Number,
    r: Number,
)
    requires
        a is NaN || b is NaN,
    ensures
        sum(unit, a, b, r) <==> r == Number::NaN,
        difference(unit, a, b, r) <==> r == Number::NaN,
        product(unit, a, b, r) <==> r == Number::NaN,
        quotient(unit, a, b, r) <==> r == Number::NaN,
        power(unit, a, b, r) <==> r == Number::NaN,
        angle(unit, a, b, r) <==> r == Number::NaN,
{
}

/// The undefined value absorbs every operation of one operand: its image
/// under a function of one real operand, its inverse, its negation, its
/// conjugate and its factorial are undefined.
pub proof fn undefined_stays<U: Fn(Primitive, u64, u64) -> u64>(
    unit: &U,
    op: Primitive,
    r: Number,
)
    ensures
        image(unit, op, Number::NaN, r) <==> r == Number::NaN,
        inverse(unit, Number::NaN, r) <==> r == Number::NaN,
        factorial_of(unit, Number::NaN, r) <==> r == Number::NaN,
        Number::NaN.negated() == Number::NaN,
        Number::NaN.conjugated() == Number::NaN,
{
}

/// A function of one real operand is not defined on a complex.
pub proof fn complex_image_is_undefined<U: Fn(Primitive, u64, u64) -> u64>(
    unit: &U,
    op: Primitive,
    x: u64,
    y: u64,
    r: Number,
)
    ensures
        image(unit, op, Number::Complex(x, y), r) <==> r == Number::NaN,
{
}

/// The root rule: a real below zero raised to one half, one quarter, one
/// eighth and so on lies on the imaginary axis, its imaginary part the
/// unit's power of the base's magnitude.
pub proof fn root_of_negative_is_imaginary<U: Fn(Primitive, u64, u64) -> u64>(
    unit: &U,
    x: u64,
    p: u64,
    r: Number,
)
    requires
        binary64::negative(x),
        binary64::inverse_power_of_two(p),
    ensures
        power(unit, Number::Real(x), Number::Real(p), r) <==> (r matches Number::Complex(re, im)
            && re == ZERO && yields(unit, Primitive::Pow, binary64::magnitude(x), p, im)),
{
}

/// Negating twice, and conjugating twice, give the value back.
pub proof fn negation_and_conjugate_undo_themselves(a: Number)
    ensures
        a.negated().negated() == a,
        a.conjugated().conjugated() == a,
{
}

/// With a unit that is a function, the sum of products and the difference
/// of products are functions of their operands.
proof fn products_are_single_valued<U: Fn(Primitive, u64, u64) -> u64>(
    unit: &U,
    a: u64,
    b: u64,
    c: u64,
    d: u64,
    r1: u64,
    r2: u64,
)
    requires
        single_valued(unit),
    ensures
        dot(unit, a, b, c, d, r1) && dot(unit, a, b, c, d, r2) ==> r1 == r2,
        cross(unit, a, b, c, d, r1) && cross(unit, a, b, c, d, r2) ==> r1 == r2,
{
    if dot(unit, a, b, c, d, r1) && dot(unit, a, b, c, d, r2) {
        let (p1, q1) = choose|p: u64, q: u64|
            yields(unit, Primitive::Mul, a, b, p) && yields(unit, Primitive::Mul, c, d, q)
                && #[trigger] yields(unit, Primitive::Add, p, q, r1);
        let (p2, q2) = choose|p: u64, q: u64|
            yields(unit, Primitive::Mul, a, b, p) && yields(unit, Primitive::Mul, c, d, q)
                && #[trigger] yields(unit, Primitive::Add, p, q, r2);
        assert(p1 == p2 && q1 == q2);
    }
    if cross(unit, a, b, c, d, r1) && cross(unit, a, b, c, d, r2) {
        let (p1, q1) = choose|p: u64, q: u64|
            yields(unit, Primitive::Mul, a, b, p) && yields(unit, Primitive::Mul, c, d, q)
                && #[trigger] yields(unit, Primitive::Sub, p, q, r1);
        let (p2, q2) = choose|p: u64, q: u64|
            yields(unit, Primitive::Mul, a, b, p) && yields(unit, Primitive::Mul, c, d, q)
                && #[trigger] yields(unit, Primitive::Sub, p, q, r2);
        assert(p1 == p2 && q1 == q2);
    }
}

/// With a unit that is a function, the quotients of a sum or a difference of
/// products are functions of their operands.
proof fn ratios_are_single_valued<U: Fn(Primitive, u64, u64) -> u64>(
    unit: &U,
    a: u64,
    b: u64,
    c: u64,
    d: u64,
    e: u64,
    r1: u64,
    r2: u64,
)
    requires
        single_valued(unit),
    ensures
        dot_ratio(unit, a, b, c, d, e, r1) && dot_ratio(unit, a, b, c, d, e, r2) ==> r1 == r2,
        cross_ratio(unit, a, b, c, d, e, r1) && cross_ratio(unit, a, b, c, d, e, r2) ==> r1
            == r2,
{
    if dot_ratio(unit, a, b, c, d, e, r1) && dot_ratio(unit, a, b, c, d, e, r2) {
        let n1 = choose|n: u64|
            dot(unit, a, b, c, d, n) && #[trigger] yields(unit, Primitive::Div, n, e, r1);
        let n2 = choose|n: u64|
            dot(unit, a, b, c, d, n) && #[trigger] yields(unit, Primitive::Div, n, e, r2);
        products_are_single_valued(unit, a, b, c, d, n1, n2);
    }
    if cross_ratio(unit, a, b, c, d, e, r1) && cross_ratio(unit, a, b, c, d, e, r2) {
        let n1 = choose|n: u64|
            cross(unit, a, b, c, d, n) && #[trigger] yields(unit, Primitive::Div, n, e, r1);
        let n2 = choose|n: u64|
            cross(unit, a, b, c, d, n) && #[trigger] yields(unit, Primitive::Div, n, e, r2);
        products_are_single_valued(unit, a, b, c, d, n1, n2);
    }
}

/// With a unit that is a function, the rising product is a function of its
/// last factor.
proof fn rising_product_is_single_valued<U: Fn(Primitive, u64, u64) -> u64>(
    unit: &U,
    n: nat,
    r1: u64,
    r2: u64,
)
    requires
        single_valued(unit),
        rising_product(unit, n, r1),
        rising_product(unit, n, r2),
    ensures
        r1 == r2,
    decreases n,
{
    if n > 0 {
        let (p1, m1) = choose|p: u64, m: u64|
            rising_product(unit, (n - 1) as nat, p) && m < binary64::SIGN && binary64::encodes(m, n)
                && #[trigger] yields(unit, Primitive::Mul, p, m, r1);
        let (p2, m2) = choose|p: u64, m: u64|
            rising_product(unit, (n - 1) as nat, p) && m < binary64::SIGN && binary64::encodes(m, n)
                && #[trigger] yields(unit, Primitive::Mul, p, m, r2);
        rising_product_is_single_valued(unit, (n - 1) as nat, p1, p2);
        binary64::pattern_is_unique(m1, m2, n);
    }
}

/// With a unit that is a function, every operation of two operands is a
/// function: the operands admit one result.
pub proof fn arithmetic_is_single_valued<U: Fn(Primitive, u64, u64) -> u64>(
    unit: &U,
    a: Number,
    b: Number,
    r1: Number,
    r2: Number,
)
    requires
        single_valued(unit),
    ensures
        sum(unit, a, b, r1) && sum(unit, a, b, r2) ==> r1 == r2,
        difference(unit, a, b, r1) && difference(unit, a, b, r2) ==> r1 == r2,
        product(unit, a, b, r1) && product(unit, a, b, r2) ==> r1 == r2,
        quotient(unit, a, b, r1) && quotient(unit, a, b, r2) ==> r1 == r2,
        power(unit, a, b, r1) && power(unit, a, b, r2) ==> r1 == r2,
        angle(unit, a, b, r1) && angle(unit, a, b, r2) ==> r1 == r2,
{
    products_are_single_valued(unit, a.re(), b.re(), a.im(), b.im(), r1.re(), r2.re());
    products_are_single_valued(unit, a.re(), b.im(), a.im(), b.re(), r1.im(), r2.im());
    if quotient(unit, a, b, r1) && quotient(unit, a, b, r2) && (a is Complex || b is Complex)
        && !(a is NaN) && !(b is NaN) {
        let d1 = choose|d: u64|
            dot(unit, b.re(), b.re(), b.im(), b.im(), d) && #[trigger] complex_quotient(
                unit,
                a.re(),
                a.im(),
                b.re(),
                b.im(),
                d,
                r1,
            );
        let d2 = choose|d: u64|
            dot(unit, b.re(), b.re(), b.im(), b.im(), d) && #[trigger] complex_quotient(
                unit,
                a.re(),
                a.im(),
                b.re(),
                b.im(),
                d,
                r2,
            );
        products_are_single_valued(unit, b.re(), b.re(), b.im(), b.im(), d1, d2);
        ratios_are_single_valued(unit, a.re(), b.re(), a.im(), b.im(), d1, r1.re(), r2.re());
        ratios_are_single_valued(unit, a.im(), b.re(), a.re(), b.im(), d1, r1.im(), r2.im());
    }
}

/// With a unit that is a function, every operation of one operand is a
/// function: the operand admits one result.
pub proof fn functions_are_single_valued<U: Fn(Primitive, u64, u64) -> u64>(
    unit: &U,
    op: Primitive,
    a: Number,
    r1: Number,
    r2: Number,
)
    requires
        single_valued(unit),
    ensures
        image(unit, op, a, r1) && image(unit, op, a, r2) ==> r1 == r2,
        inverse(unit, a, r1) && inverse(unit, a, r2) ==> r1 == r2,
        factorial_of(unit, a, r1) && factorial_of(unit, a, r2) ==> r1 == r2,
{
    if let Number::Complex(x, y) = a {
        if inverse(unit, a, r1) && inverse(unit, a, r2) {
            let d1 = choose|d: u64|
                dot(unit, x, x, y, y, d) && #[trigger] complex_inverse(unit, x, y, d, r1);
            let d2 = choose|d: u64|
                dot(unit, x, x, y, y, d) && #[trigger] complex_inverse(unit, x, y, d, r2);
            products_are_single_valued(unit, x, x, y, y, d1, d2);
            binary64::negation_keeps_magnitude(r1.im());
            binary64::negation_keeps_magnitude(r2.im());
        }
    }
    if let Number::Real(x) = a {
        if factorial_of(unit, a, r1) && factorial_of(unit, a, r2) {
            let n1 = choose|n: nat|
                n <= FACTORIAL_LIMIT && x <= binary64::SIGN && #[trigger] binary64::encodes(x, n)
                    && rising_product(unit, n, r1.re());
            let n2 = choose|n: nat|
                n <= FACTORIAL_LIMIT && x <= binary64::SIGN && #[trigger] binary64::encodes(x, n)
                    && rising_product(unit, n, r2.re());
            binary64::encoding_is_unique(x, n1, n2);
            rising_product_is_single_valued(unit, n1, r1.re(), r2.re());
        }
    }
}

/// With a formatter that is a function, a number has one text.
pub proof fn number_text_is_single_valued<S: Fn(u64) -> String>(
    show: &S,
    a: Number,
    s1: Seq<char>,
    s2: Seq<char>,
)
    requires
        single_worded(show),
        a.text(show, s1),
        a.text(show, s2),
    ensures
        s1 == s2,
{
    match a {
        Number::NaN => {},
        Number::Real(x) => {
            shown_is_single_valued(show, x, s1, s2);
        },
        Number::Complex(x, z) => {
            let (p1, q1) = choose|p: Seq<char>, q: Seq<char>|
                shown(show, x, p) && shown(show, z, q) && s1 == #[trigger] joined(
                    p,
                    binary64::negative(z),
                    q,
                );
            let (p2, q2) = choose|p: Seq<char>, q: Seq<char>|
                shown(show, x, p) && shown(show, z, q) && s2 == #[trigger] joined(
                    p,
                    binary64::negative(z),
                    q,
                );
            shown_is_single_valued(show, x, p1, p2);
            shown_is_single_valued(show, z, q1, q2);
        },
    }
}

/// With a formatter that is a function, a pattern has one text.
proof fn shown_is_single_valued<S: Fn(u64) -> String>(
    show: &S,
    b: u64,
    s1: Seq<char>,
    s2: Seq<char>,
)
    requires
        single_worded(show),
        shown(show, b, s1),
        shown(show, b, s2),
    ensures
        s1 == s2,
{
    let t1 = choose|t: String| #[trigger] renders(show, b, t) && t@ == s1;
    let t2 = choose|t: String| #[trigger] renders(show, b, t) && t@ == s2;
}

/// The undefined value.
pub fn nan() -> (r: Number)
    ensures
        r == Number::NaN,
{
    Number::NaN
}

/// The real with the pattern `x`.
pub fn real_number(x: u64) -> (r: Number)
    ensures
        r == Number::Real(x),
{
    Number::Real(x)
}

/// The imaginary number with the pattern `x`: a complex with real part zero.
pub fn imag(x: u64) -> (r: Number)
    ensures
        r == Number::Complex(ZERO, x),
{
    Number::Complex(ZERO, x)
}

/// The complex with the patterns `x` and `z`.
pub fn complex(x: u64, z: u64) -> (r: Number)
    ensures
        r == Number::Complex(x, z),
{
    Number::Complex(x, z)
}

} // verus!
