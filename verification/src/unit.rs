//! What the caller supplies: the arithmetic unit, which is the rounding
//! operations on binary64 values as one function on bit patterns, and the
//! formatter, which writes a binary64 value as text.
//!
//! Nothing is assumed of either but that it can be called on every input.
//! Contracts speak of what they returned, through [`yields`] and [`shown`].
use vstd::prelude::*;

verus! {

/// The operations asked of the unit. Those of one operand ignore the second.
#[derive(Clone, Copy, Debug, PartialEq, Eq, Structural)]
pub enum Primitive {
    Add,
    Sub,
    Mul,
    Div,
    Pow,
    Atan2,
    Sin,
    Cos,
    Tan,
    Sinh,
    Cosh,
    Tanh,
    Asin,
    Acos,
    Atan,
    Asinh,
    Acosh,
    Atanh,
    Exp,
    Ln,
}

/// The unit accepts every operation on every pair of patterns.
pub open spec fn total<U: Fn(Primitive, u64, u64) -> u64>(unit: &U) -> bool {
    forall|op: Primitive, a: u64, b: u64| call_requires(*unit, (op, a, b))
}

/// `r` is a pattern that the unit may hand back for `op` on `a` and `b`.
pub open spec fn yields<U: Fn(Primitive, u64, u64) -> u64>(
    unit: &U,
    op: Primitive,
    a: u64,
    b: u64,
    r: u64,
) -> bool {
    call_ensures(*unit, (op, a, b), r)
}

/// The unit is a function: it has one result for each operation on each
/// pair of patterns.
pub open spec fn single_valued<U: Fn(Primitive, u64, u64) -> u64>(unit: &U) -> bool {
    forall|op: Primitive, a: u64, b: u64, r1: u64, r2: u64|
        #[trigger] yields(unit, op, a, b, r1) && #[trigger] yields(unit, op, a, b, r2) ==> r1
            == r2
}

/// Runs the unit once.
pub fn apply<U: Fn(Primitive, u64, u64) -> u64>(unit: &U, op: Primitive, a: u64, b: u64) -> (r:
    u64)
    requires
        total(unit),
    ensures
        yields(unit, op, a, b, r),
{
    unit(op, a, b)
}

/// The formatter accepts every pattern.
pub open spec fn legible<S: Fn(u64) -> String>(show: &S) -> bool {
    forall|b: u64| call_requires(*show, (b,))
}

/// `t` is a text that the formatter may hand back for the pattern `b`.
pub open spec fn renders<S: Fn(u64) -> String>(show: &S, b: u64, t: String) -> bool {
    call_ensures(*show, (b,), t)
}

/// `s` is the formatter's text for the pattern `b`.
pub open spec fn shown<S: Fn(u64) -> String>(show: &S, b: u64, s: Seq<char>) -> bool {
    exists|t: String| #[trigger] renders(show, b, t) && t@ == s
}

/// The formatter is a function: it has one text for each pattern.
pub open spec fn single_worded<S: Fn(u64) -> String>(show: &S) -> bool {
    forall|b: u64, t1: String, t2: String|
        #[trigger] renders(show, b, t1) && #[trigger] renders(show, b, t2) ==> t1@ == t2@
}

/// Runs the formatter once.
pub fn print<S: Fn(u64) -> String>(show: &S, b: u64) -> (t: String)
    requires
        legible(show),
    ensures
        shown(show, b, t@),
{
    let t = show(b);
    assert(renders(show, b, t));
    t
}

} // verus!
