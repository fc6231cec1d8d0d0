//! A small symbolic-algebra kernel: expression trees over a numeric tower of
//! real and complex binary64 values, with evaluation, symbolic differentiation
//! and algebraic simplification.
//!
//! The kernel never computes on machine floats itself. A binary64 value is
//! held by its bit pattern, the tests on such a value (zero, sign, wholeness)
//! are integer logic proved here, and the rounding arithmetic is supplied by
//! the caller as an arithmetic unit: a function from an operation and two bit
//! patterns to a bit pattern. Every contract says what is returned for
//! whatever the unit hands back.
pub mod binary64;
pub mod unit;
pub mod number;
pub mod expr;
pub mod calc;
