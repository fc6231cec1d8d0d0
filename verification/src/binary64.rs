//! IEEE 754 binary64 values held by their bit patterns: the sign in bit 63,
//! the biased exponent in bits 52 to 62, the fraction in bits 0 to 51.
//!
//! Everything here is integer logic on the pattern. Operations that round
//! (sums, products, quotients, powers, the transcendental functions) are not
//! here: they belong to the arithmetic unit.
use vstd::arithmetic::div_mod::{
    lemma_fundamental_div_mod, lemma_fundamental_div_mod_converse_div,
    lemma_fundamental_div_mod_converse_mod, lemma_mod_multiples_basic,
};
use vstd::arithmetic::mul::{lemma_mul_equality_converse, lemma_mul_is_associative};
use vstd::arithmetic::power2::{
    lemma2_to64, lemma2_to64_rest, lemma_pow2_adds, lemma_pow2_pos, lemma_pow2_strictly_increases,
    lemma_pow2_unfold, pow2,
};
use vstd::prelude::*;

verus! {

/// The pattern with only the sign bit set; it is also negative zero.
pub const SIGN: u64 = 0x8000_0000_0000_0000;

/// Positive infinity: all exponent bits set, fraction zero.
pub const INFINITY: u64 = 0x7FF0_0000_0000_0000;

/// Two to the 52nd: the weight of the lowest exponent bit, and the implicit
/// leading bit of a normal significand.
pub const HIDDEN: u64 = 0x0010_0000_0000_0000;

/// Positive zero.
pub const ZERO: u64 = 0;

/// The value one half.
pub const HALF: u64 = 0x3FE0_0000_0000_0000;

/// The value one.
pub const ONE: u64 = 0x3FF0_0000_0000_0000;

/// The value minus one.
pub const MINUS_ONE: u64 = 0xBFF0_0000_0000_0000;

/// The value two.
pub const TWO: u64 = 0x4000_0000_0000_0000;

/// The value three.
pub const THREE: u64 = 0x4008_0000_0000_0000;

/// The value ten.
pub const TEN: u64 = 0x4024_0000_0000_0000;

/// The binary64 nearest to the decimal 3.14159265359.
pub const PI: u64 = 0x4009_21FB_5444_2EEA;

/// The binary64 nearest to the decimal 2.71828182845.
pub const EULER: u64 = 0x4005_BF0A_8B14_07D9;

/// The pattern with the sign bit cleared.
pub open spec fn magnitude(b: u64) -> u64 {
    if b >= SIGN {
        (b - SIGN) as u64
    } else {
        b
    }
}

/// The pattern with the sign bit flipped: the negated value.
pub open spec fn negation(b: u64) -> u64 {
    if b >= SIGN {
        (b - SIGN) as u64
    } else {
        (b + SIGN) as u64
    }
}

/// Not a number: exponent all ones, fraction not zero.
pub open spec fn nan(b: u64) -> bool {
    magnitude(b) > INFINITY
}

/// Neither infinite nor not-a-number.
pub open spec fn finite(b: u64) -> bool {
    magnitude(b) < INFINITY
}

/// Positive or negative zero.
pub open spec fn zero(b: u64) -> bool {
    magnitude(b) == 0
}

/// Strictly below zero: the sign is set and the value is neither a zero nor
/// not-a-number.
pub open spec fn negative(b: u64) -> bool {
    b > SIGN && !nan(b)
}

/// Equality of values: not-a-number equals nothing, the two zeros are equal,
/// and every other value has one pattern.
pub open spec fn equal(a: u64, b: u64) -> bool {
    !nan(a) && !nan(b) && (a == b || (zero(a) && zero(b)))
}

/// The biased exponent field.
pub open spec fn exponent(b: u64) -> nat {
    (magnitude(b) / HIDDEN) as nat
}

/// The fraction field.
pub open spec fn fraction(b: u64) -> nat {
    (magnitude(b) % HIDDEN) as nat
}

/// The integer significand of a finite pattern: the fraction, with the
/// implicit leading bit unless the pattern is subnormal or zero.
pub open spec fn significand(b: u64) -> nat {
    if exponent(b) == 0 {
        fraction(b)
    } else {
        fraction(b) + HIDDEN as nat
    }
}

/// The binary scale of a finite pattern: its magnitude is
/// `significand(b) * 2^(scale(b) - 1075)`.
pub open spec fn scale(b: u64) -> nat {
    if exponent(b) == 0 {
        1
    } else {
        exponent(b)
    }
}

/// The magnitude of the finite pattern `b` is the natural number `n`:
/// `significand(b) * 2^(scale(b) - 1075) == n`, with the power of two moved
/// to the other side.
pub open spec fn encodes(b: u64, n: nat) -> bool {
    finite(b) && significand(b) * pow2(scale(b)) == n * pow2(1075)
}

/// A natural number up to `limit`: not below zero, finite, and whole.
pub open spec fn natural_within(b: u64, limit: nat) -> bool {
    exists|n: nat| n <= limit && b <= SIGN && #[trigger] encodes(b, n)
}

/// A finite value with no fractional part.
pub open spec fn whole(b: u64) -> bool {
    exists|n: nat| encodes(b, n)
}

/// A positive finite value whose product with `2^k` is one.
pub open spec fn inverse_of_pow2(b: u64, k: nat) -> bool {
    b < SIGN && finite(b) && significand(b) * pow2(scale(b)) * pow2(k) == pow2(1075)
}

/// One half, one quarter, one eighth and so on: a value `2^(-k)` with
/// `k >= 1`.
pub open spec fn inverse_power_of_two(b: u64) -> bool {
    exists|k: nat| k >= 1 && #[trigger] inverse_of_pow2(b, k)
}

/// The pattern of the absolute value.
pub fn absolute(b: u64) -> (r: u64)
    ensures
        r == magnitude(b),
{
    if b >= SIGN {
        b - SIGN
    } else {
        b
    }
}

/// The pattern of the negated value.
pub fn negate(b: u64) -> (r: u64)
    ensures
        r == negation(b),
{
    if b >= SIGN {
        b - SIGN
    } else {
        b + SIGN
    }
}

/// Is the pattern not a number?
pub fn is_nan(b: u64) -> (r: bool)
    ensures
        r == nan(b),
{
    absolute(b) > INFINITY
}

/// Is the value neither infinite nor not a number?
pub fn is_finite(b: u64) -> (r: bool)
    ensures
        r == finite(b),
{
    absolute(b) < INFINITY
}

/// Is the value a zero, of either sign?
pub fn is_zero(b: u64) -> (r: bool)
    ensures
        r == zero(b),
{
    absolute(b) == 0
}

/// Is the value strictly below zero?
pub fn is_negative(b: u64) -> (r: bool)
    ensures
        r == negative(b),
{
    b > SIGN && !is_nan(b)
}

/// Do the two patterns hold equal values?
pub fn is_equal(a: u64, b: u64) -> (r: bool)
    ensures
        r == equal(a, b),
{
    !is_nan(a) && !is_nan(b) && (a == b || (is_zero(a) && is_zero(b)))
}

/// A positive factor cancels from both sides of an equation.
proof fn lemma_cancel(x: nat, y: nat, m: nat)
    requires
        m > 0,
        x * m == y * m,
    ensures
        x == y,
{
    lemma_mul_equality_converse(m as int, x as int, y as int);
}

/// `a < b` from `2^a < 2^b`.
proof fn lemma_pow2_order(a: nat, b: nat)
    requires
        pow2(a) < pow2(b),
    ensures
        a < b,
{
    if a > b {
        lemma_pow2_strictly_increases(b, a);
    }
}

/// `2^a <= 2^b` from `a <= b`.
proof fn lemma_pow2_monotone(a: nat, b: nat)
    requires
        a <= b,
    ensures
        pow2(a) <= pow2(b),
{
    if a < b {
        lemma_pow2_strictly_increases(a, b);
    }
}

/// The fields of a pattern give it back, and bound each other.
proof fn lemma_fields(b: u64)
    ensures
        magnitude(b) == exponent(b) * HIDDEN + fraction(b),
        fraction(b) < HIDDEN,
        exponent(b) < 2048,
        finite(b) <==> exponent(b) < 2047,
        HIDDEN == pow2(52),
        significand(b) < pow2(53),
        exponent(b) > 0 ==> significand(b) >= pow2(52),
        zero(b) <==> significand(b) == 0,
{
    lemma2_to64_rest();
    lemma_fundamental_div_mod(magnitude(b) as int, HIDDEN as int);
}

/// A finite pattern encodes at most one natural number.
pub proof fn encoding_is_unique(b: u64, n: nat, m: nat)
    requires
        encodes(b, n),
        encodes(b, m),
    ensures
        n == m,
{
    lemma_pow2_pos(1075);
    lemma_cancel(n, m, pow2(1075));
}

/// A natural number is encoded by at most one pattern without the sign bit:
/// the encoding is normalised.
pub proof fn pattern_is_unique(a: u64, b: u64, n: nat)
    requires
        a < SIGN,
        b < SIGN,
        encodes(a, n),
        encodes(b, n),
    ensures
        a == b,
{
    lemma_fields(a);
    lemma_fields(b);
    lemma_pow2_pos(scale(a));
    lemma_pow2_pos(scale(b));
    if significand(a) == 0 || significand(b) == 0 {
        assert(significand(a) * pow2(scale(a)) == 0 ==> significand(a) == 0) by (nonlinear_arith)
            requires
                pow2(scale(a)) > 0,
        ;
        assert(significand(b) * pow2(scale(b)) == 0 ==> significand(b) == 0) by (nonlinear_arith)
            requires
                pow2(scale(b)) > 0,
        ;
        assert(0 * pow2(scale(a)) == 0 && 0 * pow2(scale(b)) == 0);
    } else {
        if scale(a) <= scale(b) {
            lemma_scales_agree(a, b);
        } else {
            lemma_scales_agree(b, a);
        }
        lemma_cancel(significand(a), significand(b), pow2(scale(a)));
    }
}

/// Two finite patterns of the same magnitude have the same scale: with a
/// greater scale on one side, the significand on the other would not fit.
proof fn lemma_scales_agree(a: u64, b: u64)
    requires
        finite(a),
        finite(b),
        scale(a) <= scale(b),
        significand(a) * pow2(scale(a)) == significand(b) * pow2(scale(b)),
    ensures
        scale(a) == scale(b),
{
    if scale(a) < scale(b) {
        lemma_fields(a);
        lemma_fields(b);
        let d = (scale(b) - scale(a)) as nat;
        lemma_pow2_adds(d, scale(a));
        lemma_pow2_pos(scale(a));
        lemma_mul_is_associative(significand(b) as int, pow2(d) as int, pow2(scale(a)) as int);
        lemma_cancel(significand(a), significand(b) * pow2(d), pow2(scale(a)));
        lemma_pow2_monotone(1, d);
        lemma2_to64();
        assert(significand(b) * pow2(d) >= pow2(52) * 2) by (nonlinear_arith)
            requires
                significand(b) >= pow2(52),
                pow2(d) >= 2,
        ;
        lemma_pow2_unfold(53);
    }
}

/// Negating twice gives the pattern back, and negating changes neither the
/// magnitude nor whether the value is a number.
pub proof fn negation_keeps_magnitude(b: u64)
    ensures
        negation(negation(b)) == b,
        magnitude(negation(b)) == magnitude(b),
        nan(negation(b)) == nan(b),
        zero(negation(b)) == zero(b),
{
}

/// Equality of values is symmetric, holds of every pattern but not-a-number
/// with itself, and is transitive.
pub proof fn equality_of_values(a: u64, b: u64, c: u64)
    ensures
        equal(a, b) == equal(b, a),
        equal(a, a) == !nan(a),
        equal(a, b) && equal(b, c) ==> equal(a, c),
{
}

/// A value below zero is the negation of a value above zero, and no value is
/// both below zero and zero.
pub proof fn signs(b: u64)
    ensures
        negative(b) ==> !zero(b) && !negative(negation(b)) && !nan(b),
        !negative(b) && !zero(b) && !nan(b) ==> negative(negation(b)),
{
}

/// Two to the `k`, for a `k` that fits.
fn power_of_two(k: u64) -> (p: u64)
    requires
        k <= 63,
    ensures
        p == pow2(k as nat),
{
    let mut p: u64 = 1;
    let mut i: u64 = 0;
    proof {
        lemma2_to64();
    }
    while i < k
        invariant
            i <= k <= 63,
            p == pow2(i as nat),
        decreases k - i,
    {
        proof {
            lemma_pow2_unfold((i + 1) as nat);
            lemma_pow2_monotone((i + 1) as nat, 63);
            lemma2_to64_rest();
        }
        p = p * 2;
        i += 1;
    }
    p
}

/// What it takes for a finite pattern to encode a natural number, by the
/// range of its exponent.
proof fn lemma_encodes(b: u64, n: nat)
    requires
        finite(b),
    ensures
        exponent(b) >= 1075 ==> (encodes(b, n) <==> n == significand(b) * pow2(
            (exponent(b) - 1075) as nat,
        )),
        1023 <= exponent(b) < 1075 ==> (encodes(b, n) <==> significand(b) == n * pow2(
            (1075 - exponent(b)) as nat,
        )),
        exponent(b) < 1023 ==> (encodes(b, n) <==> n == 0 && zero(b)),
{
    lemma_fields(b);
    let e = exponent(b);
    let s = significand(b);
    lemma_pow2_pos(1075);
    lemma_pow2_pos(scale(b));
    if e >= 1075 {
        let d = (e - 1075) as nat;
        lemma_pow2_adds(d, 1075);
        lemma_mul_is_associative(s as int, pow2(d) as int, pow2(1075) as int);
        assert(s * pow2(e) == (s * pow2(d)) * pow2(1075));
        if encodes(b, n) {
            lemma_cancel(n, s * pow2(d), pow2(1075));
        }
    } else if e >= 1023 {
        let d = (1075 - e) as nat;
        lemma_pow2_adds(d, e);
        lemma_mul_is_associative(n as int, pow2(d) as int, pow2(e) as int);
        assert(n * pow2(1075) == (n * pow2(d)) * pow2(e));
        if encodes(b, n) {
            lemma_cancel(s, n * pow2(d), pow2(e));
        }
    } else {
        let c = scale(b);
        lemma_pow2_adds(53, c);
        lemma_pow2_monotone(53 + c, 1075);
        assert(s * pow2(c) < pow2(53) * pow2(c) || s * pow2(c) == 0) by (nonlinear_arith)
            requires
                s < pow2(53),
                pow2(c) > 0,
        ;
        assert(n >= 1 ==> n * pow2(1075) >= pow2(1075)) by (nonlinear_arith);
        assert(s * pow2(c) == 0 ==> s == 0) by (nonlinear_arith)
            requires
                pow2(c) > 0,
        ;
        assert(n == 0 ==> n * pow2(1075) == 0);
    }
}

/// Does the pattern hold a finite value with no fractional part?
pub fn is_whole(b: u64) -> (r: bool)
    ensures
        r == whole(b),
{
    let m = absolute(b);
    proof {
        lemma_fields(b);
        assert forall|n: nat| finite(b) implies (exponent(b) >= 1075 ==> (encodes(b, n) <==> n
            == significand(b) * pow2((exponent(b) - 1075) as nat))) && (1023 <= exponent(b) < 1075
            ==> (encodes(b, n) <==> significand(b) == n * pow2((1075 - exponent(b)) as nat))) && (
        exponent(b) < 1023 ==> (encodes(b, n) <==> n == 0 && zero(b))) by {
            lemma_encodes(b, n);
        }
    }
    if m >= INFINITY {
        false
    } else if m == 0 {
        assert(encodes(b, 0));
        true
    } else {
        let e: u64 = m / HIDDEN;
        if e >= 1075 {
            assert(encodes(b, significand(b) * pow2((exponent(b) - 1075) as nat)));
            true
        } else if e < 1023 {
            false
        } else {
            let frac: u64 = m % HIDDEN;
            let p = power_of_two(1075 - e);
            proof {
                let d = (1075 - e) as nat;
                let top = pow2((52 - d) as nat);
                lemma_pow2_adds((52 - d) as nat, d);
                lemma_pow2_pos(d);
                assert(significand(b) == frac + top * p);
                if frac % p == 0 {
                    lemma_fundamental_div_mod(frac as int, p as int);
                    let q = (frac / p) as nat;
                    assert(frac == p * q);
                    assert(significand(b) == (q + top) * p) by (nonlinear_arith)
                        requires
                            significand(b) == frac + top * p,
                            frac == p * q,
                    ;
                    assert(encodes(b, q + top));
                }
                if whole(b) {
                    let n = choose|n: nat| encodes(b, n);
                    assert(frac == (n - top) * p) by (nonlinear_arith)
                        requires
                            frac + top * p == n * p,
                    ;
                    lemma_mod_multiples_basic(n - top, p as int);
                }
            }
            frac % p == 0
        }
    }
}

/// Is the value one of one half, one quarter, one eighth and so on?
pub fn is_inverse_power_of_two(b: u64) -> (r: bool)
    ensures
        r == inverse_power_of_two(b),
{
    proof {
        lemma_fields(b);
        lemma_pow2_pos(1075);
    }
    if b >= INFINITY {
        return false;
    }
    let e: u64 = b / HIDDEN;
    let frac: u64 = b % HIDDEN;
    if b == 0 {
        proof {
            assert forall|k: nat| !inverse_of_pow2(b, k) by {
                assert(0 * pow2(scale(b)) * pow2(k) == 0) by (nonlinear_arith);
            }
        }
        false
    } else if e >= 1 {
        proof {
            let s = significand(b);
            if frac == 0 && e <= 1022 {
                let k = (1023 - e) as nat;
                lemma_pow2_adds(52, e as nat);
                lemma_pow2_adds(52 + e as nat, k);
                assert(inverse_of_pow2(b, k));
            }
            if inverse_power_of_two(b) {
                let k = choose|k: nat| k >= 1 && #[trigger] inverse_of_pow2(b, k);
                let t = e as nat + k;
                lemma_pow2_adds(e as nat, k);
                lemma_mul_is_associative(s as int, pow2(e as nat) as int, pow2(k) as int);
                assert(s * pow2(t) == pow2(1075));
                lemma_pow2_adds(52, t);
                lemma_pow2_adds(53, t);
                lemma_pow2_pos(t);
                assert(pow2(52) * pow2(t) <= s * pow2(t) < pow2(53) * pow2(t)) by (nonlinear_arith)
                    requires
                        pow2(52) <= s < pow2(53),
                        pow2(t) > 0,
                ;
                if 52 + t > 1075 {
                    lemma_pow2_strictly_increases(1075, 52 + t);
                }
                lemma_pow2_order(1075, 53 + t);
                assert(t == 1023);
                lemma_cancel(s, pow2(52), pow2(t));
            }
        }
        frac == 0 && e <= 1022
    } else {
        let mut p: u64 = 1;
        let mut j: u64 = 0;
        proof {
            lemma2_to64();
        }
        while p < frac
            invariant
                j <= 52,
                p == pow2(j as nat),
                frac < HIDDEN,
                HIDDEN == pow2(52),
                j > 0 ==> pow2((j - 1) as nat) < frac,
            decreases 52 - j,
        {
            proof {
                lemma_pow2_unfold((j + 1) as nat);
                if j >= 52 {
                    lemma_pow2_monotone(52, j as nat);
                }
            }
            p = p * 2;
            j += 1;
        }
        proof {
            if p == frac {
                let k = (1074 - j) as nat;
                lemma_pow2_adds(j as nat, 1);
                lemma_pow2_adds(j as nat + 1, k);
                lemma_pow2_order(j as nat, 52);
                assert(inverse_of_pow2(b, k));
            }
            if inverse_power_of_two(b) {
                let k = choose|k: nat| k >= 1 && #[trigger] inverse_of_pow2(b, k);
                let f = frac as nat;
                lemma_pow2_adds(1, k);
                lemma_mul_is_associative(f as int, pow2(1) as int, pow2(k) as int);
                assert(f * pow2(1 + k) == pow2(1075));
                lemma_pow2_pos(1 + k);
                if 1 + k > 1075 {
                    lemma_pow2_strictly_increases(1075, 1 + k);
                    assert(f * pow2(1 + k) >= pow2(1 + k)) by (nonlinear_arith)
                        requires
                            f >= 1,
                    ;
                }
                let i = (1074 - k) as nat;
                lemma_pow2_adds(i, 1 + k);
                lemma_cancel(f, pow2(i), pow2(1 + k));
                assert(f == pow2(i));
                if j > 0 {
                    lemma_pow2_order((j - 1) as nat, i);
                }
                if i < j {
                    lemma_pow2_strictly_increases(i, j as nat);
                }
                lemma_pow2_monotone(j as nat, i);
            }
        }
        p == frac
    }
}

/// The natural number up to `limit` that the non-negative pattern `b`
/// encodes, if there is one.
pub fn to_index(b: u64, limit: u64) -> (r: Option<u64>)
    ensures
        match r {
            Some(n) => n <= limit && b <= SIGN && encodes(b, n as nat),
            None => forall|n: nat| n <= limit ==> !(b <= SIGN && encodes(b, n)),
        },
{
    proof {
        lemma_fields(b);
        assert forall|n: nat| finite(b) implies (exponent(b) >= 1075 ==> (encodes(b, n) <==> n
            == significand(b) * pow2((exponent(b) - 1075) as nat))) && (1023 <= exponent(b) < 1075
            ==> (encodes(b, n) <==> significand(b) == n * pow2((1075 - exponent(b)) as nat))) && (
        exponent(b) < 1023 ==> (encodes(b, n) <==> n == 0 && zero(b))) by {
            lemma_encodes(b, n);
        }
    }
    if b > SIGN {
        return None;
    }
    let m = absolute(b);
    if m >= INFINITY {
        return None;
    }
    if m == 0 {
        assert(encodes(b, 0));
        return Some(0);
    }
    let e: u64 = m / HIDDEN;
    if e < 1023 {
        None
    } else if e >= 1087 {
        proof {
            let d = (exponent(b) - 1075) as nat;
            lemma_pow2_monotone(12, d);
            lemma2_to64();
            assert(significand(b) * pow2(d) >= pow2(52) * pow2(12)) by (nonlinear_arith)
                requires
                    significand(b) >= pow2(52),
                    pow2(d) >= pow2(12),
            ;
        }
        None
    } else if e >= 1075 {
        let frac: u64 = m % HIDDEN;
        let s: u64 = frac + HIDDEN;
        let p = power_of_two(e - 1075);
        proof {
            lemma_pow2_monotone((e - 1075) as nat, 11);
            lemma2_to64();
            assert(s * p <= s * 2048) by (nonlinear_arith)
                requires
                    p <= 2048,
            ;
        }
        let n: u64 = s * p;
        if n <= limit {
            Some(n)
        } else {
            None
        }
    } else {
        let frac: u64 = m % HIDDEN;
        let p = power_of_two(1075 - e);
        let s: u64 = frac + HIDDEN;
        proof {
            lemma_pow2_pos((1075 - e) as nat);
            lemma_fundamental_div_mod(s as int, p as int);
            assert forall|n: nat| s == #[trigger] (n * p) implies n == s / p && s % p == 0 by {
                lemma_fundamental_div_mod_converse_div(s as int, p as int, n as int, 0);
                lemma_fundamental_div_mod_converse_mod(s as int, p as int, n as int, 0);
            }
        }
        if s % p == 0 && s / p <= limit {
            assert(s == (s / p) * p) by (nonlinear_arith)
                requires
                    s == p * (s / p) + s % p,
                    s % p == 0,
            ;
            Some(s / p)
        } else {
            None
        }
    }
}

/// The pattern that encodes the natural number `n`.
pub fn from_index(n: u64) -> (b: u64)
    requires
        n < 2 * HIDDEN,
    ensures
        b < SIGN,
        encodes(b, n as nat),
{
    proof {
        lemma2_to64();
        lemma2_to64_rest();
    }
    if n == 0 {
        proof {
            lemma_fields(0);
        }
        return 0;
    }
    let mut p: u64 = 1;
    let mut k: u64 = 0;
    while n - p >= p
        invariant
            k <= 52,
            p == pow2(k as nat),
            1 <= p <= n < 2 * HIDDEN,
            HIDDEN == pow2(52),
        decreases 52 - k,
    {
        proof {
            lemma_pow2_unfold((k + 1) as nat);
            if k >= 52 {
                lemma_pow2_monotone(52, k as nat);
            }
        }
        p = p * 2;
        k += 1;
    }
    let q = power_of_two(52 - k);
    proof {
        lemma_pow2_adds(k as nat, (52 - k) as nat);
        lemma_pow2_pos((52 - k) as nat);
        assert((n - p) * q < p * q) by (nonlinear_arith)
            requires
                n - p < p,
                q > 0,
        ;
        assert((n - p) * q + p * q == n * q) by (nonlinear_arith);
    }
    let frac: u64 = (n - p) * q;
    let e: u64 = 1023 + k;
    assert(e * HIDDEN <= 1075 * HIDDEN) by (nonlinear_arith)
        requires
            e <= 1075,
    ;
    let b: u64 = e * HIDDEN + frac;
    proof {
        lemma_fundamental_div_mod_converse_div(b as int, HIDDEN as int, e as int, frac as int);
        lemma_fundamental_div_mod_converse_mod(b as int, HIDDEN as int, e as int, frac as int);
        assert(exponent(b) == e);
        assert(significand(b) == n * q);
        lemma_pow2_adds((52 - k) as nat, e as nat);
        lemma_mul_is_associative(n as int, q as int, pow2(e as nat) as int);
    }
    b
}

} // verus!
