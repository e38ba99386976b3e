//! Fixed-point arithmetic for the engine.
//!
//! Every script number is an `i64` holding `SCALE` units per 1.0.  All
//! operations are exactly specified over `int`, so command expansion is a
//! mathematical function of its inputs.  Results that would leave the `i64`
//! range saturate at the range ends, which play the role of the infinities.

use vstd::prelude::*;
use vstd::arithmetic::div_mod::lemma_fundamental_div_mod;
use vstd::arithmetic::div_mod::lemma_fundamental_div_mod_converse_mod;
use vstd::arithmetic::div_mod::lemma_div_of0;
use vstd::arithmetic::div_mod::lemma_div_by_self;
use vstd::arithmetic::div_mod::lemma_small_mod;
use vstd::arithmetic::div_mod::lemma_mod_self_0;
use vstd::arithmetic::div_mod::lemma_div_multiples_vanish;
use vstd::arithmetic::div_mod::lemma_mod_multiples_basic;

verus! {

/// Fixed-point units per 1.0.
pub const SCALE: i64 = 1_000_000;

/// The circle constant, in fixed-point units.
pub const PI_FP: i64 = 3_141_593;

/// Euler's number, in fixed-point units.
pub const E_FP: i64 = 2_718_282;

/// A full turn in fixed-point radians.
pub const TWO_PI_FP: i64 = 6_283_185;

/// Half pi in fixed-point units: the width of one quadrant in radians.
pub const HALF_PI_FP: i64 = 1_570_796;

/// Clamp a mathematical integer into the `i64` range.
pub open spec fn clamp64(x: int) -> int {
    if x > i64::MAX as int {
        i64::MAX as int
    } else if x < i64::MIN as int {
        i64::MIN as int
    } else {
        x
    }
}

/// Absolute value of a mathematical integer.
pub open spec fn abs_int(x: int) -> int {
    if x < 0 {
        -x
    } else {
        x
    }
}

/// Quotient rounded toward zero, as Rust's `/` rounds.  `y` must not be zero
/// for the result to be meaningful.
pub open spec fn div_trunc(x: int, y: int) -> int {
    if (x < 0) <==> (y < 0) {
        abs_int(x) / abs_int(y)
    } else {
        -(abs_int(x) / abs_int(y))
    }
}

/// Narrow a wide intermediate into `i64`, saturating at the range ends.
pub fn sat_narrow(x: i128) -> (r: i64)
    ensures
        r as int == clamp64(x as int),
{
    if x > i64::MAX as i128 {
        i64::MAX
    } else if x < i64::MIN as i128 {
        i64::MIN
    } else {
        x as i64
    }
}

/// Saturating fixed-point addition.
pub fn fp_add(a: i64, b: i64) -> (r: i64)
    ensures
        r as int == clamp64(a + b),
{
    sat_narrow((a as i128) + (b as i128))
}

/// Saturating fixed-point subtraction.
pub fn fp_sub(a: i64, b: i64) -> (r: i64)
    ensures
        r as int == clamp64(a - b),
{
    sat_narrow((a as i128) - (b as i128))
}

/// Truncating division on `i128`, matching `div_trunc`.
pub fn div_trunc_i128(a: i128, b: i128) -> (r: i128)
    requires
        b != 0,
        a != i128::MIN,
        b != i128::MIN,
    ensures
        r as int == div_trunc(a as int, b as int),
        abs_int(r as int) <= abs_int(a as int),
{
    let na: u128 = if a < 0 {
        (-a) as u128
    } else {
        a as u128
    };
    let nb: u128 = if b < 0 {
        (-b) as u128
    } else {
        b as u128
    };
    let q = na / nb;
    proof {
        assert(na as int / nb as int <= na as int) by {
            lemma_fundamental_div_mod(na as int, nb as int);
            assert(na as int / nb as int <= na as int) by (nonlinear_arith)
                requires
                    nb as int >= 1,
                    na as int >= 0,
                    na as int == nb as int * (na as int / nb as int) + na as int % nb as int,
                    na as int % nb as int >= 0,
            ;
        }
    }
    if (a < 0) != (b < 0) {
        -(q as i128)
    } else {
        q as i128
    }
}

/// Euclidean remainder on `i128`: the result is in `[0, b)` and matches the
/// `%` of specifications.
pub fn rem_euclid_i128(a: i128, b: i128) -> (r: i128)
    requires
        b > 0,
        a != i128::MIN,
    ensures
        r as int == (a as int) % (b as int),
        0 <= r < b,
{
    let nb = b as u128;
    if a >= 0 {
        let m = (a as u128) % nb;
        m as i128
    } else {
        let na = (-a) as u128;
        let m = na % nb;
        proof {
            lemma_fundamental_div_mod(na as int, nb as int);
            let q = na as int / nb as int;
            if m == 0 {
                assert(a as int == (-q) * (b as int) + 0) by (nonlinear_arith)
                    requires
                        na as int == (nb as int) * q + (m as int),
                        m as int == 0,
                        a as int == -(na as int),
                        b as int == nb as int,
                ;
                lemma_fundamental_div_mod_converse_mod(a as int, b as int, -q, 0);
            } else {
                assert(a as int == (-q - 1) * (b as int) + (b as int - m as int))
                    by (nonlinear_arith)
                    requires
                        na as int == (nb as int) * q + (m as int),
                        a as int == -(na as int),
                        b as int == nb as int,
                ;
                lemma_fundamental_div_mod_converse_mod(
                    a as int,
                    b as int,
                    -q - 1,
                    b as int - m as int,
                );
            }
        }
        if m == 0 {
            0
        } else {
            b - (m as i128)
        }
    }
}

/// Fixed-point product: `a * b / SCALE`, rounded toward zero, saturated.
pub open spec fn fp_mul_spec(a: int, b: int) -> int {
    clamp64(div_trunc(a * b, SCALE as int))
}

/// Saturating fixed-point multiplication.
pub fn fp_mul(a: i64, b: i64) -> (r: i64)
    ensures
        r as int == fp_mul_spec(a as int, b as int),
{
    proof {
        assert((a as int) * (b as int) <= 0x4000_0000_0000_0000_0000_0000_0000_0000
            && (a as int) * (b as int) >= -0x4000_0000_0000_0000_0000_0000_0000_0000)
            by (nonlinear_arith)
            requires
                -0x8000_0000_0000_0000 <= a as int <= 0x7fff_ffff_ffff_ffff,
                -0x8000_0000_0000_0000 <= b as int <= 0x7fff_ffff_ffff_ffff,
        ;
    }
    let p = (a as i128) * (b as i128);
    let q = div_trunc_i128(p, SCALE as i128);
    sat_narrow(q)
}

/// Fixed-point quotient: `a * SCALE / b`, rounded toward zero, saturated.
/// A zero divisor saturates by sign, standing in for the infinities; zero
/// over zero is zero.
pub open spec fn fp_div_spec(a: int, b: int) -> int {
    if b == 0 {
        if a > 0 {
            i64::MAX as int
        } else if a < 0 {
            i64::MIN as int
        } else {
            0
        }
    } else {
        clamp64(div_trunc(a * SCALE as int, b))
    }
}

/// Saturating fixed-point division.
pub fn fp_div(a: i64, b: i64) -> (r: i64)
    ensures
        r as int == fp_div_spec(a as int, b as int),
{
    if b == 0 {
        if a > 0 {
            i64::MAX
        } else if a < 0 {
            i64::MIN
        } else {
            0
        }
    } else {
        proof {
            assert((a as int) * (SCALE as int) <= 0x4000_0000_0000_0000_0000_0000_0000_0000
                && (a as int) * (SCALE as int) >= -0x4000_0000_0000_0000_0000_0000_0000_0000)
                by (nonlinear_arith)
                requires
                    -0x8000_0000_0000_0000 <= a as int <= 0x7fff_ffff_ffff_ffff,
            ;
        }
        let p = (a as i128) * (SCALE as i128);
        let q = div_trunc_i128(p, b as i128);
        sat_narrow(q)
    }
}

/// Clamp a value into the fixed-point unit interval `[-SCALE, SCALE]`.
pub open spec fn clamp_unit(x: int) -> int {
    if x > SCALE as int {
        SCALE as int
    } else if x < -(SCALE as int) {
        -(SCALE as int)
    } else {
        x
    }
}

/// Fixed-point cosine on one quadrant, `0 <= x <= HALF_PI_FP`, by the even
/// Taylor terms through the eighth power.  This polynomial is the engine's
/// definition of cosine on the quadrant; `cos_quarter(0) == SCALE` exactly.
pub open spec fn cos_quarter(x: int) -> int {
    let s = SCALE as int;
    let x2 = (x * x) / s;
    let x4 = (x2 * x2) / s;
    let x6 = (x4 * x2) / s;
    let x8 = (x6 * x2) / s;
    clamp_unit(s - x2 / 2 + x4 / 24 - x6 / 720 + x8 / 40320)
}

/// Fixed-point sine on one quadrant, by the odd Taylor terms through the
/// seventh power; `sin_quarter(0) == 0` exactly.
pub open spec fn sin_quarter(x: int) -> int {
    let s = SCALE as int;
    let x2 = (x * x) / s;
    let x3 = (x2 * x) / s;
    let x5 = (x3 * x2) / s;
    let x7 = (x5 * x2) / s;
    clamp_unit(x - x3 / 6 + x5 / 120 - x7 / 5040)
}

/// Executable quadrant cosine.
pub fn cos_quarter_fp(x: i64) -> (r: i64)
    requires
        0 <= x <= HALF_PI_FP,
    ensures
        r as int == cos_quarter(x as int),
        -(SCALE as int) <= r as int <= SCALE as int,
{
    let xu = x as u64;
    proof {
        assert(xu * xu <= 1_570_796 * 1_570_796) by (nonlinear_arith)
            requires
                0 <= xu <= 1_570_796,
        ;
    }
    let x2 = (xu * xu) / (SCALE as u64);
    proof {
        assert(x2 * x2 <= 2_467_400 * 2_467_400) by (nonlinear_arith)
            requires
                0 <= x2 <= 2_467_400,
        ;
    }
    let x4 = (x2 * x2) / (SCALE as u64);
    proof {
        assert(x4 * x2 <= 6_088_064 * 2_467_400) by (nonlinear_arith)
            requires
                0 <= x4 <= 6_088_064,
                0 <= x2 <= 2_467_400,
        ;
    }
    let x6 = (x4 * x2) / (SCALE as u64);
    proof {
        assert(x6 * x2 <= 15_021_706 * 2_467_400) by (nonlinear_arith)
            requires
                0 <= x6 <= 15_021_706,
                0 <= x2 <= 2_467_400,
        ;
    }
    let x8 = (x6 * x2) / (SCALE as u64);
    let raw: i64 = SCALE - (x2 / 2) as i64 + (x4 / 24) as i64 - (x6 / 720) as i64 + (x8
        / 40320) as i64;
    if raw > SCALE {
        SCALE
    } else if raw < -SCALE {
        -SCALE
    } else {
        raw
    }
}

/// Executable quadrant sine.
pub fn sin_quarter_fp(x: i64) -> (r: i64)
    requires
        0 <= x <= HALF_PI_FP,
    ensures
        r as int == sin_quarter(x as int),
        -(SCALE as int) <= r as int <= SCALE as int,
{
    let xu = x as u64;
    proof {
        assert(xu * xu <= 1_570_796 * 1_570_796) by (nonlinear_arith)
            requires
                0 <= xu <= 1_570_796,
        ;
    }
    let x2 = (xu * xu) / (SCALE as u64);
    proof {
        assert(x2 * xu <= 2_467_400 * 1_570_796) by (nonlinear_arith)
            requires
                0 <= x2 <= 2_467_400,
                0 <= xu <= 1_570_796,
        ;
    }
    let x3 = (x2 * xu) / (SCALE as u64);
    proof {
        assert(x3 * x2 <= 3_875_784 * 2_467_400) by (nonlinear_arith)
            requires
                0 <= x3 <= 3_875_784,
                0 <= x2 <= 2_467_400,
        ;
    }
    let x5 = (x3 * x2) / (SCALE as u64);
    proof {
        assert(x5 * x2 <= 9_563_200 * 2_467_400) by (nonlinear_arith)
            requires
                0 <= x5 <= 9_563_200,
                0 <= x2 <= 2_467_400,
        ;
    }
    let x7 = (x5 * x2) / (SCALE as u64);
    let raw: i64 = x - (x3 / 6) as i64 + (x5 / 120) as i64 - (x7 / 5040) as i64;
    if raw > SCALE {
        SCALE
    } else if raw < -SCALE {
        -SCALE
    } else {
        raw
    }
}

/// Cosine of the turn fraction `num / den`: the angle `2*pi*num/den` folded
/// onto one quadrant.  At the exact quadrant boundaries (fraction 0, 1/4,
/// 1/2, 3/4 of a turn) the result is exactly `SCALE`, `0`, `-SCALE`, `0`.
pub open spec fn turn_cos(num: int, den: int) -> int {
    let r = num % den;
    let qi = (4 * r) / den;
    let p = (4 * r) % den;
    let x = ((HALF_PI_FP as int) * p) / den;
    if qi == 0 {
        cos_quarter(x)
    } else if qi == 1 {
        -sin_quarter(x)
    } else if qi == 2 {
        -cos_quarter(x)
    } else {
        sin_quarter(x)
    }
}

/// Sine of the turn fraction `num / den`.
pub open spec fn turn_sin(num: int, den: int) -> int {
    let r = num % den;
    let qi = (4 * r) / den;
    let p = (4 * r) % den;
    let x = ((HALF_PI_FP as int) * p) / den;
    if qi == 0 {
        sin_quarter(x)
    } else if qi == 1 {
        cos_quarter(x)
    } else if qi == 2 {
        -sin_quarter(x)
    } else {
        -cos_quarter(x)
    }
}

/// Largest divisor a turn fraction may carry, so the quadrant folding stays
/// within its intermediate ranges.
pub const MAX_TURN_DEN: i128 = 0x1_0000_0000_0000;

/// Fold a turn fraction onto a quadrant: returns the quadrant index and the
/// in-quadrant angle in fixed-point radians.
fn fold_quadrant(num: i128, den: i128) -> (r: (u8, i64))
    requires
        0 < den <= MAX_TURN_DEN,
        num != i128::MIN,
    ensures
        r.0 as int == (4 * ((num as int) % (den as int))) / (den as int),
        r.1 as int == ((HALF_PI_FP as int) * ((4 * ((num as int) % (den as int))) % (den as int)))
            / (den as int),
        r.0 < 4,
        0 <= r.1 <= HALF_PI_FP,
{
    let rr = rem_euclid_i128(num, den);
    let fr = 4 * rr;
    let qi = ((fr as u128) / (den as u128)) as u8;
    let p = ((fr as u128) % (den as u128)) as i128;
    proof {
        lemma_fundamental_div_mod(fr as int, den as int);
        assert((fr as int) / (den as int) < 4) by (nonlinear_arith)
            requires
                fr as int == (den as int) * ((fr as int) / (den as int)) + (fr as int) % (
                den as int),
                0 <= (fr as int) % (den as int),
                (fr as int) < 4 * (den as int),
                den as int > 0,
        ;
        assert((fr as int) / (den as int) >= 0) by (nonlinear_arith)
            requires
                fr as int == (den as int) * ((fr as int) / (den as int)) + (fr as int) % (
                den as int),
                (fr as int) % (den as int) < den as int,
                (fr as int) >= 0,
                den as int > 0,
        ;
    }
    let hp = (HALF_PI_FP as u128) * (p as u128);
    let x = (hp / (den as u128)) as i64;
    proof {
        lemma_fundamental_div_mod(hp as int, den as int);
        assert(hp as int / (den as int) <= HALF_PI_FP as int) by (nonlinear_arith)
            requires
                hp as int == (HALF_PI_FP as int) * (p as int),
                0 <= (p as int) < (den as int),
                den as int > 0,
                hp as int == (den as int) * (hp as int / (den as int)) + (hp as int) % (
                den as int),
                0 <= (hp as int) % (den as int),
        ;
        assert(hp as int / (den as int) >= 0) by (nonlinear_arith)
            requires
                hp as int >= 0,
                den as int > 0,
                hp as int == (den as int) * (hp as int / (den as int)) + (hp as int) % (
                den as int),
                (hp as int) % (den as int) < den as int,
        ;
    }
    (qi, x)
}

/// Executable cosine of a turn fraction.
pub fn turn_cos_fp(num: i128, den: i128) -> (r: i64)
    requires
        0 < den <= MAX_TURN_DEN,
        num != i128::MIN,
    ensures
        r as int == turn_cos(num as int, den as int),
        -(SCALE as int) <= r as int <= SCALE as int,
{
    let (qi, x) = fold_quadrant(num, den);
    if qi == 0 {
        cos_quarter_fp(x)
    } else if qi == 1 {
        -sin_quarter_fp(x)
    } else if qi == 2 {
        -cos_quarter_fp(x)
    } else {
        sin_quarter_fp(x)
    }
}

/// Executable sine of a turn fraction.
pub fn turn_sin_fp(num: i128, den: i128) -> (r: i64)
    requires
        0 < den <= MAX_TURN_DEN,
        num != i128::MIN,
    ensures
        r as int == turn_sin(num as int, den as int),
        -(SCALE as int) <= r as int <= SCALE as int,
{
    let (qi, x) = fold_quadrant(num, den);
    if qi == 0 {
        sin_quarter_fp(x)
    } else if qi == 1 {
        cos_quarter_fp(x)
    } else if qi == 2 {
        -sin_quarter_fp(x)
    } else {
        -cos_quarter_fp(x)
    }
}

/// Scaling by a positive factor and truncating the quotient away again is
/// the identity.
pub proof fn lemma_div_trunc_mul_cancel(x: int, d: int)
    requires
        d > 0,
    ensures
        div_trunc(x * d, d) == x,
{
    lemma_div_multiples_vanish(abs_int(x), d);
    assert((d * abs_int(x)) / d == abs_int(x));
    if x >= 0 {
        assert(x * d == d * abs_int(x)) by (nonlinear_arith)
            requires
                x >= 0,
                abs_int(x) == x,
        ;
        if x == 0 {
            assert(div_trunc(0 * d, d) == 0) by {
                assert(0 * d == 0) by (nonlinear_arith);
            }
        } else {
            assert(x * d > 0) by (nonlinear_arith)
                requires
                    x > 0,
                    d > 0,
            ;
            assert(abs_int(x * d) == x * d);
        }
    } else {
        assert(x * d < 0) by (nonlinear_arith)
            requires
                x < 0,
                d > 0,
        ;
        assert(abs_int(x * d) == -(x * d));
        assert(-(x * d) == d * abs_int(x)) by (nonlinear_arith)
            requires
                x < 0,
                abs_int(x) == -x,
        ;
        assert(div_trunc(x * d, d) == -(abs_int(x * d) / d));
    }
}

/// At the exact quadrant boundaries of the turn, the fixed-point sine and
/// cosine take their exact unit values: a whole turn gives `(SCALE, 0)`, a
/// quarter `(0, SCALE)`, a half `(-SCALE, 0)`, three quarters `(0, -SCALE)`,
/// for cosine and sine respectively.
pub proof fn lemma_turn_quarters(num: int, den: int)
    requires
        den > 0,
    ensures
        num % den == 0 ==> turn_cos(num, den) == SCALE as int && turn_sin(num, den) == 0,
        4 * (num % den) == den ==> turn_cos(num, den) == 0 && turn_sin(num, den) == SCALE as int,
        4 * (num % den) == 2 * den ==> turn_cos(num, den) == -(SCALE as int) && turn_sin(num, den)
            == 0,
        4 * (num % den) == 3 * den ==> turn_cos(num, den) == 0 && turn_sin(num, den) == -(
        SCALE as int),
{
    let r = num % den;
    lemma_div_of0(den);
    lemma_small_mod(0nat, den as nat);
    assert((HALF_PI_FP as int) * 0 == 0) by (nonlinear_arith);
    assert(0 * (SCALE as int) == 0) by (nonlinear_arith);
    assert(cos_quarter(0) == SCALE as int);
    assert(sin_quarter(0) == 0);
    if r == 0 {
        assert(4 * r == 0);
        assert((4 * r) / den == 0);
        assert((4 * r) % den == 0);
    } else if 4 * r == den {
        lemma_div_by_self(den);
        lemma_mod_self_0(den);
        assert((4 * r) / den == 1);
        assert((4 * r) % den == 0);
    } else if 4 * r == 2 * den {
        lemma_div_multiples_vanish(2, den);
        lemma_mod_multiples_basic(2, den);
        assert(den * 2 == 2 * den) by (nonlinear_arith);
        assert(2 * den == den * 2);
        assert((4 * r) / den == 2);
        assert((4 * r) % den == 0);
    } else if 4 * r == 3 * den {
        lemma_div_multiples_vanish(3, den);
        lemma_mod_multiples_basic(3, den);
        assert(den * 3 == 3 * den) by (nonlinear_arith);
        assert((4 * r) / den == 3);
        assert((4 * r) % den == 0);
    }
}

/// `r` is the integer square root of `n`: the largest integer whose square
/// does not exceed `n`.
pub open spec fn is_isqrt(n: int, r: int) -> bool {
    &&& 0 <= r
    &&& r * r <= n
    &&& n < (r + 1) * (r + 1)
}

/// The integer square root of a non-negative number, as a value: the
/// unique witness of `is_isqrt`.
pub open spec fn isqrt_spec(n: int) -> int {
    choose|r: int| is_isqrt(n, r)
}

/// The integer square root is unique.
pub proof fn lemma_isqrt_unique(n: int, r1: int, r2: int)
    requires
        is_isqrt(n, r1),
        is_isqrt(n, r2),
    ensures
        r1 == r2,
{
    assert(r1 == r2) by (nonlinear_arith)
        requires
            0 <= r1,
            0 <= r2,
            r1 * r1 <= n,
            n < (r1 + 1) * (r1 + 1),
            r2 * r2 <= n,
            n < (r2 + 1) * (r2 + 1),
    ;
}

/// Any witness of `is_isqrt` is the integer square root.
pub proof fn lemma_isqrt_is(n: int, r: int)
    requires
        is_isqrt(n, r),
    ensures
        isqrt_spec(n) == r,
{
    assert(exists|x: int| is_isqrt(n, x)) by {
        assert(is_isqrt(n, r));
    }
    lemma_isqrt_unique(n, isqrt_spec(n), r);
}

/// Integer square root by bisection.
pub fn isqrt_u128(n: u128) -> (r: u128)
    ensures
        is_isqrt(n as int, r as int),
{
    if n == 0 {
        return 0;
    }
    let mut lo: u128 = 0;
    let mut hi: u128 = 0x1_0000_0000_0000_0000;
    proof {
        assert((hi as int) * (hi as int) > n as int) by (nonlinear_arith)
            requires
                hi as int == 0x1_0000_0000_0000_0000,
                n as int <= 0xffff_ffff_ffff_ffff_ffff_ffff_ffff_ffff,
        ;
    }
    while lo + 1 < hi
        invariant
            lo < hi <= 0x1_0000_0000_0000_0000,
            (lo as int) * (lo as int) <= n as int,
            (hi as int) * (hi as int) > n as int,
        decreases hi - lo,
    {
        let mid = lo + (hi - lo) / 2;
        proof {
            assert((mid as int) * (mid as int) < 0x1_0000_0000_0000_0000_0000_0000_0000_0000)
                by (nonlinear_arith)
                requires
                    0 <= (mid as int) < 0x1_0000_0000_0000_0000,
            ;
        }
        if mid * mid <= n {
            lo = mid;
        } else {
            hi = mid;
        }
    }
    lo
}

} // verus!
