//! Degree-domain trigonometry on fixed-point values.
//!
//! Angles are carried in `SCALE` units per degree. Internally the kernel
//! converts to radians at a million million units per radian and evaluates
//! truncated power series in 128-bit integer arithmetic, so every function
//! here is a pure integer computation with an exact specification.

use vstd::prelude::*;

use crate::math::FULL_TURN;
use crate::math::SCALE;
use crate::math::abs_int;
use crate::math::lemma_div_le;
use crate::math::lemma_mul_le;
use crate::math::normalize;
use crate::math::spec_normalize;

verus! {

/// Magnitude returned for the tangent where the cosine vanishes exactly.
pub const TAN_MAX: i64 = 4_000_000_000_000;

/// The integer square root: the greatest `r` with `r * r <= n`.
pub open spec fn spec_isqrt(n: int) -> int
    recommends
        n >= 0,
{
    choose|r: int| r >= 0 && #[trigger] (r * r) <= n && n < (r + 1) * (r + 1)
}

proof fn lemma_isqrt_unique(n: int, a: int, b: int)
    requires
        a >= 0,
        b >= 0,
        a * a <= n,
        n < (a + 1) * (a + 1),
        b * b <= n,
        n < (b + 1) * (b + 1),
    ensures
        a == b,
{
    assert(a == b) by (nonlinear_arith)
        requires
            a >= 0,
            b >= 0,
            a * a <= n,
            n < (a + 1) * (a + 1),
            b * b <= n,
            n < (b + 1) * (b + 1),
    ;
}

/// Integer square root by bisection.
pub fn isqrt(n: u64) -> (r: u64)
    ensures
        r as int == spec_isqrt(n as int),
        (r as int) * (r as int) <= n as int,
        (n as int) < ((r as int) + 1) * ((r as int) + 1),
{
    let mut lo: u64 = 0;
    let mut hi: u64 = 4_294_967_296;
    proof {
        assert((4_294_967_296int) * (4_294_967_296int) > n as int) by (nonlinear_arith)
            requires
                n <= 0xffff_ffff_ffff_ffffu64,
        ;
    }
    while lo + 1 < hi
        invariant
            lo < hi <= 4_294_967_296,
            (lo as int) * (lo as int) <= n as int,
            (n as int) < (hi as int) * (hi as int),
        decreases hi - lo,
    {
        let mid = lo + (hi - lo) / 2;
        proof {
            lemma_mul_le(mid as int, 4_294_967_296, mid as int, 4_294_967_296);
        }
        if (mid as u128) * (mid as u128) <= n as u128 {
            lo = mid;
        } else {
            hi = mid;
        }
    }
    proof {
        let l = lo as int;
        assert(l >= 0 && l * l <= n as int && (n as int) < (l + 1) * (l + 1));
        assert(exists|r: int| r >= 0 && #[trigger] (r * r) <= n as int && (n as int) < (r + 1) * (r + 1));
        let c = spec_isqrt(n as int);
        assert(c >= 0 && c * c <= n as int && (n as int) < (c + 1) * (c + 1));
        lemma_isqrt_unique(n as int, c, l);
    }
    lo
}

/// One multiply-accumulate step of the sine series, in the radian scale:
/// `1 - (u * v) / k` with each product rescaled.
pub open spec fn spec_sin_step(k: int, v: int, u: int) -> int {
    1_000_000_000_000 - ((u * v) / 1_000_000_000_000) / k
}

fn sin_step(k: u64, v: u64, u: u64) -> (r: u64)
    requires
        6 <= k <= 156,
        v <= 1_000_000_000_000,
        u <= 2_470_000_000_000,
    ensures
        r as int == spec_sin_step(k as int, v as int, u as int),
        588_000_000_000 <= r <= 1_000_000_000_000,
{
    proof {
        lemma_mul_le(u as int, 2_470_000_000_000, v as int, 1_000_000_000_000);
        lemma_div_le(
            (u as int) * (v as int),
            2_470_000_000_000int * 1_000_000_000_000int,
            1_000_000_000_000,
        );
        lemma_div_le((((u as int) * (v as int)) / 1_000_000_000_000int), 2_470_000_000_000, 6);
        vstd::arithmetic::div_mod::lemma_div_is_ordered_by_denominator(
            (((u as int) * (v as int)) / 1_000_000_000_000int),
            6,
            k as int,
        );
    }
    let p = (u as u128) * (v as u128);
    let q = (p / 1_000_000_000_000) as u64;
    let w = q / k;
    1_000_000_000_000 - w
}

/// Sine on the first quadrant: a degree-thirteen Taylor polynomial in the
/// radian domain, clamped to one unit.
pub open spec fn spec_sin_quarter(x: int) -> int {
    let t = (x * 48_481_368_110_954) / 10_000_000_000;
    let u = (t * t) / 1_000_000_000_000;
    let v1 = spec_sin_step(156, 1_000_000_000_000, u);
    let v2 = spec_sin_step(110, v1, u);
    let v3 = spec_sin_step(72, v2, u);
    let v4 = spec_sin_step(42, v3, u);
    let v5 = spec_sin_step(20, v4, u);
    let v6 = spec_sin_step(6, v5, u);
    let res = (t * v6) / 1_000_000_000_000;
    let r = (res * (SCALE as int)) / 1_000_000_000_000;
    if r > SCALE as int {
        SCALE as int
    } else {
        r
    }
}

fn sin_quarter(x: i64) -> (r: i64)
    requires
        0 <= x <= 324_000_000,
    ensures
        r as int == spec_sin_quarter(x as int),
        0 <= r <= SCALE,
{
    let t = (((x as u128) * 48_481_368_110_954) / 10_000_000_000) as u64;
    proof {
        lemma_mul_le(x as int, 324_000_000, 48_481_368_110_954, 48_481_368_110_954);
        lemma_div_le(
            (x as int) * 48_481_368_110_954,
            324_000_000int * 48_481_368_110_954int,
            10_000_000_000,
        );
        assert((324_000_000int * 48_481_368_110_954int) / 10_000_000_000int
            <= 1_570_800_000_000int) by (nonlinear_arith);
        lemma_mul_le(t as int, 1_570_800_000_000, t as int, 1_570_800_000_000);
        lemma_div_le(
            (t as int) * (t as int),
            1_570_800_000_000int * 1_570_800_000_000int,
            1_000_000_000_000,
        );
        assert((1_570_800_000_000int * 1_570_800_000_000int) / 1_000_000_000_000int
            <= 2_470_000_000_000int) by (nonlinear_arith);
    }
    let u = (((t as u128) * (t as u128)) / 1_000_000_000_000) as u64;
    let v = sin_step(156, 1_000_000_000_000, u);
    let v = sin_step(110, v, u);
    let v = sin_step(72, v, u);
    let v = sin_step(42, v, u);
    let v = sin_step(20, v, u);
    let v = sin_step(6, v, u);
    proof {
        lemma_mul_le(t as int, 1_570_800_000_000, v as int, 1_000_000_000_000);
        lemma_div_le(
            (t as int) * (v as int),
            1_570_800_000_000int * 1_000_000_000_000int,
            1_000_000_000_000,
        );
    }
    let res = (((t as u128) * (v as u128)) / 1_000_000_000_000) as u64;
    proof {
        lemma_mul_le(res as int, 1_570_800_000_000, SCALE as int, SCALE as int);
        lemma_div_le(
            (res as int) * (SCALE as int),
            1_570_800_000_000int * (SCALE as int),
            1_000_000_000_000,
        );
        assert((1_570_800_000_000int * (SCALE as int)) / 1_000_000_000_000int
            <= 5_654_880_000int) by (nonlinear_arith);
    }
    let r0 = (((res as u128) * (SCALE as u128)) / 1_000_000_000_000) as i64;
    if r0 > SCALE {
        SCALE
    } else {
        r0
    }
}

/// Sine of an angle in fixed-point degrees, by quadrant folding.
pub open spec fn spec_sin(x: int) -> int {
    let a = spec_normalize(x, FULL_TURN as int);
    if a <= 324_000_000 {
        spec_sin_quarter(a)
    } else if a <= 648_000_000 {
        spec_sin_quarter(648_000_000 - a)
    } else if a <= 972_000_000 {
        -spec_sin_quarter(a - 648_000_000)
    } else {
        -spec_sin_quarter(1_296_000_000 - a)
    }
}

/// Sine of an angle given in units of degrees; the result is the sine value
/// rescaled by one unit, so it lies in `[-SCALE, SCALE]`.
pub fn sin(angle: i64) -> (r: i64)
    ensures
        r as int == spec_sin(angle as int),
        -SCALE <= r <= SCALE,
{
    let a = normalize(angle, FULL_TURN);
    if a <= 324_000_000 {
        sin_quarter(a)
    } else if a <= 648_000_000 {
        sin_quarter(648_000_000 - a)
    } else if a <= 972_000_000 {
        -sin_quarter(a - 648_000_000)
    } else {
        -sin_quarter(1_296_000_000 - a)
    }
}

/// Cosine via the shift `cos x == sin (x + 90 degrees)`.
pub open spec fn spec_cos(x: int) -> int {
    spec_sin(spec_normalize(x, FULL_TURN as int) + 324_000_000)
}

/// Cosine of an angle given in units of degrees.
pub fn cos(angle: i64) -> (r: i64)
    ensures
        r as int == spec_cos(angle as int),
        -SCALE <= r <= SCALE,
{
    let a = normalize(angle, FULL_TURN);
    sin(a + 324_000_000)
}

/// Quotient of sine by cosine, rescaled to units; where the cosine is exactly
/// zero the result saturates at `TAN_MAX` with the sign of the sine.
pub open spec fn spec_tan(x: int) -> int {
    let s = spec_sin(x);
    let c = spec_cos(x);
    if c == 0 {
        if s >= 0 {
            TAN_MAX as int
        } else {
            -TAN_MAX as int
        }
    } else {
        let m = (abs_int(s) * (SCALE as int)) / abs_int(c);
        if (s >= 0) == (c >= 0) {
            m
        } else {
            -m
        }
    }
}

/// Tangent of an angle given in units of degrees.
pub fn tan(angle: i64) -> (r: i64)
    ensures
        r as int == spec_tan(angle as int),
        -13_000_000_000_000 <= r <= 13_000_000_000_000,
{
    let s = sin(angle);
    let c = cos(angle);
    if c == 0 {
        if s >= 0 {
            TAN_MAX
        } else {
            -TAN_MAX
        }
    } else {
        let ms = if s < 0 {
            (-s) as u64
        } else {
            s as u64
        };
        let mc = if c < 0 {
            (-c) as u64
        } else {
            c as u64
        };
        proof {
            lemma_mul_le(ms as int, SCALE as int, SCALE as int, SCALE as int);
            lemma_div_le((ms as int) * (SCALE as int), (SCALE as int) * (SCALE as int), mc as int);
        }
        let m = (ms * (SCALE as u64) / mc) as i64;
        if (s < 0) == (c < 0) {
            m
        } else {
            -m
        }
    }
}

/// One multiply-accumulate step of the arcsine series, in the radian scale:
/// `c + acc * u` with the product rescaled.
pub open spec fn spec_asin_step(c: int, acc: int, u: int) -> int {
    c + (acc * u) / 1_000_000_000_000
}

fn asin_step(c: u64, acc: u64, u: u64) -> (r: u64)
    requires
        c <= 1_000_000_000_000,
        acc <= 1_700_000_000_000,
        u <= 500_100_000_000,
    ensures
        r as int == spec_asin_step(c as int, acc as int, u as int),
        r <= c + 850_200_000_000,
{
    proof {
        lemma_mul_le(acc as int, 1_700_000_000_000, u as int, 500_100_000_000);
        lemma_div_le(
            (acc as int) * (u as int),
            1_700_000_000_000int * 500_100_000_000int,
            1_000_000_000_000,
        );
        assert((1_700_000_000_000int * 500_100_000_000int) / 1_000_000_000_000int
            <= 850_200_000_000int) by (nonlinear_arith);
    }
    let p = (acc as u128) * (u as u128);
    c + (p / 1_000_000_000_000) as u64
}

/// Arcsine below one over the square root of two: a truncated binomial
/// series in the radian domain; the argument is clamped to that range.
pub open spec fn spec_asin_core(z0: int) -> int {
    let z = if z0 > 2_545_585 {
        2_545_585int
    } else {
        z0
    };
    let zr = (z * 1_000_000_000_000) / (SCALE as int);
    let u = (zr * zr) / 1_000_000_000_000;
    let a = spec_asin_step(7_312_525_874, 6_447_210_312, u);
    let a = spec_asin_step(8_390_335_810, a, u);
    let a = spec_asin_step(9_761_609_529, a, u);
    let a = spec_asin_step(11_551_800_896, a, u);
    let a = spec_asin_step(13_964_843_750, a, u);
    let a = spec_asin_step(17_352_764_423, a, u);
    let a = spec_asin_step(22_372_159_091, a, u);
    let a = spec_asin_step(30_381_944_444, a, u);
    let a = spec_asin_step(44_642_857_143, a, u);
    let a = spec_asin_step(75_000_000_000, a, u);
    let a = spec_asin_step(166_666_666_667, a, u);
    let a = spec_asin_step(1_000_000_000_000, a, u);
    let res = (zr * a) / 1_000_000_000_000;
    (res * 20_626_480_624_710) / 100_000_000_000_000_000
}

fn asin_core(z0: i64) -> (r: i64)
    requires
        0 <= z0,
    ensures
        r as int == spec_asin_core(z0 as int),
        0 <= r <= 270_000_000,
{
    let z = if z0 > 2_545_585 {
        2_545_585
    } else {
        z0
    };
    let zr = (((z as u128) * 1_000_000_000_000) / (SCALE as u128)) as u64;
    proof {
        lemma_mul_le(z as int, 2_545_585, 1_000_000_000_000, 1_000_000_000_000);
        lemma_div_le(
            (z as int) * 1_000_000_000_000,
            2_545_585int * 1_000_000_000_000int,
            SCALE as int,
        );
        assert((2_545_585int * 1_000_000_000_000int) / (SCALE as int)
            <= 707_107_000_000int) by (nonlinear_arith);
        lemma_mul_le(zr as int, 707_107_000_000, zr as int, 707_107_000_000);
        lemma_div_le(
            (zr as int) * (zr as int),
            707_107_000_000int * 707_107_000_000int,
            1_000_000_000_000,
        );
        assert((707_107_000_000int * 707_107_000_000int) / 1_000_000_000_000int
            <= 500_100_000_000int) by (nonlinear_arith);
    }
    let u = (((zr as u128) * (zr as u128)) / 1_000_000_000_000) as u64;
    let a = asin_step(7_312_525_874, 6_447_210_312, u);
    let a = asin_step(8_390_335_810, a, u);
    let a = asin_step(9_761_609_529, a, u);
    let a = asin_step(11_551_800_896, a, u);
    let a = asin_step(13_964_843_750, a, u);
    let a = asin_step(17_352_764_423, a, u);
    let a = asin_step(22_372_159_091, a, u);
    let a = asin_step(30_381_944_444, a, u);
    let a = asin_step(44_642_857_143, a, u);
    let a = asin_step(75_000_000_000, a, u);
    let a = asin_step(166_666_666_667, a, u);
    let a = asin_step(1_000_000_000_000, a, u);
    proof {
        lemma_mul_le(zr as int, 707_107_000_000, a as int, 1_850_200_000_000);
        lemma_div_le(
            (zr as int) * (a as int),
            707_107_000_000int * 1_850_200_000_000int,
            1_000_000_000_000,
        );
        assert((707_107_000_000int * 1_850_200_000_000int) / 1_000_000_000_000int
            <= 1_308_290_000_000int) by (nonlinear_arith);
    }
    let res = (((zr as u128) * (a as u128)) / 1_000_000_000_000) as u64;
    proof {
        lemma_mul_le(res as int, 1_308_290_000_000, 20_626_480_624_710, 20_626_480_624_710);
        lemma_div_le(
            (res as int) * 20_626_480_624_710,
            1_308_290_000_000int * 20_626_480_624_710int,
            100_000_000_000_000_000,
        );
        assert((1_308_290_000_000int * 20_626_480_624_710int) / 100_000_000_000_000_000int
            <= 270_000_000int) by (nonlinear_arith);
    }
    (((res as u128) * 20_626_480_624_710) / 100_000_000_000_000_000) as i64
}

/// Arcsine of a unit-scaled sine value, folded through the complementary
/// angle above one over the square root of two.
pub open spec fn spec_asin(x: int) -> int {
    let z = abs_int(x);
    let r = if z > 2_545_584 {
        324_000_000 - spec_asin_core(spec_isqrt(12_960_000_000_000 - z * z))
    } else {
        spec_asin_core(z)
    };
    if x >= 0 {
        r
    } else {
        -r
    }
}

/// Arcsine in units of degrees of a unit-scaled value in `[-1, 1]`.
pub fn asin(x: i64) -> (r: i64)
    requires
        -SCALE <= x <= SCALE,
    ensures
        r as int == spec_asin(x as int),
        -324_000_000 <= r <= 324_000_000,
        x >= 0 ==> r >= 0,
        x < 0 ==> r <= 0,
{
    let neg = x < 0;
    let z = if neg {
        -x
    } else {
        x
    };
    let r0 = if z > 2_545_584 {
        proof {
            lemma_mul_le(z as int, SCALE as int, z as int, SCALE as int);
        }
        let w = isqrt(12_960_000_000_000u64 - (z as u64) * (z as u64));
        proof {
            assert((w as int) <= 3_600_000) by (nonlinear_arith)
                requires
                    (w as int) * (w as int) <= 12_960_000_000_000int,
                    w as int >= 0,
            ;
        }
        324_000_000 - asin_core(w as i64)
    } else {
        asin_core(z)
    };
    if neg {
        -r0
    } else {
        r0
    }
}

/// Arccosine as the complement of the arcsine.
pub open spec fn spec_acos(x: int) -> int {
    324_000_000 - spec_asin(x)
}

/// Arccosine in units of degrees of a unit-scaled value in `[-1, 1]`;
/// the result lies in `[0, 180]` degrees.
pub fn acos(x: i64) -> (r: i64)
    requires
        -SCALE <= x <= SCALE,
    ensures
        r as int == spec_acos(x as int),
        0 <= r <= 648_000_000,
{
    324_000_000 - asin(x)
}

/// Arctangent of a ratio bounded by one, through the identity
/// `atan z == asin (z / sqrt (1 + z * z))`.
pub open spec fn spec_atan_sub(z: int) -> int {
    let den = spec_isqrt(12_960_000_000_000 + z * z);
    spec_asin_core((z * (SCALE as int)) / den)
}

fn atan_sub(z: i64) -> (r: i64)
    requires
        0 <= z <= SCALE,
    ensures
        r as int == spec_atan_sub(z as int),
        0 <= r <= 270_000_000,
{
    proof {
        lemma_mul_le(z as int, SCALE as int, z as int, SCALE as int);
    }
    let den = isqrt(12_960_000_000_000u64 + (z as u64) * (z as u64));
    proof {
        assert((den as int) >= 3_600_000) by (nonlinear_arith)
            requires
                (12_960_000_000_000int + (z as int) * (z as int)) < ((den as int) + 1) * ((den
                    as int) + 1),
                (z as int) * (z as int) >= 0,
                den as int >= 0,
        ;
        lemma_mul_le(z as int, SCALE as int, SCALE as int, SCALE as int);
        lemma_div_le((z as int) * (SCALE as int), (SCALE as int) * (SCALE as int), den as int);
        assert(((SCALE as int) * (SCALE as int)) / (den as int) <= 3_600_000int) by {
            vstd::arithmetic::div_mod::lemma_div_is_ordered_by_denominator(
                (SCALE as int) * (SCALE as int),
                3_600_000int,
                den as int,
            );
            assert(((SCALE as int) * (SCALE as int)) / 3_600_000int == 3_600_000int) by (nonlinear_arith);
        }
    }
    let arg = ((z as u64) * 3_600_000 / den) as i64;
    asin_core(arg)
}

/// Arctangent over the whole line, folded through the reciprocal above one.
pub open spec fn spec_atan(x: int) -> int {
    let z = abs_int(x);
    let r = if z > SCALE as int {
        324_000_000 - spec_atan_sub(12_960_000_000_000int / z)
    } else {
        spec_atan_sub(z)
    };
    if x >= 0 {
        r
    } else {
        -r
    }
}

/// Arctangent in units of degrees of a unit-scaled ratio.
pub fn atan(x: i64) -> (r: i64)
    requires
        -5_000_000_000_000_000 <= x <= 5_000_000_000_000_000,
    ensures
        r as int == spec_atan(x as int),
        -324_000_000 <= r <= 324_000_000,
        x >= 0 ==> r >= 0,
        x < 0 ==> r <= 0,
{
    let neg = x < 0;
    let z = if neg {
        -x
    } else {
        x
    };
    let r0 = if z > SCALE {
        let zz = (12_960_000_000_000u64 / (z as u64)) as i64;
        proof {
            lemma_div_le(12_960_000_000_000int, 12_960_000_000_000, z as int);
            vstd::arithmetic::div_mod::lemma_div_is_ordered_by_denominator(
                12_960_000_000_000int,
                3_600_001int,
                z as int,
            );
        }
        324_000_000 - atan_sub(zz)
    } else {
        atan_sub(z)
    };
    if neg {
        -r0
    } else {
        r0
    }
}

/// Four-quadrant arctangent with the conventional signs: the angle of the
/// point `(x, y)`, in `(-180, 180]` degrees.
pub open spec fn spec_atan2(y: int, x: int) -> int {
    if x == 0 {
        if y > 0 {
            324_000_000int
        } else if y < 0 {
            -324_000_000int
        } else {
            0int
        }
    } else {
        let m = (abs_int(y) * (SCALE as int)) / abs_int(x);
        let base = spec_atan(m);
        if x > 0 {
            if y >= 0 {
                base
            } else {
                -base
            }
        } else {
            if y >= 0 {
                648_000_000 - base
            } else {
                base - 648_000_000
            }
        }
    }
}

/// Four-quadrant arctangent in units of degrees.
pub fn atan2(y: i64, x: i64) -> (r: i64)
    requires
        -FULL_TURN <= y <= FULL_TURN,
        -FULL_TURN <= x <= FULL_TURN,
    ensures
        r as int == spec_atan2(y as int, x as int),
        -648_000_000 <= r <= 648_000_000,
        y >= 0 ==> 0 <= r <= 648_000_000,
{
    if x == 0 {
        if y > 0 {
            324_000_000
        } else if y < 0 {
            -324_000_000
        } else {
            0
        }
    } else {
        let ay = if y < 0 {
            (-y) as u64
        } else {
            y as u64
        };
        let ax = if x < 0 {
            (-x) as u64
        } else {
            x as u64
        };
        proof {
            lemma_mul_le(ay as int, FULL_TURN as int, SCALE as int, SCALE as int);
            lemma_div_le((ay as int) * (SCALE as int), (FULL_TURN as int) * (SCALE as int), ax as int);
            assert((FULL_TURN as int) * (SCALE as int) <= 5_000_000_000_000_000int) by (nonlinear_arith);
            vstd::arithmetic::div_mod::lemma_div_nonincreasing(
                (ay as int) * (SCALE as int),
                ax as int,
            );
        }
        let m = (ay * 3_600_000 / ax) as i64;
        let base = atan(m);
        if x > 0 {
            if y >= 0 {
                base
            } else {
                -base
            }
        } else {
            if y >= 0 {
                648_000_000 - base
            } else {
                base - 648_000_000
            }
        }
    }
}

/// Arccotangent as the arctangent of the reciprocal: for zero it keeps the
/// ninety-degree value the reference arctangent gives an infinite ratio.
pub open spec fn spec_acot(v: int) -> int {
    if v >= 0 {
        324_000_000 - spec_atan(v)
    } else {
        -324_000_000 - spec_atan(v)
    }
}

/// Arccotangent in units of degrees of a unit-scaled ratio.
pub fn acot(v: i64) -> (r: i64)
    requires
        -5_000_000_000_000_000 <= v <= 5_000_000_000_000_000,
    ensures
        r as int == spec_acot(v as int),
        -324_000_000 <= r <= 324_000_000,
{
    if v >= 0 {
        324_000_000 - atan(v)
    } else {
        -324_000_000 - atan(v)
    }
}

/// An integer square root exists for every nonnegative number.
pub proof fn lemma_isqrt_exists(n: int)
    requires
        n >= 0,
    ensures
        spec_isqrt(n) >= 0,
        spec_isqrt(n) * spec_isqrt(n) <= n,
        n < (spec_isqrt(n) + 1) * (spec_isqrt(n) + 1),
    decreases n,
{
    if n == 0 {
        assert(0int * 0int <= 0 && 0 < (0int + 1) * (0int + 1)) by (nonlinear_arith);
        assert(exists|r: int| r >= 0 && #[trigger] (r * r) <= n && n < (r + 1) * (r + 1));
    } else {
        lemma_isqrt_exists(n - 1);
        let p = spec_isqrt(n - 1);
        if (p + 1) * (p + 1) <= n {
            assert(n < (p + 2) * (p + 2)) by (nonlinear_arith)
                requires
                    n - 1 < (p + 1) * (p + 1),
                    p >= 0,
            ;
            assert((p + 1) >= 0 && (p + 1) * (p + 1) <= n && n < ((p + 1) + 1) * ((p + 1) + 1));
            assert(exists|r: int| r >= 0 && #[trigger] (r * r) <= n && n < (r + 1) * (r + 1));
        } else {
            assert(p >= 0 && p * p <= n && n < (p + 1) * (p + 1));
            assert(exists|r: int| r >= 0 && #[trigger] (r * r) <= n && n < (r + 1) * (r + 1));
        }
    }
    let c = spec_isqrt(n);
    assert(c >= 0 && c * c <= n && n < (c + 1) * (c + 1));
}

/// The arcsine core is bounded below away from zero once its argument is,
/// because the series starts with the identity term.
pub proof fn lemma_asin_core_lower(z: int)
    requires
        z >= 2_683,
    ensures
        spec_asin_core(z) >= 150_000,
{
    let zc: int = if z > 2_545_585 {
        2_545_585int
    } else {
        z
    };
    let zr = (zc * 1_000_000_000_000) / (SCALE as int);
    assert(zr >= 745_277_777) by {
        lemma_div_le(2_683int * 1_000_000_000_000int, zc * 1_000_000_000_000, SCALE as int);
        vstd::arithmetic::div_mod::lemma_div_is_ordered(
            2_683int * 1_000_000_000_000int,
            zc * 1_000_000_000_000,
            SCALE as int,
        );
    }
    let u = (zr * zr) / 1_000_000_000_000;
    assert(u >= 0) by {
        crate::math::lemma_mul_le(zr, zr, zr, zr);
        vstd::arithmetic::div_mod::lemma_div_pos_is_pos(zr * zr, 1_000_000_000_000);
    }
    let a1 = spec_asin_step(7_312_525_874, 6_447_210_312, u);
    let a2 = spec_asin_step(8_390_335_810, a1, u);
    let a3 = spec_asin_step(9_761_609_529, a2, u);
    let a4 = spec_asin_step(11_551_800_896, a3, u);
    let a5 = spec_asin_step(13_964_843_750, a4, u);
    let a6 = spec_asin_step(17_352_764_423, a5, u);
    let a7 = spec_asin_step(22_372_159_091, a6, u);
    let a8 = spec_asin_step(30_381_944_444, a7, u);
    let a9 = spec_asin_step(44_642_857_143, a8, u);
    let a10 = spec_asin_step(75_000_000_000, a9, u);
    let a11 = spec_asin_step(166_666_666_667, a10, u);
    lemma_asin_step_nonneg(7_312_525_874, 6_447_210_312, u);
    lemma_asin_step_nonneg(8_390_335_810, a1, u);
    lemma_asin_step_nonneg(9_761_609_529, a2, u);
    lemma_asin_step_nonneg(11_551_800_896, a3, u);
    lemma_asin_step_nonneg(13_964_843_750, a4, u);
    lemma_asin_step_nonneg(17_352_764_423, a5, u);
    lemma_asin_step_nonneg(22_372_159_091, a6, u);
    lemma_asin_step_nonneg(30_381_944_444, a7, u);
    lemma_asin_step_nonneg(44_642_857_143, a8, u);
    lemma_asin_step_nonneg(75_000_000_000, a9, u);
    lemma_asin_step_nonneg(166_666_666_667, a10, u);
    let a12 = spec_asin_step(1_000_000_000_000, a11, u);
    lemma_asin_step_nonneg(1_000_000_000_000, a11, u);
    let res = (zr * a12) / 1_000_000_000_000;
    assert(res >= zr) by {
        assert(zr * a12 >= zr * 1_000_000_000_000) by (nonlinear_arith)
            requires
                a12 >= 1_000_000_000_000,
                zr >= 0,
        ;
        vstd::arithmetic::div_mod::lemma_div_is_ordered(
            zr * 1_000_000_000_000,
            zr * a12,
            1_000_000_000_000,
        );
        assert(zr * 1_000_000_000_000 == 1_000_000_000_000 * zr) by (nonlinear_arith);
        vstd::arithmetic::div_mod::lemma_div_multiples_vanish(zr, 1_000_000_000_000);
    }
    assert((res * 20_626_480_624_710) / 100_000_000_000_000_000 >= 150_000) by {
        assert(res * 20_626_480_624_710 >= 745_277_777int * 20_626_480_624_710int) by (nonlinear_arith)
            requires
                res >= 745_277_777,
        ;
        vstd::arithmetic::div_mod::lemma_div_is_ordered(
            745_277_777int * 20_626_480_624_710int,
            res * 20_626_480_624_710,
            100_000_000_000_000_000,
        );
    }
}

/// Each arcsine series step keeps the accumulator at or above its constant.
proof fn lemma_asin_step_nonneg(c: int, acc: int, u: int)
    requires
        c >= 0,
        acc >= 0,
        u >= 0,
    ensures
        spec_asin_step(c, acc, u) >= c,
{
    crate::math::lemma_mul_le(acc, acc, u, u);
    vstd::arithmetic::div_mod::lemma_div_pos_is_pos(acc * u, 1_000_000_000_000);
}

/// The arcsine core never exceeds seventy-five degrees of units.
pub proof fn lemma_asin_core_range(z: int)
    requires
        z >= 0,
    ensures
        0 <= spec_asin_core(z) <= 270_000_000,
{
    let zc: int = if z > 2_545_585 {
        2_545_585int
    } else {
        z
    };
    {
        let zr = (zc * 1_000_000_000_000) / (SCALE as int);
        lemma_div_le(zc * 1_000_000_000_000, 2_545_585int * 1_000_000_000_000int, SCALE as int);
        assert(zr <= 707_107_000_000);
        let u = (zr * zr) / 1_000_000_000_000;
        lemma_mul_le(zr, 707_107_000_000, zr, 707_107_000_000);
        lemma_div_le(zr * zr, 707_107_000_000int * 707_107_000_000int, 1_000_000_000_000);
        assert(u <= 500_100_000_000);
        let a1 = spec_asin_step(7_312_525_874, 6_447_210_312, u);
        lemma_asin_step_caps(7_312_525_874, 6_447_210_312, u);
        let a2 = spec_asin_step(8_390_335_810, a1, u);
        lemma_asin_step_caps(8_390_335_810, a1, u);
        let a3 = spec_asin_step(9_761_609_529, a2, u);
        lemma_asin_step_caps(9_761_609_529, a2, u);
        let a4 = spec_asin_step(11_551_800_896, a3, u);
        lemma_asin_step_caps(11_551_800_896, a3, u);
        let a5 = spec_asin_step(13_964_843_750, a4, u);
        lemma_asin_step_caps(13_964_843_750, a4, u);
        let a6 = spec_asin_step(17_352_764_423, a5, u);
        lemma_asin_step_caps(17_352_764_423, a5, u);
        let a7 = spec_asin_step(22_372_159_091, a6, u);
        lemma_asin_step_caps(22_372_159_091, a6, u);
        let a8 = spec_asin_step(30_381_944_444, a7, u);
        lemma_asin_step_caps(30_381_944_444, a7, u);
        let a9 = spec_asin_step(44_642_857_143, a8, u);
        lemma_asin_step_caps(44_642_857_143, a8, u);
        let a10 = spec_asin_step(75_000_000_000, a9, u);
        lemma_asin_step_caps(75_000_000_000, a9, u);
        let a11 = spec_asin_step(166_666_666_667, a10, u);
        lemma_asin_step_caps(166_666_666_667, a10, u);
        let a12 = spec_asin_step(1_000_000_000_000, a11, u);
        lemma_asin_step_caps(1_000_000_000_000, a11, u);
        assert(a12 <= 1_850_200_000_000);
        let res = (zr * a12) / 1_000_000_000_000;
        lemma_mul_le(zr, 707_107_000_000, a12, 1_850_200_000_000);
        lemma_div_le(zr * a12, 707_107_000_000int * 1_850_200_000_000int, 1_000_000_000_000);
        assert(res <= 1_308_290_000_000) by (nonlinear_arith)
            requires
                res <= (707_107_000_000int * 1_850_200_000_000int) / 1_000_000_000_000int,
        ;
        lemma_mul_le(res, 1_308_290_000_000, 20_626_480_624_710, 20_626_480_624_710);
        lemma_div_le(
            res * 20_626_480_624_710,
            1_308_290_000_000int * 20_626_480_624_710int,
            100_000_000_000_000_000,
        );
        assert((1_308_290_000_000int * 20_626_480_624_710int) / 100_000_000_000_000_000int
            <= 270_000_000int) by (nonlinear_arith);
        lemma_mul_le(zr, 707_107_000_000, a12, 1_850_200_000_000);
        vstd::arithmetic::div_mod::lemma_div_pos_is_pos(zr * a12, 1_000_000_000_000);
        lemma_mul_le(res, 1_308_290_000_000, 20_626_480_624_710, 20_626_480_624_710);
        vstd::arithmetic::div_mod::lemma_div_pos_is_pos(
            res * 20_626_480_624_710,
            100_000_000_000_000_000,
        );
    }
}

/// Each arcsine series step stays within its coarse cap.
proof fn lemma_asin_step_caps(c: int, acc: int, u: int)
    requires
        0 <= c <= 1_000_000_000_000,
        0 <= acc <= 1_700_000_000_000,
        0 <= u <= 500_100_000_000,
    ensures
        c <= spec_asin_step(c, acc, u) <= c + 850_200_000_000,
{
    lemma_mul_le(acc, 1_700_000_000_000, u, 500_100_000_000);
    lemma_div_le(acc * u, 1_700_000_000_000int * 500_100_000_000int, 1_000_000_000_000);
    assert((1_700_000_000_000int * 500_100_000_000int) / 1_000_000_000_000int
        <= 850_200_000_000int) by (nonlinear_arith);
}

/// The arcsine of a unit-scaled value stays within ninety degrees of units.
pub proof fn lemma_asin_range(x: int)
    requires
        -(SCALE as int) <= x <= SCALE as int,
    ensures
        -324_000_000 <= spec_asin(x) <= 324_000_000,
        x >= 0 ==> spec_asin(x) >= 0,
        x < 0 ==> spec_asin(x) <= 0,
{
    let z = abs_int(x);
    if z > 2_545_584 {
        assert(z * z <= (SCALE as int) * (SCALE as int)) by (nonlinear_arith)
            requires
                0 <= z <= SCALE as int,
        ;
        assert(z * z >= 0) by (nonlinear_arith)
            requires
                z >= 0,
        ;
        lemma_isqrt_exists(12_960_000_000_000 - z * z);
        let w = spec_isqrt(12_960_000_000_000 - z * z);
        lemma_asin_core_range(w);
    } else {
        lemma_asin_core_range(z);
    }
}

/// The arccosine of a unit-scaled value lies within a half turn, and is
/// bounded away from zero as soon as the argument is one step below one:
/// the requested condition then happens strictly off the meridian.
pub proof fn lemma_acos_pos(x: int)
    requires
        -(SCALE as int) <= x <= SCALE as int,
    ensures
        0 <= spec_acos(x) <= 648_000_000,
        x <= (SCALE as int) - 1 ==> spec_acos(x) >= 150_000,
{
    lemma_asin_range(x);
    if 0 <= x <= 2_545_584 {
        lemma_asin_core_range(x);
    }
    if x > 2_545_584 && x <= (SCALE as int) - 1 {
        let z = abs_int(x);
        assert(12_960_000_000_000 - z * z >= 7_199_999) by (nonlinear_arith)
            requires
                0 <= z <= (SCALE as int) - 1,
                SCALE == 3_600_000,
        ;
        lemma_isqrt_exists(12_960_000_000_000 - z * z);
        let w = spec_isqrt(12_960_000_000_000 - z * z);
        assert(w >= 2_683) by (nonlinear_arith)
            requires
                w >= 0,
                (w + 1) * (w + 1) > 7_199_999,
        ;
        lemma_asin_core_lower(w);
    }
    if x == SCALE as int {
        let z = abs_int(x);
        assert(12_960_000_000_000 - z * z == 0) by (nonlinear_arith)
            requires
                z == SCALE as int,
                SCALE == 3_600_000,
        ;
        lemma_isqrt_exists(0);
    }
}

/// The arcsine series step is monotone in the accumulator and the squared
/// argument.
proof fn lemma_asin_step_mono(c: int, a1: int, u1: int, a2: int, u2: int)
    requires
        0 <= a1 <= a2,
        0 <= u1 <= u2,
    ensures
        spec_asin_step(c, a1, u1) <= spec_asin_step(c, a2, u2),
{
    assert(a1 * u1 <= a2 * u2) by (nonlinear_arith)
        requires
            0 <= a1 <= a2,
            0 <= u1 <= u2,
    ;
    vstd::arithmetic::div_mod::lemma_div_is_ordered(a1 * u1, a2 * u2, 1_000_000_000_000);
}

/// The arcsine core grows by a fixed margin over any step of three hundred
/// thousand units of its argument: the series' slope never falls below the
/// identity term's.
pub proof fn lemma_asin_core_gap(z1: int, z2: int)
    requires
        0 <= z1,
        z1 + 300_000 <= z2 <= 2_545_585,
    ensures
        spec_asin_core(z2) >= spec_asin_core(z1) + 15_000_000,
{
    let zr1 = (z1 * 1_000_000_000_000) / (SCALE as int);
    let zr2 = (z2 * 1_000_000_000_000) / (SCALE as int);
    assert(zr2 >= zr1 + 83_333_333_333) by {
        assert(z2 * 1_000_000_000_000 >= z1 * 1_000_000_000_000 + 300_000int
            * 1_000_000_000_000int) by (nonlinear_arith)
            requires
                z2 >= z1 + 300_000,
        ;
        vstd::arithmetic::div_mod::lemma_div_is_ordered(
            z1 * 1_000_000_000_000 + 300_000_000_000_000_000int,
            z2 * 1_000_000_000_000,
            SCALE as int,
        );
        crate::math::lemma_div_superadd(
            z1 * 1_000_000_000_000,
            300_000_000_000_000_000int,
            SCALE as int,
        );
        assert(z1 * 1_000_000_000_000 >= 0) by (nonlinear_arith)
            requires
                z1 >= 0,
        ;
    }
    vstd::arithmetic::div_mod::lemma_div_pos_is_pos(z1 * 1_000_000_000_000, SCALE as int);
    let u1 = (zr1 * zr1) / 1_000_000_000_000;
    let u2 = (zr2 * zr2) / 1_000_000_000_000;
    assert(0 <= zr1 * zr1 <= zr2 * zr2) by (nonlinear_arith)
        requires
            0 <= zr1 <= zr2,
    ;
    vstd::arithmetic::div_mod::lemma_div_is_ordered(zr1 * zr1, zr2 * zr2, 1_000_000_000_000);
    vstd::arithmetic::div_mod::lemma_div_pos_is_pos(zr1 * zr1, 1_000_000_000_000);
    let b1 = spec_asin_step(7_312_525_874, 6_447_210_312, u1);
    let c1 = spec_asin_step(7_312_525_874, 6_447_210_312, u2);
    lemma_asin_step_mono(7_312_525_874, 6_447_210_312, u1, 6_447_210_312, u2);
    lemma_asin_step_nonneg(7_312_525_874, 6_447_210_312, u1);
    let b2 = spec_asin_step(8_390_335_810, b1, u1);
    let c2 = spec_asin_step(8_390_335_810, c1, u2);
    lemma_asin_step_mono(8_390_335_810, b1, u1, c1, u2);
    lemma_asin_step_nonneg(8_390_335_810, b1, u1);
    let b3 = spec_asin_step(9_761_609_529, b2, u1);
    let c3 = spec_asin_step(9_761_609_529, c2, u2);
    lemma_asin_step_mono(9_761_609_529, b2, u1, c2, u2);
    lemma_asin_step_nonneg(9_761_609_529, b2, u1);
    let b4 = spec_asin_step(11_551_800_896, b3, u1);
    let c4 = spec_asin_step(11_551_800_896, c3, u2);
    lemma_asin_step_mono(11_551_800_896, b3, u1, c3, u2);
    lemma_asin_step_nonneg(11_551_800_896, b3, u1);
    let b5 = spec_asin_step(13_964_843_750, b4, u1);
    let c5 = spec_asin_step(13_964_843_750, c4, u2);
    lemma_asin_step_mono(13_964_843_750, b4, u1, c4, u2);
    lemma_asin_step_nonneg(13_964_843_750, b4, u1);
    let b6 = spec_asin_step(17_352_764_423, b5, u1);
    let c6 = spec_asin_step(17_352_764_423, c5, u2);
    lemma_asin_step_mono(17_352_764_423, b5, u1, c5, u2);
    lemma_asin_step_nonneg(17_352_764_423, b5, u1);
    let b7 = spec_asin_step(22_372_159_091, b6, u1);
    let c7 = spec_asin_step(22_372_159_091, c6, u2);
    lemma_asin_step_mono(22_372_159_091, b6, u1, c6, u2);
    lemma_asin_step_nonneg(22_372_159_091, b6, u1);
    let b8 = spec_asin_step(30_381_944_444, b7, u1);
    let c8 = spec_asin_step(30_381_944_444, c7, u2);
    lemma_asin_step_mono(30_381_944_444, b7, u1, c7, u2);
    lemma_asin_step_nonneg(30_381_944_444, b7, u1);
    let b9 = spec_asin_step(44_642_857_143, b8, u1);
    let c9 = spec_asin_step(44_642_857_143, c8, u2);
    lemma_asin_step_mono(44_642_857_143, b8, u1, c8, u2);
    lemma_asin_step_nonneg(44_642_857_143, b8, u1);
    let b10 = spec_asin_step(75_000_000_000, b9, u1);
    let c10 = spec_asin_step(75_000_000_000, c9, u2);
    lemma_asin_step_mono(75_000_000_000, b9, u1, c9, u2);
    lemma_asin_step_nonneg(75_000_000_000, b9, u1);
    let b11 = spec_asin_step(166_666_666_667, b10, u1);
    let c11 = spec_asin_step(166_666_666_667, c10, u2);
    lemma_asin_step_mono(166_666_666_667, b10, u1, c10, u2);
    lemma_asin_step_nonneg(166_666_666_667, b10, u1);
    let b12 = spec_asin_step(1_000_000_000_000, b11, u1);
    let c12 = spec_asin_step(1_000_000_000_000, c11, u2);
    lemma_asin_step_mono(1_000_000_000_000, b11, u1, c11, u2);
    lemma_asin_step_nonneg(1_000_000_000_000, b11, u1);
    let res1 = (zr1 * b12) / 1_000_000_000_000;
    let res2 = (zr2 * c12) / 1_000_000_000_000;
    assert(res2 >= res1 + 83_333_333_333) by {
        assert(zr2 * c12 >= zr2 * b12) by (nonlinear_arith)
            requires
                zr2 >= 0,
                c12 >= b12,
        ;
        assert(zr2 * b12 == zr1 * b12 + (zr2 - zr1) * b12) by (nonlinear_arith);
        assert((zr2 - zr1) * b12 >= 83_333_333_333int * 1_000_000_000_000int) by (nonlinear_arith)
            requires
                zr2 - zr1 >= 83_333_333_333,
                b12 >= 1_000_000_000_000,
        ;
        assert(zr1 * b12 >= 0) by (nonlinear_arith)
            requires
                zr1 >= 0,
                b12 >= 0,
        ;
        crate::math::lemma_div_superadd(
            zr1 * b12,
            83_333_333_333int * 1_000_000_000_000int,
            1_000_000_000_000,
        );
        vstd::arithmetic::div_mod::lemma_div_is_ordered(
            zr1 * b12 + 83_333_333_333int * 1_000_000_000_000int,
            zr2 * c12,
            1_000_000_000_000,
        );
        vstd::arithmetic::div_mod::lemma_div_multiples_vanish(83_333_333_333, 1_000_000_000_000);
        assert(83_333_333_333int * 1_000_000_000_000int == 1_000_000_000_000int
            * 83_333_333_333int) by (nonlinear_arith);
    }
    assert((res2 * 20_626_480_624_710) / 100_000_000_000_000_000 >= (res1 * 20_626_480_624_710)
        / 100_000_000_000_000_000 + 15_000_000) by {
        assert(res2 * 20_626_480_624_710 >= res1 * 20_626_480_624_710 + 83_333_333_333int
            * 20_626_480_624_710int) by (nonlinear_arith)
            requires
                res2 >= res1 + 83_333_333_333,
        ;
        assert(res1 * 20_626_480_624_710 >= 0) by (nonlinear_arith)
            requires
                res1 >= 0,
        ;
        vstd::arithmetic::div_mod::lemma_div_pos_is_pos(zr1 * b12, 1_000_000_000_000);
        crate::math::lemma_div_superadd(
            res1 * 20_626_480_624_710,
            83_333_333_333int * 20_626_480_624_710int,
            100_000_000_000_000_000,
        );
        vstd::arithmetic::div_mod::lemma_div_is_ordered(
            res1 * 20_626_480_624_710 + 83_333_333_333int * 20_626_480_624_710int,
            res2 * 20_626_480_624_710,
            100_000_000_000_000_000,
        );
        assert((83_333_333_333int * 20_626_480_624_710int) / 100_000_000_000_000_000int
            >= 15_000_000int) by (nonlinear_arith);
    }
    assert(z2 <= 2_545_585);
}

/// The arcsine core is bounded by a line of slope sixty-four units per
/// unit, the slope at the top of its domain rounded up.
pub proof fn lemma_asin_core_linear_upper(z: int)
    requires
        z >= 0,
    ensures
        spec_asin_core(z) <= 64 * z,
{
    let zc: int = if z > 2_545_585 {
        2_545_585int
    } else {
        z
    };
    let zr = (zc * 1_000_000_000_000) / (SCALE as int);
    assert(zr <= zc * 277_778) by {
        assert(zc * 1_000_000_000_000 <= (zc * 277_778) * (SCALE as int)) by (nonlinear_arith)
            requires
                zc >= 0,
        ;
        vstd::arithmetic::div_mod::lemma_div_is_ordered(
            zc * 1_000_000_000_000,
            (zc * 277_778) * (SCALE as int),
            SCALE as int,
        );
        vstd::arithmetic::div_mod::lemma_div_by_multiple(zc * 277_778, SCALE as int);
    }
    lemma_div_le(zc * 1_000_000_000_000, 2_545_585int * 1_000_000_000_000int, SCALE as int);
    assert(zr <= 707_107_000_000);
    let u = (zr * zr) / 1_000_000_000_000;
    lemma_mul_le(zr, 707_107_000_000, zr, 707_107_000_000);
    lemma_div_le(zr * zr, 707_107_000_000int * 707_107_000_000int, 1_000_000_000_000);
    assert(u <= 500_100_000_000);
    let a1 = spec_asin_step(7_312_525_874, 6_447_210_312, u);
    lemma_asin_step_caps(7_312_525_874, 6_447_210_312, u);
    lemma_mul_le(6_447_210_312, 6_447_210_312, u, 500_100_000_000);
    lemma_div_le(6_447_210_312 * u, 6_447_210_312int * 500_100_000_000int, 1_000_000_000_000);
    assert(a1 <= 10_536_775_752);
    let a2 = spec_asin_step(8_390_335_810, a1, u);
    lemma_asin_step_caps(8_390_335_810, a1, u);
    lemma_mul_le(a1, 10_536_775_752, u, 500_100_000_000);
    lemma_div_le(a1 * u, 10_536_775_752int * 500_100_000_000int, 1_000_000_000_000);
    assert(a2 <= 13_659_777_364);
    let a3 = spec_asin_step(9_761_609_529, a2, u);
    lemma_asin_step_caps(9_761_609_529, a2, u);
    lemma_mul_le(a2, 13_659_777_364, u, 500_100_000_000);
    lemma_div_le(a2 * u, 13_659_777_364int * 500_100_000_000int, 1_000_000_000_000);
    assert(a3 <= 16_592_864_189);
    let a4 = spec_asin_step(11_551_800_896, a3, u);
    lemma_asin_step_caps(11_551_800_896, a3, u);
    lemma_mul_le(a3, 16_592_864_189, u, 500_100_000_000);
    lemma_div_le(a3 * u, 16_592_864_189int * 500_100_000_000int, 1_000_000_000_000);
    assert(a4 <= 19_849_892_277);
    let a5 = spec_asin_step(13_964_843_750, a4, u);
    lemma_asin_step_caps(13_964_843_750, a4, u);
    lemma_mul_le(a4, 19_849_892_277, u, 500_100_000_000);
    lemma_div_le(a4 * u, 19_849_892_277int * 500_100_000_000int, 1_000_000_000_000);
    assert(a5 <= 23_891_774_878);
    let a6 = spec_asin_step(17_352_764_423, a5, u);
    lemma_asin_step_caps(17_352_764_423, a5, u);
    lemma_mul_le(a5, 23_891_774_878, u, 500_100_000_000);
    lemma_div_le(a5 * u, 23_891_774_878int * 500_100_000_000int, 1_000_000_000_000);
    assert(a6 <= 29_301_041_040);
    let a7 = spec_asin_step(22_372_159_091, a6, u);
    lemma_asin_step_caps(22_372_159_091, a6, u);
    lemma_mul_le(a6, 29_301_041_040, u, 500_100_000_000);
    lemma_div_le(a6 * u, 29_301_041_040int * 500_100_000_000int, 1_000_000_000_000);
    assert(a7 <= 37_025_609_716);
    let a8 = spec_asin_step(30_381_944_444, a7, u);
    lemma_asin_step_caps(30_381_944_444, a7, u);
    lemma_mul_le(a7, 37_025_609_716, u, 500_100_000_000);
    lemma_div_le(a7 * u, 37_025_609_716int * 500_100_000_000int, 1_000_000_000_000);
    assert(a8 <= 48_898_451_863);
    let a9 = spec_asin_step(44_642_857_143, a8, u);
    lemma_asin_step_caps(44_642_857_143, a8, u);
    lemma_mul_le(a8, 48_898_451_863, u, 500_100_000_000);
    lemma_div_le(a8 * u, 48_898_451_863int * 500_100_000_000int, 1_000_000_000_000);
    assert(a9 <= 69_096_972_920);
    let a10 = spec_asin_step(75_000_000_000, a9, u);
    lemma_asin_step_caps(75_000_000_000, a9, u);
    lemma_mul_le(a9, 69_096_972_920, u, 500_100_000_000);
    lemma_div_le(a9 * u, 69_096_972_920int * 500_100_000_000int, 1_000_000_000_000);
    assert(a10 <= 109_555_396_158);
    let a11 = spec_asin_step(166_666_666_667, a10, u);
    lemma_asin_step_caps(166_666_666_667, a10, u);
    lemma_mul_le(a10, 109_555_396_158, u, 500_100_000_000);
    lemma_div_le(a10 * u, 109_555_396_158int * 500_100_000_000int, 1_000_000_000_000);
    assert(a11 <= 221_455_320_286);
    let a12 = spec_asin_step(1_000_000_000_000, a11, u);
    lemma_asin_step_caps(1_000_000_000_000, a11, u);
    lemma_mul_le(a11, 221_455_320_286, u, 500_100_000_000);
    lemma_div_le(a11 * u, 221_455_320_286int * 500_100_000_000int, 1_000_000_000_000);
    assert(a12 <= 1_110_749_805_676);
    let res = (zr * a12) / 1_000_000_000_000;
    lemma_asin_step_nonneg(1_000_000_000_000, a11, u);
    assert(res <= zc * 308_542) by {
        assert(zr * a12 <= (zc * 277_778) * 1_110_749_805_676) by (nonlinear_arith)
            requires
                0 <= zr <= zc * 277_778,
                0 <= a12 <= 1_110_749_805_676,
        ;
        assert((zc * 277_778) * 1_110_749_805_676 <= (zc * 308_542) * 1_000_000_000_000) by (nonlinear_arith)
            requires
                zc >= 0,
        ;
        vstd::arithmetic::div_mod::lemma_div_is_ordered(
            zr * a12,
            (zc * 308_542) * 1_000_000_000_000,
            1_000_000_000_000,
        );
        vstd::arithmetic::div_mod::lemma_div_by_multiple(zc * 308_542, 1_000_000_000_000);
    }
    assert((res * 20_626_480_624_710) / 100_000_000_000_000_000 <= 64 * zc) by {
        assert(res * 20_626_480_624_710 <= (zc * 308_542) * 20_626_480_624_710) by (nonlinear_arith)
            requires
                res <= zc * 308_542,
                zc >= 0,
        ;
        assert((zc * 308_542) * 20_626_480_624_710 <= (64 * zc) * 100_000_000_000_000_000) by (nonlinear_arith)
            requires
                zc >= 0,
        ;
        vstd::arithmetic::div_mod::lemma_div_is_ordered(
            res * 20_626_480_624_710,
            (64 * zc) * 100_000_000_000_000_000,
            100_000_000_000_000_000,
        );
        vstd::arithmetic::div_mod::lemma_div_by_multiple(64 * zc, 100_000_000_000_000_000);
        assert(res * 20_626_480_624_710 >= 0) by (nonlinear_arith)
            requires
                res >= 0,
        ;
        vstd::arithmetic::div_mod::lemma_div_pos_is_pos(
            res * 20_626_480_624_710,
            100_000_000_000_000_000,
        );
    }
    assert(64 * zc <= 64 * z) by (nonlinear_arith)
        requires
            zc <= z,
    ;
}

/// A nonnegative sine value of at least four hundred thousand units has an
/// arcsine of at least a clock second's worth of angle.
proof fn lemma_asin_pos_lower(z: int)
    requires
        400_000 <= z <= SCALE as int,
    ensures
        spec_asin(z) >= 15,
{
    if z <= 2_545_584 {
        lemma_asin_core_gap(0, z);
        lemma_asin_core_range(0);
    } else {
        assert(z * z <= (SCALE as int) * (SCALE as int) && z * z >= 0) by (nonlinear_arith)
            requires
                0 <= z <= SCALE as int,
        ;
        lemma_isqrt_exists(12_960_000_000_000 - z * z);
        let w = spec_isqrt(12_960_000_000_000 - z * z);
        assert(w <= 2_545_585) by (nonlinear_arith)
            requires
                w >= 0,
                w * w <= 12_960_000_000_000 - z * z,
                z >= 2_545_585,
        ;
        lemma_asin_core_linear_upper(w);
        assert(64 * w <= 64 * 2_545_585) by (nonlinear_arith)
            requires
                w <= 2_545_585,
        ;
    }
}

/// The arcsine of nonnegative values grows by at least a clock second's
/// worth of angle over any step of eight hundred thousand units.
proof fn lemma_asin_gap_pos(z1: int, z2: int)
    requires
        0 <= z1,
        z1 + 800_000 <= z2 <= SCALE as int,
    ensures
        spec_asin(z2) >= spec_asin(z1) + 15,
{
    if z2 <= 2_545_584 {
        lemma_asin_core_gap(z1, z2);
    } else if z1 > 2_545_584 {
        assert(z1 * z1 <= (SCALE as int) * (SCALE as int) && z1 * z1 >= 0 && z2 * z2 >= 0 && z2
            * z2 <= (SCALE as int) * (SCALE as int)) by (nonlinear_arith)
            requires
                0 <= z1 <= SCALE as int,
                0 <= z2 <= SCALE as int,
        ;
        lemma_isqrt_exists(12_960_000_000_000 - z1 * z1);
        lemma_isqrt_exists(12_960_000_000_000 - z2 * z2);
        let w1 = spec_isqrt(12_960_000_000_000 - z1 * z1);
        let w2 = spec_isqrt(12_960_000_000_000 - z2 * z2);
        assert(w1 <= 2_545_585) by (nonlinear_arith)
            requires
                w1 >= 0,
                w1 * w1 <= 12_960_000_000_000 - z1 * z1,
                z1 >= 2_545_585,
        ;
        assert(w2 <= 2_545_585) by (nonlinear_arith)
            requires
                w2 >= 0,
                w2 * w2 <= 12_960_000_000_000 - z2 * z2,
                z2 >= 2_545_585,
        ;
        assert(w1 >= w2 + 300_001) by (nonlinear_arith)
            requires
                w1 >= 0,
                w2 >= 0,
                w1 <= 2_545_585,
                w2 <= 2_545_585,
                12_960_000_000_000 - z1 * z1 < (w1 + 1) * (w1 + 1),
                w2 * w2 <= 12_960_000_000_000 - z2 * z2,
                z2 >= z1 + 800_000,
                z1 >= 2_545_585,
                z2 <= 3_600_000,
        ;
        lemma_asin_core_gap(w2, w1);
    } else {
        assert(z2 * z2 >= 0 && z2 * z2 <= (SCALE as int) * (SCALE as int)) by (nonlinear_arith)
            requires
                0 <= z2 <= SCALE as int,
        ;
        lemma_isqrt_exists(12_960_000_000_000 - z2 * z2);
        let w2 = spec_isqrt(12_960_000_000_000 - z2 * z2);
        lemma_asin_core_linear_upper(z1);
        lemma_asin_core_linear_upper(w2);
        assert(z1 + w2 <= 4_700_000) by (nonlinear_arith)
            requires
                w2 >= 0,
                z1 >= 0,
                w2 * w2 <= 12_960_000_000_000 - z2 * z2,
                z2 >= z1 + 800_000,
                z2 <= 3_600_000,
        ;
        assert(64 * z1 + 64 * w2 <= 64 * 4_700_000) by (nonlinear_arith)
            requires
                z1 + w2 <= 4_700_000,
        ;
    }
}

/// The arcsine grows by at least a clock second's worth of angle over any
/// step of eight hundred thousand units, anywhere in its domain: the local
/// wiggle of the truncated series is far smaller than such a step.
pub proof fn lemma_asin_gap(x1: int, x2: int)
    requires
        -(SCALE as int) <= x1,
        x1 + 800_000 <= x2 <= SCALE as int,
    ensures
        spec_asin(x2) >= spec_asin(x1) + 15,
{
    if x1 >= 0 {
        lemma_asin_gap_pos(x1, x2);
    } else if x2 <= 0 {
        lemma_asin_gap_pos(-x2, -x1);
    } else {
        lemma_asin_range(x1);
        lemma_asin_range(x2);
        if x2 >= 400_000 {
            lemma_asin_pos_lower(x2);
        } else {
            lemma_asin_pos_lower(-x1);
            assert(spec_asin(x1) == -spec_asin(-x1));
        }
    }
}

/// The sine series step stays within its fixed band, at the spec level.
proof fn lemma_sin_step_range(k: int, v: int, u: int)
    requires
        6 <= k <= 156,
        0 <= v <= 1_000_000_000_000,
        0 <= u <= 2_470_000_000_000,
    ensures
        588_000_000_000 <= spec_sin_step(k, v, u) <= 1_000_000_000_000,
{
    lemma_mul_le(u, 2_470_000_000_000, v, 1_000_000_000_000);
    lemma_div_le(u * v, 2_470_000_000_000int * 1_000_000_000_000int, 1_000_000_000_000);
    lemma_div_le((u * v) / 1_000_000_000_000int, 2_470_000_000_000, 6);
    vstd::arithmetic::div_mod::lemma_div_is_ordered_by_denominator(
        (u * v) / 1_000_000_000_000int,
        6,
        k,
    );
    vstd::arithmetic::div_mod::lemma_div_pos_is_pos((u * v) / 1_000_000_000_000int, k);
}

/// The first-quadrant sine stays within one unit, at the spec level.
proof fn lemma_sin_quarter_range(x: int)
    requires
        0 <= x <= 324_000_000,
    ensures
        0 <= spec_sin_quarter(x) <= SCALE as int,
{
    let t = (x * 48_481_368_110_954) / 10_000_000_000;
    lemma_mul_le(x, 324_000_000, 48_481_368_110_954, 48_481_368_110_954);
    lemma_div_le(x * 48_481_368_110_954, 324_000_000int * 48_481_368_110_954int, 10_000_000_000);
    assert((324_000_000int * 48_481_368_110_954int) / 10_000_000_000int
        <= 1_570_800_000_000int) by (nonlinear_arith);
    let u = (t * t) / 1_000_000_000_000;
    lemma_mul_le(t, 1_570_800_000_000, t, 1_570_800_000_000);
    lemma_div_le(t * t, 1_570_800_000_000int * 1_570_800_000_000int, 1_000_000_000_000);
    assert((1_570_800_000_000int * 1_570_800_000_000int) / 1_000_000_000_000int
        <= 2_470_000_000_000int) by (nonlinear_arith);
    let v1 = spec_sin_step(156, 1_000_000_000_000, u);
    lemma_sin_step_range(156, 1_000_000_000_000, u);
    let v2 = spec_sin_step(110, v1, u);
    lemma_sin_step_range(110, v1, u);
    let v3 = spec_sin_step(72, v2, u);
    lemma_sin_step_range(72, v2, u);
    let v4 = spec_sin_step(42, v3, u);
    lemma_sin_step_range(42, v3, u);
    let v5 = spec_sin_step(20, v4, u);
    lemma_sin_step_range(20, v4, u);
    let v6 = spec_sin_step(6, v5, u);
    lemma_sin_step_range(6, v5, u);
    let res = (t * v6) / 1_000_000_000_000;
    lemma_mul_le(t, 1_570_800_000_000, v6, 1_000_000_000_000);
    lemma_div_le(t * v6, 1_570_800_000_000int * 1_000_000_000_000int, 1_000_000_000_000);
    lemma_mul_le(res, 1_570_800_000_000, SCALE as int, SCALE as int);
    lemma_div_le(res * (SCALE as int), 1_570_800_000_000int * (SCALE as int), 1_000_000_000_000);
}

/// The sine of any angle stays within one unit, at the spec level.
pub proof fn lemma_sin_range(x: int)
    ensures
        -(SCALE as int) <= spec_sin(x) <= SCALE as int,
{
    let a = spec_normalize(x, FULL_TURN as int);
    vstd::arithmetic::div_mod::lemma_mod_division_less_than_divisor(x, FULL_TURN as int);
    if a <= 324_000_000 {
        lemma_sin_quarter_range(a);
    } else if a <= 648_000_000 {
        lemma_sin_quarter_range(648_000_000 - a);
    } else if a <= 972_000_000 {
        lemma_sin_quarter_range(a - 648_000_000);
    } else {
        lemma_sin_quarter_range(1_296_000_000 - a);
    }
}

/// The cosine of any angle stays within one unit, at the spec level.
pub proof fn lemma_cos_range(x: int)
    ensures
        -(SCALE as int) <= spec_cos(x) <= SCALE as int,
{
    lemma_sin_range(spec_normalize(x, FULL_TURN as int) + 324_000_000);
}

pub(crate) proof fn lemma_sin_at_refraction()
    ensures
        spec_sin(2_998_800) == 52_337,
{
    vstd::arithmetic::div_mod::lemma_small_mod(2_998_800nat, 1_296_000_000nat);
    assert((2_998_800int * 48_481_368_110_954int) / 10_000_000_000int == 14_538_592_669int);
    assert((14_538_592_669int * 14_538_592_669int) / 1_000_000_000_000int == 211_370_676int);
    assert(spec_sin_step(156, 1_000_000_000_000, 211_370_676) == 999_998_645_060int) by {
        assert(((211_370_676int * 1_000_000_000_000int) / 1_000_000_000_000int) / 156int == 1_354_940int);
    }
    assert(spec_sin_step(110, 999_998_645_060, 211_370_676) == 999_998_078_452int) by {
        assert(((211_370_676int * 999_998_645_060int) / 1_000_000_000_000int) / 110int == 1_921_548int);
    }
    assert(spec_sin_step(72, 999_998_078_452, 211_370_676) == 999_997_064_302int) by {
        assert(((211_370_676int * 999_998_078_452int) / 1_000_000_000_000int) / 72int == 2_935_698int);
    }
    assert(spec_sin_step(42, 999_997_064_302, 211_370_676) == 999_994_967_380int) by {
        assert(((211_370_676int * 999_997_064_302int) / 1_000_000_000_000int) / 42int == 5_032_620int);
    }
    assert(spec_sin_step(20, 999_994_967_380, 211_370_676) == 999_989_431_520int) by {
        assert(((211_370_676int * 999_994_967_380int) / 1_000_000_000_000int) / 20int == 10_568_480int);
    }
    assert(spec_sin_step(6, 999_989_431_520, 211_370_676) == 999_964_771_927int) by {
        assert(((211_370_676int * 999_989_431_520int) / 1_000_000_000_000int) / 6int == 35_228_073int);
    }
    assert((14_538_592_669int * 999_964_771_927int) / 1_000_000_000_000int == 14_538_080_502int);
    assert((14_538_080_502int * 3_600_000int) / 1_000_000_000_000int == 52_337int);
}

pub(crate) proof fn lemma_sin_at_fourteen()
    ensures
        spec_sin(50_400_000) == 870_918,
{
    vstd::arithmetic::div_mod::lemma_small_mod(50_400_000nat, 1_296_000_000nat);
    assert((50_400_000int * 48_481_368_110_954int) / 10_000_000_000int == 244_346_095_279int);
    assert((244_346_095_279int * 244_346_095_279int) / 1_000_000_000_000int == 59_705_014_278int);
    assert(spec_sin_step(156, 1_000_000_000_000, 59_705_014_278) == 999_617_275_550int) by {
        assert(((59_705_014_278int * 1_000_000_000_000int) / 1_000_000_000_000int) / 156int == 382_724_450int);
    }
    assert(spec_sin_step(110, 999_617_275_550, 59_705_014_278) == 999_457_434_876int) by {
        assert(((59_705_014_278int * 999_617_275_550int) / 1_000_000_000_000int) / 110int == 542_565_124int);
    }
    assert(spec_sin_step(72, 999_457_434_876, 59_705_014_278) == 999_171_213_606int) by {
        assert(((59_705_014_278int * 999_457_434_876int) / 1_000_000_000_000int) / 72int == 828_786_394int);
    }
    assert(spec_sin_step(42, 999_171_213_606, 59_705_014_278) == 998_579_630_201int) by {
        assert(((59_705_014_278int * 999_171_213_606int) / 1_000_000_000_000int) / 42int == 1_420_369_799int);
    }
    assert(spec_sin_step(20, 998_579_630_201, 59_705_014_278) == 997_018_989_447int) by {
        assert(((59_705_014_278int * 998_579_630_201int) / 1_000_000_000_000int) / 20int == 2_981_010_553int);
    }
    assert(spec_sin_step(6, 997_018_989_447, 59_705_014_278) == 990_078_827_834int) by {
        assert(((59_705_014_278int * 997_018_989_447int) / 1_000_000_000_000int) / 6int == 9_921_172_166int);
    }
    assert((244_346_095_279int * 990_078_827_834int) / 1_000_000_000_000int == 241_921_895_599int);
    assert((241_921_895_599int * 3_600_000int) / 1_000_000_000_000int == 870_918int);
}

pub(crate) proof fn lemma_sin_at_fifteen()
    ensures
        spec_sin(54_000_000) == 931_748,
{
    vstd::arithmetic::div_mod::lemma_small_mod(54_000_000nat, 1_296_000_000nat);
    assert((54_000_000int * 48_481_368_110_954int) / 10_000_000_000int == 261_799_387_799int);
    assert((261_799_387_799int * 261_799_387_799int) / 1_000_000_000_000int == 68_538_919_451int);
    assert(spec_sin_step(156, 1_000_000_000_000, 68_538_919_451) == 999_560_647_953int) by {
        assert(((68_538_919_451int * 1_000_000_000_000int) / 1_000_000_000_000int) / 156int == 439_352_047int);
    }
    assert(spec_sin_step(110, 999_560_647_953, 68_538_919_451) == 999_377_192_667int) by {
        assert(((68_538_919_451int * 999_560_647_953int) / 1_000_000_000_000int) / 110int == 622_807_333int);
    }
    assert(spec_sin_step(72, 999_377_192_667, 68_538_919_451) == 999_048_663_432int) by {
        assert(((68_538_919_451int * 999_377_192_667int) / 1_000_000_000_000int) / 72int == 951_336_568int);
    }
    assert(spec_sin_step(42, 999_048_663_432, 68_538_919_451) == 998_369_673_432int) by {
        assert(((68_538_919_451int * 999_048_663_432int) / 1_000_000_000_000int) / 42int == 1_630_326_568int);
    }
    assert(spec_sin_step(20, 998_369_673_432, 68_538_919_451) == 996_578_641_069int) by {
        assert(((68_538_919_451int * 998_369_673_432int) / 1_000_000_000_000int) / 20int == 3_421_358_931int);
    }
    assert(spec_sin_step(6, 996_578_641_069, 68_538_919_451) == 988_615_929_466int) by {
        assert(((68_538_919_451int * 996_578_641_069int) / 1_000_000_000_000int) / 6int == 11_384_070_534int);
    }
    assert((261_799_387_799int * 988_615_929_466int) / 1_000_000_000_000int == 258_819_045_102int);
    assert((258_819_045_102int * 3_600_000int) / 1_000_000_000_000int == 931_748int);
}

pub(crate) proof fn lemma_sin_at_sixteen()
    ensures
        spec_sin(57_600_000) == 992_294,
{
    vstd::arithmetic::div_mod::lemma_small_mod(57_600_000nat, 1_296_000_000nat);
    assert((57_600_000int * 48_481_368_110_954int) / 10_000_000_000int == 279_252_680_319int);
    assert((279_252_680_319int * 279_252_680_319int) / 1_000_000_000_000int == 77_982_059_465int);
    assert(spec_sin_step(156, 1_000_000_000_000, 77_982_059_465) == 999_500_115_004int) by {
        assert(((77_982_059_465int * 1_000_000_000_000int) / 1_000_000_000_000int) / 156int == 499_884_996int);
    }
    assert(spec_sin_step(110, 999_500_115_004, 77_982_059_465) == 999_291_426_570int) by {
        assert(((77_982_059_465int * 999_500_115_004int) / 1_000_000_000_000int) / 110int == 708_573_430int);
    }
    assert(spec_sin_step(72, 999_291_426_570, 77_982_059_465) == 998_917_683_286int) by {
        assert(((77_982_059_465int * 999_291_426_570int) / 1_000_000_000_000int) / 72int == 1_082_316_714int);
    }
    assert(spec_sin_step(42, 998_917_683_286, 77_982_059_465) == 998_145_293_853int) by {
        assert(((77_982_059_465int * 998_917_683_286int) / 1_000_000_000_000int) / 42int == 1_854_706_147int);
    }
    assert(spec_sin_step(20, 998_145_293_853, 77_982_059_465) == 996_108_128_718int) by {
        assert(((77_982_059_465int * 998_145_293_853int) / 1_000_000_000_000int) / 20int == 3_891_871_282int);
    }
    assert(spec_sin_step(6, 996_108_128_718, 77_982_059_465) == 987_053_572_779int) by {
        assert(((77_982_059_465int * 996_108_128_718int) / 1_000_000_000_000int) / 6int == 12_946_427_221int);
    }
    assert((279_252_680_319int * 987_053_572_779int) / 1_000_000_000_000int == 275_637_355_816int);
    assert((275_637_355_816int * 3_600_000int) / 1_000_000_000_000int == 992_294int);
}

pub(crate) proof fn lemma_sin_at_seventeen()
    ensures
        spec_sin(61_200_000) == 1_052_538,
{
    vstd::arithmetic::div_mod::lemma_small_mod(61_200_000nat, 1_296_000_000nat);
    assert((61_200_000int * 48_481_368_110_954int) / 10_000_000_000int == 296_705_972_839int);
    assert((296_705_972_839int * 296_705_972_839int) / 1_000_000_000_000int == 88_034_434_318int);
    assert(spec_sin_step(156, 1_000_000_000_000, 88_034_434_318) == 999_435_676_704int) by {
        assert(((88_034_434_318int * 1_000_000_000_000int) / 1_000_000_000_000int) / 156int == 564_323_296int);
    }
    assert(spec_sin_step(110, 999_435_676_704, 88_034_434_318) == 999_200_138_597int) by {
        assert(((88_034_434_318int * 999_435_676_704int) / 1_000_000_000_000int) / 110int == 799_861_403int);
    }
    assert(spec_sin_step(72, 999_200_138_597, 88_034_434_318) == 998_778_277_515int) by {
        assert(((88_034_434_318int * 999_200_138_597int) / 1_000_000_000_000int) / 72int == 1_221_722_485int);
    }
    assert(spec_sin_step(42, 998_778_277_515, 88_034_434_318) == 997_906_502_842int) by {
        assert(((88_034_434_318int * 998_778_277_515int) / 1_000_000_000_000int) / 42int == 2_093_497_158int);
    }
    assert(spec_sin_step(20, 997_906_502_842, 88_034_434_318) == 995_607_493_277int) by {
        assert(((88_034_434_318int * 997_906_502_842int) / 1_000_000_000_000int) / 20int == 4_392_506_723int);
    }
    assert(spec_sin_step(6, 995_607_493_277, 88_034_434_318) == 985_392_042_922int) by {
        assert(((88_034_434_318int * 995_607_493_277int) / 1_000_000_000_000int) / 6int == 14_607_957_078int);
    }
    assert((296_705_972_839int * 985_392_042_922int) / 1_000_000_000_000int == 292_371_704_722int);
    assert((292_371_704_722int * 3_600_000int) / 1_000_000_000_000int == 1_052_538int);
}

pub(crate) proof fn lemma_sin_at_seventeen_and_half()
    ensures
        spec_sin(63_000_000) == 1_082_540,
{
    vstd::arithmetic::div_mod::lemma_small_mod(63_000_000nat, 1_296_000_000nat);
    assert((63_000_000int * 48_481_368_110_954int) / 10_000_000_000int == 305_432_619_099int);
    assert((305_432_619_099int * 305_432_619_099int) / 1_000_000_000_000int == 93_289_084_809int);
    assert(spec_sin_step(156, 1_000_000_000_000, 93_289_084_809) == 999_401_993_047int) by {
        assert(((93_289_084_809int * 1_000_000_000_000int) / 1_000_000_000_000int) / 156int == 598_006_953int);
    }
    assert(spec_sin_step(110, 999_401_993_047, 93_289_084_809) == 999_152_424_571int) by {
        assert(((93_289_084_809int * 999_401_993_047int) / 1_000_000_000_000int) / 110int == 847_575_429int);
    }
    assert(spec_sin_step(72, 999_152_424_571, 93_289_084_809) == 998_705_416_455int) by {
        assert(((93_289_084_809int * 999_152_424_571int) / 1_000_000_000_000int) / 72int == 1_294_583_545int);
    }
    assert(spec_sin_step(42, 998_705_416_455, 93_289_084_809) == 997_781_706_803int) by {
        assert(((93_289_084_809int * 998_705_416_455int) / 1_000_000_000_000int) / 42int == 2_218_293_197int);
    }
    assert(spec_sin_step(20, 997_781_706_803, 93_289_084_809) == 995_345_892_887int) by {
        assert(((93_289_084_809int * 997_781_706_803int) / 1_000_000_000_000int) / 20int == 4_654_107_113int);
    }
    assert(spec_sin_step(6, 995_345_892_887, 93_289_084_809) == 984_524_182_098int) by {
        assert(((93_289_084_809int * 995_345_892_887int) / 1_000_000_000_000int) / 6int == 15_475_817_902int);
    }
    assert((305_432_619_099int * 984_524_182_098int) / 1_000_000_000_000int == 300_705_799_504int);
    assert((300_705_799_504int * 3_600_000int) / 1_000_000_000_000int == 1_082_540int);
}

pub(crate) proof fn lemma_sin_at_seventeen_point_seven()
    ensures
        spec_sin(63_720_000) == 1_094_519,
{
    vstd::arithmetic::div_mod::lemma_small_mod(63_720_000nat, 1_296_000_000nat);
    assert((63_720_000int * 48_481_368_110_954int) / 10_000_000_000int == 308_923_277_602int);
    assert((308_923_277_602int * 308_923_277_602int) / 1_000_000_000_000int == 95_433_591_444int);
    assert(spec_sin_step(156, 1_000_000_000_000, 95_433_591_444) == 999_388_246_209int) by {
        assert(((95_433_591_444int * 1_000_000_000_000int) / 1_000_000_000_000int) / 156int == 611_753_791int);
    }
    assert(spec_sin_step(110, 999_388_246_209, 95_433_591_444) == 999_132_952_641int) by {
        assert(((95_433_591_444int * 999_388_246_209int) / 1_000_000_000_000int) / 110int == 867_047_359int);
    }
    assert(spec_sin_step(72, 999_132_952_641, 95_433_591_444) == 998_675_682_695int) by {
        assert(((95_433_591_444int * 999_132_952_641int) / 1_000_000_000_000int) / 72int == 1_324_317_305int);
    }
    assert(spec_sin_step(42, 998_675_682_695, 95_433_591_444) == 997_730_780_784int) by {
        assert(((95_433_591_444int * 998_675_682_695int) / 1_000_000_000_000int) / 42int == 2_269_219_216int);
    }
    assert(spec_sin_step(20, 997_730_780_784, 95_433_591_444) == 995_239_148_415int) by {
        assert(((95_433_591_444int * 997_730_780_784int) / 1_000_000_000_000int) / 20int == 4_760_851_585int);
    }
    assert(spec_sin_step(6, 995_239_148_415, 95_433_591_444) == 984_170_125_621int) by {
        assert(((95_433_591_444int * 995_239_148_415int) / 1_000_000_000_000int) / 6int == 15_829_874_379int);
    }
    assert((308_923_277_602int * 984_170_125_621int) / 1_000_000_000_000int == 304_033_060_924int);
    assert((304_033_060_924int * 3_600_000int) / 1_000_000_000_000int == 1_094_519int);
}

pub(crate) proof fn lemma_sin_at_eighteen()
    ensures
        spec_sin(64_800_000) == 1_112_461,
{
    vstd::arithmetic::div_mod::lemma_small_mod(64_800_000nat, 1_296_000_000nat);
    assert((64_800_000int * 48_481_368_110_954int) / 10_000_000_000int == 314_159_265_358int);
    assert((314_159_265_358int * 314_159_265_358int) / 1_000_000_000_000int == 98_696_044_010int);
    assert(spec_sin_step(156, 1_000_000_000_000, 98_696_044_010) == 999_367_333_052int) by {
        assert(((98_696_044_010int * 1_000_000_000_000int) / 1_000_000_000_000int) / 156int == 632_666_948int);
    }
    assert(spec_sin_step(110, 999_367_333_052, 98_696_044_010) == 999_103_330_889int) by {
        assert(((98_696_044_010int * 999_367_333_052int) / 1_000_000_000_000int) / 110int == 896_669_111int);
    }
    assert(spec_sin_step(72, 999_103_330_889, 98_696_044_010) == 998_630_450_746int) by {
        assert(((98_696_044_010int * 999_103_330_889int) / 1_000_000_000_000int) / 72int == 1_369_549_254int);
    }
    assert(spec_sin_step(42, 998_630_450_746, 98_696_044_010) == 997_653_312_502int) by {
        assert(((98_696_044_010int * 998_630_450_746int) / 1_000_000_000_000int) / 42int == 2_346_687_498int);
    }
    assert(spec_sin_step(20, 997_653_312_502, 98_696_044_010) == 995_076_778_239int) by {
        assert(((98_696_044_010int * 997_653_312_502int) / 1_000_000_000_000int) / 20int == 4_923_221_761int);
    }
    assert(spec_sin_step(6, 995_076_778_239, 98_696_044_010) == 983_631_643_084int) by {
        assert(((98_696_044_010int * 995_076_778_239int) / 1_000_000_000_000int) / 6int == 16_368_356_916int);
    }
    assert((314_159_265_358int * 983_631_643_084int) / 1_000_000_000_000int == 309_016_994_374int);
    assert((309_016_994_374int * 3_600_000int) / 1_000_000_000_000int == 1_112_461int);
}

pub(crate) proof fn lemma_sin_at_eighteen_and_half()
    ensures
        spec_sin(66_600_000) == 1_142_296,
{
    vstd::arithmetic::div_mod::lemma_small_mod(66_600_000nat, 1_296_000_000nat);
    assert((66_600_000int * 48_481_368_110_954int) / 10_000_000_000int == 322_885_911_618int);
    assert((322_885_911_618int * 322_885_911_618int) / 1_000_000_000_000int == 104_255_311_921int);
    assert(spec_sin_step(156, 1_000_000_000_000, 104_255_311_921) == 999_331_696_719int) by {
        assert(((104_255_311_921int * 1_000_000_000_000int) / 1_000_000_000_000int) / 156int == 668_303_281int);
    }
    assert(spec_sin_step(110, 999_331_696_719, 104_255_311_921) == 999_052_857_839int) by {
        assert(((104_255_311_921int * 999_331_696_719int) / 1_000_000_000_000int) / 110int == 947_142_161int);
    }
    assert(spec_sin_step(72, 999_052_857_839, 104_255_311_921) == 998_553_381_010int) by {
        assert(((104_255_311_921int * 999_052_857_839int) / 1_000_000_000_000int) / 72int == 1_446_618_990int);
    }
    assert(spec_sin_step(42, 998_553_381_010, 104_255_311_921) == 997_521_321_567int) by {
        assert(((104_255_311_921int * 998_553_381_010int) / 1_000_000_000_000int) / 42int == 2_478_678_433int);
    }
    assert(spec_sin_step(20, 997_521_321_567, 104_255_311_921) == 994_800_155_174int) by {
        assert(((104_255_311_921int * 997_521_321_567int) / 1_000_000_000_000int) / 20int == 5_199_844_826int);
    }
    assert(spec_sin_step(6, 994_800_155_174, 104_255_311_921) == 982_714_466_588int) by {
        assert(((104_255_311_921int * 994_800_155_174int) / 1_000_000_000_000int) / 6int == 17_285_533_412int);
    }
    assert((322_885_911_618int * 982_714_466_588int) / 1_000_000_000_000int == 317_304_656_404int);
    assert((317_304_656_404int * 3_600_000int) / 1_000_000_000_000int == 1_142_296int);
}

pub(crate) proof fn lemma_sin_at_nineteen_and_half()
    ensures
        spec_sin(70_200_000) == 1_201_704,
{
    vstd::arithmetic::div_mod::lemma_small_mod(70_200_000nat, 1_296_000_000nat);
    assert((70_200_000int * 48_481_368_110_954int) / 10_000_000_000int == 340_339_204_138int);
    assert((340_339_204_138int * 340_339_204_138int) / 1_000_000_000_000int == 115_830_773_873int);
    assert(spec_sin_step(156, 1_000_000_000_000, 115_830_773_873) == 999_257_495_040int) by {
        assert(((115_830_773_873int * 1_000_000_000_000int) / 1_000_000_000_000int) / 156int == 742_504_960int);
    }
    assert(spec_sin_step(110, 999_257_495_040, 115_830_773_873) == 998_947_774_828int) by {
        assert(((115_830_773_873int * 999_257_495_040int) / 1_000_000_000_000int) / 110int == 1_052_225_172int);
    }
    assert(spec_sin_step(72, 998_947_774_828, 115_830_773_873) == 998_392_932_031int) by {
        assert(((115_830_773_873int * 998_947_774_828int) / 1_000_000_000_000int) / 72int == 1_607_067_969int);
    }
    assert(spec_sin_step(42, 998_392_932_031, 115_830_773_873) == 997_246_556_526int) by {
        assert(((115_830_773_873int * 998_392_932_031int) / 1_000_000_000_000int) / 42int == 2_753_443_474int);
    }
    assert(spec_sin_step(20, 997_246_556_526, 115_830_773_873) == 994_224_407_981int) by {
        assert(((115_830_773_873int * 997_246_556_526int) / 1_000_000_000_000int) / 20int == 5_775_592_019int);
    }
    assert(spec_sin_step(6, 994_224_407_981, 115_830_773_873) == 980_806_369_571int) by {
        assert(((115_830_773_873int * 994_224_407_981int) / 1_000_000_000_000int) / 6int == 19_193_630_429int);
    }
    assert((340_339_204_138int * 980_806_369_571int) / 1_000_000_000_000int == 333_806_859_233int);
    assert((333_806_859_233int * 3_600_000int) / 1_000_000_000_000int == 1_201_704int);
}

} // verus!
