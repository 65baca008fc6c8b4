//! Fixed-point numeric utilities: value normalization, scale conversions and
//! the integer helpers the astronomical formulas are built from.

use vstd::prelude::*;

pub mod deg;
pub mod time;

verus! {

/// Fixed-point scale: units per whole degree, hour or day.
pub const SCALE: i64 = 3_600_000;

/// One full turn of degrees, in units.
pub const FULL_TURN: i64 = 1_296_000_000;

/// One full day of hours, in units.
pub const FULL_DAY: i64 = 86_400_000;

pub open spec fn abs_int(a: int) -> int {
    if a >= 0 {
        a
    } else {
        -a
    }
}

/// Mathematical (Euclidean) remainder of `value` by `max`.
pub open spec fn spec_normalize(value: int, max: int) -> int {
    value % max
}

/// Maps `value` into `[0, max)` by the mathematical modulo: negative values
/// wrap forward, so normalizing -80 degrees by a full turn gives 280 degrees.
pub fn normalize(value: i64, max: i64) -> (r: i64)
    requires
        1 <= max,
    ensures
        0 <= r < max,
        r == spec_normalize(value as int, max as int),
{
    if value >= 0 {
        let m = (value as u64) % (max as u64);
        m as i64
    } else {
        let mag = ((-(value as i128)) as u128) % (max as u128);
        let m = mag as i64;
        proof {
            let v = value as int;
            let mm = max as int;
            let q = (-v) / mm;
            vstd::arithmetic::div_mod::lemma_fundamental_div_mod(-v, mm);
            vstd::arithmetic::div_mod::lemma_mod_division_less_than_divisor(-v, mm);
            if m == 0 {
                assert(v == (-q) * mm + 0) by (nonlinear_arith)
                    requires
                        -v == mm * q + 0,
                ;
                vstd::arithmetic::div_mod::lemma_fundamental_div_mod_converse(v, mm, -q, 0);
            } else {
                assert(v == (-q - 1) * mm + (mm - m)) by (nonlinear_arith)
                    requires
                        -v == mm * q + m,
                ;
                vstd::arithmetic::div_mod::lemma_fundamental_div_mod_converse(
                    v,
                    mm,
                    -q - 1,
                    mm - m,
                );
            }
        }
        if m == 0 {
            0
        } else {
            max - m
        }
    }
}

/// Floor division by a positive divisor, exact also for negative dividends.
pub open spec fn spec_floor_div(n: int, den: int) -> int
    recommends
        den >= 1,
{
    n / den
}

pub(crate) fn floor_div(n: i64, den: i64) -> (r: i64)
    requires
        1 <= den <= 1_000_000_000_000,
        -1_000_000_000_000_000 <= n <= 1_000_000_000_000_000,
    ensures
        r == spec_floor_div(n as int, den as int),
{
    if n >= 0 {
        let q = (n as u64) / (den as u64);
        q as i64
    } else {
        let m = -n + den - 1;
        let q = ((m as u64) / (den as u64)) as i64;
        proof {
            vstd::arithmetic::div_mod::lemma_fundamental_div_mod(m as int, den as int);
            vstd::arithmetic::div_mod::lemma_mod_division_less_than_divisor(m as int, den as int);
            let r0 = (m as int) % (den as int);
            assert(n == (-(q as int)) * (den as int) + (den - 1 - r0)) by (nonlinear_arith)
                requires
                    m == (den as int) * (q as int) + r0,
                    m == -n + den - 1,
            ;
            vstd::arithmetic::div_mod::lemma_fundamental_div_mod_converse(
                n as int,
                den as int,
                -(q as int),
                den - 1 - r0,
            );
        }
        -q
    }
}

/// Sign-preserving scaling: `n * num / den` with the magnitude truncated
/// toward zero, the rounding the engine's formulas use throughout.
pub open spec fn spec_mul_div(n: int, num: int, den: int) -> int
    recommends
        num >= 0,
        den >= 1,
{
    if n >= 0 {
        (n * num) / den
    } else {
        -(((-n) * num) / den)
    }
}

/// Multiplies `n` by the ratio `num / den` in 128-bit arithmetic.
pub fn mul_div(n: i64, num: i64, den: i64) -> (r: i64)
    requires
        0 <= num <= 1_000_000_000_000_000,
        1 <= den,
        -4_000_000_000_000_000 <= n <= 4_000_000_000_000_000,
        abs_int(spec_mul_div(n as int, num as int, den as int)) <= i64::MAX,
    ensures
        r == spec_mul_div(n as int, num as int, den as int),
{
    let neg = n < 0;
    let mag = if neg {
        (-n) as u128
    } else {
        n as u128
    };
    assert(mag * (num as u128) <= 4_000_000_000_000_000 * 1_000_000_000_000_000u128) by (nonlinear_arith)
        requires
            mag <= 4_000_000_000_000_000,
            0 <= num <= 1_000_000_000_000_000,
    ;
    let q = mag * (num as u128) / (den as u128);
    if neg {
        -(q as i64)
    } else {
        q as i64
    }
}

/// Product of two unit-scaled factors, rescaled back to units and truncated
/// toward zero: the fixed-point counterpart of a real multiplication.
pub open spec fn spec_mul_unit(a: int, b: int) -> int {
    if (a >= 0) == (b >= 0) {
        (abs_int(a) * abs_int(b)) / (SCALE as int)
    } else {
        -((abs_int(a) * abs_int(b)) / (SCALE as int))
    }
}

/// Fixed-point product of two values each bounded by one full turn.
pub fn mul_unit(a: i64, b: i64) -> (r: i64)
    requires
        -FULL_TURN <= a <= FULL_TURN,
        -FULL_TURN <= b <= FULL_TURN,
    ensures
        r == spec_mul_unit(a as int, b as int),
        abs_int(r as int) <= 466_560_000_000,
{
    let ma = if a < 0 {
        (-a) as u128
    } else {
        a as u128
    };
    let mb = if b < 0 {
        (-b) as u128
    } else {
        b as u128
    };
    assert(ma * mb <= 1_296_000_000 * 1_296_000_000u128) by (nonlinear_arith)
        requires
            ma <= 1_296_000_000,
            mb <= 1_296_000_000,
    ;
    let q = ma * mb / (SCALE as u128);
    assert(q <= 466_560_000_000) by {
        vstd::arithmetic::div_mod::lemma_div_is_ordered(
            (ma * mb) as int,
            1_296_000_000int * 1_296_000_000int,
            SCALE as int,
        );
        assert((1_296_000_000int * 1_296_000_000int) / (SCALE as int) == 466_560_000_000int) by (nonlinear_arith);
    }
    let same = (a < 0) == (b < 0);
    if same {
        q as i64
    } else {
        -(q as i64)
    }
}

/// Radians-to-degrees conversion at the fixed-point scale.
pub open spec fn spec_rad2deg(x: int) -> int {
    spec_mul_div(x, 572_957_795_130_823, 10_000_000_000_000)
}

/// Converts a unit-scaled radian value to unit-scaled degrees.
pub fn rad2deg(rad: i64) -> (r: i64)
    requires
        -4_000_000_000_000_000 <= rad <= 4_000_000_000_000_000,
    ensures
        r == spec_rad2deg(rad as int),
{
    proof {
        lemma_mul_le(abs_int(rad as int), 4_000_000_000_000_000, 572_957_795_130_823, 572_957_795_130_823);
        assert(4_000_000_000_000_000int * 572_957_795_130_823int
            <= 240_000_000_000_000_000int * 10_000_000_000_000int) by (nonlinear_arith);
        lemma_mul_div_bound(
            rad as int,
            572_957_795_130_823,
            10_000_000_000_000,
            240_000_000_000_000_000,
        );
    }
    mul_div(rad, 572_957_795_130_823, 10_000_000_000_000)
}

/// Degrees-to-radians conversion at the fixed-point scale.
pub open spec fn spec_deg2rad(x: int) -> int {
    spec_mul_div(x, 17_453_292_519_943, 1_000_000_000_000_000)
}

/// Converts a unit-scaled degree value to unit-scaled radians.
pub fn deg2rad(deg: i64) -> (r: i64)
    requires
        -4_000_000_000_000_000 <= deg <= 4_000_000_000_000_000,
    ensures
        r == spec_deg2rad(deg as int),
{
    proof {
        lemma_mul_le(abs_int(deg as int), 4_000_000_000_000_000, 17_453_292_519_943, 17_453_292_519_943);
        assert(4_000_000_000_000_000int * 17_453_292_519_943int
            <= 70_000_000_000_000int * 1_000_000_000_000_000int) by (nonlinear_arith);
        lemma_mul_div_bound(
            deg as int,
            17_453_292_519_943,
            1_000_000_000_000_000,
            70_000_000_000_000,
        );
    }
    mul_div(deg, 17_453_292_519_943, 1_000_000_000_000_000)
}

/// The unit-scaled product of two values bounded by one unit stays bounded
/// by one unit, as the product of two sines does.
pub proof fn lemma_mul_unit_unit(a: int, b: int)
    requires
        abs_int(a) <= SCALE as int,
        abs_int(b) <= SCALE as int,
    ensures
        abs_int(spec_mul_unit(a, b)) <= SCALE as int,
{
    lemma_mul_le(abs_int(a), SCALE as int, abs_int(b), SCALE as int);
    lemma_div_le(abs_int(a) * abs_int(b), (SCALE as int) * (SCALE as int), SCALE as int);
    assert(((SCALE as int) * (SCALE as int)) / (SCALE as int) == SCALE as int) by (nonlinear_arith);
}

/// Product bound for nonnegative factors.
pub proof fn lemma_mul_le(a: int, ca: int, b: int, cb: int)
    requires
        0 <= a <= ca,
        0 <= b <= cb,
    ensures
        0 <= a * b <= ca * cb,
{
    assert(0 <= a * b <= ca * cb) by (nonlinear_arith)
        requires
            0 <= a <= ca,
            0 <= b <= cb,
    ;
}

/// Quotient bound for a nonnegative dividend and positive divisor.
pub proof fn lemma_div_le(x: int, cap: int, den: int)
    requires
        0 <= x <= cap,
        1 <= den,
    ensures
        0 <= x / den <= cap / den,
{
    vstd::arithmetic::div_mod::lemma_div_is_ordered(x, cap, den);
    vstd::arithmetic::div_mod::lemma_div_pos_is_pos(x, den);
}

/// Bounds the magnitude of a `spec_mul_div` result from a bound on the input.
pub proof fn lemma_mul_div_bound(n: int, num: int, den: int, cap: int)
    requires
        num >= 0,
        den >= 1,
        cap >= 0,
        abs_int(n) * num <= cap * den,
    ensures
        abs_int(spec_mul_div(n, num, den)) <= cap,
{
    let a = abs_int(n);
    assert(a * num >= 0) by (nonlinear_arith)
        requires
            a >= 0,
            num >= 0,
    ;
    vstd::arithmetic::div_mod::lemma_div_pos_is_pos(a * num, den);
    vstd::arithmetic::div_mod::lemma_div_is_ordered(a * num, cap * den, den);
    assert(cap * den == den * cap) by (nonlinear_arith);
    vstd::arithmetic::div_mod::lemma_div_multiples_vanish(cap, den);
    assert((a * num) / den <= cap);
    if n >= 0 {
        assert(a * num == n * num);
    } else {
        assert(a * num == (-n) * num);
    }
}

/// Dividing a sum is at least the sum of the divided parts, and exceeds it
/// by at most one: the two remainders can carry at most once.
pub proof fn lemma_div_superadd(x: int, y: int, d: int)
    requires
        x >= 0,
        y >= 0,
        d >= 1,
    ensures
        (x + y) / d >= x / d + y / d,
        (x + y) / d <= x / d + y / d + 1,
{
    let qx = x / d;
    let rx = x % d;
    let qy = y / d;
    let ry = y % d;
    vstd::arithmetic::div_mod::lemma_fundamental_div_mod(x, d);
    vstd::arithmetic::div_mod::lemma_fundamental_div_mod(y, d);
    vstd::arithmetic::div_mod::lemma_mod_division_less_than_divisor(x, d);
    vstd::arithmetic::div_mod::lemma_mod_division_less_than_divisor(y, d);
    if rx + ry < d {
        assert(x + y == (qx + qy) * d + (rx + ry)) by (nonlinear_arith)
            requires
                x == d * qx + rx,
                y == d * qy + ry,
        ;
        vstd::arithmetic::div_mod::lemma_fundamental_div_mod_converse(
            x + y,
            d,
            qx + qy,
            rx + ry,
        );
    } else {
        assert(x + y == (qx + qy + 1) * d + (rx + ry - d)) by (nonlinear_arith)
            requires
                x == d * qx + rx,
                y == d * qy + ry,
        ;
        vstd::arithmetic::div_mod::lemma_fundamental_div_mod_converse(
            x + y,
            d,
            qx + qy + 1,
            rx + ry - d,
        );
    }
}

} // verus!
