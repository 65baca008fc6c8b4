//! The astronomical core: Julian dates, a low-precision solar position
//! model, and the inverse-trigonometric solvers that turn a horizon angle or
//! a shadow-length ratio into a clock hour.

use vstd::prelude::*;

use crate::datetime::Date;
use crate::error::Error;
use crate::math::FULL_DAY;
use crate::math::FULL_TURN;
use crate::math::SCALE;
use crate::math::abs_int;
use crate::math::deg;
use crate::math::floor_div;
use crate::math::lemma_mul_div_bound;
use crate::math::lemma_mul_le;
use crate::math::lemma_mul_unit_unit;
use crate::math::mul_div;
use crate::math::mul_unit;
use crate::math::normalize;
use crate::math::spec_floor_div;
use crate::math::spec_mul_div;
use crate::math::spec_mul_unit;
use crate::math::spec_normalize;

verus! {

/// The Julian date of noon of the epoch the solar model counts from.
pub const JD_EPOCH: i64 = 8_825_562_000_000;

/// The Julian date of a calendar date, in units of days: the standard
/// algorithm with the January/February year shift and the Gregorian
/// correction term, ending on a half day since a Julian day begins at noon.
pub open spec fn spec_julian(year: int, month: int, day: int) -> int {
    let y = if month <= 2 {
        year - 1
    } else {
        year
    };
    let m = if month <= 2 {
        month + 12
    } else {
        month
    };
    let a = spec_floor_div(y, 100);
    let b = 2 - a + spec_floor_div(a, 4);
    (spec_floor_div(36_525 * (y + 4716), 100) + spec_floor_div(306_001 * (m + 1), 10_000) + day
        + b) * (SCALE as int) - 5_488_200_000
}

/// Returns the Julian date for the given calendar date, in units of days.
pub fn julian(date: &Date) -> (r: i64)
    requires
        date.valid(),
    ensures
        r == spec_julian(date.year as int, date.month as int, date.day as int),
        -400_000_000_000_000 <= r <= 400_000_000_000_000,
{
    let year = date.year as i64;
    let month = date.month as i64;
    let day = date.day as i64;
    let y = if month <= 2 {
        year - 1
    } else {
        year
    };
    let m = if month <= 2 {
        month + 12
    } else {
        month
    };
    let a = floor_div(y, 100);
    let b = 2 - a + floor_div(a, 4);
    let days = floor_div(36_525 * (y + 4716), 100) + floor_div(306_001 * (m + 1), 10_000) + day
        + b;
    proof {
        vstd::arithmetic::div_mod::lemma_div_is_ordered(
            36_525 * (y + 4716),
            36_525int * 266_860int,
            100int,
        );
        vstd::arithmetic::div_mod::lemma_div_is_ordered(
            36_525int * (-257_430int),
            36_525 * (y + 4716),
            100int,
        );
        crate::math::lemma_div_le(306_001 * (m + 1), 306_001int * 15int, 10_000int);
    }
    days * SCALE - 5_488_200_000
}

/// Days since the epoch, in units.
pub open spec fn spec_sun_n(jd: int) -> int {
    jd - JD_EPOCH as int
}

/// Mean anomaly of the sun, in units of degrees.
pub open spec fn spec_sun_g(jd: int) -> int {
    spec_normalize(
        1_287_104_400 + spec_mul_div(spec_sun_n(jd), 98_560_028, 100_000_000),
        FULL_TURN as int,
    )
}

/// Mean longitude of the sun, in units of degrees.
pub open spec fn spec_sun_q(jd: int) -> int {
    spec_normalize(
        1_009_652_400 + spec_mul_div(spec_sun_n(jd), 98_564_736, 100_000_000),
        FULL_TURN as int,
    )
}

/// Geocentric apparent ecliptic longitude of the sun, in units of degrees.
pub open spec fn spec_sun_l(jd: int) -> int {
    spec_normalize(
        spec_sun_q(jd) + spec_mul_div(deg::spec_sin(spec_sun_g(jd)), 1_915, 1_000) + spec_mul_div(
            deg::spec_sin(2 * spec_sun_g(jd)),
            20,
            1_000,
        ),
        FULL_TURN as int,
    )
}

/// Mean obliquity of the ecliptic, in units of degrees.
pub open spec fn spec_sun_e(jd: int) -> int {
    84_380_400 - spec_mul_div(spec_sun_n(jd), 36, 100_000_000)
}

/// Right ascension of the sun, in units of hours, normalized to a day.
pub open spec fn spec_sun_ra(jd: int) -> int {
    spec_normalize(
        spec_mul_div(
            deg::spec_atan2(
                spec_mul_unit(deg::spec_cos(spec_sun_e(jd)), deg::spec_sin(spec_sun_l(jd))),
                deg::spec_cos(spec_sun_l(jd)),
            ),
            1,
            15,
        ),
        FULL_DAY as int,
    )
}

/// Equation of time, in units of hours.
pub open spec fn spec_eqt(jd: int) -> int {
    spec_sun_q(jd) / 15 - spec_sun_ra(jd)
}

/// Declination of the sun, in units of degrees.
pub open spec fn spec_decl(jd: int) -> int {
    deg::spec_asin(spec_mul_unit(deg::spec_sin(spec_sun_e(jd)), deg::spec_sin(spec_sun_l(jd))))
}

/// Returns the equation of time (hours) and the declination of the sun
/// (degrees) for a Julian date, per the standard low-precision
/// approximation of the solar position.
pub fn sun_coords(jd: i64) -> (r: (i64, i64))
    requires
        -400_000_000_000_000 <= jd <= 400_000_000_000_000,
    ensures
        r.0 == spec_eqt(jd as int),
        r.1 == spec_decl(jd as int),
        -FULL_DAY < r.0 < FULL_DAY,
        -324_000_000 <= r.1 <= 324_000_000,
{
    let n = jd - JD_EPOCH;
    proof {
        lemma_mul_le(abs_int(n as int), 1_000_000_000_000_000, 98_560_028, 98_560_028);
        assert(1_000_000_000_000_000int * 98_560_028int <= 1_000_000_000_000_000int
            * 100_000_000int) by (nonlinear_arith);
        lemma_mul_div_bound(n as int, 98_560_028, 100_000_000, 1_000_000_000_000_000);
        lemma_mul_le(abs_int(n as int), 1_000_000_000_000_000, 98_564_736, 98_564_736);
        assert(1_000_000_000_000_000int * 98_564_736int <= 1_000_000_000_000_000int
            * 100_000_000int) by (nonlinear_arith);
        lemma_mul_div_bound(n as int, 98_564_736, 100_000_000, 1_000_000_000_000_000);
        lemma_mul_le(abs_int(n as int), 1_000_000_000_000_000, 36, 36);
        assert(1_000_000_000_000_000int * 36int <= 360_000_000int * 100_000_000int) by (nonlinear_arith);
        lemma_mul_div_bound(n as int, 36, 100_000_000, 360_000_000);
    }
    let g = normalize(1_287_104_400 + mul_div(n, 98_560_028, 100_000_000), FULL_TURN);
    let q = normalize(1_009_652_400 + mul_div(n, 98_564_736, 100_000_000), FULL_TURN);
    let sg = deg::sin(g);
    let s2g = deg::sin(2 * g);
    proof {
        lemma_mul_le(abs_int(sg as int), SCALE as int, 1_915, 1_915);
        assert((SCALE as int) * 1_915int <= 6_894_000int * 1_000int) by (nonlinear_arith);
        lemma_mul_div_bound(sg as int, 1_915, 1_000, 6_894_000);
        lemma_mul_le(abs_int(s2g as int), SCALE as int, 20, 20);
        assert((SCALE as int) * 20int <= 72_000int * 1_000int) by (nonlinear_arith);
        lemma_mul_div_bound(s2g as int, 20, 1_000, 72_000);
    }
    let l = normalize(q + mul_div(sg, 1_915, 1_000) + mul_div(s2g, 20, 1_000), FULL_TURN);
    let e = 84_380_400 - mul_div(n, 36, 100_000_000);
    let ce = deg::cos(e);
    let sl = deg::sin(l);
    let cl = deg::cos(l);
    proof {
        lemma_mul_unit_unit(ce as int, sl as int);
    }
    let y = mul_unit(ce, sl);
    let ra0 = deg::atan2(y, cl);
    proof {
        lemma_mul_div_bound(ra0 as int, 1, 15, 648_000_000);
    }
    let ra = normalize(mul_div(ra0, 1, 15), FULL_DAY);
    let eqt = (q as u64 / 15) as i64 - ra;
    let se = deg::sin(e);
    proof {
        lemma_mul_unit_unit(se as int, sl as int);
    }
    let decl = deg::asin(mul_unit(se, sl));
    proof {
        crate::math::lemma_div_le(q as int, (FULL_TURN as int) - 1, 15int);
    }
    (eqt, decl)
}

/// The local clock hour of solar noon, in units of hours: twelve plus the
/// timezone offset, corrected by the longitude and the equation of time.
pub open spec fn spec_zenith(jd: int, lng: int, tz: int) -> int {
    43_200_000 + tz - spec_mul_div(lng, 1, 15) - spec_eqt(jd)
}

/// Returns the hour of the day at which the sun crosses the local meridian.
pub fn zenith(jd: i64, lng: i64, tz: i64) -> (r: i64)
    requires
        -400_000_000_000_000 <= jd <= 400_000_000_000_000,
        -1_000_000_000_000 <= lng <= 1_000_000_000_000,
        -86_400_000 <= tz <= 86_400_000,
    ensures
        r == spec_zenith(jd as int, lng as int, tz as int),
        -67_000_000_000 <= r <= 67_000_000_000,
{
    proof {
        lemma_mul_div_bound(lng as int, 1, 15, 1_000_000_000_000);
    }
    let eqt = sun_coords(jd).0;
    43_200_000 + tz - mul_div(lng, 1, 15) - eqt
}

/// Which side of solar noon a horizon crossing is asked for.
pub enum HorizonDirection {
    Sunrise,
    Sunset,
}

/// Signed unit-scaled quotient of two unit-scaled values, truncated toward
/// zero: the cosine ratio handed to the arccosine.
pub open spec fn spec_unit_ratio(num: int, den: int) -> int
    recommends
        den != 0,
{
    if (num >= 0) == (den >= 0) {
        (abs_int(num) * (SCALE as int)) / abs_int(den)
    } else {
        -((abs_int(num) * (SCALE as int)) / abs_int(den))
    }
}

fn unit_ratio(num: i64, den: i64) -> (r: i64)
    requires
        -7_200_000 <= num <= 7_200_000,
        den != 0,
        -3_600_000 <= den <= 3_600_000,
    ensures
        r == spec_unit_ratio(num as int, den as int),
        abs_int(r as int) <= 25_920_000_000_000,
{
    let mn = if num < 0 {
        (-num) as u64
    } else {
        num as u64
    };
    let md = if den < 0 {
        (-den) as u64
    } else {
        den as u64
    };
    proof {
        lemma_mul_le(mn as int, 7_200_000, SCALE as int, SCALE as int);
        crate::math::lemma_div_le((mn as int) * (SCALE as int), 7_200_000int * (SCALE as int), md as int);
        assert(7_200_000int * (SCALE as int) <= 25_920_000_000_000int) by (nonlinear_arith);
        vstd::arithmetic::div_mod::lemma_div_nonincreasing((mn as int) * (SCALE as int), md as int);
    }
    let m = (mn * (SCALE as u64) / md) as i64;
    if (num < 0) == (den < 0) {
        m
    } else {
        -m
    }
}

/// The denominator of the horizon formula: the product of the cosines of
/// latitude and declination.
pub open spec fn spec_horizon_den(jd: int, lat: int) -> int {
    spec_mul_unit(deg::spec_cos(lat), deg::spec_cos(spec_decl(jd)))
}

/// The numerator of the horizon formula for a depression angle.
pub open spec fn spec_horizon_num(angle: int, jd: int, lat: int) -> int {
    -deg::spec_sin(angle) - spec_mul_unit(deg::spec_sin(lat), deg::spec_sin(spec_decl(jd)))
}

/// The cosine ratio the horizon formula hands to the arccosine.
pub open spec fn spec_horizon_ratio(angle: int, jd: int, lat: int) -> int {
    spec_unit_ratio(spec_horizon_num(angle, jd, lat), spec_horizon_den(jd, lat))
}

/// Whether the horizon condition occurs at all: the denominator is nonzero
/// and the cosine ratio lies within one unit.
pub open spec fn spec_horizon_occurs(angle: int, jd: int, lat: int) -> bool {
    &&& spec_horizon_den(jd, lat) != 0
    &&& abs_int(spec_horizon_ratio(angle, jd, lat)) <= SCALE as int
}

/// The offset from solar noon, in units of hours, at which the sun stands
/// `angle` below the horizon.
pub open spec fn spec_horizon_offset(angle: int, jd: int, lat: int) -> int {
    deg::spec_acos(spec_horizon_ratio(angle, jd, lat)) / 15
}

/// Returns the hour at which the sun makes the given angle below the
/// horizon, on the chosen side of solar noon, or the no-such-time error
/// where the condition never occurs on that date at that latitude.
pub fn horizon_hour_angle(angle: i64, jd: i64, zenith: i64, lat: i64, direction: HorizonDirection) -> (r: Result<
    i64,
    Error,
>)
    requires
        -400_000_000_000_000 <= jd <= 400_000_000_000_000,
        -67_000_000_000 <= zenith <= 67_000_000_000,
    ensures
        r is Ok <==> spec_horizon_occurs(angle as int, jd as int, lat as int),
        r matches Ok(h) ==> h == match direction {
            HorizonDirection::Sunrise => zenith - spec_horizon_offset(
                angle as int,
                jd as int,
                lat as int,
            ),
            HorizonDirection::Sunset => zenith + spec_horizon_offset(
                angle as int,
                jd as int,
                lat as int,
            ),
        },
        r matches Err(e) ==> e == Error::NoSuchTime,
{
    let decl = sun_coords(jd).1;
    let sa = deg::sin(angle);
    let slat = deg::sin(lat);
    let sdecl = deg::sin(decl);
    let clat = deg::cos(lat);
    let cdecl = deg::cos(decl);
    proof {
        lemma_mul_unit_unit(slat as int, sdecl as int);
        lemma_mul_unit_unit(clat as int, cdecl as int);
    }
    let num = -sa - mul_unit(slat, sdecl);
    let den = mul_unit(clat, cdecl);
    if den == 0 {
        return Err(Error::NoSuchTime);
    }
    let ratio = unit_ratio(num, den);
    if ratio > SCALE || ratio < -SCALE {
        return Err(Error::NoSuchTime);
    }
    let t = (deg::acos(ratio) as u64 / 15) as i64;
    match direction {
        HorizonDirection::Sunrise => Ok(zenith - t),
        HorizonDirection::Sunset => Ok(zenith + t),
    }
}

/// The altitude angle at which an object's shadow has the given length
/// relative to the object, in units of degrees.
pub open spec fn spec_shadow_angle(length: int, jd: int, lat: int) -> int {
    deg::spec_acot(length + deg::spec_tan(lat - spec_decl(jd)))
}

/// The numerator of the shadow formula: as the horizon numerator, with the
/// sine of the shadow altitude in place of the negated depression sine.
pub open spec fn spec_shadow_num(length: int, jd: int, lat: int) -> int {
    deg::spec_sin(spec_shadow_angle(length, jd, lat)) - spec_mul_unit(
        deg::spec_sin(lat),
        deg::spec_sin(spec_decl(jd)),
    )
}

/// The cosine ratio the shadow formula hands to the arccosine.
pub open spec fn spec_shadow_ratio(length: int, jd: int, lat: int) -> int {
    spec_unit_ratio(spec_shadow_num(length, jd, lat), spec_horizon_den(jd, lat))
}

/// Whether the shadow condition occurs at all.
pub open spec fn spec_shadow_occurs(length: int, jd: int, lat: int) -> bool {
    &&& spec_horizon_den(jd, lat) != 0
    &&& abs_int(spec_shadow_ratio(length, jd, lat)) <= SCALE as int
}

/// The offset from solar noon, in units of hours, at which the shadow
/// condition occurs; the afternoon side is always meant.
pub open spec fn spec_shadow_offset(length: int, jd: int, lat: int) -> int {
    deg::spec_acos(spec_shadow_ratio(length, jd, lat)) / 15
}

/// Returns the hour after solar noon at which an object's shadow is
/// `length` times the object, or the no-such-time error where that never
/// occurs on that date at that latitude.
pub fn shadow_length_hour(length: i64, jd: i64, zenith: i64, lat: i64) -> (r: Result<i64, Error>)
    requires
        -400_000_000_000_000 <= jd <= 400_000_000_000_000,
        -67_000_000_000 <= zenith <= 67_000_000_000,
        -1_000_000_000_000 <= length <= 1_000_000_000_000,
        -1_000_000_000_000_000 <= lat <= 1_000_000_000_000_000,
    ensures
        r is Ok <==> spec_shadow_occurs(length as int, jd as int, lat as int),
        r matches Ok(h) ==> h == zenith + spec_shadow_offset(length as int, jd as int, lat as int),
        r matches Err(e) ==> e == Error::NoSuchTime,
{
    let decl = sun_coords(jd).1;
    let a = deg::acot(length + deg::tan(lat - decl));
    let sa = deg::sin(a);
    let slat = deg::sin(lat);
    let sdecl = deg::sin(decl);
    let clat = deg::cos(lat);
    let cdecl = deg::cos(decl);
    proof {
        lemma_mul_unit_unit(slat as int, sdecl as int);
        lemma_mul_unit_unit(clat as int, cdecl as int);
    }
    let num = sa - mul_unit(slat, sdecl);
    let den = mul_unit(clat, cdecl);
    if den == 0 {
        return Err(Error::NoSuchTime);
    }
    let ratio = unit_ratio(num, den);
    if ratio > SCALE || ratio < -SCALE {
        return Err(Error::NoSuchTime);
    }
    let t = (deg::acos(ratio) as u64 / 15) as i64;
    Ok(zenith + t)
}

/// A solver offset is at most half a day, and is strictly positive unless
/// the cosine ratio sits exactly on the upper domain boundary, where the
/// requested condition happens exactly at solar noon.
pub proof fn lemma_offset_bounds(ratio: int)
    requires
        abs_int(ratio) <= SCALE as int,
    ensures
        0 <= deg::spec_acos(ratio) / 15 <= 43_200_000,
        ratio <= (SCALE as int) - 1 ==> deg::spec_acos(ratio) / 15 >= 10_000,
{
    deg::lemma_acos_pos(ratio);
    crate::math::lemma_div_le(deg::spec_acos(ratio), 648_000_000, 15);
    if ratio <= (SCALE as int) - 1 {
        vstd::arithmetic::div_mod::lemma_div_is_ordered(150_000, deg::spec_acos(ratio), 15);
    }
}

/// Stepping the dividend down by one lowers the quotient exactly at the
/// multiples of the divisor.
proof fn lemma_prev_div(x: int, den: int)
    requires
        den >= 1,
    ensures
        (x - 1) / den == x / den - (if x % den == 0 {
            1int
        } else {
            0int
        }),
{
    let q = x / den;
    let r = x % den;
    vstd::arithmetic::div_mod::lemma_fundamental_div_mod(x, den);
    vstd::arithmetic::div_mod::lemma_mod_division_less_than_divisor(x, den);
    if r == 0 {
        assert(x - 1 == (q - 1) * den + (den - 1)) by (nonlinear_arith)
            requires
                x == den * q,
        ;
        vstd::arithmetic::div_mod::lemma_fundamental_div_mod_converse(x - 1, den, q - 1, den - 1);
    } else {
        assert(x - 1 == q * den + (r - 1)) by (nonlinear_arith)
            requires
                x == den * q + r,
        ;
        vstd::arithmetic::div_mod::lemma_fundamental_div_mod_converse(x - 1, den, q, r - 1);
    }
}

/// The year term of the Julian formula grows by 365 days from one year to
/// the next, and by 366 exactly when the incoming shifted year is a
/// multiple of four.
proof fn lemma_julian_year_step(x: int)
    ensures
        spec_floor_div(36_525 * (x + 1), 100) == spec_floor_div(36_525 * x, 100) + 365 + (
        if x % 4 == 3 {
            1int
        } else {
            0int
        }),
{
    let a = 36_525 * x;
    let qa = a / 100;
    let ra = a % 100;
    vstd::arithmetic::div_mod::lemma_fundamental_div_mod(a, 100);
    vstd::arithmetic::div_mod::lemma_mod_division_less_than_divisor(a, 100);
    let xq = x / 4;
    let xr = x % 4;
    vstd::arithmetic::div_mod::lemma_fundamental_div_mod(x, 4);
    vstd::arithmetic::div_mod::lemma_mod_division_less_than_divisor(x, 4);
    assert(a == 100 * (365 * x + xq) + 25 * xr) by (nonlinear_arith)
        requires
            a == 36_525 * x,
            x == 4 * xq + xr,
    ;
    vstd::arithmetic::div_mod::lemma_fundamental_div_mod_converse(
        a,
        100,
        365 * x + xq,
        25 * xr,
    );
    assert(ra == 25 * xr);
    if ra + 25 < 100 {
        assert(36_525 * (x + 1) == 100 * (qa + 365) + (ra + 25)) by (nonlinear_arith)
            requires
                a == 100 * qa + ra,
                a == 36_525 * x,
        ;
        vstd::arithmetic::div_mod::lemma_fundamental_div_mod_converse(
            36_525 * (x + 1),
            100,
            qa + 365,
            ra + 25,
        );
    } else {
        assert(36_525 * (x + 1) == 100 * (qa + 366) + (ra - 75)) by (nonlinear_arith)
            requires
                a == 100 * qa + ra,
                a == 36_525 * x,
        ;
        vstd::arithmetic::div_mod::lemma_fundamental_div_mod_converse(
            36_525 * (x + 1),
            100,
            qa + 366,
            ra - 75,
        );
    }
}

/// The Gregorian correction changes from one year to the next only at
/// centuries, and stays put at the quadricentennials.
proof fn lemma_julian_b_step(y: int)
    ensures
        (2 - spec_floor_div(y, 100) + spec_floor_div(spec_floor_div(y, 100), 4)) == (2
            - spec_floor_div(y - 1, 100) + spec_floor_div(spec_floor_div(y - 1, 100), 4)) - (
        if y % 100 == 0 && y % 400 != 0 {
            1int
        } else {
            0int
        }),
{
    lemma_prev_div(y, 100);
    let ay = y / 100;
    if y % 100 == 0 {
        lemma_prev_div(ay, 4);
        vstd::arithmetic::div_mod::lemma_fundamental_div_mod(y, 100);
        let q4 = ay / 4;
        let r4 = ay % 4;
        vstd::arithmetic::div_mod::lemma_fundamental_div_mod(ay, 4);
        vstd::arithmetic::div_mod::lemma_mod_division_less_than_divisor(ay, 4);
        assert(y == 400 * q4 + 100 * r4) by (nonlinear_arith)
            requires
                y == 100 * ay,
                ay == 4 * q4 + r4,
        ;
        vstd::arithmetic::div_mod::lemma_fundamental_div_mod_converse(y, 400, q4, 100 * r4);
        assert(y % 400 == 100 * r4);
    }
}

/// The calendar successor of a date.
pub open spec fn spec_next_day(y: int, m: int, d: int) -> (int, int, int) {
    if d < crate::datetime::spec_days_in_month(y, m) {
        (y, m, d + 1)
    } else if m < 12 {
        (y, m + 1, 1)
    } else {
        (y + 1, 1, 1)
    }
}

/// The Julian date of the calendar successor of a date is greater by
/// exactly one day.
pub proof fn lemma_julian_next_day(y: int, m: int, d: int)
    requires
        crate::datetime::spec_valid_date(y, m, d),
        y < crate::datetime::YEAR_MAX as int || !(m == 12 && d == 31),
    ensures
        spec_julian(
            spec_next_day(y, m, d).0,
            spec_next_day(y, m, d).1,
            spec_next_day(y, m, d).2,
        ) == spec_julian(y, m, d) + SCALE as int,
{
    let dim = crate::datetime::spec_days_in_month(y, m);
    if d < dim {
    } else if m == 2 {
        lemma_julian_year_step(y + 4715);
        lemma_julian_b_step(y);
        assert((y + 4715) % 4 == (y + 3) % 4) by {
            vstd::arithmetic::div_mod::lemma_mod_multiples_vanish(1178, y + 3, 4);
        }
        assert(y % 4 == 0 ==> (y + 3) % 4 == 3 && y % 4 != 0 ==> (y + 3) % 4 != 3) by {
            vstd::arithmetic::div_mod::lemma_mod_adds(y, 3, 4);
            vstd::arithmetic::div_mod::lemma_fundamental_div_mod(y, 4);
            vstd::arithmetic::div_mod::lemma_mod_division_less_than_divisor(y, 4);
            vstd::arithmetic::div_mod::lemma_fundamental_div_mod(y + 3, 4);
            vstd::arithmetic::div_mod::lemma_mod_division_less_than_divisor(y + 3, 4);
        }
        if y % 100 == 0 {
            assert(y % 4 == 0) by {
                vstd::arithmetic::div_mod::lemma_fundamental_div_mod(y, 100);
                let q = y / 100;
                assert(y == 4 * (25 * q) + 0) by (nonlinear_arith)
                    requires
                        y == 100 * q,
                ;
                vstd::arithmetic::div_mod::lemma_fundamental_div_mod_converse(y, 4, 25 * q, 0);
            }
        }
    } else {
    }
}

/// Calendar order on year-month-day triples.
pub open spec fn spec_date_lt(y1: int, m1: int, d1: int, y2: int, m2: int, d2: int) -> bool {
    y1 < y2 || (y1 == y2 && (m1 < m2 || (m1 == m2 && d1 < d2)))
}

/// The Julian date is strictly monotone in the calendar date: a later real
/// date always has a greater Julian date.
pub proof fn lemma_julian_monotonic(y1: int, m1: int, d1: int, y2: int, m2: int, d2: int)
    requires
        crate::datetime::spec_valid_date(y1, m1, d1),
        crate::datetime::spec_valid_date(y2, m2, d2),
        spec_date_lt(y1, m1, d1, y2, m2, d2),
    ensures
        spec_julian(y1, m1, d1) < spec_julian(y2, m2, d2),
    decreases (y2 - y1) * 400 + (m2 - m1) * 32 + (d2 - d1),
{
    let (ys, ms, ds) = spec_next_day(y1, m1, d1);
    lemma_julian_next_day(y1, m1, d1);
    assert(crate::datetime::spec_valid_date(ys, ms, ds));
    if ys == y2 && ms == m2 && ds == d2 {
    } else {
        assert(spec_date_lt(ys, ms, ds, y2, m2, d2));
        lemma_julian_monotonic(ys, ms, ds, y2, m2, d2);
    }
}

/// The Julian date of the first day of the year two thousand is the known
/// reference value: two million four hundred fifty-one thousand five
/// hundred forty-four and a half days, in units.
pub proof fn lemma_julian_epoch()
    ensures
        spec_julian(2000, 1, 1) == 8_825_560_200_000,
{
}

/// The unit ratio grows with its numerator, by at least the numerator's
/// step less one, for a positive denominator of at most one unit.
proof fn lemma_unit_ratio_gap(n1: int, n2: int, den: int)
    requires
        n2 >= n1 + 810_000,
        1 <= den <= SCALE as int,
        -7_200_000 <= n1,
        n2 <= 7_200_000,
    ensures
        spec_unit_ratio(n2, den) >= spec_unit_ratio(n1, den) + 800_000,
{
    let d = n2 - n1;
    if n1 >= 0 {
        assert(n2 * (SCALE as int) == n1 * (SCALE as int) + d * (SCALE as int)) by (nonlinear_arith)
            requires
                d == n2 - n1,
        ;
        assert(n1 * (SCALE as int) >= 0 && d * (SCALE as int) >= 0) by (nonlinear_arith)
            requires
                n1 >= 0,
                d >= 0,
        ;
        crate::math::lemma_div_superadd(n1 * (SCALE as int), d * (SCALE as int), den);
        vstd::arithmetic::div_mod::lemma_div_is_ordered_by_denominator(
            d * (SCALE as int),
            den,
            SCALE as int,
        );
        vstd::arithmetic::div_mod::lemma_div_by_multiple(d, SCALE as int);
    } else if n2 <= 0 {
        let m1 = -n1;
        let m2 = -n2;
        assert(m1 * (SCALE as int) == m2 * (SCALE as int) + d * (SCALE as int)) by (nonlinear_arith)
            requires
                d == n2 - n1,
                m1 == -n1,
                m2 == -n2,
        ;
        assert(m2 * (SCALE as int) >= 0 && d * (SCALE as int) >= 0) by (nonlinear_arith)
            requires
                m2 >= 0,
                d >= 0,
        ;
        crate::math::lemma_div_superadd(m2 * (SCALE as int), d * (SCALE as int), den);
        vstd::arithmetic::div_mod::lemma_div_is_ordered_by_denominator(
            d * (SCALE as int),
            den,
            SCALE as int,
        );
        vstd::arithmetic::div_mod::lemma_div_by_multiple(d, SCALE as int);
    } else {
        let m1 = -n1;
        assert(n2 * (SCALE as int) + m1 * (SCALE as int) == d * (SCALE as int)) by (nonlinear_arith)
            requires
                d == n2 - n1,
                m1 == -n1,
        ;
        assert(n2 * (SCALE as int) >= 0 && m1 * (SCALE as int) >= 0) by (nonlinear_arith)
            requires
                n2 >= 0,
                m1 >= 0,
        ;
        crate::math::lemma_div_superadd(n2 * (SCALE as int), m1 * (SCALE as int), den);
        vstd::arithmetic::div_mod::lemma_div_is_ordered_by_denominator(
            d * (SCALE as int),
            den,
            SCALE as int,
        );
        vstd::arithmetic::div_mod::lemma_div_by_multiple(d, SCALE as int);
    }
}

/// A larger depression angle, by at least a quarter degree of sine value,
/// puts its horizon crossing strictly farther from solar noon; dawn at any
/// authority's angle therefore precedes sunrise, and an angle-based night
/// follows sunset. The one condition left out is a nonpositive cosine
/// product, which arises only beyond the geographic latitude range.
pub proof fn lemma_horizon_offset_ordered(angle: int, jd: int, lat: int)
    requires
        deg::spec_sin(angle) >= deg::spec_sin(2_998_800) + 810_000,
        spec_horizon_den(jd, lat) >= 1,
        spec_horizon_occurs(angle, jd, lat),
        spec_horizon_occurs(2_998_800, jd, lat),
    ensures
        spec_horizon_offset(angle, jd, lat) > spec_horizon_offset(2_998_800, jd, lat),
{
    let den = spec_horizon_den(jd, lat);
    let na = spec_horizon_num(angle, jd, lat);
    let ns = spec_horizon_num(2_998_800, jd, lat);
    deg::lemma_sin_range(angle);
    deg::lemma_sin_range(2_998_800);
    deg::lemma_sin_range(lat);
    deg::lemma_sin_range(spec_decl(jd));
    crate::math::lemma_mul_unit_unit(deg::spec_sin(lat), deg::spec_sin(spec_decl(jd)));
    deg::lemma_cos_range(lat);
    deg::lemma_cos_range(spec_decl(jd));
    crate::math::lemma_mul_unit_unit(deg::spec_cos(lat), deg::spec_cos(spec_decl(jd)));
    lemma_unit_ratio_gap(na, ns, den);
    let ra = spec_horizon_ratio(angle, jd, lat);
    let rs = spec_horizon_ratio(2_998_800, jd, lat);
    deg::lemma_asin_gap(ra, rs);
    let aa = deg::spec_acos(ra);
    let as_ = deg::spec_acos(rs);
    assert(aa >= as_ + 15);
    deg::lemma_acos_pos(rs);
    vstd::arithmetic::div_mod::lemma_div_is_ordered(as_ + 15, aa, 15);
    vstd::arithmetic::div_mod::lemma_hoist_over_denominator(as_, 1, 15nat);
}

} // verus!
