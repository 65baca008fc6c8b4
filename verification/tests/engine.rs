//! Tests of the numeric engine: normalization, conversions, trigonometry,
//! Julian dates and the solar model.

use salah::SCALE;
use salah::astro;
use salah::datetime::{hour2time, time2hour, Date, Time};
use salah::error::Error;
use salah::math;
use salah::math::deg;

fn assert_close(a: i64, b: i64, tol: i64, message: &str) {
    if (a - b).abs() > tol {
        panic!("assert_close failed: {} {} and {} differ by more than {}", message, a, b, tol);
    }
}

#[test]
fn test_normalize() {
    let tolerance = 3_600; // a thousandth of a degree, in units
    assert_close(math::normalize(450 * SCALE, 360 * SCALE), 90 * SCALE, tolerance, "normalize 450.0 to [0, 360]");
    assert_close(math::normalize(-80 * SCALE, 360 * SCALE), 280 * SCALE, tolerance, "normalize -80.0 to [0, 360]");
    assert_close(math::normalize(2_701_080_000, 360 * SCALE), 109_080_000, tolerance, "normalize 750.3 to [0, 360]");
    assert_close(math::normalize(25 * SCALE, 24 * SCALE), SCALE, tolerance, "normalize 25.0 to [0, 24]");
}

#[test]
fn test_normalize_exact() {
    assert_eq!(math::normalize(450 * SCALE, 360 * SCALE), 90 * SCALE);
    assert_eq!(math::normalize(-80 * SCALE, 360 * SCALE), 280 * SCALE);
    assert_eq!(math::normalize(0, 360 * SCALE), 0);
    assert_eq!(math::normalize(-1, 360 * SCALE), 360 * SCALE - 1);
    assert_eq!(math::normalize(i64::MIN, 24 * SCALE), 60_424_192);
}

#[test]
fn test_rad2deg() {
    // half pi radians in units
    let test = math::rad2deg(5_654_867);
    let expected = 90 * SCALE;
    let tolerance = 3_600;
    assert_close(test, expected, tolerance, "pi / 2 to degrees");
}

#[test]
fn test_deg2rad() {
    let test = math::deg2rad(90 * SCALE);
    let expected = 5_654_867;
    let tolerance = 3_600;
    assert_close(test, expected, tolerance, "90 degrees to radians");
}

#[test]
fn test_time2hour() {
    let time = Time::from_hms(17, 24, 0).expect("Error!");
    let hour = time2hour(time);
    assert_eq!(hour, 62_640_000);
}

#[test]
fn test_hour2time() {
    let hour = 62_640_000; // 17.4 hours in units
    let time = hour2time(hour, true).expect("Error!");
    assert_eq!(time.hour, 17);
    assert_eq!(time.minute, 24);
    assert_eq!(time.second, 0);
}

#[test]
fn test_hour_time_round_trip() {
    let hour = 62_640_000;
    let time = hour2time(hour, true).expect("Error!");
    assert_eq!(time2hour(time), hour);
    // a value whose seconds round cleanly the other way
    let t2 = hour2time(13 * SCALE + 30 * 60_000, true).expect("Error!");
    assert_eq!(time2hour(t2), 13 * SCALE + 30 * 60_000);
}

#[test]
fn test_hour2time_rounds_seconds() {
    // 10:15:40 rounds up to 10:16:00
    let t = hour2time(10 * SCALE + 15 * 60_000 + 40_000, true).expect("Error!");
    assert_eq!((t.hour, t.minute, t.second), (10, 16, 0));
    // without rounding the seconds stay
    let t = hour2time(10 * SCALE + 15 * 60_000 + 40_000, false).expect("Error!");
    assert_eq!((t.hour, t.minute, t.second), (10, 15, 40));
}

#[test]
fn test_hour2time_wraps_and_saturates() {
    let t = hour2time(24 * SCALE, true).expect("Error!");
    assert_eq!((t.hour, t.minute, t.second), (0, 0, 0));
    let t = hour2time(-5 * SCALE, true).expect("Error!");
    assert_eq!((t.hour, t.minute, t.second), (0, 0, 0));
}

#[test]
fn test_hour2time_out_of_range() {
    // 23:59:45 rounds the minute up to sixty, which no clock time holds
    let r = hour2time(23 * SCALE + 59 * 60_000 + 45_000, true);
    assert_eq!(r, Err(Error::OutOfRange));
    // an hour beyond twenty-four cannot form a time either
    let r = hour2time(25 * SCALE, true);
    assert_eq!(r, Err(Error::OutOfRange));
}

#[test]
fn test_julian_reference_value() {
    let d = Date::from_ymd(2000, 1, 1).expect("Error!");
    // 2451544.5 days, in units
    assert_eq!(astro::julian(&d), 8_825_560_200_000);
}

#[test]
fn test_julian_monotone_across_boundaries() {
    let steps = [
        ((2023, 12, 31), (2024, 1, 1)),
        ((2024, 1, 31), (2024, 2, 1)),
        ((2024, 2, 28), (2024, 2, 29)),
        ((2024, 2, 29), (2024, 3, 1)),
        ((2024, 12, 31), (2025, 1, 1)),
        ((2025, 2, 28), (2025, 3, 1)),
        ((1900, 2, 28), (1900, 3, 1)),
        ((2000, 2, 29), (2000, 3, 1)),
    ];
    for ((y1, m1, d1), (y2, m2, d2)) in steps {
        let a = astro::julian(&Date::from_ymd(y1, m1, d1).expect("Error!"));
        let b = astro::julian(&Date::from_ymd(y2, m2, d2).expect("Error!"));
        assert_eq!(b, a + SCALE, "consecutive days differ by one day");
    }
    let ordered = [(1858, 11, 17), (1999, 12, 31), (2024, 2, 9), (2024, 2, 10), (2124, 6, 1)];
    let mut prev: Option<i64> = None;
    for (y, m, d) in ordered {
        let jd = astro::julian(&Date::from_ymd(y, m, d).expect("Error!"));
        if let Some(p) = prev {
            assert!(jd > p, "later dates have greater Julian dates");
        }
        prev = Some(jd);
    }
}

#[test]
fn test_leap_years() {
    assert!(Date::from_ymd(2024, 2, 29).is_some());
    assert!(Date::from_ymd(2023, 2, 29).is_none());
    assert!(Date::from_ymd(1900, 2, 29).is_none());
    assert!(Date::from_ymd(2000, 2, 29).is_some());
    assert!(Date::from_ymd(2024, 4, 31).is_none());
    assert!(Date::from_ymd(2024, 13, 1).is_none());
    assert!(Date::from_ymd(300_000, 1, 1).is_none());
}

#[test]
fn test_trig_values() {
    let tol = 600; // about one six-thousandth of a degree
    assert_close(deg::sin(30 * SCALE), SCALE / 2, tol, "sin 30");
    assert_close(deg::cos(60 * SCALE), SCALE / 2, tol, "cos 60");
    assert_close(deg::sin(90 * SCALE), SCALE, tol, "sin 90");
    assert_close(deg::sin(150 * SCALE), SCALE / 2, tol, "sin 150");
    assert_close(deg::sin(-80 * SCALE), -3_545_307, tol, "sin -80");
    assert_close(deg::tan(45 * SCALE), SCALE, tol, "tan 45");
    assert_close(deg::asin(SCALE / 2), 30 * SCALE, tol, "asin 1/2");
    assert_close(deg::acos(0), 90 * SCALE, tol, "acos 0");
    assert_close(deg::atan(SCALE), 45 * SCALE, tol, "atan 1");
    assert_close(deg::acot(SCALE), 45 * SCALE, tol, "acot 1");
    assert_close(deg::acot(0), 90 * SCALE, tol, "acot 0");
    assert_close(deg::atan2(SCALE, SCALE), 45 * SCALE, tol, "atan2 first quadrant");
    assert_close(deg::atan2(SCALE, -SCALE), 135 * SCALE, tol, "atan2 second quadrant");
    assert_close(deg::atan2(-SCALE, -SCALE), -135 * SCALE, tol, "atan2 third quadrant");
}

#[test]
fn test_isqrt() {
    assert_eq!(deg::isqrt(0), 0);
    assert_eq!(deg::isqrt(1), 1);
    assert_eq!(deg::isqrt(15), 3);
    assert_eq!(deg::isqrt(16), 4);
    assert_eq!(deg::isqrt(12_960_000_000_000), 3_600_000);
    assert_eq!(deg::isqrt(u64::MAX), 4_294_967_295);
}

#[test]
fn test_sun_coords_against_reference() {
    // 2024-02-09: the equation of time is about -14 minutes and the solar
    // declination about -14.9 degrees
    let d = Date::from_ymd(2024, 2, 9).expect("Error!");
    let jd = astro::julian(&d);
    let (eqt, decl) = astro::sun_coords(jd);
    assert_close(eqt, -848_931, 4_000, "equation of time");
    assert_close(decl, -53_646_162, 4_000, "declination");
}

#[test]
fn test_polar_day_has_no_dawn() {
    // 78 degrees north at the June solstice: the sun never reaches 18
    // degrees below the horizon, nor the horizon itself
    let d = Date::from_ymd(2024, 6, 21).expect("Error!");
    let jd = astro::julian(&d);
    let zen = astro::zenith(jd, 0, 0);
    let r = astro::horizon_hour_angle(18 * SCALE, jd, zen, 78 * SCALE, astro::HorizonDirection::Sunrise);
    assert_eq!(r, Err(Error::NoSuchTime));
    let r = astro::horizon_hour_angle(2_998_800, jd, zen, 78 * SCALE, astro::HorizonDirection::Sunset);
    assert_eq!(r, Err(Error::NoSuchTime));
}

#[test]
fn test_scenario_hours_are_ordered() {
    // coordinate (43.87982, -78.9421751), 2024-02-09, fixed offset -5 hours
    let lat = 157_967_352;
    let lng = -284_191_830;
    let tz = -5 * SCALE;
    let d = Date::from_ymd(2024, 2, 9).expect("Error!");
    let jd = astro::julian(&d);
    let zen = astro::zenith(jd, lng, tz);
    let fajr = astro::horizon_hour_angle(15 * SCALE, jd, zen, lat, astro::HorizonDirection::Sunrise).expect("Error!");
    let sunrise = astro::horizon_hour_angle(2_998_800, jd, zen, lat, astro::HorizonDirection::Sunrise).expect("Error!");
    let asr = astro::shadow_length_hour(2 * SCALE, jd, zen, lat).expect("Error!");
    let maghrib = astro::horizon_hour_angle(2_998_800, jd, zen, lat, astro::HorizonDirection::Sunset).expect("Error!");
    let isha = astro::horizon_hour_angle(15 * SCALE, jd, zen, lat, astro::HorizonDirection::Sunset).expect("Error!");
    assert!(fajr < sunrise && sunrise < zen && zen < asr && asr < maghrib && maghrib < isha);
    // each lands within two seconds of the reference computation
    let tol = 2 * 2_000;
    assert_close(fajr, 21_800_955, tol, "fajr hour");       // 06:03:20
    assert_close(sunrise, 26_657_503, tol, "sunrise hour"); // 07:24:17
    assert_close(zen, 44_995_053, tol, "zenith hour");      // 12:29:55
    assert_close(asr, 57_129_806, tol, "asr hour");         // 15:52:09
    assert_close(maghrib, 63_332_603, tol, "maghrib hour"); // 17:35:32
    assert_close(isha, 68_189_151, tol, "isha hour");       // 18:56:29
    // solar midnight sits on the night arc: after sunset, before next dawn
    let mid = maghrib + math::normalize(sunrise - maghrib, 24 * SCALE) / 2;
    assert!(mid > maghrib);
    assert!(math::normalize(mid - maghrib, 24 * SCALE) < math::normalize(fajr + 24 * SCALE - maghrib, 24 * SCALE));
}

#[test]
fn test_larger_shadow_ratio_delays_the_hour() {
    // Hanafi's ratio of two yields a strictly later afternoon than Shafi's
    // ratio of one
    let lat = 157_967_352;
    let lng = -284_191_830;
    let tz = -5 * SCALE;
    let d = Date::from_ymd(2024, 2, 9).expect("Error!");
    let jd = astro::julian(&d);
    let zen = astro::zenith(jd, lng, tz);
    let shafi = astro::shadow_length_hour(SCALE, jd, zen, lat).expect("Error!");
    let hanafi = astro::shadow_length_hour(2 * SCALE, jd, zen, lat).expect("Error!");
    assert!(shafi < hanafi);
    assert_close(shafi, 54_664_957, 4_000, "shafi asr");   // 15:11:04
    assert_close(hanafi, 57_129_806, 4_000, "hanafi asr"); // 15:52:09
}

#[test]
fn test_order_holds_across_latitudes_and_seasons() {
    // wherever all the crossings exist, the day keeps its shape; the
    // afternoon can pass sunset in a deep-winter hemisphere, where the
    // shadow formula's altitude goes below the horizon, so only its
    // relation to noon is asserted
    let dates = [(2024, 3, 20), (2024, 6, 21), (2024, 9, 22), (2024, 12, 21), (2025, 2, 9)];
    let mut checked = 0;
    for lat_deg in [-60, -45, -30, -15, 0, 15, 30, 45, 60] {
        let lat = lat_deg * SCALE;
        for (y, m, d) in dates {
            let date = Date::from_ymd(y, m, d).expect("Error!");
            let jd = astro::julian(&date);
            let zen = astro::zenith(jd, 0, 0);
            let fajr = astro::horizon_hour_angle(18 * SCALE, jd, zen, lat, astro::HorizonDirection::Sunrise);
            let sunrise = astro::horizon_hour_angle(2_998_800, jd, zen, lat, astro::HorizonDirection::Sunrise);
            let asr = astro::shadow_length_hour(SCALE, jd, zen, lat);
            let maghrib = astro::horizon_hour_angle(2_998_800, jd, zen, lat, astro::HorizonDirection::Sunset);
            let isha = astro::horizon_hour_angle(17 * SCALE, jd, zen, lat, astro::HorizonDirection::Sunset);
            if let (Ok(f), Ok(sr), Ok(a), Ok(mg), Ok(i)) = (fajr, sunrise, asr, maghrib, isha) {
                assert!(f < sr, "dawn before sunrise at {} {}-{}-{}", lat_deg, y, m, d);
                assert!(sr < zen, "sunrise before noon at {} {}-{}-{}", lat_deg, y, m, d);
                assert!(zen < a, "noon before afternoon at {} {}-{}-{}", lat_deg, y, m, d);
                assert!(zen < mg, "noon before sunset at {} {}-{}-{}", lat_deg, y, m, d);
                assert!(mg < i, "sunset before night at {} {}-{}-{}", lat_deg, y, m, d);
                checked += 1;
            }
        }
    }
    assert!(checked >= 30, "most combinations have all crossings");
}
