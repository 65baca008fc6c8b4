//! Tests of the prayer-times facade and the parameter tables.

use salah::SCALE;
use salah::datetime::{parse_tz, time2hour, Date};
use salah::error::Error;
use salah::math;
use salah::times::types::{Authority, IshaParam, School, Timing};
use salah::times::PrayerTimes;

fn scenario() -> PrayerTimes {
    // coordinate (43.87982, -78.9421751), date 2024-02-09, America/Toronto
    let tz = parse_tz("America/Toronto").expect("Error!");
    let date = Date::from_ymd(2024, 2, 9).expect("Error!");
    PrayerTimes::new(157_967_352, -284_191_830)
        .with_timezone(&tz)
        .with_date(&date)
        .with_authority(&Authority::ISNA)
        .with_school(&School::Hanafi)
}

#[test]
fn test_end_to_end_scenario_order() {
    let pt = scenario();
    let fajr = time2hour(pt.fajr().expect("Error!"));
    let sunrise = time2hour(pt.sunrise().expect("Error!"));
    let dhuhr = time2hour(pt.dhuhr().expect("Error!"));
    let asr = time2hour(pt.asr().expect("Error!"));
    let maghrib = time2hour(pt.maghrib().expect("Error!"));
    let isha = time2hour(pt.isha().expect("Error!"));
    let midnight = time2hour(pt.midnight().expect("Error!"));
    assert!(fajr < sunrise, "dawn before sunrise");
    assert!(sunrise < dhuhr, "sunrise before noon");
    assert!(dhuhr < asr, "noon before afternoon");
    assert!(asr < maghrib, "afternoon before sunset");
    assert!(maghrib < isha, "sunset before night");
    // solar midnight falls on the night arc: after sunset and before the
    // next dawn, measured forward from sunset
    let on_arc = math::normalize(midnight - maghrib, 24 * SCALE);
    let to_dawn = math::normalize(fajr - maghrib, 24 * SCALE);
    assert!(0 < on_arc && on_arc < to_dawn, "midnight on the night arc");
}

#[test]
fn test_school_changes_only_asr() {
    let pt = scenario();
    let hanafi = pt.asr().expect("Error!");
    let fajr_before = pt.fajr().expect("Error!");
    let pt = pt.with_school(&School::Shafi);
    let shafi = pt.asr().expect("Error!");
    assert!(time2hour(shafi) < time2hour(hanafi), "larger ratio delays asr");
    assert_eq!(pt.fajr().expect("Error!"), fajr_before);
}

#[test]
fn test_authority_changes_only_dawn_and_night() {
    let pt = scenario();
    let sunrise = pt.sunrise().expect("Error!");
    let dhuhr = pt.dhuhr().expect("Error!");
    let asr = pt.asr().expect("Error!");
    let maghrib = pt.maghrib().expect("Error!");
    let midnight = pt.midnight().expect("Error!");
    let fajr = pt.fajr().expect("Error!");
    let isha = pt.isha().expect("Error!");
    // Makkah uses a fixed duration after sunset instead of an angle
    let pt = pt.with_authority(&Authority::Makkah);
    assert_eq!(pt.sunrise().expect("Error!"), sunrise);
    assert_eq!(pt.dhuhr().expect("Error!"), dhuhr);
    assert_eq!(pt.asr().expect("Error!"), asr);
    assert_eq!(pt.maghrib().expect("Error!"), maghrib);
    assert_eq!(pt.midnight().expect("Error!"), midnight);
    assert_ne!(pt.fajr().expect("Error!"), fajr);
    assert_ne!(pt.isha().expect("Error!"), isha);
}

#[test]
fn test_duration_night_follows_sunset() {
    let pt = scenario().with_authority(&Authority::Makkah);
    let maghrib = time2hour(pt.maghrib().expect("Error!"));
    let isha = time2hour(pt.isha().expect("Error!"));
    // ninety hours after sunset, wrapped into the day
    let expected = math::normalize(maghrib + 324_000 * 1_000, 24 * SCALE);
    assert_eq!(isha, expected);
}

#[test]
fn test_polar_latitude_yields_no_such_time() {
    let tz = parse_tz("UTC").expect("Error!");
    let date = Date::from_ymd(2024, 6, 21).expect("Error!");
    let pt = PrayerTimes::new(78 * SCALE, 0)
        .with_timezone(&tz)
        .with_date(&date);
    assert_eq!(pt.fajr(), Err(Error::NoSuchTime));
    assert_eq!(pt.sunrise(), Err(Error::NoSuchTime));
    assert_eq!(pt.maghrib(), Err(Error::NoSuchTime));
    assert_eq!(pt.midnight(), Err(Error::NoSuchTime));
    // the sun is up all day, so noon and the afternoon still exist
    assert!(pt.dhuhr().is_ok());
    assert!(pt.asr().is_ok());
}

#[test]
fn test_timing_dispatch() {
    let pt = scenario();
    assert_eq!(pt.timing(&Timing::Fajr), pt.fajr());
    assert_eq!(pt.timing(&Timing::Sunrise), pt.sunrise());
    assert_eq!(pt.timing(&Timing::Dhuhr), pt.dhuhr());
    assert_eq!(pt.timing(&Timing::Asr), pt.asr());
    assert_eq!(pt.timing(&Timing::Maghrib), pt.maghrib());
    assert_eq!(pt.timing(&Timing::Isha), pt.isha());
    assert_eq!(pt.timing(&Timing::Midnight), pt.midnight());
}

#[test]
fn test_authority_tables() {
    assert_eq!(Authority::ISNA.fajr_angle(), 15 * SCALE);
    assert_eq!(Authority::MWL.fajr_angle(), 18 * SCALE);
    assert_eq!(Authority::Egypt.fajr_angle(), 70_200_000);
    assert_eq!(Authority::Makkah.fajr_angle(), 66_600_000);
    assert_eq!(Authority::Tehran.fajr_angle(), 63_720_000);
    assert_eq!(Authority::ISNA.isha_param(), IshaParam::Angle(15 * SCALE));
    assert_eq!(Authority::Makkah.isha_param(), IshaParam::Duration(324_000));
    assert_eq!(School::Hanafi.shadow_length(), 2 * SCALE);
    assert_eq!(School::Shafi.shadow_length(), SCALE);
}

#[test]
fn test_identifier_round_trips() {
    for auth in Authority::list() {
        let back = Authority::from_str(auth.to_str()).expect("Error!");
        assert_eq!(back, auth);
        assert!(!auth.name().is_empty());
        assert!(!auth.desc().is_empty());
    }
    for timing in Timing::list() {
        let back = Timing::from_str(timing.to_str()).expect("Error!");
        assert_eq!(back, timing);
        assert!(!timing.desc().is_empty());
    }
    assert_eq!(Authority::from_str("isna"), Some(Authority::ISNA));
    assert_eq!(Authority::from_str("ISNA"), Some(Authority::ISNA));
    assert_eq!(Authority::from_str("nobody"), None);
    assert_eq!(Timing::from_str("MAGHRIB"), Some(Timing::Maghrib));
    assert_eq!(Timing::from_str("midnight"), Some(Timing::Midnight));
    assert_eq!(Timing::from_str(""), None);
}

#[test]
fn test_error_messages_are_nonempty() {
    for e in [
        Error::DateFormat,
        Error::DateNumber,
        Error::DateRange,
        Error::OutOfRange,
        Error::NoSuchTime,
    ] {
        assert!(!e.message().is_empty());
    }
}
