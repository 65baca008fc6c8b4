//! Tests of date-string parsing and the timezone lookups.

use salah::datetime::{parse_date, parse_tz, str2date, today_in, tz_offset};
use salah::error::Error;

#[test]
fn test_parse_date_accepts_plain_dates() {
    let d = parse_date("2024-02-09").expect("Error!");
    assert_eq!((d.year, d.month, d.day), (2024, 2, 9));
    let d = parse_date("1999-12-31").expect("Error!");
    assert_eq!((d.year, d.month, d.day), (1999, 12, 31));
    // leading zeros and a plus sign parse as the standard library does
    let d = parse_date("0002024-02-09").expect("Error!");
    assert_eq!((d.year, d.month, d.day), (2024, 2, 9));
    let d = parse_date("+2024-+2-+9").expect("Error!");
    assert_eq!((d.year, d.month, d.day), (2024, 2, 9));
}

#[test]
fn test_parse_date_rejects_bad_shapes() {
    assert_eq!(parse_date("2024-02"), Err(Error::DateFormat));
    assert_eq!(parse_date("2024"), Err(Error::DateFormat));
    assert_eq!(parse_date("2024-02-09-1"), Err(Error::DateFormat));
    assert_eq!(parse_date(""), Err(Error::DateFormat));
    assert_eq!(parse_date("-2024-02-09"), Err(Error::DateFormat));
}

#[test]
fn test_parse_date_rejects_bad_numbers() {
    assert_eq!(parse_date("20a4-02-09"), Err(Error::DateNumber));
    assert_eq!(parse_date("2024--2-09"), Err(Error::DateFormat));
    assert_eq!(parse_date("2024-02-"), Err(Error::DateNumber));
    assert_eq!(parse_date("99999999999-02-09"), Err(Error::DateNumber));
    assert_eq!(parse_date("2024- 2-09"), Err(Error::DateNumber));
}

#[test]
fn test_parse_date_rejects_unreal_dates() {
    assert_eq!(parse_date("2024-13-01"), Err(Error::DateRange));
    assert_eq!(parse_date("2024-02-30"), Err(Error::DateRange));
    assert_eq!(parse_date("2023-02-29"), Err(Error::DateRange));
    assert_eq!(parse_date("2024-00-10"), Err(Error::DateRange));
    assert_eq!(parse_date("2024-01-00"), Err(Error::DateRange));
    assert_eq!(parse_date("999999-01-01"), Err(Error::DateRange));
}

#[test]
fn test_str2date_resolves_today() {
    let tz = parse_tz("America/Toronto").expect("Error!");
    let d = str2date("today", &tz).expect("Error!");
    assert!(d.year >= 2024);
    assert!((1..=12).contains(&d.month));
    assert!((1..=31).contains(&d.day));
    let d = str2date("2024-02-09", &tz).expect("Error!");
    assert_eq!((d.year, d.month, d.day), (2024, 2, 9));
    assert_eq!(str2date("not-a-date", &tz), Err(Error::DateNumber));
}

#[test]
fn test_timezone_lookups() {
    assert!(parse_tz("America/Toronto").is_some());
    assert!(parse_tz("Not/AZone").is_none());
    let tz = parse_tz("America/Toronto").expect("Error!");
    let off = tz_offset(&tz);
    // Toronto is four or five hours behind UTC depending on the season
    assert!(off == -4 * 3_600_000 || off == -5 * 3_600_000);
    let utc = parse_tz("UTC").expect("Error!");
    assert_eq!(tz_offset(&utc), 0);
    let today = today_in(&tz);
    assert!(today.year >= 2024);
}
