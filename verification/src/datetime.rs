//! Calendar dates, clock times, and the conversions between fractional
//! hours and clock times.

use vstd::prelude::*;
use vstd::string::StringSliceAdditionalSpecFns;

use chrono_tz::Tz;

use crate::error::Error;
use crate::math::FULL_DAY;
use crate::math::SCALE;

verus! {

/// The timezone identifier type of the timezone database, carried opaquely
/// through the engine; only the trusted lookups below read it.
#[verifier::external_type_specification]
#[verifier::external_body]
pub struct ExTz(Tz);

/// A proleptic Gregorian calendar date, immutable once constructed.
#[derive(Debug, Clone, Copy, PartialEq, Eq, Structural)]
pub struct Date {
    pub year: i32,
    pub month: u8,
    pub day: u8,
}

/// A wall-clock time of day.
#[derive(Debug, Clone, Copy, PartialEq, Eq, Structural)]
pub struct Time {
    pub hour: u8,
    pub minute: u8,
    pub second: u8,
}

/// Gregorian leap-year rule.
pub open spec fn spec_is_leap(year: int) -> bool {
    (year % 4 == 0 && year % 100 != 0) || year % 400 == 0
}

/// The number of days of a month in the proleptic Gregorian calendar.
pub open spec fn spec_days_in_month(year: int, month: int) -> int
    recommends
        1 <= month <= 12,
{
    if month == 2 {
        if spec_is_leap(year) {
            29int
        } else {
            28int
        }
    } else if month == 4 || month == 6 || month == 9 || month == 11 {
        30int
    } else {
        31int
    }
}

/// The last year the engine accepts; the bound of the calendar of the
/// timezone database this library is used with.
pub const YEAR_MAX: i32 = 262_143;

/// The first year the engine accepts, matching the same calendar's bound.
pub const YEAR_MIN: i32 = -262_144;

/// A real calendar date within the supported year range.
pub open spec fn spec_valid_date(year: int, month: int, day: int) -> bool {
    &&& YEAR_MIN as int <= year <= YEAR_MAX as int
    &&& 1 <= month <= 12
    &&& 1 <= day <= spec_days_in_month(year, month)
}

impl Date {
    pub open spec fn valid(self) -> bool {
        spec_valid_date(self.year as int, self.month as int, self.day as int)
    }

    /// Builds a date, or nothing where year, month and day do not form a
    /// real calendar date in the supported range.
    pub fn from_ymd(year: i32, month: u8, day: u8) -> (r: Option<Date>)
        ensures
            r is Some <==> spec_valid_date(year as int, month as int, day as int),
            r matches Some(d) ==> d.year == year && d.month == month && d.day == day && d.valid(),
    {
        if year < YEAR_MIN || year > YEAR_MAX {
            return None;
        }
        if month < 1 || month > 12 {
            return None;
        }
        let shifted = (year as i64) + 400_000;
        let leap = {
            let s = shifted as u64;
            proof {
                vstd::arithmetic::div_mod::lemma_mod_add_multiples_vanish(
                    year as int,
                    4int,
                );
                vstd::arithmetic::div_mod::lemma_mod_multiples_vanish(
                    100_000int,
                    year as int,
                    4int,
                );
                vstd::arithmetic::div_mod::lemma_mod_multiples_vanish(
                    4_000int,
                    year as int,
                    100int,
                );
                vstd::arithmetic::div_mod::lemma_mod_multiples_vanish(
                    1_000int,
                    year as int,
                    400int,
                );
            }
            (s % 4 == 0 && s % 100 != 0) || s % 400 == 0
        };
        let dim: u8 = if month == 2 {
            if leap {
                29
            } else {
                28
            }
        } else if month == 4 || month == 6 || month == 9 || month == 11 {
            30
        } else {
            31
        };
        if day < 1 || day > dim {
            return None;
        }
        Some(Date { year, month, day })
    }
}

impl Time {
    pub open spec fn valid(self) -> bool {
        self.hour < 24 && self.minute < 60 && self.second < 60
    }

    /// Builds a clock time, or nothing where the fields are out of range.
    pub fn from_hms(hour: u8, minute: u8, second: u8) -> (r: Option<Time>)
        ensures
            r is Some <==> (hour < 24 && minute < 60 && second < 60),
            r matches Some(t) ==> t.hour == hour && t.minute == minute && t.second == second
                && t.valid(),
    {
        if hour < 24 && minute < 60 && second < 60 {
            Some(Time { hour, minute, second })
        } else {
            None
        }
    }
}

/// The clock time a fractional hour denotes: successive extraction of
/// minutes and seconds, seconds rounded to the nearest, carries bounded to
/// their modulus, a whole twenty-four wrapping to zero, and the optional
/// rounding of seconds into minutes. `None` where no valid time results.
pub open spec fn spec_hour2time(hour: int, round_seconds: bool) -> Option<(int, int, int)> {
    if hour < 0 {
        Some((0int, 0int, 0int))
    } else {
        let h0 = hour / (SCALE as int);
        let frac = hour % (SCALE as int);
        let d = frac * 60;
        let m0 = d / (SCALE as int);
        let su = d % (SCALE as int);
        let s0 = (su * 60 + 1_800_000) / (SCALE as int);
        let s1 = if s0 >= 60 {
            s0 - 60
        } else {
            s0
        };
        let m1 = if s0 >= 60 {
            m0 + 1
        } else {
            m0
        };
        let m2 = if m1 >= 60 {
            m1 - 60
        } else {
            m1
        };
        let h1 = if m1 >= 60 {
            h0 + 1
        } else {
            h0
        };
        let h2 = if h1 == 24 {
            0int
        } else {
            h1
        };
        let m3 = if round_seconds && s1 >= 30 {
            m2 + 1
        } else {
            m2
        };
        let s2 = if round_seconds {
            0int
        } else {
            s1
        };
        if h2 < 24 && m3 < 60 && s2 < 60 {
            Some((h2, m3, s2))
        } else {
            None
        }
    }
}

/// Splits a fractional hour in units into a clock time. With
/// `round_seconds`, seconds of thirty or more round the minute up and the
/// seconds are zeroed. Fails with an out-of-range error where the resulting
/// fields cannot form a valid time.
pub fn hour2time(hour: i64, round_seconds: bool) -> (r: Result<Time, Error>)
    ensures
        r matches Ok(t) ==> spec_hour2time(hour as int, round_seconds) == Some(
            (t.hour as int, t.minute as int, t.second as int),
        ) && t.valid(),
        r is Err <==> spec_hour2time(hour as int, round_seconds) is None,
        r matches Err(e) ==> e == Error::OutOfRange,
{
    if hour < 0 {
        return Ok(Time { hour: 0, minute: 0, second: 0 });
    }
    let h0 = (hour as u64) / (SCALE as u64);
    let frac = (hour as u64) % (SCALE as u64);
    let d = frac * 60;
    let m0 = d / (SCALE as u64);
    let su = d % (SCALE as u64);
    let s0 = (su * 60 + 1_800_000) / (SCALE as u64);
    let (s1, m1) = if s0 >= 60 {
        (s0 - 60, m0 + 1)
    } else {
        (s0, m0)
    };
    let (m2, h1) = if m1 >= 60 {
        (m1 - 60, h0 + 1)
    } else {
        (m1, h0)
    };
    let h2 = if h1 == 24 {
        0
    } else {
        h1
    };
    let m3 = if round_seconds && s1 >= 30 {
        m2 + 1
    } else {
        m2
    };
    let s2 = if round_seconds {
        0
    } else {
        s1
    };
    if h2 < 24 && m3 < 60 && s2 < 60 {
        Ok(Time { hour: h2 as u8, minute: m3 as u8, second: s2 as u8 })
    } else {
        Err(Error::OutOfRange)
    }
}

/// The fractional hour a clock time denotes, in units.
pub open spec fn spec_time2hour(t: Time) -> int {
    t.hour * (SCALE as int) + t.minute * 60_000 + t.second * 1_000
}

/// Converts a clock time back to a fractional hour in units: the exact
/// inverse of `hour2time` on times whose seconds round cleanly.
pub fn time2hour(time: Time) -> (r: i64)
    ensures
        r == spec_time2hour(time),
        0 <= r,
        time.valid() ==> r < FULL_DAY,
{
    (time.hour as i64) * SCALE + (time.minute as i64) * 60_000 + (time.second as i64) * 1_000
}

/// Relies on chrono's timezone arithmetic: the UTC offset of `tz` at the
/// present moment, in units of hours. A chrono `FixedOffset` is strictly
/// within one day of seconds, so the result is strictly within one day.
#[verifier::external_body]
pub fn tz_offset(tz: &Tz) -> (r: i64)
    ensures
        -86_400_000 < r < 86_400_000,
{
    let dt = chrono::TimeZone::from_utc_datetime(tz, &chrono::Utc::now().naive_utc());
    (chrono::Offset::fix(chrono::DateTime::offset(&dt)).local_minus_utc() as i64) * 1_000
}

/// Relies on chrono's calendar: the current date in `tz` is a real calendar
/// date, with the year within chrono's documented range.
#[verifier::external_body]
pub fn today_in(tz: &Tz) -> (r: Date)
    ensures
        r.valid(),
{
    let dt = chrono::TimeZone::from_utc_datetime(tz, &chrono::Utc::now().naive_utc()).date_naive();
    Date {
        year: chrono::Datelike::year(&dt),
        month: chrono::Datelike::month(&dt) as u8,
        day: chrono::Datelike::day(&dt) as u8,
    }
}

/// Relies on chrono-tz's generated timezone table: parsing a timezone name;
/// the table holds an entry for the default zone used here.
#[verifier::external_body]
pub fn parse_tz(name: &str) -> (r: Option<Tz>)
    ensures
        name@ == "America/Toronto"@ ==> r is Some,
{
    name.parse::<Tz>().ok()
}

/// Byte-for-byte equality of two byte strings.
fn bytes_eq(a: &[u8], b: &[u8]) -> (r: bool)
    ensures
        r == (a@ == b@),
{
    if a.len() != b.len() {
        return false;
    }
    let mut i: usize = 0;
    while i < a.len()
        invariant
            i <= a@.len(),
            a@.len() == b@.len(),
            forall|j: int| 0 <= j < i ==> a@[j] == b@[j],
        decreases a@.len() - i,
    {
        if a[i] != b[i] {
            return false;
        }
        i += 1;
    }
    proof {
        assert(a@ =~= b@);
    }
    true
}

/// The position of the first occurrence of `b` at or after `i`, or minus
/// one where there is none.
pub open spec fn spec_find_byte(s: Seq<u8>, b: u8, i: int) -> int
    decreases s.len() - i,
{
    if i < 0 || i >= s.len() {
        -1int
    } else if s[i] == b {
        i
    } else {
        spec_find_byte(s, b, i + 1)
    }
}

fn find_byte(a: &[u8], b: u8, from: usize) -> (r: Option<usize>)
    requires
        from <= a@.len(),
    ensures
        r matches Some(i) ==> spec_find_byte(a@, b, from as int) == i && from <= i < a@.len(),
        r is None ==> spec_find_byte(a@, b, from as int) == -1,
{
    let mut j = from;
    while j < a.len()
        invariant
            from <= j <= a@.len(),
            spec_find_byte(a@, b, from as int) == spec_find_byte(a@, b, j as int),
        decreases a@.len() - j,
    {
        if a[j] == b {
            return Some(j);
        }
        j += 1;
    }
    None
}

/// Left-to-right decimal accumulation over `s[i..hi)`, saturating just
/// above every numeric bound a date segment may meet.
pub open spec fn spec_digits(s: Seq<u8>, i: int, hi: int, acc: int) -> int
    decreases hi - i,
{
    if i < 0 || i >= hi || hi > s.len() {
        acc
    } else {
        let a2 = if acc * 10 + (s[i] - 48) > 10_000_000_000 {
            10_000_000_001int
        } else {
            acc * 10 + (s[i] - 48)
        };
        spec_digits(s, i + 1, hi, a2)
    }
}

/// Whether every byte of `s[lo..hi)` is a decimal digit.
pub open spec fn spec_all_digits(s: Seq<u8>, lo: int, hi: int) -> bool {
    forall|k: int| lo <= k < hi ==> 48 <= #[trigger] s[k] <= 57
}

/// Where the digits of a segment begin: past an optional leading plus sign.
pub open spec fn spec_seg_start(s: Seq<u8>, lo: int, hi: int) -> int {
    if lo < hi && s[lo] == 43 {
        lo + 1
    } else {
        lo
    }
}

/// The numeric value of a date segment: an optional leading plus sign, then
/// at least one digit; `None` where the segment is not such a number.
pub open spec fn spec_segment_val(s: Seq<u8>, lo: int, hi: int) -> Option<int> {
    let start = spec_seg_start(s, lo, hi);
    if start >= hi || !spec_all_digits(s, start, hi) {
        Option::<int>::None
    } else {
        Some(spec_digits(s, start, hi, 0))
    }
}

fn parse_segment(a: &[u8], lo: usize, hi: usize) -> (r: Option<u64>)
    requires
        lo <= hi <= a@.len(),
    ensures
        r matches Some(v) ==> spec_segment_val(a@, lo as int, hi as int) == Some(v as int)
            && v <= 10_000_000_001,
        r is None ==> spec_segment_val(a@, lo as int, hi as int) is None,
{
    let start = if lo < hi && a[lo] == 43 {
        lo + 1
    } else {
        lo
    };
    proof {
        assert(start as int == spec_seg_start(a@, lo as int, hi as int));
    }
    if start >= hi {
        return None;
    }
    let mut j = start;
    let mut acc: u64 = 0;
    while j < hi
        invariant
            start <= j <= hi <= a@.len(),
            start < hi,
            start as int == spec_seg_start(a@, lo as int, hi as int),
            acc <= 10_000_000_001,
            spec_all_digits(a@, start as int, j as int),
            spec_digits(a@, start as int, hi as int, 0) == spec_digits(
                a@,
                j as int,
                hi as int,
                acc as int,
            ),
        decreases hi - j,
    {
        let c = a[j];
        if c < 48 || c > 57 {
            proof {
                assert(!(48 <= a@[j as int] && a@[j as int] <= 57));
                assert(!spec_all_digits(a@, start as int, hi as int));
            }
            return None;
        }
        let d = (c - 48) as u64;
        acc = if acc * 10 + d > 10_000_000_000 {
            10_000_000_001
        } else {
            acc * 10 + d
        };
        j += 1;
    }
    Some(acc)
}

/// What parsing a dash-separated date string yields: the year, month and
/// day values, or the error naming what is malformed.
pub open spec fn spec_parse_date(s: Seq<u8>) -> Result<(int, int, int), Error> {
    let i = spec_find_byte(s, 45, 0);
    if i < 0 {
        Err(Error::DateFormat)
    } else {
        let j = spec_find_byte(s, 45, i + 1);
        if j < 0 {
            Err(Error::DateFormat)
        } else if spec_find_byte(s, 45, j + 1) >= 0 {
            Err(Error::DateFormat)
        } else {
            match (
                spec_segment_val(s, 0, i),
                spec_segment_val(s, i + 1, j),
                spec_segment_val(s, j + 1, s.len() as int),
            ) {
                (Some(y), Some(m), Some(d)) => {
                    if y > 0x7fff_ffff || m > 0xffff_ffff || d > 0xffff_ffff {
                        Err(Error::DateNumber)
                    } else if spec_valid_date(y, m, d) {
                        Ok((y, m, d))
                    } else {
                        Err(Error::DateRange)
                    }
                },
                _ => Err(Error::DateNumber),
            }
        }
    }
}

/// Parses `"YYYY-MM-DD"` into a calendar date: exactly three dash-separated
/// unsigned decimal segments forming a real calendar date.
pub fn parse_date(s: &str) -> (r: Result<Date, Error>)
    ensures
        r matches Ok(d) ==> spec_parse_date(s.spec_bytes()) == Ok::<_, Error>(
            (d.year as int, d.month as int, d.day as int),
        ) && d.valid(),
        r matches Err(e) ==> spec_parse_date(s.spec_bytes()) == Err::<(int, int, int), _>(e),
{
    let a = s.as_bytes();
    let n = a.len();
    let i = match find_byte(a, 45, 0) {
        Some(i) => i,
        None => {
            return Err(Error::DateFormat);
        },
    };
    let j = match find_byte(a, 45, i + 1) {
        Some(j) => j,
        None => {
            return Err(Error::DateFormat);
        },
    };
    match find_byte(a, 45, j + 1) {
        Some(_) => {
            return Err(Error::DateFormat);
        },
        None => {},
    }
    let y = match parse_segment(a, 0, i) {
        Some(v) => v,
        None => {
            return Err(Error::DateNumber);
        },
    };
    let m = match parse_segment(a, i + 1, j) {
        Some(v) => v,
        None => {
            return Err(Error::DateNumber);
        },
    };
    let d = match parse_segment(a, j + 1, n) {
        Some(v) => v,
        None => {
            return Err(Error::DateNumber);
        },
    };
    if y > 0x7fff_ffff || m > 0xffff_ffff || d > 0xffff_ffff {
        return Err(Error::DateNumber);
    }
    if m < 1 || m > 12 || d < 1 || d > 31 {
        return Err(Error::DateRange);
    }
    match Date::from_ymd(y as i32, m as u8, d as u8) {
        Some(date) => Ok(date),
        None => Err(Error::DateRange),
    }
}

/// Resolves a date string: the literal token `today` gives the current date
/// in the given timezone; anything else is parsed as `"YYYY-MM-DD"`.
pub fn str2date(date: &str, timezone: &Tz) -> (r: Result<Date, Error>)
    ensures
        r matches Ok(d) ==> d.valid(),
        date.spec_bytes() != "today".spec_bytes() ==> (r matches Ok(d)
            ==> spec_parse_date(date.spec_bytes()) == Ok::<_, Error>(
            (d.year as int, d.month as int, d.day as int),
        )),
        date.spec_bytes() != "today".spec_bytes() ==> (r matches Err(e)
            ==> spec_parse_date(date.spec_bytes()) == Err::<(int, int, int), _>(e)),
        date.spec_bytes() == "today".spec_bytes() ==> r is Ok,
{
    if bytes_eq(date.as_bytes(), "today".as_bytes()) {
        Ok(today_in(timezone))
    } else {
        parse_date(date)
    }
}

/// Converting a fractional hour to a clock time and back is the identity on
/// every hour of the day that falls on a whole minute, the values on which
/// the rounding of seconds is clean.
pub proof fn lemma_hour_time_round_trip(hour: int)
    requires
        0 <= hour < FULL_DAY as int,
        hour % 60_000 == 0,
    ensures
        spec_hour2time(hour, true) matches Some((h, m, s)) && s == 0 && h * (SCALE as int) + m
            * 60_000 + s * 1_000 == hour,
{
    let h0 = hour / (SCALE as int);
    let frac = hour % (SCALE as int);
    vstd::arithmetic::div_mod::lemma_fundamental_div_mod(hour, SCALE as int);
    vstd::arithmetic::div_mod::lemma_mod_division_less_than_divisor(hour, SCALE as int);
    crate::math::lemma_div_le(hour, (FULL_DAY as int) - 1, SCALE as int);
    assert(h0 <= 23);
    assert(frac % 60_000 == 0) by {
        assert(hour == (60 * h0) * 60_000 + frac) by (nonlinear_arith)
            requires
                hour == (SCALE as int) * h0 + frac,
                SCALE == 3_600_000,
        ;
        vstd::arithmetic::div_mod::lemma_mod_multiples_vanish(60 * h0, frac, 60_000);
    }
    let t = frac / 60_000;
    vstd::arithmetic::div_mod::lemma_fundamental_div_mod(frac, 60_000);
    assert(frac == 60_000 * t);
    crate::math::lemma_div_le(frac, (SCALE as int) - 1, 60_000);
    assert(t <= 59);
    let d = frac * 60;
    assert(d == (SCALE as int) * t) by (nonlinear_arith)
        requires
            frac == 60_000 * t,
            d == frac * 60,
            SCALE == 3_600_000,
    ;
    vstd::arithmetic::div_mod::lemma_div_multiples_vanish(t, SCALE as int);
    vstd::arithmetic::div_mod::lemma_mod_multiples_basic(t, SCALE as int);
    assert(d / (SCALE as int) == t);
    assert(d % (SCALE as int) == 0);
    assert((0int * 60 + 1_800_000) / (SCALE as int) == 0);
    assert(h0 * (SCALE as int) + t * 60_000 == hour) by (nonlinear_arith)
        requires
            hour == (SCALE as int) * h0 + frac,
            frac == 60_000 * t,
    ;
}

} // verus!
