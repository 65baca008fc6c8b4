//! The prayer-times facade: a configuration of coordinate, date, timezone,
//! authority and school, composed into the seven timing queries.

use vstd::prelude::*;

use chrono_tz::Tz;

use crate::astro;
use crate::astro::HorizonDirection;
use crate::datetime;
use crate::datetime::Date;
use crate::datetime::Time;
use crate::error::Error;
use crate::math::FULL_DAY;
use crate::math::spec_normalize;

pub mod types;

use types::Authority;
use types::IshaParam;
use types::School;
use types::Timing;

verus! {

/// The configuration every timing query is a pure function of. The Julian
/// date and the timezone offset are derived once and cached: replacing the
/// date recomputes the Julian date, replacing the timezone recomputes the
/// offset.
pub struct PrayerTimes {
    tz: Tz,
    lat: i64,
    lng: i64,
    date: Date,
    tz_offset: i64,
    jd: i64,
    auth: Authority,
    school: School,
}

/// The largest coordinate magnitude the engine accepts, in units of
/// degrees; far beyond the geographic range, bounded only by the machine.
pub const COORD_LIMIT: i64 = 1_000_000_000_000;

impl PrayerTimes {
    /// The internal consistency every constructor establishes and every
    /// setter preserves: the date is real, the cached Julian date belongs
    /// to it, and the cached offset and the coordinate are in range.
    pub closed spec fn well_formed(self) -> bool {
        &&& self.date.valid()
        &&& self.jd == astro::spec_julian(
            self.date.year as int,
            self.date.month as int,
            self.date.day as int,
        )
        &&& -400_000_000_000_000 <= self.jd <= 400_000_000_000_000
        &&& -86_400_000 < self.tz_offset < 86_400_000
        &&& -COORD_LIMIT <= self.lat <= COORD_LIMIT
        &&& -COORD_LIMIT <= self.lng <= COORD_LIMIT
    }

    pub closed spec fn spec_lat(self) -> int {
        self.lat as int
    }

    pub closed spec fn spec_lng(self) -> int {
        self.lng as int
    }

    pub closed spec fn spec_date(self) -> Date {
        self.date
    }

    pub closed spec fn spec_jd(self) -> int {
        self.jd as int
    }

    pub closed spec fn spec_tz_offset(self) -> int {
        self.tz_offset as int
    }

    pub closed spec fn spec_auth(self) -> Authority {
        self.auth
    }

    pub closed spec fn spec_school(self) -> School {
        self.school
    }

    /// Creates a configuration for a coordinate, with the timezone
    /// defaulting to America/Toronto, the date to today in that timezone,
    /// the authority to ISNA and the school to Hanafi.
    pub fn new(lat: i64, lng: i64) -> (r: PrayerTimes)
        requires
            -COORD_LIMIT <= lat <= COORD_LIMIT,
            -COORD_LIMIT <= lng <= COORD_LIMIT,
        ensures
            r.well_formed(),
            r.spec_lat() == lat,
            r.spec_lng() == lng,
            r.spec_auth() == Authority::ISNA,
            r.spec_school() == School::Hanafi,
    {
        let tz = match datetime::parse_tz("America/Toronto") {
            Some(t) => t,
            None => vstd::pervasive::unreached(),
        };
        let tz_offset = datetime::tz_offset(&tz);
        let date = datetime::today_in(&tz);
        let jd = astro::julian(&date);
        PrayerTimes { tz, lat, lng, date, tz_offset, jd, auth: Authority::ISNA, school: School::Hanafi }
    }

    /// Replaces the date, recomputing the cached Julian date.
    pub fn with_date(self, date: &Date) -> (r: Self)
        requires
            self.well_formed(),
            date.valid(),
        ensures
            r.well_formed(),
            r.spec_date() == *date,
            r.spec_lat() == self.spec_lat(),
            r.spec_lng() == self.spec_lng(),
            r.spec_tz_offset() == self.spec_tz_offset(),
            r.spec_auth() == self.spec_auth(),
            r.spec_school() == self.spec_school(),
    {
        let jd = astro::julian(date);
        PrayerTimes { date: *date, jd, ..self }
    }

    /// Replaces the timezone, recomputing the cached offset.
    pub fn with_timezone(self, tz: &Tz) -> (r: Self)
        requires
            self.well_formed(),
        ensures
            r.well_formed(),
            r.spec_date() == self.spec_date(),
            r.spec_jd() == self.spec_jd(),
            r.spec_lat() == self.spec_lat(),
            r.spec_lng() == self.spec_lng(),
            r.spec_auth() == self.spec_auth(),
            r.spec_school() == self.spec_school(),
    {
        let tz_offset = datetime::tz_offset(tz);
        PrayerTimes { tz: *tz, tz_offset, ..self }
    }

    /// Replaces the calculation authority.
    pub fn with_authority(self, auth: &Authority) -> (r: Self)
        requires
            self.well_formed(),
        ensures
            r.well_formed(),
            r.spec_auth() == *auth,
            r.spec_date() == self.spec_date(),
            r.spec_jd() == self.spec_jd(),
            r.spec_lat() == self.spec_lat(),
            r.spec_lng() == self.spec_lng(),
            r.spec_tz_offset() == self.spec_tz_offset(),
            r.spec_school() == self.spec_school(),
    {
        PrayerTimes { auth: *auth, ..self }
    }

    /// Replaces the school of thought.
    pub fn with_school(self, school: &School) -> (r: Self)
        requires
            self.well_formed(),
        ensures
            r.well_formed(),
            r.spec_school() == *school,
            r.spec_date() == self.spec_date(),
            r.spec_jd() == self.spec_jd(),
            r.spec_lat() == self.spec_lat(),
            r.spec_lng() == self.spec_lng(),
            r.spec_tz_offset() == self.spec_tz_offset(),
            r.spec_auth() == self.spec_auth(),
    {
        PrayerTimes { school: *school, ..self }
    }

    /// The hour of solar noon for this configuration.
    pub open spec fn spec_zenith_hour(self) -> int {
        astro::spec_zenith(self.spec_jd(), self.spec_lng(), self.spec_tz_offset())
    }

    fn zenith(&self) -> (r: i64)
        requires
            self.well_formed(),
        ensures
            r == self.spec_zenith_hour(),
            -67_000_000_000 <= r <= 67_000_000_000,
    {
        astro::zenith(self.jd, self.lng, self.tz_offset)
    }

    /// The clock time of a fractional hour: normalized into one day, then
    /// converted with seconds rounded into minutes.
    pub open spec fn spec_clock(hour: int) -> Result<Time, Error> {
        match datetime::spec_hour2time(spec_normalize(hour, FULL_DAY as int), true) {
            Some((h, m, s)) => Ok(Time { hour: h as u8, minute: m as u8, second: s as u8 }),
            None => Err(Error::OutOfRange),
        }
    }

    fn clock(hour: i64) -> (r: Result<Time, Error>)
        ensures
            r == Self::spec_clock(hour as int),
    {
        let h = crate::math::time::normalize_hour(hour);
        match datetime::hour2time(h, true) {
            Ok(t) => Ok(t),
            Err(e) => Err(e),
        }
    }

    /// The fractional hour of dawn: the authority's angle, before noon.
    pub open spec fn spec_fajr_hour(self) -> int {
        self.spec_zenith_hour() - astro::spec_horizon_offset(
            types::spec_fajr_angle(self.spec_auth()),
            self.spec_jd(),
            self.spec_lat(),
        )
    }

    /// The dawn prayer time of this configuration.
    pub open spec fn spec_fajr(self) -> Result<Time, Error> {
        let angle = types::spec_fajr_angle(self.spec_auth());
        if astro::spec_horizon_occurs(angle, self.spec_jd(), self.spec_lat()) {
            Self::spec_clock(self.spec_fajr_hour())
        } else {
            Err(Error::NoSuchTime)
        }
    }

    /// Returns the fajr (dawn) prayer time: the hour the sun stands the
    /// authority's dawn angle below the horizon, before noon.
    pub fn fajr(&self) -> (r: Result<Time, Error>)
        requires
            self.well_formed(),
        ensures
            r == self.spec_fajr(),
    {
        let angle = self.auth.fajr_angle();
        match astro::horizon_hour_angle(
            angle,
            self.jd,
            self.zenith(),
            self.lat,
            HorizonDirection::Sunrise,
        ) {
            Ok(hour) => Self::clock(hour),
            Err(e) => Err(e),
        }
    }

    /// The mid-day prayer time of this configuration.
    pub open spec fn spec_dhuhr(self) -> Result<Time, Error> {
        Self::spec_clock(self.spec_zenith_hour())
    }

    /// Returns the dhuhr (mid-day) prayer time: solar noon.
    pub fn dhuhr(&self) -> (r: Result<Time, Error>)
        requires
            self.well_formed(),
        ensures
            r == self.spec_dhuhr(),
    {
        Self::clock(self.zenith())
    }

    /// The fractional hour of the afternoon prayer: the school's shadow
    /// ratio, after noon.
    pub open spec fn spec_asr_hour(self) -> int {
        self.spec_zenith_hour() + astro::spec_shadow_offset(
            types::spec_shadow_length(self.spec_school()),
            self.spec_jd(),
            self.spec_lat(),
        )
    }

    /// The afternoon prayer time of this configuration.
    pub open spec fn spec_asr(self) -> Result<Time, Error> {
        let length = types::spec_shadow_length(self.spec_school());
        if astro::spec_shadow_occurs(length, self.spec_jd(), self.spec_lat()) {
            Self::spec_clock(self.spec_asr_hour())
        } else {
            Err(Error::NoSuchTime)
        }
    }

    /// Returns the asr (afternoon) prayer time: the hour after noon at
    /// which a shadow reaches the school's ratio of its object.
    pub fn asr(&self) -> (r: Result<Time, Error>)
        requires
            self.well_formed(),
        ensures
            r == self.spec_asr(),
    {
        match astro::shadow_length_hour(
            self.school.shadow_length(),
            self.jd,
            self.zenith(),
            self.lat,
        ) {
            Ok(hour) => Self::clock(hour),
            Err(e) => Err(e),
        }
    }

    /// The fractional hour of sunset: the refraction angle, after noon.
    pub open spec fn spec_maghrib_hour(self) -> int {
        self.spec_zenith_hour() + astro::spec_horizon_offset(
            2_998_800,
            self.spec_jd(),
            self.spec_lat(),
        )
    }

    /// The sunset prayer time of this configuration.
    pub open spec fn spec_maghrib(self) -> Result<Time, Error> {
        if astro::spec_horizon_occurs(2_998_800, self.spec_jd(), self.spec_lat()) {
            Self::spec_clock(self.spec_maghrib_hour())
        } else {
            Err(Error::NoSuchTime)
        }
    }

    /// Returns the maghrib (sunset) prayer time: the standard refraction
    /// angle below the horizon, after noon.
    pub fn maghrib(&self) -> (r: Result<Time, Error>)
        requires
            self.well_formed(),
        ensures
            r == self.spec_maghrib(),
    {
        match astro::horizon_hour_angle(
            2_998_800,
            self.jd,
            self.zenith(),
            self.lat,
            HorizonDirection::Sunset,
        ) {
            Ok(hour) => Self::clock(hour),
            Err(e) => Err(e),
        }
    }

    /// The fractional hour of sunrise: the refraction angle, before noon.
    pub open spec fn spec_sunrise_hour(self) -> int {
        self.spec_zenith_hour() - astro::spec_horizon_offset(
            2_998_800,
            self.spec_jd(),
            self.spec_lat(),
        )
    }

    /// The sunrise time of this configuration.
    pub open spec fn spec_sunrise(self) -> Result<Time, Error> {
        if astro::spec_horizon_occurs(2_998_800, self.spec_jd(), self.spec_lat()) {
            Self::spec_clock(self.spec_sunrise_hour())
        } else {
            Err(Error::NoSuchTime)
        }
    }

    /// Returns the sunrise time: the standard refraction angle below the
    /// horizon, before noon.
    pub fn sunrise(&self) -> (r: Result<Time, Error>)
        requires
            self.well_formed(),
        ensures
            r == self.spec_sunrise(),
    {
        match astro::horizon_hour_angle(
            2_998_800,
            self.jd,
            self.zenith(),
            self.lat,
            HorizonDirection::Sunrise,
        ) {
            Ok(hour) => Self::clock(hour),
            Err(e) => Err(e),
        }
    }

    /// The night prayer time of this configuration: by the authority's
    /// angle after noon, or a fixed duration after sunset.
    pub open spec fn spec_isha(self) -> Result<Time, Error> {
        match types::spec_isha_param(self.spec_auth()) {
            IshaParam::Angle(a) => {
                if astro::spec_horizon_occurs(a as int, self.spec_jd(), self.spec_lat()) {
                    Self::spec_clock(
                        self.spec_zenith_hour() + astro::spec_horizon_offset(
                            a as int,
                            self.spec_jd(),
                            self.spec_lat(),
                        ),
                    )
                } else {
                    Err(Error::NoSuchTime)
                }
            },
            IshaParam::Duration(d) => {
                match self.spec_maghrib() {
                    Ok(t) => Self::spec_clock(datetime::spec_time2hour(t) + (d as int) * 1_000),
                    Err(e) => Err(e),
                }
            },
        }
    }

    /// Returns the isha (night) prayer time.
    pub fn isha(&self) -> (r: Result<Time, Error>)
        requires
            self.well_formed(),
        ensures
            r == self.spec_isha(),
    {
        match self.auth.isha_param() {
            IshaParam::Angle(a) => {
                match astro::horizon_hour_angle(
                    a,
                    self.jd,
                    self.zenith(),
                    self.lat,
                    HorizonDirection::Sunset,
                ) {
                    Ok(hour) => Self::clock(hour),
                    Err(e) => Err(e),
                }
            },
            IshaParam::Duration(d) => {
                match self.maghrib() {
                    Ok(t) => {
                        let sunset = datetime::time2hour(t);
                        Self::clock(sunset + (d as i64) * 1_000)
                    },
                    Err(e) => Err(e),
                }
            },
        }
    }

    /// The solar-midnight time of this configuration: the midpoint of the
    /// night arc measured forward from sunset.
    pub open spec fn spec_midnight(self) -> Result<Time, Error> {
        match self.spec_sunrise() {
            Ok(sr) => match self.spec_maghrib() {
                Ok(ms) => {
                    let sunrise = datetime::spec_time2hour(sr);
                    let sunset = datetime::spec_time2hour(ms);
                    Self::spec_clock(
                        sunset + spec_normalize(sunrise - sunset, FULL_DAY as int) / 2,
                    )
                },
                Err(e) => Err(e),
            },
            Err(e) => Err(e),
        }
    }

    /// Returns the solar-midnight time.
    pub fn midnight(&self) -> (r: Result<Time, Error>)
        requires
            self.well_formed(),
        ensures
            r == self.spec_midnight(),
    {
        let sr = match self.sunrise() {
            Ok(t) => t,
            Err(e) => {
                return Err(e);
            },
        };
        let ms = match self.maghrib() {
            Ok(t) => t,
            Err(e) => {
                return Err(e);
            },
        };
        let sunrise = datetime::time2hour(sr);
        let sunset = datetime::time2hour(ms);
        let arc = crate::math::time::normalize_hour(sunrise - sunset);
        Self::clock(sunset + (arc as u64 / 2) as i64)
    }

    /// The named timing of this configuration.
    pub open spec fn spec_timing(self, timing: Timing) -> Result<Time, Error> {
        match timing {
            Timing::Fajr => self.spec_fajr(),
            Timing::Sunrise => self.spec_sunrise(),
            Timing::Dhuhr => self.spec_dhuhr(),
            Timing::Asr => self.spec_asr(),
            Timing::Maghrib => self.spec_maghrib(),
            Timing::Isha => self.spec_isha(),
            Timing::Midnight => self.spec_midnight(),
        }
    }

    /// Returns the time of the named timing.
    pub fn timing(&self, timing: &Timing) -> (r: Result<Time, Error>)
        requires
            self.well_formed(),
        ensures
            r == self.spec_timing(*timing),
    {
        match timing {
            Timing::Fajr => self.fajr(),
            Timing::Sunrise => self.sunrise(),
            Timing::Dhuhr => self.dhuhr(),
            Timing::Asr => self.asr(),
            Timing::Maghrib => self.maghrib(),
            Timing::Isha => self.isha(),
            Timing::Midnight => self.midnight(),
        }
    }
}

/// For a fixed coordinate and date the afternoon hour strictly follows the
/// mid-day hour, and dawn and sunrise hours strictly precede it. The one
/// family of inputs left out is the grazing boundary, where the cosine
/// ratio is exactly one and the queried condition happens at noon itself.
pub proof fn lemma_day_shape(pt: PrayerTimes)
    requires
        pt.well_formed(),
    ensures
        astro::spec_shadow_occurs(
            types::spec_shadow_length(pt.spec_school()),
            pt.spec_jd(),
            pt.spec_lat(),
        ) && astro::spec_shadow_ratio(
            types::spec_shadow_length(pt.spec_school()),
            pt.spec_jd(),
            pt.spec_lat(),
        ) <= 3_599_999 ==> pt.spec_asr_hour() > pt.spec_zenith_hour(),
        astro::spec_horizon_occurs(2_998_800, pt.spec_jd(), pt.spec_lat())
            && astro::spec_horizon_ratio(2_998_800, pt.spec_jd(), pt.spec_lat()) <= 3_599_999
            ==> pt.spec_sunrise_hour() < pt.spec_zenith_hour(),
        astro::spec_horizon_occurs(
            types::spec_fajr_angle(pt.spec_auth()),
            pt.spec_jd(),
            pt.spec_lat(),
        ) && astro::spec_horizon_ratio(
            types::spec_fajr_angle(pt.spec_auth()),
            pt.spec_jd(),
            pt.spec_lat(),
        ) <= 3_599_999 ==> pt.spec_fajr_hour() < pt.spec_zenith_hour(),
        astro::spec_horizon_occurs(2_998_800, pt.spec_jd(), pt.spec_lat())
            && astro::spec_horizon_ratio(2_998_800, pt.spec_jd(), pt.spec_lat()) <= 3_599_999
            ==> pt.spec_maghrib_hour() > pt.spec_zenith_hour(),
{
    let len = types::spec_shadow_length(pt.spec_school());
    let fa = types::spec_fajr_angle(pt.spec_auth());
    if astro::spec_shadow_occurs(len, pt.spec_jd(), pt.spec_lat()) {
        astro::lemma_offset_bounds(astro::spec_shadow_ratio(len, pt.spec_jd(), pt.spec_lat()));
    }
    if astro::spec_horizon_occurs(2_998_800, pt.spec_jd(), pt.spec_lat()) {
        astro::lemma_offset_bounds(
            astro::spec_horizon_ratio(2_998_800, pt.spec_jd(), pt.spec_lat()),
        );
    }
    if astro::spec_horizon_occurs(fa, pt.spec_jd(), pt.spec_lat()) {
        astro::lemma_offset_bounds(astro::spec_horizon_ratio(fa, pt.spec_jd(), pt.spec_lat()));
    }
}

/// Switching the authority's night criterion, or the whole authority,
/// never moves sunrise, mid-day, sunset, the afternoon or solar midnight:
/// of the seven queries only dawn and night read the authority, and dawn
/// only through its dawn angle.
pub proof fn lemma_authority_moves_only_night(p1: PrayerTimes, p2: PrayerTimes)
    requires
        p1.well_formed(),
        p2.well_formed(),
        p1.spec_jd() == p2.spec_jd(),
        p1.spec_lat() == p2.spec_lat(),
        p1.spec_lng() == p2.spec_lng(),
        p1.spec_tz_offset() == p2.spec_tz_offset(),
        p1.spec_school() == p2.spec_school(),
    ensures
        p1.spec_sunrise() == p2.spec_sunrise(),
        p1.spec_dhuhr() == p2.spec_dhuhr(),
        p1.spec_asr() == p2.spec_asr(),
        p1.spec_maghrib() == p2.spec_maghrib(),
        p1.spec_midnight() == p2.spec_midnight(),
        types::spec_fajr_angle(p1.spec_auth()) == types::spec_fajr_angle(p2.spec_auth())
            ==> p1.spec_fajr() == p2.spec_fajr(),
{
}

/// Dawn strictly precedes sunrise: every authority's dawn angle has a sine
/// at least a quarter degree of sine value above the refraction angle's,
/// so its horizon crossing sits strictly farther from solar noon. Left out
/// are a nonpositive cosine product, which arises only beyond the
/// geographic latitude range, and dates on which either crossing is absent.
pub proof fn lemma_dawn_precedes_sunrise(pt: PrayerTimes)
    requires
        pt.well_formed(),
        astro::spec_horizon_den(pt.spec_jd(), pt.spec_lat()) >= 1,
        astro::spec_horizon_occurs(
            types::spec_fajr_angle(pt.spec_auth()),
            pt.spec_jd(),
            pt.spec_lat(),
        ),
        astro::spec_horizon_occurs(2_998_800, pt.spec_jd(), pt.spec_lat()),
    ensures
        pt.spec_fajr_hour() < pt.spec_sunrise_hour(),
{
    let fa = types::spec_fajr_angle(pt.spec_auth());
    crate::math::deg::lemma_sin_at_refraction();
    match pt.spec_auth() {
        Authority::MWL => crate::math::deg::lemma_sin_at_eighteen(),
        Authority::ISNA => crate::math::deg::lemma_sin_at_fifteen(),
        Authority::Egypt => crate::math::deg::lemma_sin_at_nineteen_and_half(),
        Authority::Makkah => crate::math::deg::lemma_sin_at_eighteen_and_half(),
        Authority::Karachi => crate::math::deg::lemma_sin_at_eighteen(),
        Authority::Tehran => crate::math::deg::lemma_sin_at_seventeen_point_seven(),
        Authority::Jafari => crate::math::deg::lemma_sin_at_sixteen(),
    }
    astro::lemma_horizon_offset_ordered(fa, pt.spec_jd(), pt.spec_lat());
}

/// An angle-based night strictly follows sunset, for the same reason dawn
/// precedes sunrise, with the same conditions left out.
pub proof fn lemma_night_angle_follows_sunset(pt: PrayerTimes, a: i64)
    requires
        pt.well_formed(),
        types::spec_isha_param(pt.spec_auth()) == IshaParam::Angle(a),
        astro::spec_horizon_den(pt.spec_jd(), pt.spec_lat()) >= 1,
        astro::spec_horizon_occurs(a as int, pt.spec_jd(), pt.spec_lat()),
        astro::spec_horizon_occurs(2_998_800, pt.spec_jd(), pt.spec_lat()),
    ensures
        pt.spec_zenith_hour() + astro::spec_horizon_offset(a as int, pt.spec_jd(), pt.spec_lat())
            > pt.spec_maghrib_hour(),
{
    crate::math::deg::lemma_sin_at_refraction();
    match pt.spec_auth() {
        Authority::MWL => crate::math::deg::lemma_sin_at_seventeen(),
        Authority::ISNA => crate::math::deg::lemma_sin_at_fifteen(),
        Authority::Egypt => crate::math::deg::lemma_sin_at_seventeen_and_half(),
        Authority::Makkah => assert(false),
        Authority::Karachi => crate::math::deg::lemma_sin_at_eighteen(),
        Authority::Tehran => crate::math::deg::lemma_sin_at_fourteen(),
        Authority::Jafari => crate::math::deg::lemma_sin_at_fourteen(),
    }
    astro::lemma_horizon_offset_ordered(a as int, pt.spec_jd(), pt.spec_lat());
}

} // verus!
