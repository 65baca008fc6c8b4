//! The closed parameter tables: juristic school, calculation authority and
//! the named timings, each with stable lowercase identifiers.

use vstd::prelude::*;
use vstd::string::StringSliceAdditionalSpecFns;

verus! {

/// Lowercases one byte of the ASCII range; other bytes pass unchanged.
pub open spec fn spec_lower_byte(b: u8) -> u8 {
    if 65 <= b <= 90 {
        (b + 32) as u8
    } else {
        b
    }
}

/// ASCII-lowercases a byte string.
pub open spec fn spec_lower(s: Seq<u8>) -> Seq<u8> {
    s.map_values(|b: u8| spec_lower_byte(b))
}

fn lower_byte(b: u8) -> (r: u8)
    ensures
        r == spec_lower_byte(b),
{
    if 65 <= b && b <= 90 {
        b + 32
    } else {
        b
    }
}

/// Whether the ASCII-lowercased bytes of `a` spell the keyword `kw`.
fn lower_eq(a: &[u8], kw: &str) -> (r: bool)
    ensures
        r == (spec_lower(a@) == kw.spec_bytes()),
{
    let k = kw.as_bytes();
    if a.len() != k.len() {
        proof {
            assert(spec_lower(a@).len() == a@.len());
        }
        return false;
    }
    let mut i: usize = 0;
    while i < a.len()
        invariant
            i <= a@.len(),
            a@.len() == k@.len(),
            k@ == kw.spec_bytes(),
            forall|j: int| 0 <= j < i ==> spec_lower_byte(a@[j]) == k@[j],
        decreases a@.len() - i,
    {
        let la = lower_byte(a[i]);
        if la != k[i] {
            proof {
                assert(spec_lower(a@)[i as int] == spec_lower_byte(a@[i as int]));
            }
            return false;
        }
        i += 1;
    }
    proof {
        assert(spec_lower(a@) =~= k@);
    }
    true
}

/// The school of thought for jurisprudence, fixing the shadow-length ratio
/// of the afternoon prayer.
#[derive(Debug, Clone, Copy, PartialEq, Eq, Structural)]
pub enum School {
    Hanafi,
    Shafi,
}

/// The shadow-length ratio of a school, in units.
pub open spec fn spec_shadow_length(s: School) -> int {
    match s {
        School::Hanafi => 7_200_000,
        School::Shafi => 3_600_000,
    }
}

impl School {
    /// The shadow-to-object ratio this school uses for the afternoon
    /// prayer: two for Hanafi, one for Shafi.
    pub fn shadow_length(&self) -> (r: i64)
        ensures
            r == spec_shadow_length(*self),
    {
        match self {
            School::Hanafi => 7_200_000,
            School::Shafi => 3_600_000,
        }
    }
}

/// A named calculation authority, fixing the dawn angle and the night
/// criterion.
#[derive(Debug, Clone, Copy, PartialEq, Eq, Structural)]
pub enum Authority {
    MWL,
    ISNA,
    Egypt,
    Makkah,
    Karachi,
    Tehran,
    Jafari,
}

/// The night criterion of an authority: an angle below the horizon in
/// units of degrees, or a fixed duration after sunset in seconds.
#[derive(Debug, Clone, Copy, PartialEq, Eq, Structural)]
pub enum IshaParam {
    Angle(i64),
    Duration(u64),
}

/// The authority a lowercased identifier names.
pub open spec fn spec_authority_of(s: Seq<u8>) -> Option<Authority> {
    if s == "mwl".spec_bytes() {
        Some(Authority::MWL)
    } else if s == "isna".spec_bytes() {
        Some(Authority::ISNA)
    } else if s == "egypt".spec_bytes() {
        Some(Authority::Egypt)
    } else if s == "makkah".spec_bytes() {
        Some(Authority::Makkah)
    } else if s == "karachi".spec_bytes() {
        Some(Authority::Karachi)
    } else if s == "tehran".spec_bytes() {
        Some(Authority::Tehran)
    } else if s == "jafari".spec_bytes() {
        Some(Authority::Jafari)
    } else {
        Option::<Authority>::None
    }
}

/// The display identifier of an authority.
pub open spec fn spec_authority_id(a: Authority) -> Seq<char> {
    match a {
        Authority::MWL => "MWL"@,
        Authority::ISNA => "ISNA"@,
        Authority::Egypt => "Egypt"@,
        Authority::Makkah => "Makkah"@,
        Authority::Karachi => "Karachi"@,
        Authority::Tehran => "Tehran"@,
        Authority::Jafari => "Jafari"@,
    }
}

/// The dawn angle of an authority, in units of degrees below the horizon.
pub open spec fn spec_fajr_angle(a: Authority) -> int {
    match a {
        Authority::MWL => 64_800_000,
        Authority::ISNA => 54_000_000,
        Authority::Egypt => 70_200_000,
        Authority::Makkah => 66_600_000,
        Authority::Karachi => 64_800_000,
        Authority::Tehran => 63_720_000,
        Authority::Jafari => 57_600_000,
    }
}

/// The night criterion of an authority.
pub open spec fn spec_isha_param(a: Authority) -> IshaParam {
    match a {
        Authority::MWL => IshaParam::Angle(61_200_000),
        Authority::ISNA => IshaParam::Angle(54_000_000),
        Authority::Egypt => IshaParam::Angle(63_000_000),
        Authority::Makkah => IshaParam::Duration(324_000),
        Authority::Karachi => IshaParam::Angle(64_800_000),
        Authority::Tehran => IshaParam::Angle(50_400_000),
        Authority::Jafari => IshaParam::Angle(50_400_000),
    }
}

impl Authority {
    /// Looks an authority up by its identifier, case-insensitively.
    pub fn from_str(name: &str) -> (r: Option<Self>)
        ensures
            r == spec_authority_of(spec_lower(name.spec_bytes())),
    {
        let b = name.as_bytes();
        if lower_eq(b, "mwl") {
            Some(Authority::MWL)
        } else if lower_eq(b, "isna") {
            Some(Authority::ISNA)
        } else if lower_eq(b, "egypt") {
            Some(Authority::Egypt)
        } else if lower_eq(b, "makkah") {
            Some(Authority::Makkah)
        } else if lower_eq(b, "karachi") {
            Some(Authority::Karachi)
        } else if lower_eq(b, "tehran") {
            Some(Authority::Tehran)
        } else if lower_eq(b, "jafari") {
            Some(Authority::Jafari)
        } else {
            None
        }
    }

    /// The dawn angle this authority prescribes, in units of degrees.
    pub fn fajr_angle(&self) -> (r: i64)
        ensures
            r == spec_fajr_angle(*self),
            2_998_800 < r <= 70_200_000,
    {
        match self {
            Authority::MWL => 64_800_000,
            Authority::ISNA => 54_000_000,
            Authority::Egypt => 70_200_000,
            Authority::Makkah => 66_600_000,
            Authority::Karachi => 64_800_000,
            Authority::Tehran => 63_720_000,
            Authority::Jafari => 57_600_000,
        }
    }

    /// The night criterion this authority prescribes.
    pub fn isha_param(&self) -> (r: IshaParam)
        ensures
            r == spec_isha_param(*self),
    {
        match self {
            Authority::MWL => IshaParam::Angle(61_200_000),
            Authority::ISNA => IshaParam::Angle(54_000_000),
            Authority::Egypt => IshaParam::Angle(63_000_000),
            Authority::Makkah => IshaParam::Duration(324_000),
            Authority::Karachi => IshaParam::Angle(64_800_000),
            Authority::Tehran => IshaParam::Angle(50_400_000),
            Authority::Jafari => IshaParam::Angle(50_400_000),
        }
    }

    /// The full name of the authority.
    pub fn name(&self) -> (r: &'static str)
        ensures
            r@.len() > 0,
    {
        let s = match self {
            Authority::MWL => "Muslim World League",
            Authority::ISNA => "Islamic Society of North America",
            Authority::Egypt => "Egyptian General Authority of Survey",
            Authority::Makkah => "Umm al-Qura University, Makkah",
            Authority::Karachi => "University of Islamic Sciences, Karachi",
            Authority::Tehran => "Institute of Geophysics, University of Tehran",
            Authority::Jafari => "Shia Ithna Ashari, Leva Research Institute, Qum",
        };
        proof {
            reveal_strlit("Muslim World League");
            reveal_strlit("Islamic Society of North America");
            reveal_strlit("Egyptian General Authority of Survey");
            reveal_strlit("Umm al-Qura University, Makkah");
            reveal_strlit("University of Islamic Sciences, Karachi");
            reveal_strlit("Institute of Geophysics, University of Tehran");
            reveal_strlit("Shia Ithna Ashari, Leva Research Institute, Qum");
        }
        s
    }

    /// The stable identifier of the authority, accepted by `from_str`.
    pub fn to_str(&self) -> (r: &'static str)
        ensures
            r@ == spec_authority_id(*self),
    {
        let s = match self {
            Authority::MWL => "MWL",
            Authority::ISNA => "ISNA",
            Authority::Egypt => "Egypt",
            Authority::Makkah => "Makkah",
            Authority::Karachi => "Karachi",
            Authority::Tehran => "Tehran",
            Authority::Jafari => "Jafari",
        };
        proof {
        }
        s
    }

    /// A one-line description of the authority's parameters.
    pub fn desc(&self) -> (r: &'static str)
        ensures
            r@.len() > 0,
    {
        let s = match self {
            Authority::MWL => "Fajr at 18 degrees, Isha at 17 degrees.",
            Authority::ISNA => "Fajr at 15 degrees, Isha at 18 degrees.",
            Authority::Egypt => "Fajr at 19.5 degrees, Isha at 17.5 degrees",
            Authority::Makkah => "Fajr at 18.5 degrees, Isha 90 min after Maghrib.",
            Authority::Karachi => "Fajr at 18 degrees, Isha at 18 degrees.",
            Authority::Tehran => "Fajr at 17.7 degrees, Isha at 14 degrees.",
            Authority::Jafari => "Fajr at 16 degrees, Isha at 14 degrees.",
        };
        proof {
            reveal_strlit("Fajr at 18 degrees, Isha at 17 degrees.");
            reveal_strlit("Fajr at 15 degrees, Isha at 18 degrees.");
            reveal_strlit("Fajr at 19.5 degrees, Isha at 17.5 degrees");
            reveal_strlit("Fajr at 18.5 degrees, Isha 90 min after Maghrib.");
            reveal_strlit("Fajr at 18 degrees, Isha at 18 degrees.");
            reveal_strlit("Fajr at 17.7 degrees, Isha at 14 degrees.");
            reveal_strlit("Fajr at 16 degrees, Isha at 14 degrees.");
        }
        s
    }

    /// Every authority, in declaration order.
    pub fn list() -> (r: [Self; 7])
        ensures
            r@ == seq![
                Authority::MWL,
                Authority::ISNA,
                Authority::Egypt,
                Authority::Makkah,
                Authority::Karachi,
                Authority::Tehran,
                Authority::Jafari,
            ],
    {
        [
            Authority::MWL,
            Authority::ISNA,
            Authority::Egypt,
            Authority::Makkah,
            Authority::Karachi,
            Authority::Tehran,
            Authority::Jafari,
        ]
    }
}

/// The seven named timing queries.
#[derive(Debug, Clone, Copy, PartialEq, Eq, Structural)]
pub enum Timing {
    Fajr,
    Sunrise,
    Dhuhr,
    Asr,
    Maghrib,
    Isha,
    Midnight,
}

/// The timing a lowercased identifier names.
pub open spec fn spec_timing_of(s: Seq<u8>) -> Option<Timing> {
    if s == "fajr".spec_bytes() {
        Some(Timing::Fajr)
    } else if s == "sunrise".spec_bytes() {
        Some(Timing::Sunrise)
    } else if s == "dhuhr".spec_bytes() {
        Some(Timing::Dhuhr)
    } else if s == "asr".spec_bytes() {
        Some(Timing::Asr)
    } else if s == "maghrib".spec_bytes() {
        Some(Timing::Maghrib)
    } else if s == "isha".spec_bytes() {
        Some(Timing::Isha)
    } else if s == "midnight".spec_bytes() {
        Some(Timing::Midnight)
    } else {
        Option::<Timing>::None
    }
}

/// The display identifier of a timing.
pub open spec fn spec_timing_id(t: Timing) -> Seq<char> {
    match t {
        Timing::Fajr => "fajr"@,
        Timing::Sunrise => "sunrise"@,
        Timing::Dhuhr => "dhuhr"@,
        Timing::Asr => "asr"@,
        Timing::Maghrib => "maghrib"@,
        Timing::Isha => "isha"@,
        Timing::Midnight => "midnight"@,
    }
}

impl Timing {
    /// Looks a timing up by its identifier, case-insensitively.
    pub fn from_str(name: &str) -> (r: Option<Self>)
        ensures
            r == spec_timing_of(spec_lower(name.spec_bytes())),
    {
        let b = name.as_bytes();
        if lower_eq(b, "fajr") {
            Some(Timing::Fajr)
        } else if lower_eq(b, "sunrise") {
            Some(Timing::Sunrise)
        } else if lower_eq(b, "dhuhr") {
            Some(Timing::Dhuhr)
        } else if lower_eq(b, "asr") {
            Some(Timing::Asr)
        } else if lower_eq(b, "maghrib") {
            Some(Timing::Maghrib)
        } else if lower_eq(b, "isha") {
            Some(Timing::Isha)
        } else if lower_eq(b, "midnight") {
            Some(Timing::Midnight)
        } else {
            None
        }
    }

    /// The stable identifier of the timing, accepted by `from_str`.
    pub fn to_str(&self) -> (r: &'static str)
        ensures
            r@ == spec_timing_id(*self),
    {
        let s = match self {
            Timing::Fajr => "fajr",
            Timing::Sunrise => "sunrise",
            Timing::Dhuhr => "dhuhr",
            Timing::Asr => "asr",
            Timing::Maghrib => "maghrib",
            Timing::Isha => "isha",
            Timing::Midnight => "midnight",
        };
        s
    }

    /// A one-line description of the timing.
    pub fn desc(&self) -> (r: &'static str)
        ensures
            r@.len() > 0,
    {
        let s = match self {
            Timing::Fajr => "The dawn prayer time. Dependent on angle determined by authority (see salah authority)",
            Timing::Sunrise => "Sunrise time. Fajr time ends at sunrise.",
            Timing::Dhuhr => "The mid-day prayer time.",
            Timing::Asr => "The evening prayer time. Dependent on school of thought (Hanafi vs Others).",
            Timing::Maghrib => "The sunset prayer time.",
            Timing::Isha => "The night prayer time. Dependent on angle determined by authority (see salah authority)",
            Timing::Midnight => "The Islamic midnight time. Isha time ends at midnight.",
        };
        proof {
            reveal_strlit("The dawn prayer time. Dependent on angle determined by authority (see salah authority)");
            reveal_strlit("Sunrise time. Fajr time ends at sunrise.");
            reveal_strlit("The mid-day prayer time.");
            reveal_strlit("The evening prayer time. Dependent on school of thought (Hanafi vs Others).");
            reveal_strlit("The sunset prayer time.");
            reveal_strlit("The night prayer time. Dependent on angle determined by authority (see salah authority)");
            reveal_strlit("The Islamic midnight time. Isha time ends at midnight.");
        }
        s
    }

    /// Every timing, in the order they occur across a day.
    pub fn list() -> (r: [Self; 7])
        ensures
            r@ == seq![
                Timing::Fajr,
                Timing::Sunrise,
                Timing::Dhuhr,
                Timing::Asr,
                Timing::Maghrib,
                Timing::Isha,
                Timing::Midnight,
            ],
    {
        [
            Timing::Fajr,
            Timing::Sunrise,
            Timing::Dhuhr,
            Timing::Asr,
            Timing::Maghrib,
            Timing::Isha,
            Timing::Midnight,
        ]
    }
}

} // verus!
