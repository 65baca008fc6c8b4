//! Value-level failures of the engine; no operation panics or retries.

use vstd::prelude::*;

verus! {

/// Everything that can go wrong while computing or converting a time.
#[derive(Debug, Clone, Copy, PartialEq, Eq, Structural)]
pub enum Error {
    /// A date string did not consist of three dash-separated segments.
    DateFormat,
    /// A date segment was not an unsigned decimal number in range.
    DateNumber,
    /// The year, month and day do not form a real calendar date.
    DateRange,
    /// Hour-to-time conversion produced no valid clock time.
    OutOfRange,
    /// The requested horizon or shadow condition never occurs on the
    /// given date at the given latitude.
    NoSuchTime,
}

impl Error {
    /// A short human-readable description of the failure.
    pub fn message(&self) -> (r: &'static str)
        ensures
            r@.len() > 0,
    {
        let s = match self {
            Error::DateFormat => "date must consist of 3 '-' separated parts",
            Error::DateNumber => "date segment is not a valid number",
            Error::DateRange => "date is out of range",
            Error::OutOfRange => "cannot build a clock time from these values",
            Error::NoSuchTime => "no such time on this date at this location",
        };
        proof {
            reveal_strlit("date must consist of 3 '-' separated parts");
            reveal_strlit("date segment is not a valid number");
            reveal_strlit("date is out of range");
            reveal_strlit("cannot build a clock time from these values");
            reveal_strlit("no such time on this date at this location");
        }
        s
    }
}

} // verus!
