//! Hour-domain helpers.

use vstd::prelude::*;

verus! {

/// Maps an hour value into `[0, 24)` hours of units.
pub fn normalize_hour(hour: i64) -> (r: i64)
    ensures
        0 <= r < crate::math::FULL_DAY,
        r == crate::math::spec_normalize(hour as int, crate::math::FULL_DAY as int),
{
    crate::math::normalize(hour, crate::math::FULL_DAY)
}

} // verus!
