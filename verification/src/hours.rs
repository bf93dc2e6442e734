//! Conversion of tracked durations from milliseconds to hours.

use vstd::prelude::*;

verus! {

/// Milliseconds in one thousandth of an hour.
pub const MILLIS_PER_MILLI_HOUR: i64 = 3_600;

/// Milliseconds in one hour.
pub const MILLIS_PER_HOUR: i64 = 3_600_000;

/// The number of whole thousandths of an hour in `millis`, cut off towards
/// zero: the digits of a duration in hours with three decimals, never rounded.
pub open spec fn milli_hours(millis: int) -> int {
    if millis >= 0 {
        millis / (MILLIS_PER_MILLI_HOUR as int)
    } else {
        -((-millis) / (MILLIS_PER_MILLI_HOUR as int))
    }
}

/// Converts a duration in milliseconds to thousandths of an hour, dropping
/// whatever is left below one thousandth.
pub fn millis_to_milli_hours(millis: i64) -> (r: i64)
    ensures
        r == milli_hours(millis as int),
{
    millis / MILLIS_PER_MILLI_HOUR
}

} // verus!
