//! The representation of time: instants of the monotonic clock as
//! nanoseconds from an origin chosen by the service (`u128`), dates of the
//! system clock as nanoseconds from the UNIX epoch (`i128`, negative
//! before it), and durations as nanoseconds (`u128`).
use vstd::prelude::*;

verus! {

/// Nanoseconds in a second.
pub open spec fn nanos_per_second() -> int {
    1_000_000_000
}

/// The duration of `minutes` minutes, as `std::time::Duration::from_mins`
/// builds it: `None` where that function panics, that is when the number
/// of seconds does not fit in a `u64`.
pub open spec fn spec_duration_from_minutes(minutes: u64) -> Option<u128> {
    if minutes * 60 <= u64::MAX {
        Some((minutes * 60 * nanos_per_second()) as u128)
    } else {
        None
    }
}

/// The number of seconds in `minutes` minutes; `None` where it does not fit
/// in a `u64`, where `std::time::Duration::from_mins` panics.
pub fn seconds_from_minutes(minutes: u64) -> (r: Option<u64>)
    ensures
        r == (if minutes * 60 <= u64::MAX {
            Some((minutes * 60) as u64)
        } else {
            None::<u64>
        }),
{
    if minutes > u64::MAX / 60 {
        return None;
    }
    Some(minutes * 60)
}

/// The duration of `minutes` minutes, in nanoseconds; `None` where the
/// number of seconds does not fit in a `u64`.
pub fn duration_from_minutes(minutes: u64) -> (r: Option<u128>)
    ensures
        r == spec_duration_from_minutes(minutes),
{
    if minutes > u64::MAX / 60 {
        return None;
    }
    let seconds: u128 = (minutes as u128) * 60;
    Some(seconds * 1_000_000_000)
}

} // verus!
