//! The time of day.

use vstd::prelude::*;

verus! {

/// The time of day in milliseconds since 1970, given what the clock shows, which
/// is nothing for a time before that. A time too late to be counted is the
/// latest that can be.
pub fn unix_time_ms(since_1970: Option<u128>) -> (r: i64)
    ensures
        r == (match since_1970 {
            None => 0i64,
            Some(ms) => if ms > i64::MAX {
                i64::MAX
            } else {
                ms as i64
            },
        }),
{
    match since_1970 {
        None => 0,
        Some(ms) => {
            if ms > i64::MAX as u128 {
                i64::MAX
            } else {
                ms as i64
            }
        },
    }
}

} // verus!
