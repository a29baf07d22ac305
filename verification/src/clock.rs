//! What is known of the clock and the time zone of the machine.
//!
//! What these predicates say is not shown outside of this module. So elsewhere a number is known
//! to be a reading of the clock, or an offset of the local time zone, only where the clock or the
//! time zone was asked for it: nothing that was computed can stand in for it.
use crate::timestamp::LATEST_MILLIS;
use vstd::prelude::*;

verus! {

/// A reading of the system clock, in milliseconds since the Unix epoch.
pub closed spec fn is_clock_reading(millis: int) -> bool {
    0 <= millis <= LATEST_MILLIS
}

/// The offset of the local time zone at a point in time, in seconds ahead of UTC.
pub closed spec fn is_zone_offset(millis: int, offset: int) -> bool {
    &&& millis <= LATEST_MILLIS
    &&& -86_400 < offset < 86_400
}

} // verus!
