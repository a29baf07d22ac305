//! Points in time and lengths of time, in milliseconds.
use crate::clock::is_clock_reading;
use chrono::Utc;
use vstd::prelude::*;

verus! {

/// The last point in time that chrono represents, in milliseconds since the Unix epoch: the last
/// millisecond of the year 262142.
pub const LATEST_MILLIS: u64 = 8_210_266_876_799_999;

/// A point in time, in milliseconds since the Unix epoch.
#[derive(Debug, Clone, Copy, PartialEq, Eq, PartialOrd, Ord, Hash, Structural)]
pub struct TimeStamp(pub u64);

/// A length of time: whole seconds, and nanoseconds on top of them.
#[derive(Debug, Clone, Copy, PartialEq, Eq, Structural)]
pub struct Duration {
    pub secs: u64,
    pub nanos: u32,
}

impl From<u64> for TimeStamp {
    fn from(millis: u64) -> (time: TimeStamp) {
        TimeStamp(millis)
    }
}

impl vstd::std_specs::convert::FromSpecImpl<u64> for TimeStamp {
    open spec fn obeys_from_spec() -> bool {
        true
    }

    open spec fn from_spec(millis: u64) -> TimeStamp {
        TimeStamp(millis)
    }
}

impl From<TimeStamp> for u128 {
    fn from(time: TimeStamp) -> (millis: u128) {
        time.0 as u128
    }
}

impl vstd::std_specs::convert::FromSpecImpl<TimeStamp> for u128 {
    open spec fn obeys_from_spec() -> bool {
        true
    }

    open spec fn from_spec(time: TimeStamp) -> u128 {
        time.0 as u128
    }
}

impl Default for TimeStamp {
    /// The Unix epoch.
    fn default() -> (time: TimeStamp)
        ensures
            time == TimeStamp(0),
    {
        TimeStamp(0)
    }
}

impl core::ops::Sub for TimeStamp {
    type Output = TimeStamp;

    fn sub(self, earlier: TimeStamp) -> (rest: TimeStamp) {
        TimeStamp(self.0 - earlier.0)
    }
}

impl vstd::std_specs::ops::SubSpecImpl for TimeStamp {
    open spec fn obeys_sub_spec() -> bool {
        true
    }

    open spec fn sub_req(self, earlier: TimeStamp) -> bool {
        earlier.0 <= self.0
    }

    open spec fn sub_spec(self, earlier: TimeStamp) -> TimeStamp {
        TimeStamp((self.0 - earlier.0) as u64)
    }
}

/// Milliseconds since the Unix epoch, by the system clock: `Utc::now` followed by
/// `DateTime::timestamp_millis`.
///
/// Trusted: the reading is neither negative nor later than chrono represents, because `Utc::now`
/// panics where the clock stands before the epoch or out of range. Which reading it is depends on
/// the clock. In a browser on wasm32, where `Utc::now` asks JavaScript, a clock before the epoch
/// is not refused, so this does not hold there.
#[verifier::external_body]
fn utc_now_millis() -> (millis: i64)
    ensures
        0 <= millis <= LATEST_MILLIS,
        is_clock_reading(millis as int),
{
    Utc::now().timestamp_millis()
}

impl TimeStamp {
    /// The time by the system clock. Any reading from the epoch on that chrono represents is
    /// possible.
    pub fn now() -> (time: TimeStamp)
        ensures
            time.0 <= LATEST_MILLIS,
            is_clock_reading(time.0 as int),
    {
        TimeStamp(utc_now_millis() as u64)
    }
}

impl Duration {
    /// The whole milliseconds in a duration.
    pub open spec fn millis(self) -> nat {
        (self.secs * 1000 + self.nanos / 1_000_000) as nat
    }

    pub fn from_secs(secs: u64) -> (duration: Duration)
        ensures
            duration == (Duration { secs, nanos: 0 }),
            duration.millis() == secs * 1000,
    {
        Duration { secs, nanos: 0 }
    }

    /// The whole milliseconds in the duration.
    pub fn as_millis(&self) -> (millis: u128)
        ensures
            millis == self.millis(),
    {
        self.secs as u128 * 1000 + (self.nanos / 1_000_000) as u128
    }
}

} // verus!
