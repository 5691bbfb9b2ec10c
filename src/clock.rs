//! Time as the library sees it: instants in whole milliseconds since the Unix
//! epoch, read from the system clock or from a fixed clock for tests.

use chrono::TimeZone;
use vstd::prelude::*;

verus! {

/// An instant, in milliseconds since 1970-01-01T00:00:00Z.
#[derive(Debug, Clone, Copy, PartialEq, Eq, Structural)]
pub struct Timestamp {
    pub millis: i64,
}

/// Relies on chrono's `Local::now` and `DateTime::timestamp_millis`: the current time.
/// Nothing is known of it in advance.
#[verifier::external_body]
fn system_now() -> (r: Timestamp) {
    Timestamp { millis: chrono::Local::now().timestamp_millis() }
}

/// Relies on chrono's `TimeZone::with_ymd_and_hms` for `Local`, `MappedLocalTime::earliest`
/// and `DateTime::timestamp_millis`: the earliest instant at which the machine's clock
/// shows that date and time, if any. It depends on the machine's time zone.
#[verifier::external_body]
pub(crate) fn local_instant(year: i32, month: u32, day: u32, hour: u32, min: u32, sec: u32) -> (r:
    Option<Timestamp>) {
    match chrono::Local.with_ymd_and_hms(year, month, day, hour, min, sec).earliest() {
        Some(t) => Some(Timestamp { millis: t.timestamp_millis() }),
        None => None,
    }
}

/// Relies on chrono's `TimeZone::timestamp_millis_opt` for `Local`, `MappedLocalTime::single`
/// and `DateTime::to_rfc3339`: the instant in RFC 3339 form, in the machine's time zone.
#[verifier::external_body]
pub(crate) fn local_rfc3339(t: Timestamp) -> (r: Option<String>) {
    match chrono::Local.timestamp_millis_opt(t.millis).single() {
        Some(d) => Some(d.to_rfc3339()),
        None => None,
    }
}

/// A clock that always shows the same instant.
#[derive(Debug, Clone, Copy)]
pub struct Fixed {
    pub time: Timestamp,
}

impl Fixed {
    pub fn now(&self) -> (r: Timestamp)
        ensures
            r == self.time,
    {
        self.time
    }
}

/// The machine's clock.
#[derive(Debug, Clone, Copy)]
pub struct System;

impl System {
    pub fn now(&self) -> Timestamp {
        system_now()
    }
}

/// The clock that the library reads: the machine's, or a fixed one.
#[derive(Debug, Clone, Copy)]
pub enum Clock {
    SystemClock(System),
    FixedClock(Fixed),
}

impl Clock {
    pub fn now(&self) -> (r: Timestamp)
        ensures
            self matches Clock::FixedClock(f) ==> r == f.time,
    {
        match self {
            Clock::SystemClock(c) => c.now(),
            Clock::FixedClock(f) => f.now(),
        }
    }
}

impl Default for Clock {
    fn default() -> (r: Clock)
        ensures
            r matches Clock::SystemClock(_),
    {
        Clock::SystemClock(System)
    }
}

} // verus!
