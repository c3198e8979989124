//! The clock of a room: whole seconds since it was started.

use vstd::prelude::*;
use std::time::{Duration, Instant};
use crate::game_state::Timestamp;

verus! {

/// A reading of the system's monotonic clock. Nothing is known of what it
/// holds.
#[verifier::external_type_specification]
#[verifier::external_body]
pub struct ExInstant(Instant);

/// Reads the monotonic clock with `Instant::now`. What comes back depends on
/// when the call is made, so nothing is said of it.
#[verifier::external_body]
fn instant_now() -> (at: Instant) {
    Instant::now()
}

/// The time from `earlier` to `later`, by
/// `Instant::saturating_duration_since`, which gives no time at all where
/// `later` is the earlier of the two. Nothing is said of the length.
#[verifier::external_body]
fn time_between(earlier: &Instant, later: &Instant) -> (elapsed: Duration) {
    later.saturating_duration_since(*earlier)
}

/// The whole seconds of a length of time, by `Duration::as_secs`. A
/// `Duration` is opaque here, so nothing is said of the number.
#[verifier::external_body]
fn whole_seconds(elapsed: &Duration) -> (seconds: u64) {
    elapsed.as_secs()
}

/// A clock that counts the seconds since it was started. It goes by the
/// monotonic clock of the system and keeps the last time that it has shown:
/// it never shows an earlier one.
pub struct Clock {
    origin: Instant,
    latest: Timestamp,
}

impl Clock {
    /// The last time that the clock has shown: 0 as long as it has shown
    /// none.
    pub closed spec fn latest(&self) -> Timestamp {
        self.latest
    }

    /// A clock that starts now and has shown no time yet.
    pub fn start() -> (clock: Clock)
        ensures
            clock.latest() == 0,
    {
        Clock { origin: instant_now(), latest: 0 }
    }

    /// The whole seconds since the clock was started, or the time that the
    /// clock has shown last if that is later. The clock keeps what it shows.
    pub fn now(&mut self) -> (now: Timestamp)
        ensures
            now >= old(self).latest(),
            final(self).latest() == now,
    {
        let at = instant_now();
        let elapsed = time_between(&self.origin, &at);
        let reading = whole_seconds(&elapsed);
        if reading > self.latest {
            self.latest = reading;
        }
        self.latest
    }
}

} // verus!
