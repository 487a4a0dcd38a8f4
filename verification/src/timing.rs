//! Coarse wall-clock instrumentation for the array operations.
//!
//! `TimePassed` keeps three readings of the monotonic clock: the moment it
//! was created, the previous recorded moment, and the latest one. Clock
//! readings are opaque, machine-dependent values, so the contracts speak
//! only of how the readings move between the fields, never of their
//! values.

use vstd::prelude::*;

verus! {

/// `std::time::Instant`, declared so that clock readings can be stored
/// and carried through; values of it are opaque.
#[verifier::external_type_specification]
#[verifier::external_body]
pub struct ExInstant(std::time::Instant);

/// Relies on `std::time::Instant::now`: an opaque reading of the
/// monotonic clock. Nothing is promised of the value; it depends on when
/// the call runs.
#[verifier::external_body]
fn instant_now() -> (r: std::time::Instant) {
    std::time::Instant::now()
}

/// Relies on `std::time::Instant::elapsed`: the time between `t` and the
/// clock's reading now, as an opaque duration. Nothing is promised of the
/// value; it depends on when the call runs.
#[verifier::external_body]
fn instant_elapsed(t: &std::time::Instant) -> (r: std::time::Duration) {
    t.elapsed()
}

/// Relies on `std::time::Instant::duration_since`: the time from
/// `earlier` to `later`, or zero when `earlier` is the later one (the
/// operation saturates and does not panic). The readings are opaque, so
/// nothing is promised of the value.
#[verifier::external_body]
fn instant_duration_since(later: &std::time::Instant, earlier: &std::time::Instant) -> (r:
    std::time::Duration) {
    later.duration_since(*earlier)
}

/// Relies on `std::time::Duration::as_millis`: the whole milliseconds of
/// the duration. Durations are opaque here, so nothing is promised of the
/// value.
#[verifier::external_body]
fn duration_as_millis(d: &std::time::Duration) -> (r: u128) {
    d.as_millis()
}

/// Three readings of the monotonic clock: where timing started, the
/// previous recorded moment, and the latest recorded moment.
pub struct TimePassed {
    pub root: std::time::Instant,
    pub prev: std::time::Instant,
    pub now: std::time::Instant,
}

impl TimePassed {
    /// Starts timing: all three readings are taken now.
    pub fn new() -> (t: Self) {
        Self { root: instant_now(), prev: instant_now(), now: instant_now() }
    }

    /// Records a new moment: the latest reading becomes the previous one,
    /// a fresh reading becomes the latest, and the start stays put.
    pub fn record(&mut self) -> (r: ())
        ensures
            final (self).prev == old(self).now,
            final (self).root == old(self).root,
    {
        self.prev = self.now;
        self.now = instant_now();
    }

    /// Milliseconds from the start of timing to the clock's reading now.
    pub fn since_root(&self) -> u128 {
        let d = instant_elapsed(&self.root);
        duration_as_millis(&d)
    }

    /// Milliseconds from the previous recorded moment to the latest one.
    pub fn since_prev(&self) -> u128 {
        let d = instant_duration_since(&self.now, &self.prev);
        duration_as_millis(&d)
    }
}

} // verus!
