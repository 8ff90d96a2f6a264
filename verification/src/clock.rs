//! The clock by which ages are counted.

use std::time::Instant;
use vstd::prelude::*;

verus! {

/// A moment of the system's monotonic clock.
#[verifier::external_type_specification]
#[verifier::external_body]
pub struct ExInstant(Instant);

/// Calls `Instant::now`. Nothing is claimed of the result.
pub assume_specification[ Instant::now ]() -> (now: Instant);

/// Calls `Instant::elapsed` and gives the time passed in nanoseconds. Nothing
/// is claimed of the result.
#[verifier::external_body]
fn nanos_since(start: &Instant) -> (nanos: u128) {
    start.elapsed().as_nanos()
}

/// The system gave this as the nanoseconds that have passed since `start`.
pub closed spec fn reading(start: Instant, nanos: u128) -> bool {
    call_ensures(nanos_since, (&start,), nanos)
}

/// Readings are what the system gave, in nanoseconds.
proof fn readings_are_what_the_system_gave(start: Instant, nanos: u128)
    requires
        reading(start, nanos),
    ensures
        call_ensures(nanos_since, (&start,), nanos),
{
}

/// The clock showed `now`: what the system gave, or the latest moment shown
/// before, whichever is later.
pub open spec fn shown(clock: ClockView, now: u128) -> bool {
    exists|r: u128| #[trigger] reading(clock.start, r) && now == later(clock.latest, r)
}

/// A clock that counts the nanoseconds since it was started, and that does not
/// run backwards.
pub(crate) struct Clock {
    start: Instant,
    latest: u128,
}

/// What a `Clock` stands for.
#[verifier::ext_equal]
pub struct ClockView {
    /// The moment at which the clock was started.
    pub start: Instant,
    /// The latest moment that it has shown, in nanoseconds since then.
    pub latest: u128,
}

impl View for Clock {
    type V = ClockView;

    closed spec fn view(&self) -> ClockView {
        ClockView { start: self.start, latest: self.latest }
    }
}

impl ClockView {
    /// The clock once it has shown `now`.
    pub open spec fn showing(self, now: u128) -> ClockView {
        ClockView { latest: now, ..self }
    }
}

impl Clock {
    /// Starts a clock.
    pub(crate) fn start() -> (clock: Clock)
        ensures
            clock@.latest == 0,
    {
        Clock { start: Instant::now(), latest: 0 }
    }

    /// The nanoseconds since the clock was started.
    pub(crate) fn read(&self) -> (nanos: u128)
        ensures
            reading(self@.start, nanos),
    {
        nanos_since(&self.start)
    }

    /// The nanoseconds since the clock was started, and no fewer than
    /// `earlier`.
    pub(crate) fn read_after(&self, earlier: u128) -> (nanos: u128)
        ensures
            exists|r: u128| #[trigger] reading(self@.start, r) && nanos == later(earlier, r),
            earlier <= nanos,
    {
        let r: u128 = self.read();
        not_before(earlier, r)
    }

    /// What the clock shows: no less than it has shown before.
    pub(crate) fn peek(&self) -> (now: u128)
        ensures
            self@.latest <= now,
            shown(self@, now),
    {
        self.read_after(self.latest)
    }

    /// What the clock shows, which it then has shown.
    pub(crate) fn tick(&mut self) -> (now: u128)
        ensures
            old(self)@.latest <= now,
            shown(old(self)@, now),
            final(self)@ == old(self)@.showing(now),
    {
        let now: u128 = self.peek();
        self.latest = now;
        now
    }
}

/// The later of two moments.
pub open spec fn later(a: u128, b: u128) -> u128 {
    if b < a {
        a
    } else {
        b
    }
}

/// What a clock is taken to show when it shows `reading` and has shown
/// `earlier` before: it does not run backwards.
pub fn not_before(earlier: u128, reading: u128) -> (nanos: u128)
    ensures
        nanos == later(earlier, reading),
{
    if reading < earlier {
        earlier
    } else {
        reading
    }
}

} // verus!
