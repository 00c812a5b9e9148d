use vstd::prelude::*;

verus! {

#[verifier::external_type_specification]
#[verifier::external_body]
pub struct ExStdInstant(std::time::Instant);

#[verifier::external_type_specification]
#[verifier::external_body]
pub struct ExTokioInstant(tokio::time::Instant);

/// `std::time::Instant::now`. Nothing is stated: the result is the time.
#[verifier::external_body]
fn std_now() -> std::time::Instant {
    std::time::Instant::now()
}

/// `std::time::Instant::elapsed`. Nothing is stated: the result is the time.
#[verifier::external_body]
fn std_elapsed(origin: &std::time::Instant) -> std::time::Duration {
    origin.elapsed()
}

/// `std::time::Duration::as_nanos`. Nothing is stated: `Duration` is opaque
/// here.
#[verifier::external_body]
fn duration_nanos(d: &std::time::Duration) -> u128 {
    d.as_nanos()
}

/// `tokio::time::Instant::now`. Nothing is stated: the result is the time.
#[verifier::external_body]
fn tokio_now() -> tokio::time::Instant {
    tokio::time::Instant::now()
}

/// `tokio::time::Instant::elapsed`. Nothing is stated: the result is the
/// time.
#[verifier::external_body]
fn tokio_elapsed(origin: &tokio::time::Instant) -> std::time::Duration {
    origin.elapsed()
}

/// A nanosecond count as `u64`, saturating (`u64` nanoseconds cover about
/// 584 years).
pub fn nanos_as_u64(n: u128) -> (r: u64)
    ensures
        r == if n > u64::MAX { u64::MAX as int } else { n as int },
{
    if n > u64::MAX as u128 {
        u64::MAX
    } else {
        n as u64
    }
}

/// The larger of two readings.
pub open spec fn later(a: u64, b: u64) -> u64 {
    if a >= b { a } else { b }
}

/// A monotonic clock (`std::time::Instant`) read as nanoseconds since the
/// clock was created. Readings never go back: each is at least the previous
/// one (the instants themselves are documented as monotonic; should a
/// platform report an earlier instant, the previous reading is repeated).
pub struct Clock {
    origin: std::time::Instant,
    last: u64,
}

impl Clock {
    /// The latest reading (0 before the first one).
    pub closed spec fn latest(&self) -> u64 {
        self.last
    }

    pub fn new() -> (c: Clock)
        ensures
            c.latest() == 0,
    {
        Clock { origin: std_now(), last: 0 }
    }

    /// Takes in a raw reading: the result, and the new latest reading, is
    /// the later of the previous latest reading and `reading`.
    pub fn advance(&mut self, reading: u64) -> (t: u64)
        ensures
            t == later(old(self).latest(), reading),
            final(self).latest() == t,
    {
        if reading > self.last {
            self.last = reading;
        }
        self.last
    }

    /// Nanoseconds since the clock was created; never less than the
    /// previous reading.
    pub fn now(&mut self) -> (t: u64)
        ensures
            t >= old(self).latest(),
            final(self).latest() == t,
    {
        let elapsed = std_elapsed(&self.origin);
        let reading = nanos_as_u64(duration_nanos(&elapsed));
        self.advance(reading)
    }
}

/// A monotonic clock of the tokio runtime (`tokio::time::Instant`) read as
/// nanoseconds since it was created.
/// Readings never go back, as with `Clock`.
pub struct TokioClock {
    origin: tokio::time::Instant,
    last: u64,
}

impl TokioClock {
    /// The latest reading (0 before the first one).
    pub closed spec fn latest(&self) -> u64 {
        self.last
    }

    pub fn new() -> (c: TokioClock)
        ensures
            c.latest() == 0,
    {
        TokioClock { origin: tokio_now(), last: 0 }
    }

    /// Takes in a raw reading: the result, and the new latest reading, is
    /// the later of the previous latest reading and `reading`.
    pub fn advance(&mut self, reading: u64) -> (t: u64)
        ensures
            t == later(old(self).latest(), reading),
            final(self).latest() == t,
    {
        if reading > self.last {
            self.last = reading;
        }
        self.last
    }

    /// Nanoseconds since the clock was created; never less than the
    /// previous reading.
    pub fn now(&mut self) -> (t: u64)
        ensures
            t >= old(self).latest(),
            final(self).latest() == t,
    {
        let elapsed = tokio_elapsed(&self.origin);
        let reading = nanos_as_u64(duration_nanos(&elapsed));
        self.advance(reading)
    }
}

/// Nanoseconds in one second.
pub const NANOS_PER_SEC: u64 = 1_000_000_000;

/// Time from `earlier` to `now`, or zero when `earlier` is later
/// (as `Instant::duration_since` saturates).
pub open spec fn age(now: u64, earlier: u64) -> nat {
    if now >= earlier {
        (now - earlier) as nat
    } else {
        0
    }
}

/// Executable `age`.
pub fn age_of(now: u64, earlier: u64) -> (a: u64)
    ensures
        a == age(now, earlier),
{
    if now >= earlier {
        now - earlier
    } else {
        0
    }
}

} // verus!
