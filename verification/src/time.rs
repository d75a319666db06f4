//! Spans and points of time, counted in nanoseconds.
//!
//! A [`Duration`] spans up to `u64::MAX` seconds and 999 999 999 nanoseconds. A
//! [`SystemTime`] is a signed offset from the Unix epoch. Its range holds every
//! timestamp that the wire can carry, and any two of its points lie less than the
//! longest [`Duration`] apart.

use vstd::prelude::*;

verus! {

/// Nanoseconds in a second.
pub const NANOS_PER_SEC: u128 = 1_000_000_000;

/// The longest duration, in nanoseconds.
pub const MAX_DURATION_NANOS: u128 = 18_446_744_073_709_551_615_999_999_999;

/// The earliest point of time, in nanoseconds from the Unix epoch.
pub const MIN_TIME_NANOS: i128 = -9_223_372_036_854_775_800_000_000_000;

/// The latest point of time, in nanoseconds from the Unix epoch.
pub const MAX_TIME_NANOS: i128 = 9_223_372_036_854_775_811_000_000_000;

/// A non-negative span of time.
#[derive(Copy, Clone, Debug, PartialEq, Eq, Structural)]
pub struct Duration {
    nanos: u128,
}

impl View for Duration {
    type V = int;

    /// Length of the span in nanoseconds.
    closed spec fn view(&self) -> int {
        self.nanos as int
    }
}

impl Duration {
    #[verifier::type_invariant]
    spec fn in_range(self) -> bool {
        self.nanos <= MAX_DURATION_NANOS
    }

    /// The empty span.
    pub fn zero() -> (d: Duration)
        ensures
            d@ == 0,
    {
        Duration { nanos: 0 }
    }

    /// A span of so many nanoseconds.
    pub fn from_nanos(nanos: u128) -> (d: Duration)
        requires
            nanos <= MAX_DURATION_NANOS,
        ensures
            d@ == nanos,
    {
        Duration { nanos }
    }

    /// A span of so many milliseconds.
    pub fn from_millis(millis: u64) -> (d: Duration)
        ensures
            d@ == millis * 1_000_000,
    {
        Duration { nanos: (millis as u128) * 1_000_000 }
    }

    /// A span of so many seconds.
    pub fn from_secs(secs: u64) -> (d: Duration)
        ensures
            d@ == secs * NANOS_PER_SEC,
    {
        Duration { nanos: (secs as u128) * NANOS_PER_SEC }
    }

    /// Length of the span in nanoseconds.
    pub fn as_nanos(&self) -> (n: u128)
        ensures
            n == self@,
            n <= MAX_DURATION_NANOS,
    {
        proof {
            use_type_invariant(self);
        }
        self.nanos
    }

    /// Whole seconds in the span.
    pub fn as_secs(&self) -> (s: u64)
        ensures
            s == self@ / NANOS_PER_SEC as int,
    {
        proof {
            use_type_invariant(self);
        }
        (self.nanos / NANOS_PER_SEC) as u64
    }

    /// Nanoseconds past the last whole second.
    pub fn subsec_nanos(&self) -> (n: u32)
        ensures
            n == self@ % NANOS_PER_SEC as int,
            n < NANOS_PER_SEC,
    {
        (self.nanos % NANOS_PER_SEC) as u32
    }

    /// Whether the span is empty.
    pub fn is_zero(&self) -> (r: bool)
        ensures
            r == (self@ == 0),
    {
        self.nanos == 0
    }

    /// The shorter of two spans.
    pub fn min(self, other: Duration) -> (d: Duration)
        ensures
            d == if self@ <= other@ { self } else { other },
    {
        if self.nanos <= other.nanos {
            self
        } else {
            other
        }
    }

    /// The span moved into the interval from `low` to `high`.
    pub fn clamp(self, low: Duration, high: Duration) -> (d: Duration)
        requires
            low@ <= high@,
        ensures
            d == if self@ < low@ { low } else if self@ > high@ { high } else { self },
    {
        if self.nanos < low.nanos {
            low
        } else if self.nanos > high.nanos {
            high
        } else {
            self
        }
    }

    /// A third of the span, rounded down to a nanosecond.
    pub fn third(self) -> (d: Duration)
        ensures
            d@ == self@ / 3,
    {
        proof {
            use_type_invariant(&self);
        }
        Duration { nanos: self.nanos / 3 }
    }

    /// Twice the span.
    pub fn doubled(self) -> (d: Duration)
        requires
            2 * self@ <= MAX_DURATION_NANOS,
        ensures
            d@ == 2 * self@,
    {
        Duration { nanos: 2 * self.nanos }
    }

    /// What is left of the span after `other`, which is no longer than it.
    pub fn minus(self, other: Duration) -> (d: Duration)
        requires
            other@ <= self@,
        ensures
            d@ == self@ - other@,
    {
        proof {
            use_type_invariant(&self);
        }
        Duration { nanos: self.nanos - other.nanos }
    }
}

/// A point of time.
#[derive(Copy, Clone, Debug, PartialEq, Eq, Structural)]
pub struct SystemTime {
    nanos: i128,
}

impl View for SystemTime {
    type V = int;

    /// Nanoseconds from the Unix epoch, negative before it.
    closed spec fn view(&self) -> int {
        self.nanos as int
    }
}

impl SystemTime {
    #[verifier::type_invariant]
    spec fn in_range(self) -> bool {
        MIN_TIME_NANOS <= self.nanos <= MAX_TIME_NANOS
    }

    /// The Unix epoch.
    pub fn unix_epoch() -> (t: SystemTime)
        ensures
            t@ == 0,
    {
        SystemTime { nanos: 0 }
    }

    /// The point so many nanoseconds from the Unix epoch, if it is in range.
    pub fn from_epoch_nanos(nanos: i128) -> (r: Option<SystemTime>)
        ensures
            match r {
                Some(t) => t@ == nanos,
                None => !(MIN_TIME_NANOS <= nanos <= MAX_TIME_NANOS),
            },
    {
        if MIN_TIME_NANOS <= nanos && nanos <= MAX_TIME_NANOS {
            Some(SystemTime { nanos })
        } else {
            None
        }
    }

    /// Nanoseconds from the Unix epoch.
    pub fn epoch_nanos(&self) -> (n: i128)
        ensures
            n == self@,
            MIN_TIME_NANOS <= n <= MAX_TIME_NANOS,
    {
        proof {
            use_type_invariant(self);
        }
        self.nanos
    }

    /// The point a span later.
    pub fn plus(self, d: Duration) -> (t: SystemTime)
        requires
            self@ + d@ <= MAX_TIME_NANOS,
        ensures
            t@ == self@ + d@,
    {
        proof {
            use_type_invariant(&self);
            use_type_invariant(&d);
        }
        SystemTime { nanos: self.nanos + d.nanos as i128 }
    }

    /// The span from an earlier point to this one; `None` where `earlier` is later.
    pub fn duration_since(&self, earlier: SystemTime) -> (r: Option<Duration>)
        ensures
            match r {
                Some(d) => earlier@ <= self@ && d@ == self@ - earlier@,
                None => self@ < earlier@,
            },
    {
        proof {
            use_type_invariant(self);
            use_type_invariant(&earlier);
        }
        if earlier.nanos <= self.nanos {
            Some(Duration { nanos: (self.nanos - earlier.nanos) as u128 })
        } else {
            None
        }
    }

    /// The span from `now` to this point, empty where `now` has reached it.
    pub fn remaining(&self, now: SystemTime) -> (d: Duration)
        ensures
            d@ == if now@ < self@ { self@ - now@ } else { 0 },
    {
        match self.duration_since(now) {
            Some(d) => d,
            None => Duration::zero(),
        }
    }

    /// Whether this is the same point as another.
    pub fn same(&self, other: SystemTime) -> (r: bool)
        ensures
            r == (self@ == other@),
    {
        self.nanos == other.nanos
    }

    /// Whether this point is strictly later than another.
    pub fn is_after(&self, other: SystemTime) -> (r: bool)
        ensures
            r == (self@ > other@),
    {
        self.nanos > other.nanos
    }
}

// ---------- Laws ----------

/// Durations are counted in nanoseconds, of which a millisecond has a million and a
/// second a thousand million; whole seconds and what is left of one make up the whole.
pub proof fn law_durations_count_nanoseconds(
    millis: u64,
    secs: u64,
    a: Duration,
    b: Duration,
    d: &Duration,
    n: u128,
    s: u64,
    rest: u32,
    zero: bool,
)
    requires
        call_ensures(Duration::from_millis, (millis,), a),
        call_ensures(Duration::from_secs, (secs,), b),
        call_ensures(Duration::as_nanos, (d,), n),
        call_ensures(Duration::as_secs, (d,), s),
        call_ensures(Duration::subsec_nanos, (d,), rest),
        call_ensures(Duration::is_zero, (d,), zero),
    ensures
        a@ == millis * 1_000_000,
        b@ == secs * 1_000_000_000,
        n == d@,
        d@ >= 0 ==> s * 1_000_000_000 + rest == d@,
        rest < 1_000_000_000,
        zero <==> d@ == 0,
{
}

/// The lesser of two durations, one held between two others and a third are what they are
/// of the numbers.
pub proof fn law_durations_are_reckoned_as_numbers(
    x: Duration,
    y: Duration,
    least: Duration,
    low: Duration,
    high: Duration,
    held: Duration,
    third: Duration,
)
    requires
        call_ensures(Duration::min, (x, y), least),
        low@ <= high@,
        call_ensures(Duration::clamp, (x, low, high), held),
        call_ensures(Duration::third, (x,), third),
    ensures
        least@ <= x@ && least@ <= y@ && (least@ == x@ || least@ == y@),
        low@ <= held@ <= high@,
        low@ <= x@ <= high@ ==> held@ == x@,
        x@ < low@ ==> held@ == low@,
        x@ > high@ ==> held@ == high@,
        3 * third@ <= x@ < 3 * third@ + 3,
{
}

/// What is left of a duration and what was taken off make up the whole.
pub proof fn law_what_is_taken_off_is_missing(x: Duration, y: Duration, less: Duration)
    requires
        call_ensures(Duration::minus, (x, y), less),
    ensures
        less@ + y@ == x@,
{
}

/// The double is the duration twice.
pub proof fn law_the_double_is_twice(x: Duration, double: Duration)
    requires
        call_ensures(Duration::doubled, (x,), double),
    ensures
        double@ == x@ + x@,
{
}

/// Points of time are counted in nanoseconds from the epoch, to both sides, and what lies
/// between two is their difference, or nothing where the first is not the later.
pub proof fn law_times_are_reckoned_as_numbers(
    nanos: i128,
    made: Option<SystemTime>,
    t: SystemTime,
    u: SystemTime,
    n: i128,
    since: Option<Duration>,
    left: Duration,
    same: bool,
    after: bool,
)
    requires
        call_ensures(SystemTime::from_epoch_nanos, (nanos,), made),
        call_ensures(SystemTime::epoch_nanos, (&t,), n),
        call_ensures(SystemTime::duration_since, (&t, u), since),
        call_ensures(SystemTime::remaining, (&t, u), left),
        call_ensures(SystemTime::same, (&t, u), same),
        call_ensures(SystemTime::is_after, (&t, u), after),
    ensures
        made matches Some(p) ==> p@ == nanos,
        made is None ==> nanos < MIN_TIME_NANOS || nanos > MAX_TIME_NANOS,
        n == t@,
        since is Some <==> t@ >= u@,
        since matches Some(s) ==> u@ + s@ == t@,
        t@ >= u@ ==> left@ == t@ - u@,
        t@ < u@ ==> left@ == 0,
        same <==> t@ == u@,
        after <==> t@ > u@,
{
}

/// A time moved by a duration lies that duration later.
pub proof fn law_times_move_by_durations(t: SystemTime, d: Duration, later: SystemTime)
    requires
        call_ensures(SystemTime::plus, (t, d), later),
    ensures
        later@ == t@ + d@,
{
}

} // verus!
