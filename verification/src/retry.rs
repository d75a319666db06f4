//! Ownership-retry backoff.
//!
//! Exponential backoff starting at 1s, capped at 5s, bounded by a total timeout. Only
//! errors classified as ownership failures (see [`ClientError::is_ownership`]) are
//! retried; all others short-circuit.

use vstd::prelude::*;

use crate::error::ClientError;
use crate::time::{Duration, MAX_DURATION_NANOS};

verus! {

/// How long to wait between attempts, and for how long in all.
#[derive(Clone, Copy, Debug)]
pub struct OwnershipBackoff {
    pub initial: Duration,
    pub max: Duration,
    pub timeout: Duration,
}

impl OwnershipBackoff {
    /// The default delays, from 1s up to 5s, with a total timeout.
    pub fn new(timeout: Duration) -> (b: Self)
        ensures
            b.initial@ == 1_000_000_000,
            b.max@ == 5_000_000_000,
            b.timeout == timeout,
    {
        OwnershipBackoff { initial: Duration::from_secs(1), max: Duration::from_secs(5), timeout }
    }

    /// The state before the first attempt.
    pub fn start(&self) -> (r: Retry)
        ensures
            r@ == self.initial@,
    {
        Retry { delay: self.initial }
    }
}

/// Where a series of attempts stands. Its view is the next delay, in nanoseconds.
#[derive(Clone, Copy, Debug)]
pub struct Retry {
    delay: Duration,
}

impl View for Retry {
    type V = int;

    closed spec fn view(&self) -> int {
        self.delay@
    }
}

/// How a series of attempts goes on.
pub enum RetryStep<T> {
    /// It is over, with this result.
    Done(Result<T, ClientError>),
    /// Try again after this long.
    Sleep(Duration),
}

/// The lesser of two numbers.
pub open spec fn lesser(a: int, b: int) -> int {
    if a <= b {
        a
    } else {
        b
    }
}

/// The delay after one.
pub open spec fn next_delay(delay: int, max: int) -> int {
    lesser(2 * delay, max)
}

/// The delay after a number of retries.
pub open spec fn delay_after(initial: int, max: int, retries: nat) -> int
    decreases retries,
{
    if retries == 0 {
        initial
    } else {
        next_delay(delay_after(initial, max, (retries - 1) as nat), max)
    }
}

/// Whether the result of an attempt is to be retried after so much time.
pub open spec fn retried<T>(
    outcome: Result<T, ClientError>,
    elapsed: int,
    timeout: int,
) -> bool {
    outcome matches Err(e) && e@.ownership() && elapsed < timeout
}

impl Retry {
    /// The next delay.
    pub fn delay(&self) -> (d: Duration)
        ensures
            d@ == self@,
    {
        self.delay
    }

    /// Decides what follows an attempt, given its outcome and the time since the
    /// first attempt began: an ownership failure is retried until the timeout is
    /// over, and any other outcome stands.
    pub fn step<T>(
        &mut self,
        backoff: &OwnershipBackoff,
        outcome: Result<T, ClientError>,
        elapsed: Duration,
    ) -> (r: RetryStep<T>)
        requires
            retried(outcome, elapsed@, backoff.timeout@) ==> 2 * old(self)@ <= MAX_DURATION_NANOS,
        ensures
            match r {
                RetryStep::Done(out) => {
                    &&& out == outcome
                    &&& !retried(outcome, elapsed@, backoff.timeout@)
                    &&& final(self)@ == old(self)@
                },
                RetryStep::Sleep(d) => {
                    &&& retried(outcome, elapsed@, backoff.timeout@)
                    &&& d@ == lesser(old(self)@, backoff.timeout@ - elapsed@)
                    &&& final(self)@ == next_delay(old(self)@, backoff.max@)
                },
            },
    {
        let err = match outcome {
            Ok(v) => {
                return RetryStep::Done(Ok(v));
            },
            Err(e) => e,
        };
        if !err.is_ownership() {
            return RetryStep::Done(Err(err));
        }
        if elapsed.as_nanos() >= backoff.timeout.as_nanos() {
            return RetryStep::Done(Err(err));
        }
        let remaining = backoff.timeout.minus(elapsed);
        let sleep_for = self.delay.min(remaining);
        self.delay = self.delay.doubled().min(backoff.max);
        RetryStep::Sleep(sleep_for)
    }
}

/// Delays never exceed the greatest one where the first does not, and never shrink.
pub proof fn law_delays_grow_up_to_the_maximum(initial: int, max: int, retries: nat)
    requires
        0 <= initial <= max,
    ensures
        initial <= delay_after(initial, max, retries) <= max,
        delay_after(initial, max, retries) <= delay_after(initial, max, retries + 1),
    decreases retries,
{
    if retries > 0 {
        law_delays_grow_up_to_the_maximum(initial, max, (retries - 1) as nat);
    }
}

/// Delays double until the greatest one is reached.
pub proof fn law_delays_double(initial: int, max: int, retries: nat)
    requires
        0 <= initial <= max,
    ensures
        delay_after(initial, max, retries) == lesser(
            initial * vstd::arithmetic::power2::pow2(retries),
            max,
        ),
    decreases retries,
{
    if retries == 0 {
        vstd::arithmetic::power2::lemma2_to64();
    } else {
        let before = (retries - 1) as nat;
        law_delays_double(initial, max, before);
        vstd::arithmetic::power2::lemma_pow2_unfold(retries);
        let p = vstd::arithmetic::power2::pow2(before);
        assert(initial * (2 * p) == 2 * (initial * p)) by (nonlinear_arith);
    }
}

/// A sleep never lasts beyond the timeout.
pub proof fn law_sleep_ends_by_the_timeout(delay: int, elapsed: int, timeout: int)
    requires
        elapsed < timeout,
    ensures
        elapsed + lesser(delay, timeout - elapsed) <= timeout,
{
}

/// The delays of the default backoff stay between its first and its greatest, so
/// each can be doubled.
pub proof fn law_default_delays_can_be_doubled(retries: nat)
    ensures
        2 * delay_after(1_000_000_000, 5_000_000_000, retries) <= MAX_DURATION_NANOS,
{
    law_delays_grow_up_to_the_maximum(1_000_000_000, 5_000_000_000, retries);
}

/// The default backoff waits 1s at first and 5s at most, for the given time in all, and
/// a series of attempts starts with the first delay of its backoff.
pub proof fn law_default_backoff(timeout: Duration, b: OwnershipBackoff, start: Retry)
    requires
        call_ensures(OwnershipBackoff::new, (timeout,), b),
        call_ensures(OwnershipBackoff::start, (&b,), start),
    ensures
        b.initial@ == 1 * 1_000_000_000,
        b.max@ == 5 * 1_000_000_000,
        b.timeout@ == timeout@,
        start@ == 1 * 1_000_000_000,
{
}

/// An attempt is retried exactly where it failed over ownership before the timeout; any
/// other outcome, success or failure, stands as it is.
pub proof fn law_only_ownership_failures_are_retried<T>(
    retry: &mut Retry,
    b: &OwnershipBackoff,
    outcome: Result<T, ClientError>,
    elapsed: Duration,
    r: RetryStep<T>,
)
    requires
        call_ensures(Retry::step::<T>, (retry, b, outcome, elapsed), r),
    ensures
        outcome is Ok ==> r == RetryStep::Done(outcome),
        outcome is Err && !outcome->Err_0@.ownership() ==> r == RetryStep::Done(outcome),
        outcome is Err && outcome->Err_0@.ownership() && elapsed@ >= b.timeout@ ==> r
            == RetryStep::Done(outcome),
        outcome is Err && outcome->Err_0@.ownership() && elapsed@ < b.timeout@ ==> r is Sleep,
{
}

/// A retry sleeps for the delay, but not beyond the timeout, and the next delay is twice
/// as long, but not longer than the greatest.
pub proof fn law_retries_sleep_and_slow_down<T>(
    retry: &mut Retry,
    b: &OwnershipBackoff,
    outcome: Result<T, ClientError>,
    elapsed: Duration,
    r: RetryStep<T>,
)
    requires
        call_ensures(Retry::step::<T>, (retry, b, outcome, elapsed), r),
    ensures
        r matches RetryStep::Sleep(d) ==> {
            &&& d@ <= old(retry)@
            &&& elapsed@ + d@ <= b.timeout@
            &&& d@ == old(retry)@ || elapsed@ + d@ == b.timeout@
            &&& final(retry)@ <= b.max@
            &&& final(retry)@ <= 2 * old(retry)@
            &&& final(retry)@ == b.max@ || final(retry)@ == 2 * old(retry)@
        },
        r is Done ==> final(retry)@ == old(retry)@,
{
}

/// The delay that a series of attempts shows is its next.
pub proof fn law_delay_is_shown(retry: &Retry, d: Duration)
    requires
        call_ensures(Retry::delay, (retry,), d),
    ensures
        d@ == retry@,
{
}

} // verus!
