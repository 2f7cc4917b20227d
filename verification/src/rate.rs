//! The rate controller: a requested delay between datagrams, or a requested
//! frequency, becomes a concrete timer schedule. A delay under one
//! millisecond cannot be a timer period, so it is simulated: the period is
//! inflated to the nearest whole batch of delays, and that many datagrams
//! are sent per tick, keeping the aggregate rate exact.

use vstd::prelude::*;
use vstd::arithmetic::div_mod::{lemma_div_is_ordered, lemma_div_by_self};
use crate::math::{ceil_div, lemma_ceil_div};

verus! {

/// Nanoseconds in one second.
pub const NANOS_PER_SECOND: u64 = 1_000_000_000;

/// The timer floor: delays below one millisecond are simulated by batching.
pub const MIN_TICK_NANOS: u64 = 1_000_000;

/// How the caller states the send rate: exactly one of a delay between
/// datagrams and a count of datagrams per second.
#[derive(Clone, Copy, PartialEq, Eq, Structural, Debug)]
pub enum RateSpec {
    /// Nanoseconds between two consecutive datagrams.
    DelayNs(u64),
    /// Datagrams per second.
    PerSecond(u64),
}

/// A missing or contradictory rate specification.
#[derive(Clone, Copy, PartialEq, Eq, Structural, Debug)]
pub enum TimingError {
    /// Neither a delay nor a frequency was supplied.
    Missing,
    /// Both a delay and a frequency were supplied.
    Conflicting,
}

/// A concrete timer schedule: one batch of `batch_size` datagrams leaves
/// every `tick_period_ns` nanoseconds.
#[derive(Clone, Copy, PartialEq, Eq, Structural, Debug)]
pub struct Schedule {
    /// Nanoseconds between two timer ticks.
    pub tick_period_ns: u64,
    /// Datagrams sent at each tick.
    pub batch_size: u64,
}

/// Picks the rate specification out of the two optional inputs: exactly
/// one must be present, absence of both and presence of both are distinct
/// configuration errors.
pub fn resolve_rate(delay_ns: Option<u64>, dps: Option<u64>) -> (r: Result<RateSpec, TimingError>)
    ensures
        match (delay_ns, dps) {
            (Some(d), None) => r matches Ok(RateSpec::DelayNs(x)) && x == d,
            (None, Some(f)) => r matches Ok(RateSpec::PerSecond(x)) && x == f,
            (None, None) => r matches Err(TimingError::Missing),
            (Some(_), Some(_)) => r matches Err(TimingError::Conflicting),
        },
{
    match (delay_ns, dps) {
        (Some(d), None) => Ok(RateSpec::DelayNs(d)),
        (None, Some(f)) => Ok(RateSpec::PerSecond(f)),
        (None, None) => Err(TimingError::Missing),
        (Some(_), Some(_)) => Err(TimingError::Conflicting),
    }
}

/// The frequency a delay stands for, by integer division: converting a
/// delay to a frequency and back does not in general restore the delay.
pub fn dps_from_delay(delay_ns: u64) -> (r: u64)
    requires
        delay_ns >= 1,
    ensures
        r == NANOS_PER_SECOND / delay_ns,
{
    NANOS_PER_SECOND / delay_ns
}

/// The delay a frequency stands for, by integer division; the rounding
/// caveat of [`dps_from_delay`] applies in this direction too.
pub fn delay_from_dps(dps: u64) -> (r: u64)
    requires
        dps >= 1,
    ensures
        r == NANOS_PER_SECOND / dps,
{
    NANOS_PER_SECOND / dps
}

/// A delay, paired with the frequency it stands for.
pub fn timing_from_delay(delay_ns: u64) -> (r: (u64, u64))
    requires
        delay_ns >= 1,
    ensures
        r.0 == delay_ns,
        r.1 == NANOS_PER_SECOND / delay_ns,
{
    (delay_ns, dps_from_delay(delay_ns))
}

/// A frequency, paired with the delay it stands for.
pub fn timing_from_dps(dps: u64) -> (r: (u64, u64))
    requires
        dps >= 1,
    ensures
        r.0 == NANOS_PER_SECOND / dps,
        r.1 == dps,
{
    (delay_from_dps(dps), dps)
}

/// The delay between datagrams that a rate specification asks for.
pub open spec fn requested_delay_ns(spec: RateSpec) -> nat {
    match spec {
        RateSpec::DelayNs(d) => d as nat,
        RateSpec::PerSecond(f) => NANOS_PER_SECOND as nat / f as nat,
    }
}

/// A rate specification the controller can schedule: a positive delay, or
/// a frequency between one datagram per second and one per nanosecond.
pub open spec fn schedulable(spec: RateSpec) -> bool {
    match spec {
        RateSpec::DelayNs(d) => d >= 1,
        RateSpec::PerSecond(f) => 1 <= f <= NANOS_PER_SECOND,
    }
}

/// Turns a rate specification into a timer schedule. A delay of a
/// millisecond or more becomes the tick period itself with one datagram
/// per tick; a shorter delay is compensated: the batch size is the least
/// count of delays reaching a millisecond, and the period grows by the
/// same factor, so the period reaches the timer floor while the aggregate
/// rate — one datagram per `requested_delay_ns` — stays exact.
pub fn schedule(spec: RateSpec) -> (r: Schedule)
    requires
        schedulable(spec),
    ensures
        ({
            let d = requested_delay_ns(spec);
            &&& r.batch_size >= 1
            &&& r.tick_period_ns == d * r.batch_size
            &&& d >= MIN_TICK_NANOS ==> r.batch_size == 1 && r.tick_period_ns == d
            &&& d < MIN_TICK_NANOS ==> {
                &&& r.batch_size == ceil_div(MIN_TICK_NANOS as nat, d)
                &&& r.tick_period_ns >= MIN_TICK_NANOS
            }
        }),
{
    let delay_ns: u64 = match spec {
        RateSpec::DelayNs(d) => d,
        RateSpec::PerSecond(f) => NANOS_PER_SECOND / f,
    };
    proof {
        match spec {
            RateSpec::DelayNs(_) => {},
            RateSpec::PerSecond(f) => {
                lemma_div_is_ordered(f as int, NANOS_PER_SECOND as int, f as int);
                lemma_div_by_self(f as int);
            },
        }
    }
    if delay_ns < MIN_TICK_NANOS {
        proof {
            lemma_ceil_div(MIN_TICK_NANOS as nat, delay_ns as nat);
        }
        let k = (MIN_TICK_NANOS + delay_ns - 1) / delay_ns;
        assert(delay_ns * k < MIN_TICK_NANOS + delay_ns) by (nonlinear_arith)
            requires
                delay_ns >= 1,
                (k - 1) * delay_ns < MIN_TICK_NANOS,
        ;
        Schedule { tick_period_ns: delay_ns * k, batch_size: k }
    } else {
        assert(delay_ns * 1 == delay_ns) by (nonlinear_arith);
        Schedule { tick_period_ns: delay_ns, batch_size: 1 }
    }
}

} // verus!
