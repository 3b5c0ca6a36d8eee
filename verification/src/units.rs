use vstd::prelude::*;

use crate::base::FreeRtosTickType;

verus! {

/// The number of ticks that a duration of `milliseconds` takes, with ticks of
/// `tick_period_ms` milliseconds each: whole ticks only, rounded down.
pub open spec fn ms_to_ticks(milliseconds: u32, tick_period_ms: u32) -> u32
    recommends
        tick_period_ms > 0,
{
    (milliseconds / tick_period_ms) as u32
}

/// The number of milliseconds that `ticks` ticks of `tick_period_ms` milliseconds last.
pub open spec fn ticks_to_ms(ticks: u32, tick_period_ms: u32) -> int {
    ticks * tick_period_ms
}

pub trait DurationTicks: Copy + Clone {
    /// The ticks that this duration stands for.
    spec fn ticks_spec(&self) -> FreeRtosTickType;

    /// Convert to ticks, the internal time measurement unit of FreeRTOS
    fn to_ticks(&self) -> (t: FreeRtosTickType)
        ensures
            t == self.ticks_spec(),
    ;
}

/// Time unit used by FreeRTOS, passed to the scheduler as ticks.
#[derive(Debug, Copy, Clone, PartialEq, Eq, Structural)]
pub struct Duration {
    ticks: u32,
}

impl View for Duration {
    type V = u32;

    /// The number of ticks.
    closed spec fn view(&self) -> u32 {
        self.ticks
    }
}

impl Duration {
    /// Milliseconds constructor; a tick lasts `tick_period_ms` milliseconds
    /// (`portTICK_PERIOD_MS` of the kernel's port).
    pub fn ms(milliseconds: u32, tick_period_ms: u32) -> (d: Duration)
        requires
            tick_period_ms > 0,
        ensures
            d@ == ms_to_ticks(milliseconds, tick_period_ms),
    {
        Self::ticks(milliseconds / tick_period_ms)
    }

    pub fn ticks(ticks: u32) -> (d: Duration)
        ensures
            d@ == ticks,
    {
        Duration { ticks: ticks }
    }

    /// An infinite duration: `max_wait` is the tick count that the kernel reads as
    /// waiting forever (`portMAX_DELAY`, which the shim reports).
    pub fn infinite(max_wait: FreeRtosTickType) -> (d: Duration)
        ensures
            d@ == max_wait,
    {
        Self::ticks(max_wait)
    }

    /// A duration of zero, for non-blocking calls
    pub fn zero() -> (d: Duration)
        ensures
            d@ == 0,
    {
        Self::ticks(0)
    }

    /// Smallest unit of measurement, one tick
    pub fn eps() -> (d: Duration)
        ensures
            d@ == 1,
    {
        Self::ticks(1)
    }

    /// The duration in milliseconds, with ticks of `tick_period_ms` milliseconds.
    pub fn to_ms(&self, tick_period_ms: u32) -> (m: u32)
        requires
            ticks_to_ms(self@, tick_period_ms) <= u32::MAX,
        ensures
            m == ticks_to_ms(self@, tick_period_ms),
    {
        self.ticks * tick_period_ms
    }
}

impl DurationTicks for Duration {
    closed spec fn ticks_spec(&self) -> FreeRtosTickType {
        self.ticks
    }

    fn to_ticks(&self) -> (t: FreeRtosTickType)
        ensures
            t == self@,
    {
        self.ticks
    }
}

/// The ticks a duration hands the scheduler are its ticks.
pub proof fn lemma_duration_ticks(d: Duration)
    ensures
        d.ticks_spec() == d@,
{
}

/// A duration is its tick count: two durations are equal exactly when their ticks
/// are.
pub proof fn lemma_duration_is_its_ticks(a: Duration, b: Duration)
    ensures
        a == b <==> a@ == b@,
{
}

/// Every duration other than the zero duration `zero` lasts at least one tick,
/// which is the length of `eps()`.
pub proof fn lemma_eps_is_smallest(d: Duration, zero: Duration)
    requires
        zero@ == 0,
    ensures
        d != zero ==> d@ >= 1,
{
}

/// Converting milliseconds to ticks and back loses less than one tick: the result
/// is at most the milliseconds asked for, and short of them by less than a tick.
pub proof fn lemma_ms_round_trip(milliseconds: u32, tick_period_ms: u32)
    requires
        tick_period_ms > 0,
    ensures
        ticks_to_ms(ms_to_ticks(milliseconds, tick_period_ms), tick_period_ms) <= milliseconds,
        milliseconds < ticks_to_ms(ms_to_ticks(milliseconds, tick_period_ms), tick_period_ms)
            + tick_period_ms,
{
    let q = milliseconds / tick_period_ms;
    let r = milliseconds % tick_period_ms;
    assert(milliseconds == q * tick_period_ms + r && 0 <= r < tick_period_ms) by (nonlinear_arith)
        requires
            tick_period_ms > 0,
            q == milliseconds / tick_period_ms,
            r == milliseconds % tick_period_ms,
    ;
    assert(ms_to_ticks(milliseconds, tick_period_ms) == q);
    assert(ticks_to_ms(q as u32, tick_period_ms) == q * tick_period_ms);
}

/// Converting ticks to milliseconds and back gives the same ticks.
pub proof fn lemma_ticks_round_trip(ticks: u32, tick_period_ms: u32)
    requires
        tick_period_ms > 0,
        ticks_to_ms(ticks, tick_period_ms) <= u32::MAX,
    ensures
        ms_to_ticks(ticks_to_ms(ticks, tick_period_ms) as u32, tick_period_ms) == ticks,
{
    let m = ticks * tick_period_ms;
    assert(m / (tick_period_ms as int) == ticks as int) by (nonlinear_arith)
        requires
            tick_period_ms > 0,
            m == ticks * tick_period_ms,
    ;
}

/// Milliseconds to ticks keeps the order: a longer wait is never fewer ticks.
pub proof fn lemma_ms_monotonic(a: u32, b: u32, tick_period_ms: u32)
    requires
        tick_period_ms > 0,
        a <= b,
    ensures
        ms_to_ticks(a, tick_period_ms) <= ms_to_ticks(b, tick_period_ms),
{
    assert(a / tick_period_ms <= b / tick_period_ms) by (nonlinear_arith)
        requires
            tick_period_ms > 0,
            a <= b,
    ;
}

} // verus!
