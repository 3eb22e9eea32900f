//! The paired value/time sampler and the fixed-period driver loop.
//!
//! A [`SamplerPair`] keeps a value buffer and a time buffer of equal
//! capacity that are only ever advanced together, so entry `i` of the time
//! contents is always the timestamp at which entry `i` of the value
//! contents was captured.
//!
//! A [`Driver`] is the sampling loop's state machine: a tick counter that
//! starts at zero, advances once per step while running, and stops for good
//! once the configured number of ticks has been taken. Each step records
//! one sample together with the simulated elapsed time of its tick, which
//! is the tick count times the fixed tick period. The caller supplies the
//! sample itself (the oscillator's output) and does the wall-clock pacing;
//! both are outside this state machine.

use vstd::prelude::*;

use crate::sampler::RollingSampler;
use crate::sampler::retained;

verus! {

/// A value sampler and a time sampler of equal capacity, advanced together.
pub struct SamplerPair<T> {
    values: RollingSampler<T>,
    times: RollingSampler<u64>,
}

impl<T: Copy> SamplerPair<T> {
    /// The common fixed capacity of the two buffers.
    pub closed spec fn capacity(self) -> nat {
        self.values.capacity()
    }

    /// The fill value of the value buffer.
    pub closed spec fn value_zero(self) -> T {
        self.values.zero_value()
    }

    /// Every value ever recorded, in arrival order.
    pub closed spec fn values_history(self) -> Seq<T> {
        self.values.history()
    }

    /// Every timestamp ever recorded, in arrival order.
    pub closed spec fn times_history(self) -> Seq<u64> {
        self.times.history()
    }

    /// What the value buffer holds, oldest to newest.
    pub open spec fn values_contents(self) -> Seq<T> {
        retained(self.values_history(), self.capacity(), self.value_zero())
    }

    /// What the time buffer holds, oldest to newest.
    pub open spec fn times_contents(self) -> Seq<u64> {
        retained(self.times_history(), self.capacity(), 0u64)
    }

    /// How many slots a recording has reached so far.
    pub open spec fn filled_len(self) -> int {
        if self.values_history().len() < self.capacity() {
            self.values_history().len() as int
        } else {
            self.capacity() as int
        }
    }

    /// The index into the histories that slot `i` of the contents shows.
    pub open spec fn origin(self, i: int) -> int {
        if self.values_history().len() >= self.capacity() {
            self.values_history().len() - self.capacity() + i
        } else {
            i
        }
    }

    /// Both buffers well-formed, of equal capacity, always advanced
    /// together, and the time buffer filled with zero.
    pub closed spec fn wf(self) -> bool {
        &&& self.values.wf()
        &&& self.times.wf()
        &&& self.times.capacity() == self.values.capacity()
        &&& self.times.history().len() == self.values.history().len()
        &&& self.times.zero_value() == 0u64
    }

    /// Creates two empty buffers of `capacity` slots each; the value buffer
    /// is filled with `zero`, the time buffer with zero milliseconds.
    pub fn new(capacity: usize, zero: T) -> (p: Self)
        requires
            capacity > 0,
        ensures
            p.wf(),
            p.capacity() == capacity,
            p.value_zero() == zero,
            p.values_history() == Seq::<T>::empty(),
            p.times_history() == Seq::<u64>::empty(),
    {
        SamplerPair {
            values: RollingSampler::new(capacity, zero),
            times: RollingSampler::new(capacity, 0u64),
        }
    }

    /// Records one sample together with the time at which it was captured:
    /// one paired push, so the two buffers stay index-synchronized.
    pub fn record(&mut self, value: T, time_ms: u64)
        requires
            old(self).wf(),
        ensures
            final(self).wf(),
            final(self).capacity() == old(self).capacity(),
            final(self).value_zero() == old(self).value_zero(),
            final(self).values_history() == old(self).values_history().push(value),
            final(self).times_history() == old(self).times_history().push(time_ms),
    {
        self.values.push(value);
        self.times.push(time_ms);
    }

    /// A copy of the value buffer's contents, oldest to newest.
    pub fn values_snapshot(&self) -> (out: Vec<T>)
        requires
            self.wf(),
        ensures
            out@ == self.values_contents(),
    {
        self.values.snapshot()
    }

    /// A copy of the time buffer's contents, oldest to newest.
    pub fn times_snapshot(&self) -> (out: Vec<u64>)
        requires
            self.wf(),
        ensures
            out@ == self.times_contents(),
    {
        self.times.snapshot()
    }

    /// The two contents zipped slot by slot: each entry is a timestamp
    /// paired with the value captured at that timestamp.
    pub fn paired_snapshot(&self) -> (out: Vec<(u64, T)>)
        requires
            self.wf(),
        ensures
            out@.len() == self.capacity(),
            forall|i: int|
                0 <= i < out@.len() ==> out@[i] == (
                    self.times_contents()[i],
                    self.values_contents()[i],
                ),
    {
        let ts = self.times.snapshot();
        let vs = self.values.snapshot();
        let mut out: Vec<(u64, T)> = Vec::new();
        let mut i: usize = 0;
        while i < vs.len()
            invariant
                ts@ == self.times_contents(),
                vs@ == self.values_contents(),
                ts@.len() == self.capacity(),
                vs@.len() == self.capacity(),
                i <= vs@.len(),
                out@.len() == i,
                forall|j: int|
                    0 <= j < i ==> out@[j] == (self.times_contents()[j],
                    self.values_contents()[j]),
            decreases vs@.len() - i,
        {
            let pair = (ts[i], vs[i]);
            out.push(pair);
            i = i + 1;
        }
        out
    }
}

/// Law (index alignment): after any sequence of paired recordings, slot `i`
/// of the time contents and slot `i` of the value contents come from the
/// same recording, for every slot a recording has reached; the remaining
/// slots still hold both fill values.
pub proof fn lemma_index_alignment<T: Copy>(p: SamplerPair<T>)
    requires
        p.wf(),
    ensures
        p.values_contents().len() == p.capacity(),
        p.times_contents().len() == p.capacity(),
        forall|i: int|
            0 <= i < p.filled_len() ==> p.values_contents()[i] == p.values_history()[p.origin(i)]
                && p.times_contents()[i] == p.times_history()[p.origin(i)],
        forall|i: int|
            p.filled_len() <= i < p.capacity() ==> p.values_contents()[i] == p.value_zero()
                && p.times_contents()[i] == 0u64,
{
}

/// The two states of the sampling loop.
#[derive(Clone, Copy, PartialEq, Eq, Structural, Debug)]
pub enum DriverState {
    Running,
    Stopped,
}

/// The fixed-period sampling loop's state machine.
///
/// One step is one tick: it records the caller's sample under the tick's
/// simulated elapsed time, then either advances the tick counter or, once
/// `max_ticks` is reached, stops for good. Steps are taken only while
/// running, so the loop takes exactly `max_ticks + 1` ticks, numbered
/// `0 ..= max_ticks`.
pub struct Driver<T> {
    pair: SamplerPair<T>,
    state: DriverState,
    tick: u64,
    tick_period_ms: u64,
    max_ticks: u64,
}

impl<T: Copy> Driver<T> {
    /// The current tick counter.
    pub closed spec fn tick(self) -> u64 {
        self.tick
    }

    /// The fixed simulated time between ticks, in milliseconds.
    pub closed spec fn period_ms(self) -> u64 {
        self.tick_period_ms
    }

    /// The tick at which the loop stops.
    pub closed spec fn max_ticks(self) -> u64 {
        self.max_ticks
    }

    /// Whether the loop still takes steps.
    pub closed spec fn is_running(self) -> bool {
        self.state == DriverState::Running
    }

    /// The capacity of both sample buffers.
    pub closed spec fn capacity(self) -> nat {
        self.pair.capacity()
    }

    /// The fill value of the value buffer.
    pub closed spec fn value_zero(self) -> T {
        self.pair.value_zero()
    }

    /// Every value recorded so far, in arrival order.
    pub closed spec fn values_history(self) -> Seq<T> {
        self.pair.values_history()
    }

    /// Every timestamp recorded so far, in arrival order.
    pub closed spec fn times_history(self) -> Seq<u64> {
        self.pair.times_history()
    }

    /// What the value buffer holds, oldest to newest.
    pub open spec fn values_contents(self) -> Seq<T> {
        retained(self.values_history(), self.capacity(), self.value_zero())
    }

    /// What the time buffer holds, oldest to newest.
    pub open spec fn times_contents(self) -> Seq<u64> {
        retained(self.times_history(), self.capacity(), 0u64)
    }

    /// The loop's invariant: the buffers are advanced together; while
    /// running, one sample was recorded per past tick; once stopped, the
    /// stopping tick's sample is recorded too and the counter rests at
    /// `max_ticks`; and every recorded timestamp is its tick number times
    /// the tick period.
    pub closed spec fn wf(self) -> bool {
        &&& self.pair.wf()
        &&& self.max_ticks * self.tick_period_ms <= u64::MAX
        &&& match self.state {
            DriverState::Running => self.tick <= self.max_ticks
                && self.pair.values_history().len() == self.tick,
            DriverState::Stopped => self.tick == self.max_ticks
                && self.pair.values_history().len() == self.tick + 1,
        }
        &&& forall|i: int|
            0 <= i < self.pair.times_history().len() ==> self.pair.times_history()[i] == i
                * self.tick_period_ms
    }

    /// Creates a loop at tick zero, running, with empty buffers. The bound
    /// on `max_ticks * tick_period_ms` keeps every elapsed time within the
    /// machine word.
    pub fn new(capacity: usize, tick_period_ms: u64, max_ticks: u64, zero: T) -> (d: Self)
        requires
            capacity > 0,
            max_ticks * tick_period_ms <= u64::MAX,
        ensures
            d.wf(),
            d.is_running(),
            d.tick() == 0,
            d.period_ms() == tick_period_ms,
            d.max_ticks() == max_ticks,
            d.capacity() == capacity,
            d.value_zero() == zero,
            d.values_history() == Seq::<T>::empty(),
            d.times_history() == Seq::<u64>::empty(),
    {
        Driver {
            pair: SamplerPair::new(capacity, zero),
            state: DriverState::Running,
            tick: 0u64,
            tick_period_ms,
            max_ticks,
        }
    }

    /// Whether the loop still takes steps.
    pub fn running(&self) -> (r: bool)
        ensures
            r == self.is_running(),
    {
        matches!(self.state, DriverState::Running)
    }

    /// The current tick's simulated elapsed time in milliseconds: the tick
    /// counter times the tick period.
    pub fn elapsed_ms(&self) -> (t: u64)
        requires
            self.wf(),
            self.is_running(),
        ensures
            t == self.tick() * self.period_ms(),
    {
        proof {
            lemma_mul_mono(self.tick as int, self.max_ticks as int, self.tick_period_ms as int);
        }
        self.tick * self.tick_period_ms
    }

    /// Takes one tick: records `value` under the tick's elapsed time, then
    /// advances the tick counter, or stops once `max_ticks` is reached.
    pub fn step(&mut self, value: T)
        requires
            old(self).wf(),
            old(self).is_running(),
        ensures
            final(self).wf(),
            final(self).capacity() == old(self).capacity(),
            final(self).value_zero() == old(self).value_zero(),
            final(self).period_ms() == old(self).period_ms(),
            final(self).max_ticks() == old(self).max_ticks(),
            final(self).values_history() == old(self).values_history().push(value),
            final(self).times_history() == old(self).times_history().push(
                (old(self).tick() * old(self).period_ms()) as u64,
            ),
            final(self).is_running() <==> old(self).tick() < old(self).max_ticks(),
            final(self).tick() == if old(self).tick() < old(self).max_ticks() {
                old(self).tick() + 1
            } else {
                old(self).tick() as int
            },
    {
        proof {
            lemma_mul_mono(self.tick as int, self.max_ticks as int, self.tick_period_ms as int);
        }
        let elapsed = self.tick * self.tick_period_ms;
        self.pair.record(value, elapsed);
        if self.tick >= self.max_ticks {
            self.state = DriverState::Stopped;
        } else {
            self.tick = self.tick + 1;
        }
    }

    /// A copy of the value buffer's contents, oldest to newest.
    pub fn values_snapshot(&self) -> (out: Vec<T>)
        requires
            self.wf(),
        ensures
            out@ == self.values_contents(),
    {
        self.pair.values_snapshot()
    }

    /// A copy of the time buffer's contents, oldest to newest.
    pub fn times_snapshot(&self) -> (out: Vec<u64>)
        requires
            self.wf(),
        ensures
            out@ == self.times_contents(),
    {
        self.pair.times_snapshot()
    }

    /// The two contents zipped slot by slot, timestamp first.
    pub fn paired_snapshot(&self) -> (out: Vec<(u64, T)>)
        requires
            self.wf(),
        ensures
            out@.len() == self.capacity(),
            forall|i: int|
                0 <= i < out@.len() ==> out@[i] == (
                    self.times_contents()[i],
                    self.values_contents()[i],
                ),
    {
        self.pair.paired_snapshot()
    }
}

/// Law (handover): once the loop has stopped after at least capacity-many
/// ticks, the time contents are exactly the elapsed times of the last
/// capacity-many ticks, and so are non-decreasing: what the loop hands to
/// a renderer is a proper time axis.
pub proof fn lemma_stopped_times_window<T: Copy>(d: Driver<T>)
    requires
        d.wf(),
        !d.is_running(),
        d.capacity() <= d.max_ticks() + 1,
    ensures
        d.times_contents().len() == d.capacity(),
        d.values_contents().len() == d.capacity(),
        forall|i: int|
            0 <= i < d.capacity() ==> d.times_contents()[i] == (d.max_ticks() + 1 - d.capacity()
                + i) * d.period_ms(),
        forall|i: int, j: int|
            0 <= i <= j < d.capacity() ==> d.times_contents()[i] <= d.times_contents()[j],
{
    let n = d.times_history().len() as int;
    let cap = d.capacity() as int;
    let period = d.period_ms() as int;
    assert forall|i: int| 0 <= i < cap implies d.times_contents()[i] == (n - cap + i) * period by {
        assert(d.times_contents()[i] == d.times_history()[n - cap + i]);
    }
    assert forall|i: int, j: int|
        0 <= i <= j < cap implies d.times_contents()[i] <= d.times_contents()[j] by {
        lemma_mul_mono(n - cap + i, n - cap + j, period);
    }
}

/// Multiplying both sides of an inequality by a non-negative factor keeps
/// the inequality.
proof fn lemma_mul_mono(a: int, b: int, p: int)
    requires
        0 <= a <= b,
        0 <= p,
    ensures
        a * p <= b * p,
{
    assert(a * p <= b * p) by (nonlinear_arith)
        requires
            0 <= a <= b,
            0 <= p,
    ;
}

/// How long the driver loop should sleep after a tick whose work took
/// `spent_ms` of the `tick_period_ms` budget: the remainder of the budget,
/// clamped to zero when the work overran it, so an overrun is never
/// "caught up".
pub fn pacing_sleep_ms(tick_period_ms: u64, spent_ms: u64) -> (r: u64)
    ensures
        r == if spent_ms >= tick_period_ms {
            0u64
        } else {
            (tick_period_ms - spent_ms) as u64
        },
{
    if spent_ms >= tick_period_ms {
        0
    } else {
        tick_period_ms - spent_ms
    }
}

} // verus!
