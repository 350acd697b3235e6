use vstd::prelude::*;

verus! {

/// Number of time units in one second: all deltas are whole microseconds.
pub const MICROS_PER_SECOND: u64 = 1_000_000;

/// Largest delta one update may carry, a little over eleven days; keeps
/// every accumulator far away from overflow.
pub const MAX_DELTA_MICROS: u64 = 1_000_000_000_000;

/// Rate of a timer in whole periods per second.
#[derive(Clone, Copy, Debug, PartialEq, Eq, Structural)]
pub struct GenericTimerConfig {
    pub rate: u32,
}

impl GenericTimerConfig {
    /// A rate that can be turned into a whole non-zero period in microseconds.
    pub open spec fn valid(self) -> bool {
        1 <= self.rate && self.rate as u64 <= MICROS_PER_SECOND
    }

    pub fn default() -> (r: Self)
        ensures
            r.rate == 1,
            r.valid(),
    {
        GenericTimerConfig { rate: 1 }
    }
}

/// A valid rate always yields a whole period between one microsecond and
/// one second.
proof fn lemma_rate_period(rate: u64)
    by (nonlinear_arith)
    requires
        1 <= rate <= MICROS_PER_SECOND,
    ensures
        1 <= MICROS_PER_SECOND / rate <= MICROS_PER_SECOND,
{
}

/// Wall-clock-driven countdown register: accumulates deltas and decrements
/// `value` once per full period crossed, saturating at zero.
pub struct GenericDownTimer {
    acc: u64,
    period: u64,
    value: u8,
}

/// The register value after `elapsed` full periods have crossed.
pub open spec fn ticked_value(value: u8, elapsed: int) -> u8 {
    if elapsed >= value {
        0
    } else {
        (value - elapsed) as u8
    }
}

impl GenericDownTimer {
    /// Fraction of the current period already accumulated, in microseconds.
    pub closed spec fn acc(self) -> u64 {
        self.acc
    }

    /// Length of one period in microseconds.
    pub closed spec fn period(self) -> u64 {
        self.period
    }

    /// Current register value.
    pub closed spec fn value(self) -> u8 {
        self.value
    }

    pub open spec fn wf(self) -> bool {
        &&& 1 <= self.period() <= MICROS_PER_SECOND
        &&& self.acc() < self.period()
    }

    pub fn new(config: &GenericTimerConfig) -> (r: Self)
        requires
            config.valid(),
        ensures
            r.wf(),
            r.acc() == 0,
            r.value() == 0,
            r.period() == MICROS_PER_SECOND / config.rate as u64,
    {
        proof {
            lemma_rate_period(config.rate as u64);
        }
        GenericDownTimer { acc: 0, period: MICROS_PER_SECOND / config.rate as u64, value: 0 }
    }

    /// Advances the timer by `delta` microseconds, decrementing the value
    /// once per full period crossed and never below zero.
    pub fn update(&mut self, delta: u64)
        requires
            old(self).wf(),
            delta <= MAX_DELTA_MICROS,
        ensures
            final(self).wf(),
            final(self).period() == old(self).period(),
            final(self).acc() == (old(self).acc() + delta) % (old(self).period() as int),
            final(self).value() == ticked_value(
                old(self).value(),
                (old(self).acc() + delta) as int / old(self).period() as int,
            ),
    {
        let total = self.acc + delta;
        let elapsed = total / self.period;
        self.acc = total % self.period;
        if elapsed >= self.value as u64 {
            self.value = 0;
        } else {
            self.value = self.value - elapsed as u8;
        }
    }

    pub fn set(&mut self, value: u8)
        ensures
            final(self).acc() == old(self).acc(),
            final(self).period() == old(self).period(),
            final(self).value() == value,
            final(self).wf() == old(self).wf(),
    {
        self.value = value;
    }

    pub fn get(&self) -> (r: u8)
        ensures
            r == self.value(),
    {
        self.value
    }
}

/// Wall-clock-driven cadence: accumulates deltas, reports how many whole
/// periods have elapsed, and on reset keeps the fractional remainder so
/// that no time is ever dropped.
pub struct GenericTimer {
    acc: u64,
    period: u64,
}

impl GenericTimer {
    /// Time accumulated since the last reset, in microseconds.
    pub closed spec fn acc(self) -> u64 {
        self.acc
    }

    /// Length of one period in microseconds.
    pub closed spec fn period(self) -> u64 {
        self.period
    }

    pub open spec fn wf(self) -> bool {
        1 <= self.period() <= MICROS_PER_SECOND
    }

    pub fn new(config: &GenericTimerConfig) -> (r: Self)
        requires
            config.valid(),
        ensures
            r.wf(),
            r.acc() == 0,
            r.period() == MICROS_PER_SECOND / config.rate as u64,
    {
        proof {
            lemma_rate_period(config.rate as u64);
        }
        GenericTimer { acc: 0, period: MICROS_PER_SECOND / config.rate as u64 }
    }

    pub fn update(&mut self, delta: u64)
        requires
            old(self).acc() + delta <= u64::MAX,
        ensures
            final(self).acc() == old(self).acc() + delta,
            final(self).period() == old(self).period(),
            final(self).wf() == old(self).wf(),
    {
        self.acc = self.acc + delta;
    }

    /// Whole periods elapsed since the last reset; more than one under a
    /// host hitch, which enables catch-up execution.
    pub fn get_ratio(&self) -> (r: u64)
        requires
            self.wf(),
        ensures
            r == self.acc() / self.period(),
    {
        self.acc / self.period
    }

    /// Subtracts exactly the elapsed whole periods, preserving the
    /// fractional remainder.
    pub fn reset(&mut self)
        requires
            old(self).wf(),
        ensures
            final(self).wf(),
            final(self).period() == old(self).period(),
            final(self).acc() == old(self).acc() % old(self).period(),
            final(self).acc() < final(self).period(),
    {
        self.acc = self.acc % self.period;
    }

    /// Time accumulated since the last reset, in microseconds.
    pub fn passed(&self) -> (r: u64)
        ensures
            r == self.acc(),
    {
        self.acc
    }
}

} // verus!
