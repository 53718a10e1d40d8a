use vstd::prelude::*;

use crate::resources::Resources;

verus! {

/// Length of one factory tick, in milliseconds.
pub const TICK_PERIOD_MS: u64 = 1000;

/// A repeating timer: time run since the last completed period, and the period.
#[derive(Clone, Copy, Debug, PartialEq, Eq, Structural)]
pub struct FactoryTimer {
    pub elapsed: u64,
    pub period: u64,
}

/// How fast factory time runs: 1 while time is left, 0 once it has run out.
#[derive(Clone, Copy, Debug, PartialEq, Eq, Structural)]
pub struct TimeScale(pub u64);

impl Default for TimeScale {
    fn default() -> (r: TimeScale)
        ensures
            r == TimeScale(1),
    {
        TimeScale(1)
    }
}

impl TimeScale {
    pub open spec fn wf(&self) -> bool {
        self.0 <= 1
    }
}

impl FactoryTimer {
    pub open spec fn wf(&self) -> bool {
        0 < self.period <= i64::MAX && self.elapsed < self.period
    }

    /// A timer with period `period` (in milliseconds) that has not run yet.
    pub fn new(period: u64) -> (r: FactoryTimer)
        requires
            0 < period <= i64::MAX,
        ensures
            r.wf(),
            r.elapsed == 0,
            r.period == period,
    {
        FactoryTimer { elapsed: 0, period }
    }

    /// Runs the timer for `delta` milliseconds and returns how many periods were
    /// completed, each of which is one tick.
    pub fn tick(&mut self, delta: u64) -> (finished: u64)
        requires
            old(self).wf(),
            old(self).elapsed + delta <= u64::MAX,
        ensures
            final(self).wf(),
            final(self).period == old(self).period,
            finished == (old(self).elapsed + delta) / old(self).period as int,
            final(self).elapsed == (old(self).elapsed + delta) % old(self).period as int,
    {
        let total = self.elapsed + delta;
        self.elapsed = total % self.period;
        total / self.period
    }
}

/// What a frame of `delta` milliseconds takes from a balance of `time` at `scale`.
pub open spec fn consumed_spec(time: i64, scale: u64, delta: u64) -> u64 {
    if scale == 0 {
        0
    } else if (time as int) < delta as int {
        time as u64
    } else {
        delta
    }
}

/// A frame of the tick economy: takes `min(time, delta * scale)` from the time balance,
/// runs the timer by that much, sets the scale to 1 while time is left and to 0 once it
/// is gone, and returns the number of factory ticks that fire this frame.
pub fn time_consume(
    timer: &mut FactoryTimer,
    resources: &mut Resources,
    scale: &mut TimeScale,
    delta: u64,
) -> (ticks: u64)
    requires
        old(timer).wf(),
        old(scale).wf(),
        old(resources).time >= 0,
    ensures
        final(timer).wf(),
        final(scale).wf(),
        final(timer).period == old(timer).period,
        ({
            let used = consumed_spec(old(resources).time, old(scale).0, delta);
            &&& *final(resources) == Resources { time: (old(resources).time - used) as i64, ..*old(resources) }
            &&& ticks == (old(timer).elapsed + used) / old(timer).period as int
            &&& final(timer).elapsed == (old(timer).elapsed + used) % old(timer).period as int
        }),
        final(resources).time >= 0,
        *final(scale) == TimeScale(if final(resources).time > 0 { 1 } else { 0 }),
        old(resources).time == 0 ==> ticks == 0,
{
    let used: u64 = if scale.0 == 0 {
        0
    } else if (resources.time as u64) < delta {
        resources.time as u64
    } else {
        delta
    };
    resources.time = resources.time - used as i64;
    let ticks = timer.tick(used);
    proof {
        if old(resources).time == 0 {
            vstd::arithmetic::div_mod::lemma_basic_div(old(timer).elapsed as int, old(timer).period as int);
        }
    }
    *scale = TimeScale(if resources.time > 0 { 1 } else { 0 });
    ticks
}

} // verus!
