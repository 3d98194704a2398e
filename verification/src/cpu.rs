use vstd::prelude::*;

verus! {

/// What a core does for the length of one cycle.
#[derive(Clone, Copy, Debug, PartialEq, Eq, Structural)]
pub enum CorePhase {
    /// Burn cycles: the core is below its target.
    Busy,
    /// Yield the core: it is at or above its target.
    Idle,
}

/// The instruction handed to the loop that drives a core: what to do next and
/// for how many milliseconds.
#[derive(Clone, Copy, Debug, PartialEq, Eq, Structural)]
pub enum CoreAction {
    /// Run CPU-bound work, without yielding, for `millis`.
    Work { millis: u64 },
    /// Sleep for `millis`.
    Sleep { millis: u64 },
}

/// The phase that a sample calls for under a scalar threshold: busy exactly
/// when the sample is below it.
pub open spec fn phase_for(threshold: u64, sample: u64) -> CorePhase {
    if sample < threshold {
        CorePhase::Busy
    } else {
        CorePhase::Idle
    }
}

/// The duty-cycle controller of one logical core. It compares each sample with
/// a single threshold, not with a band.
#[derive(Clone, Copy, Debug, PartialEq, Eq, Structural)]
pub struct CpuRegulator {
    /// The logical core that this controller is bound to.
    pub core: usize,
    /// Utilisation, in percent, below which the core is given work.
    pub threshold: u64,
    /// Length of a busy phase, in milliseconds.
    pub work_millis: u64,
    /// Length of a sleep phase, in milliseconds.
    pub sleep_millis: u64,
}

impl CpuRegulator {
    /// The action that a sample calls for.
    pub open spec fn action_for(self, sample: u64) -> CoreAction {
        match phase_for(self.threshold, sample) {
            CorePhase::Busy => CoreAction::Work { millis: self.work_millis },
            CorePhase::Idle => CoreAction::Sleep { millis: self.sleep_millis },
        }
    }

    /// The controller of `core` with the given threshold and phase lengths.
    pub fn new(core: usize, threshold: u64, work_millis: u64, sleep_millis: u64) -> (r: Self)
        ensures
            r == (CpuRegulator { core, threshold, work_millis, sleep_millis }),
    {
        CpuRegulator { core, threshold, work_millis, sleep_millis }
    }

    /// Decides the phase of the coming cycle from the latest sample of the
    /// core, in whole percent.
    pub fn phase(&self, sample: u64) -> (p: CorePhase)
        ensures
            p == phase_for(self.threshold, sample),
            (p == CorePhase::Busy) <==> sample < self.threshold,
    {
        if sample < self.threshold {
            CorePhase::Busy
        } else {
            CorePhase::Idle
        }
    }

    /// The next action of the core's loop: work for the whole work duration
    /// when the sample is below the threshold, else sleep for exactly the
    /// sleep duration.
    pub fn next_action(&self, sample: u64) -> (a: CoreAction)
        ensures
            a == self.action_for(sample),
            sample < self.threshold ==> a == (CoreAction::Work { millis: self.work_millis }),
            sample >= self.threshold ==> a == (CoreAction::Sleep { millis: self.sleep_millis }),
    {
        match self.phase(sample) {
            CorePhase::Busy => CoreAction::Work { millis: self.work_millis },
            CorePhase::Idle => CoreAction::Sleep { millis: self.sleep_millis },
        }
    }

    /// Whether a busy phase that has run for `elapsed_millis` goes on: it does
    /// until the whole work duration has passed, and not beyond.
    pub fn work_goes_on(&self, elapsed_millis: u64) -> (on: bool)
        ensures
            on == (elapsed_millis < self.work_millis),
    {
        elapsed_millis < self.work_millis
    }
}

/// One round of the busy phase's arithmetic: every number from 1 to 99 is
/// added to an accumulator and taken off again. The result is what the
/// accumulator started with; the caller feeds it back in so that the rounds
/// depend on each other.
pub fn busy_round(start: u32) -> (sum: u32)
    ensures
        sum == start,
{
    let mut sum: u32 = start;
    let mut x: u32 = 1;
    while x < 100
        invariant
            1 <= x <= 100,
            sum == start,
        decreases 100 - x,
    {
        sum = sum.wrapping_add(x);
        sum = sum.wrapping_sub(x);
        x = x + 1;
    }
    sum
}

} // verus!
