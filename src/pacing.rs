use vstd::prelude::*;
use crate::config::ConfigError;

verus! {

/// What a timer holds: the frames per step and the frames counted since the last step.
pub struct StepTimerView {
    pub interval: nat,
    pub elapsed: nat,
}

/// Decides on which rendered frames the simulation advances: once every
/// `interval` frames, counted from the last step.
pub struct StepTimer {
    interval: u32,
    elapsed: u32,
}

impl View for StepTimer {
    type V = StepTimerView;

    closed spec fn view(&self) -> StepTimerView {
        StepTimerView { interval: self.interval as nat, elapsed: self.elapsed as nat }
    }
}

impl StepTimer {
    /// The timer's own invariant: a positive interval, and fewer frames counted than it.
    pub open spec fn wf(&self) -> bool {
        0 < self@.interval && self@.elapsed < self@.interval
    }

    /// A timer that steps every `interval` frames, with no frame counted yet.
    pub fn new(interval: u32) -> (r: Result<StepTimer, ConfigError>)
        ensures
            r is Ok <==> interval > 0,
            r is Err ==> r->Err_0 == ConfigError::ZeroStepInterval,
            r is Ok ==> r->Ok_0.wf() && r->Ok_0@ == (StepTimerView {
                interval: interval as nat,
                elapsed: 0,
            }),
    {
        if interval == 0 {
            Err(ConfigError::ZeroStepInterval)
        } else {
            Ok(StepTimer { interval, elapsed: 0 })
        }
    }

    /// Counts one rendered frame; true when the simulation should advance on it,
    /// which restarts the count.
    pub fn tick(&mut self) -> (r: bool)
        requires
            old(self).wf(),
        ensures
            final(self).wf(),
            final(self)@.interval == old(self)@.interval,
            r == (old(self)@.elapsed + 1 == old(self)@.interval),
            final(self)@.elapsed == if r {
                0
            } else {
                old(self)@.elapsed + 1
            },
    {
        let counted = self.elapsed + 1;
        if counted == self.interval {
            self.elapsed = 0;
            true
        } else {
            self.elapsed = counted;
            false
        }
    }
}

} // verus!
