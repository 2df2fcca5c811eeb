//! Learning-rate schedules: a stateful source of the factor the
//! optimizer scales each gradient by. A plain value acts as the
//! constant schedule.

use vstd::prelude::*;

use crate::tensor::wmul;

verus! {

/// The wrapping integer power of a base.
pub open spec fn wpow(base: i64, e: nat) -> i64
    decreases e,
{
    if e == 0 {
        1i64
    } else {
        wmul(wpow(base, (e - 1) as nat), base)
    }
}

/// A stateful learning-rate source: `next` yields the current rate
/// and advances the schedule by one step.
pub trait LearningRateSchedule: Sized {
    /// The rate `next` yields now.
    spec fn rate_spec(&self) -> i64;

    /// The schedule's state after one step.
    spec fn advanced_spec(&self) -> Self;

    /// Yields the current rate and advances the schedule.
    fn next(&mut self) -> (r: i64)
        ensures
            r == old(self).rate_spec(),
            *final(self) == old(self).advanced_spec(),
    ;
}

impl LearningRateSchedule for i64 {
    /// A plain value is the constant schedule.
    open spec fn rate_spec(&self) -> i64 {
        *self
    }

    open spec fn advanced_spec(&self) -> i64 {
        *self
    }

    fn next(&mut self) -> (r: i64) {
        *self
    }
}

/// A decaying schedule: the initial rate scaled by the decay rate
/// raised to the number of whole decay periods that have elapsed.
/// With integer rates, both the staircase and the smooth variant
/// yield the whole-period power.
pub struct ExponentialDecay {
    initial_learning_rate: i64,
    decay_rate: i64,
    decay_steps: u64,
    staircase: bool,
    step: u64,
}

impl ExponentialDecay {
    /// A schedule starting at `initial_learning_rate`, multiplied by
    /// `decay_rate` once per `decay_steps` steps.
    pub fn new(initial_learning_rate: i64, decay_rate: i64, decay_steps: u64, staircase: bool) -> (r:
        ExponentialDecay)
        requires
            decay_steps > 0,
        ensures
            r.rate_spec() == wmul(initial_learning_rate, wpow(decay_rate, 0)),
    {
        ExponentialDecay { initial_learning_rate, decay_rate, decay_steps, staircase, step: 0 }
    }
}

impl LearningRateSchedule for ExponentialDecay {
    closed spec fn rate_spec(&self) -> i64 {
        let e: nat = if self.decay_steps == 0 {
            0
        } else {
            (self.step as nat) / (self.decay_steps as nat)
        };
        wmul(self.initial_learning_rate, wpow(self.decay_rate, e))
    }

    closed spec fn advanced_spec(&self) -> ExponentialDecay {
        ExponentialDecay {
            step: if self.step == u64::MAX {
                self.step
            } else {
                (self.step + 1) as u64
            },
            ..*self
        }
    }

    fn next(&mut self) -> (r: i64) {
        let e: u64 = if self.decay_steps == 0 {
            0
        } else {
            self.step / self.decay_steps
        };
        let mut acc: i64 = 1;
        let mut k: u64 = 0;
        while k < e
            invariant
                k <= e,
                acc == wpow(self.decay_rate, k as nat),
                self.decay_rate == old(self).decay_rate,
                *self == *old(self),
            decreases e - k,
        {
            acc = acc.wrapping_mul(self.decay_rate);
            k += 1;
        }
        let r = self.initial_learning_rate.wrapping_mul(acc);
        if self.step < u64::MAX {
            self.step = self.step + 1;
        }
        r
    }
}

} // verus!
