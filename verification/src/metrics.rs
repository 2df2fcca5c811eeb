//! Metrics: stateful observers of training, folded over per-sample
//! states and read out at any time. Implementations belong to the
//! caller; the trait only fixes the protocol.

use vstd::prelude::*;

verus! {

/// A training metric: `update` folds one observed state in, `reset`
/// clears the accumulation, `result` reads the current value out.
pub trait Metric<State, Outcome>: Sized {
    /// Folds one observed state into the metric.
    fn update(&mut self, state: State);

    /// Clears the accumulation.
    fn reset(&mut self);

    /// The current value of the metric.
    fn result(&self) -> Outcome;
}

} // verus!
