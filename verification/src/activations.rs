//! Activation functions: a pointwise transformation applied to each
//! pre-activation value, together with its derivative for the
//! backward pass.

use vstd::prelude::*;

verus! {

/// A pointwise activation: `activate` maps one pre-activation value,
/// `derive` gives the derivative used by the backward pass. Both are
/// pinned to their specification functions.
pub trait Activation: Sized {
    /// What `activate` returns.
    spec fn activate_spec(&self, x: i64) -> i64;

    /// What `derive` returns.
    spec fn derive_spec(&self, x: i64) -> i64;

    /// Applies the activation to one value.
    fn activate(&self, x: i64) -> (r: i64)
        ensures
            r == self.activate_spec(x),
    ;

    /// The derivative of the activation at one value.
    fn derive(&self, x: i64) -> (r: i64)
        ensures
            r == self.derive_spec(x),
    ;
}

/// The identity activation: passes values through unchanged, with
/// derivative one everywhere.
pub struct Identity {}

impl Identity {
    /// The identity activation.
    pub fn new() -> (r: Identity) {
        Identity {  }
    }
}

impl Default for Identity {
    /// Same as `new`.
    fn default() -> (r: Identity) {
        Identity {  }
    }
}

impl Clone for Identity {
    /// Activations carry no state.
    fn clone(&self) -> (r: Identity) {
        Identity {  }
    }
}

impl Activation for Identity {
    open spec fn activate_spec(&self, x: i64) -> i64 {
        x
    }

    open spec fn derive_spec(&self, x: i64) -> i64 {
        1i64
    }

    fn activate(&self, x: i64) -> (r: i64) {
        x
    }

    fn derive(&self, x: i64) -> (r: i64) {
        1
    }
}

} // verus!
