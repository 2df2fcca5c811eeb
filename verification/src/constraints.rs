//! Value constraints: re-applied to every parameter element after an
//! update step. A layer field holds one resolved choice; leaving a
//! builder field unset resolves to the no-op constraint.

use vstd::prelude::*;

verus! {

/// A resolved constraint choice; `Off` leaves every value unchanged.
pub enum Constraint {
    Off,
}

impl Constraint {
    /// What `constrain` returns for one parameter value.
    pub open spec fn constrain_spec(&self, x: i64) -> i64 {
        match *self {
            Constraint::Off => x,
        }
    }

    /// Applies the constraint to one parameter value.
    pub fn constrain(&self, x: i64) -> (r: i64)
        ensures
            r == self.constrain_spec(x),
    {
        match *self {
            Constraint::Off => x,
        }
    }
}

} // verus!
