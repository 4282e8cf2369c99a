//! Tri-state switches: a toggle request can turn a flag on, turn it off,
//! or invert whatever it currently is.

use vstd::prelude::*;

verus! {

/// Status of a switch that can be turned on, turned off, or flipped
#[derive(Debug, Clone, Copy, PartialEq, Eq, Structural)]
pub enum Toggle {
    /// Turn the flag on
    On,
    /// Turn the flag off
    Off,
    /// Flip the flag's current state
    Invert,
}

impl Toggle {
    /// What the toggle makes of the current state: `Invert` resolves
    /// against the value at the moment of evaluation
    pub open spec fn eval_spec(self, current: bool) -> bool {
        match self {
            Toggle::On => true,
            Toggle::Off => false,
            Toggle::Invert => !current,
        }
    }

    /// Evaluate the [`Toggle`] against the current state
    pub fn eval(self, current: bool) -> (r: bool)
        ensures
            r == self.eval_spec(current),
    {
        match self {
            Toggle::On => true,
            Toggle::Off => false,
            Toggle::Invert => !current,
        }
    }

    /// The toggle that sets a flag to the given value
    pub fn from_bool(toggle: bool) -> (r: Self)
        ensures
            r == if toggle {
                Toggle::On
            } else {
                Toggle::Off
            },
            forall|c: bool| r.eval_spec(c) == toggle,
    {
        if toggle {
            Self::On
        } else {
            Self::Off
        }
    }
}

} // verus!
