use crate::entropy::random_bool;
use vstd::prelude::*;

verus! {

/// A single binary cell.
#[derive(Debug, PartialEq, Eq, Clone, Copy, Structural)]
pub enum Switch {
    On,
    Off,
}

impl Switch {
    /// The boolean that the switch stands for: `true` exactly for `On`.
    pub open spec fn state(self) -> bool {
        self == Switch::On
    }

    /// The switch with the given state.
    pub open spec fn of(state: bool) -> Switch {
        if state {
            Switch::On
        } else {
            Switch::Off
        }
    }

    pub fn new(state: bool) -> (s: Self)
        ensures
            s == Switch::of(state),
            s.state() == state,
    {
        match state {
            true => Self::On,
            false => Self::Off,
        }
    }

    /// A switch whose state is a coin flip.  Either switch may come back.
    pub fn random() -> (s: Self) {
        Self::new(random_bool())
    }

    pub fn get_state(&self) -> (b: bool)
        ensures
            b == self.state(),
    {
        match self {
            Self::On => true,
            Self::Off => false,
        }
    }

    /// Toggles the switch in place.
    pub fn flip(&mut self)
        ensures
            *final(self) == Switch::of(!old(self).state()),
            final(self).state() == !old(self).state(),
    {
        *self = Self::new(!self.get_state())
    }
}

} // verus!
