use vstd::prelude::*;

verus! {

/// The two ways in which the simulation can fail.
#[derive(Debug, PartialEq, Eq, Clone, Copy, Structural)]
pub enum SimError {
    /// A table or a strategy was built from zero elements.
    InvalidLength,
    /// The table was unsolved at the start and after each move that the step
    /// budget allows; the budget is carried along.
    Timeout(usize),
}

} // verus!
