use crate::applier::StrategyApplier;
use crate::error::SimError;
use crate::switch::Switch;
use crate::table::RotatingTable;
use vstd::prelude::*;

verus! {

/// The most moves that one trial makes.
pub const STEP_BUDGET: usize = 1000;

/// A table of `n` switches, each set by a coin flip, not yet rotated.
/// A table of no switches is refused.
pub fn set_up_table(n: usize) -> (r: Result<RotatingTable, SimError>)
    ensures
        n == 0 <==> r is Err,
        r is Err ==> r == Err::<RotatingTable, SimError>(SimError::InvalidLength),
        r is Ok ==> r->Ok_0.wf() && r->Ok_0@.offset == 0 && r->Ok_0@.cells.len() == n,
{
    let mut switches: Vec<Switch> = Vec::new();
    let mut i: usize = 0;
    while i < n
        invariant
            i <= n,
            switches@.len() == i,
        decreases n - i,
    {
        switches.push(Switch::random());
        i += 1;
    }
    RotatingTable::new(switches)
}

/// What a trial does once the table has been checked after `moves` moves:
/// it ends with `moves` if the table is solved, it ends with `Timeout` if the
/// table is unsolved and the budget is spent, and else it goes on (`None`)
/// with one more move.
pub open spec fn verdict_of(solved: bool, moves: usize) -> Option<Result<usize, SimError>> {
    if solved {
        Some(Ok(moves))
    } else if moves >= STEP_BUDGET {
        Some(Err(SimError::Timeout(STEP_BUDGET)))
    } else {
        None
    }
}

/// Decides the next step of a trial from the last check and the number of
/// moves made so far.
pub fn verdict(solved: bool, moves: usize) -> (v: Option<Result<usize, SimError>>)
    ensures
        v == verdict_of(solved, moves),
{
    if solved {
        Some(Ok(moves))
    } else if moves >= STEP_BUDGET {
        Some(Err(SimError::Timeout(STEP_BUDGET)))
    } else {
        None
    }
}

/// Runs one trial.  The table is checked before any move and again after
/// each move, of which there are at most `STEP_BUDGET`.  The first check
/// that finds the table solved ends the trial with the number of moves made
/// so far, which is 0 for a table that starts solved.  When the table is
/// still unsolved after `STEP_BUDGET` moves the trial ends with `Timeout`,
/// carrying the budget.
pub fn test_strategy(applier: StrategyApplier) -> (r: Result<usize, SimError>)
    requires
        applier.wf(),
    ensures
        match r {
            Ok(n) => n <= STEP_BUDGET && applier@.after(n as nat).solved() && forall|j: nat|
                j < n ==> !(#[trigger] applier@.after(j)).solved(),
            Err(e) => e == SimError::Timeout(STEP_BUDGET) && forall|j: nat|
                j <= STEP_BUDGET ==> !(#[trigger] applier@.after(j)).solved(),
        },
{
    let mut running = applier;
    let mut i: usize = 0;
    loop
        invariant
            i <= STEP_BUDGET,
            running.wf(),
            running@ == applier@.after(i as nat),
            forall|j: nat| j < i ==> !(#[trigger] applier@.after(j)).solved(),
        decreases STEP_BUDGET - i,
    {
        match verdict(running.is_on(), i) {
            Some(r) => {
                return r;
            },
            None => {
                running.apply();
                i += 1;
            },
        }
    }
}

} // verus!
