use crate::strategy::{Strategy, StrategyElement, StrategyView};
use crate::table::{RotatingTable, TableView};
use vstd::prelude::*;

verus! {

/// What an applier is, mathematically: a table and a strategy.
pub struct ApplierView {
    pub table: TableView,
    pub strategy: StrategyView,
}

impl ApplierView {
    pub open spec fn wf(self) -> bool {
        self.table.wf() && self.strategy.wf()
    }

    /// The goal: every switch of the table is on.
    pub open spec fn solved(self) -> bool {
        self.table.all_on()
    }

    /// One transition: the strategy's next move is applied to the table and
    /// the strategy moves on.
    pub open spec fn stepped(self) -> ApplierView {
        ApplierView {
            table: self.table.applied(self.strategy.current()),
            strategy: self.strategy.stepped(),
        }
    }

    /// The state after `k` transitions.
    pub open spec fn after(self, k: nat) -> ApplierView
        decreases k,
    {
        if k == 0 {
            self
        } else {
            self.after((k - 1) as nat).stepped()
        }
    }
}

/// One table bound to one strategy for the length of a trial.
#[derive(Debug)]
pub struct StrategyApplier {
    table: RotatingTable,
    strategy: Strategy,
}

impl View for StrategyApplier {
    type V = ApplierView;

    closed spec fn view(&self) -> ApplierView {
        ApplierView { table: self.table@, strategy: self.strategy@ }
    }
}

impl StrategyApplier {
    /// The invariant that `new` establishes and `apply` keeps.
    pub open spec fn wf(&self) -> bool {
        self@.wf()
    }

    pub fn new(table: RotatingTable, strategy: Strategy) -> (a: Self)
        ensures
            a@ == (ApplierView { table: table@, strategy: strategy@ }),
    {
        Self { table, strategy }
    }

    /// The table as it stands.
    pub fn table(&self) -> (t: &RotatingTable)
        ensures
            t@ == self@.table,
    {
        &self.table
    }

    /// The strategy as it stands; its next move is the one that `apply`
    /// will make.
    pub fn strategy(&self) -> (s: &Strategy)
        ensures
            s@ == self@.strategy,
    {
        &self.strategy
    }

    /// Whether the table is solved.
    pub fn is_on(&self) -> (b: bool)
        ensures
            b == self@.solved(),
    {
        self.table.is_on()
    }

    /// Makes one transition.  It runs on a solved table as on any other.
    pub fn apply(&mut self)
        requires
            old(self).wf(),
        ensures
            final(self).wf(),
            final(self)@ == old(self)@.stepped(),
    {
        let element: StrategyElement = self.strategy.get_next();
        self.table.apply_strategy_element(element);
    }
}

} // verus!
