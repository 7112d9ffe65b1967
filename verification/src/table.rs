use crate::entropy::random_below;
use crate::error::SimError;
use crate::render::{bar, bar_text};
use crate::strategy::{Strategy, StrategyElement};
use crate::switch::Switch;
use vstd::arithmetic::div_mod::{
    lemma_add_mod_noop_right, lemma_mod_add_multiples_vanish, lemma_small_mod,
};
use vstd::prelude::*;

verus! {

/// What a table is, mathematically: the states of its switches in physical
/// order, and the physical position that logical position 0 stands for.
pub struct TableView {
    pub offset: nat,
    pub cells: Seq<bool>,
}

impl TableView {
    /// A table has at least one switch and its offset names one of them.
    pub open spec fn wf(self) -> bool {
        self.cells.len() > 0 && self.offset < self.cells.len()
    }

    /// The physical position of logical position `n`.
    pub open spec fn index(self, n: nat) -> int {
        ((self.offset + n) % self.cells.len()) as int
    }

    /// The state read at logical position `n`.
    pub open spec fn get(self, n: nat) -> bool {
        self.cells[self.index(n)]
    }

    /// Every switch is on.
    pub open spec fn all_on(self) -> bool {
        forall|i: int| 0 <= i < self.cells.len() ==> self.cells[i]
    }

    /// The table with the switch at logical position `n` toggled.
    pub open spec fn flipped(self, n: nat) -> TableView {
        TableView { offset: self.offset, cells: self.cells.update(self.index(n), !self.get(n)) }
    }

    /// The table turned by `n` positions: the same switches, relabelled.
    pub open spec fn rotated(self, n: nat) -> TableView {
        TableView {
            offset: (self.offset + n) % self.cells.len(),
            cells: self.cells,
        }
    }

    /// The table after one flip for each entry of `indices`, in order.  An
    /// index that occurs twice is flipped twice.
    pub open spec fn applied(self, indices: Seq<usize>) -> TableView
        decreases indices.len(),
    {
        if indices.len() == 0 {
            self
        } else {
            self.applied(indices.drop_last()).flipped(indices.last() as nat)
        }
    }

    /// How many entries of `indices` name physical position `p`.
    pub open spec fn hits(self, indices: Seq<usize>, p: int) -> nat
        decreases indices.len(),
    {
        if indices.len() == 0 {
            0
        } else {
            let rest = self.hits(indices.drop_last(), p);
            if self.index(indices.last() as nat) == p {
                rest + 1
            } else {
                rest
            }
        }
    }
}

/// The states of a sequence of switches.
pub open spec fn states(switches: Seq<Switch>) -> Seq<bool> {
    Seq::new(switches.len(), |i: int| switches[i].state())
}

/// A circle of switches addressed through a rotation offset.
#[derive(Debug)]
pub struct RotatingTable {
    start_idx: usize,
    switches: Vec<Switch>,
}

impl View for RotatingTable {
    type V = TableView;

    closed spec fn view(&self) -> TableView {
        TableView { offset: self.start_idx as nat, cells: states(self.switches@) }
    }
}

impl RotatingTable {
    /// The invariant that `new` establishes and every method keeps.
    pub open spec fn wf(&self) -> bool {
        self@.wf()
    }

    /// A table over the given switches, not yet rotated.  An empty table is
    /// refused.
    pub fn new(switches: Vec<Switch>) -> (r: Result<Self, SimError>)
        ensures
            switches@.len() == 0 <==> r is Err,
            r is Err ==> r == Err::<Self, SimError>(SimError::InvalidLength),
            r is Ok ==> r->Ok_0.wf() && r->Ok_0@ == (TableView {
                offset: 0,
                cells: states(switches@),
            }),
    {
        if switches.len() == 0 {
            return Err(SimError::InvalidLength);
        }
        Ok(Self { start_idx: 0, switches })
    }

    pub fn len(&self) -> (l: usize)
        ensures
            l == self@.cells.len(),
    {
        self.switches.len()
    }

    /// Reads logical position `n`, which may be any number: it wraps round
    /// the table.
    pub fn get(&self, n: usize) -> (b: bool)
        requires
            self.wf(),
        ensures
            b == self@.get(n as nat),
    {
        let idx: usize = self.get_index(n);
        self.switches[idx].get_state()
    }

    /// Whether every switch is on, wherever the table has been turned to.
    pub fn is_on(&self) -> (b: bool)
        ensures
            b == self@.all_on(),
    {
        let mut i: usize = 0;
        while i < self.switches.len()
            invariant
                i <= self.switches.len(),
                forall|j: int| 0 <= j < i ==> self@.cells[j],
            decreases self.switches.len() - i,
        {
            if !self.switches[i].get_state() {
                assert(!self@.cells[i as int]);
                return false;
            }
            i += 1;
        }
        true
    }

    /// Toggles the switch at logical position `n`.
    pub fn flip(&mut self, n: usize)
        requires
            old(self).wf(),
        ensures
            final(self).wf(),
            final(self)@ == old(self)@.flipped(n as nat),
    {
        let idx: usize = self.get_index(n);
        let mut switch: Switch = self.switches[idx];
        switch.flip();
        self.switches.set(idx, switch);
        assert(self@.cells =~= old(self)@.flipped(n as nat).cells);
    }

    /// Turns the table by `n` positions.  No switch changes.
    pub fn rotate(&mut self, n: usize)
        requires
            old(self).wf(),
        ensures
            final(self).wf(),
            final(self)@ == old(self)@.rotated(n as nat),
            final(self)@.all_on() == old(self)@.all_on(),
    {
        self.start_idx = self.get_index(n);
    }

    /// Turns the table by a random number of positions below its length.
    /// Whatever that number is, no switch changes.
    pub fn rotate_randomly(&mut self)
        requires
            old(self).wf(),
        ensures
            final(self).wf(),
            exists|n: nat|
                n < old(self)@.cells.len() && final(self)@ == #[trigger] old(self)@.rotated(n),
            final(self)@.cells == old(self)@.cells,
    {
        let n: usize = random_below(self.len());
        self.rotate(n);
        assert(self@ == old(self)@.rotated(n as nat));
    }

    /// Flips what the strategy's next move names.  The strategy is consumed.
    pub fn apply_strategy(&mut self, strategy: Strategy)
        requires
            old(self).wf(),
            strategy.wf(),
        ensures
            final(self).wf(),
            final(self)@ == old(self)@.applied(strategy@.current()),
    {
        let mut strategy = strategy;
        let element: StrategyElement = strategy.get_next();
        self.apply_strategy_element(element);
    }

    /// The switches in physical order, as digits with `|` between them.
    pub fn pretty_print(&self) -> (s: String)
        ensures
            s@ == bar_text(self@.cells),
    {
        let mut bits: Vec<bool> = Vec::new();
        let mut i: usize = 0;
        while i < self.switches.len()
            invariant
                i <= self.switches.len(),
                bits@ == self@.cells.take(i as int),
            decreases self.switches.len() - i,
        {
            bits.push(self.switches[i].get_state());
            assert(bits@ =~= self@.cells.take(i + 1));
            i += 1;
        }
        assert(self@.cells.take(self.switches.len() as int) == self@.cells);
        bar(&bits)
    }

    /// Flips each logical position that the move names, in the move's order.
    pub fn apply_strategy_element(&mut self, strategy_element: StrategyElement)
        requires
            old(self).wf(),
        ensures
            final(self).wf(),
            final(self)@ == old(self)@.applied(strategy_element@),
    {
        let mut i: usize = 0;
        while i < strategy_element.0.len()
            invariant
                i <= strategy_element@.len(),
                self.wf(),
                self@ == old(self)@.applied(strategy_element@.take(i as int)),
            decreases strategy_element@.len() - i,
        {
            assert(strategy_element@.take(i + 1).drop_last() == strategy_element@.take(i as int));
            self.flip(strategy_element.0[i]);
            i += 1;
        }
        assert(strategy_element@.take(strategy_element@.len() as int) == strategy_element@);
    }

    /// The physical position of logical position `n`, computed without
    /// leaving the machine's integers.
    fn get_index(&self, n: usize) -> (idx: usize)
        requires
            self.wf(),
        ensures
            idx == self@.index(n as nat),
            idx < self@.cells.len(),
    {
        let len: usize = self.switches.len();
        let step: usize = n % len;
        let room: usize = len - self.start_idx;
        proof {
            lemma_add_mod_noop_right(self.start_idx as int, n as int, len as int);
            if step < room {
                lemma_small_mod((self.start_idx + step) as nat, len as nat);
            } else {
                lemma_mod_add_multiples_vanish(self.start_idx + step - len, len as int);
                lemma_small_mod((self.start_idx + step - len) as nat, len as nat);
            }
        }
        if step < room {
            self.start_idx + step
        } else {
            step - room
        }
    }
}

} // verus!
