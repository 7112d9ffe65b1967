use crate::error::SimError;
use crate::render::{bar, bar_text};
use vstd::arithmetic::div_mod::{lemma_mod_self_0, lemma_small_mod};
use vstd::prelude::*;

verus! {

/// One move: the logical positions to flip.  Their order does not matter to
/// the table, and a position named twice is flipped twice.
#[derive(Debug, PartialEq)]
pub struct StrategyElement(pub Vec<usize>);

impl View for StrategyElement {
    type V = Seq<usize>;

    open spec fn view(&self) -> Seq<usize> {
        self.0@
    }
}

/// The mask of a move over `l` positions: bit `i` is set exactly when the
/// move names `i`.
pub open spec fn mask(indices: Seq<usize>, l: nat) -> Seq<bool> {
    Seq::new(l, |i: int| indices.contains(i as usize))
}

impl StrategyElement {
    /// The move's mask over `l` positions, as digits with `|` between them.
    pub fn pretty_print(&self, l: usize) -> (s: String)
        ensures
            s@ == bar_text(mask(self@, l as nat)),
    {
        let mut bits: Vec<bool> = Vec::new();
        let mut x: usize = 0;
        while x < l
            invariant
                x <= l,
                bits@ == mask(self@, l as nat).take(x as int),
            decreases l - x,
        {
            let mut found: bool = false;
            let mut k: usize = 0;
            while k < self.0.len()
                invariant
                    k <= self@.len(),
                    found == exists|j: int| 0 <= j < k && self@[j] == x,
                decreases self@.len() - k,
            {
                if self.0[k] == x {
                    found = true;
                }
                k += 1;
            }
            bits.push(found);
            assert(bits@ =~= mask(self@, l as nat).take(x + 1));
            x += 1;
        }
        assert(mask(self@, l as nat).take(l as int) == mask(self@, l as nat));
        bar(&bits)
    }
}

impl Clone for StrategyElement {
    /// A copy of the move: the same positions in the same order.
    fn clone(&self) -> (e: Self)
        ensures
            e@ == self@,
    {
        let mut indices: Vec<usize> = Vec::new();
        let mut i: usize = 0;
        while i < self.0.len()
            invariant
                i <= self@.len(),
                indices@ == self@.take(i as int),
            decreases self@.len() - i,
        {
            indices.push(self.0[i]);
            assert(indices@ =~= self@.take(i + 1));
            i += 1;
        }
        assert(self@.take(self@.len() as int) == self@);
        StrategyElement(indices)
    }
}

/// What a strategy is, mathematically: its moves in order, and the position
/// of the move that comes next.
pub struct StrategyView {
    pub cursor: nat,
    pub elements: Seq<Seq<usize>>,
}

impl StrategyView {
    /// A strategy has at least one move and its cursor names one of them.
    pub open spec fn wf(self) -> bool {
        self.elements.len() > 0 && self.cursor < self.elements.len()
    }

    /// The move that comes next.
    pub open spec fn current(self) -> Seq<usize> {
        self.elements[self.cursor as int]
    }

    /// The strategy after one move was taken: the cursor goes one on, and
    /// from the last move back to the first.
    pub open spec fn stepped(self) -> StrategyView {
        StrategyView {
            cursor: (self.cursor + 1) % self.elements.len(),
            elements: self.elements,
        }
    }

    /// The strategy after `k` moves were taken.
    pub open spec fn advanced(self, k: nat) -> StrategyView
        decreases k,
    {
        if k == 0 {
            self
        } else {
            self.advanced((k - 1) as nat).stepped()
        }
    }
}

/// The moves of a sequence of elements.
pub open spec fn moves(elements: Seq<StrategyElement>) -> Seq<Seq<usize>> {
    Seq::new(elements.len(), |i: int| elements[i]@)
}

/// A fixed sequence of moves, replayed without end.
#[derive(Debug)]
pub struct Strategy {
    idx: usize,
    elements: Vec<StrategyElement>,
}

impl View for Strategy {
    type V = StrategyView;

    closed spec fn view(&self) -> StrategyView {
        StrategyView { cursor: self.idx as nat, elements: moves(self.elements@) }
    }
}

impl Strategy {
    /// The invariant that `new` establishes and `get_next` keeps.
    pub open spec fn wf(&self) -> bool {
        self@.wf()
    }

    /// A strategy over the given moves, starting at the first.  An empty
    /// strategy is refused.
    pub fn new(elements: Vec<StrategyElement>) -> (r: Result<Self, SimError>)
        ensures
            elements@.len() == 0 <==> r is Err,
            r is Err ==> r == Err::<Self, SimError>(SimError::InvalidLength),
            r is Ok ==> r->Ok_0.wf() && r->Ok_0@ == (StrategyView {
                cursor: 0,
                elements: moves(elements@),
            }),
    {
        if elements.len() == 0 {
            return Err(SimError::InvalidLength);
        }
        Ok(Self { idx: 0, elements })
    }

    pub fn len(&self) -> (l: usize)
        ensures
            l == self@.elements.len(),
    {
        self.elements.len()
    }

    /// The move under the cursor, which `get_next` will hand out; the cursor
    /// stays.
    pub fn peek(&self) -> (e: &StrategyElement)
        requires
            self.wf(),
        ensures
            e@ == self@.current(),
    {
        &self.elements[self.idx]
    }

    /// Hands out a copy of the move under the cursor and moves the cursor on.
    pub fn get_next(&mut self) -> (e: StrategyElement)
        requires
            old(self).wf(),
        ensures
            final(self).wf(),
            e@ == old(self)@.current(),
            final(self)@ == old(self)@.stepped(),
    {
        let idx: usize = self.idx;
        let len: usize = self.elements.len();
        assert(idx < len);
        proof {
            if idx + 1 < len {
                lemma_small_mod((idx + 1) as nat, len as nat);
            } else {
                lemma_mod_self_0(len as int);
            }
        }
        self.idx = if idx + 1 == len {
            0
        } else {
            idx + 1
        };
        self.elements[idx].clone()
    }
}

} // verus!
