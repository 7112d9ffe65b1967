use crate::strategy::StrategyView;
use crate::table::TableView;
use vstd::arithmetic::div_mod::{
    lemma_add_mod_noop_right, lemma_fundamental_div_mod, lemma_mod_multiples_vanish,
    lemma_small_mod,
};
use vstd::prelude::*;

verus! {

/// Turning by `a` and then by `b` is turning by `a + b`.
pub proof fn lemma_rotate_compose(t: TableView, a: nat, b: nat)
    requires
        t.wf(),
    ensures
        t.rotated(a).rotated(b) == t.rotated(a + b),
{
    let l = t.cells.len() as int;
    let o = t.offset as int;
    lemma_add_mod_noop_right(b as int, o + a, l);
    assert(((o + a) % l + b) % l == (o + (a + b)) % l);
}

/// Turning by `n` and then by the table's length less `n` modulo the length
/// brings the table back to where it was.
pub proof fn lemma_rotate_round_trip(t: TableView, n: nat)
    requires
        t.wf(),
    ensures
        t.rotated(n).rotated((t.cells.len() - n % t.cells.len()) as nat) == t,
{
    let l = t.cells.len() as int;
    let o = t.offset as int;
    let m = n as int;
    let back = (l - m % l) as nat;
    lemma_rotate_compose(t, n, back);
    lemma_fundamental_div_mod(m, l);
    let turns = m / l + 1;
    assert(o + (m + back) == l * turns + o) by (nonlinear_arith)
        requires
            m == l * (m / l) + m % l,
            back == l - m % l,
            turns == m / l + 1,
    ;
    lemma_mod_multiples_vanish(turns, o, l);
    lemma_small_mod(t.offset, t.cells.len());
    assert((o + (m + back)) % l == o);
}

/// Turning the table changes no switch, so it changes neither the goal
/// predicate nor what is read at a position once the turn is added to it.
pub proof fn lemma_rotate_keeps_switches(t: TableView, k: nat, n: nat)
    requires
        t.wf(),
    ensures
        t.rotated(k).wf(),
        t.rotated(k).cells == t.cells,
        t.rotated(k).all_on() == t.all_on(),
        t.rotated(k).get(n) == t.get(k + n),
{
    let l = t.cells.len() as int;
    let o = t.offset as int;
    lemma_add_mod_noop_right(n as int, o + k, l);
    assert(((o + k) % l + n) % l == (o + (k + n)) % l);
}

/// Flipping one logical position twice in a row leaves the table as it was.
pub proof fn lemma_flip_twice(t: TableView, n: nat)
    requires
        t.wf(),
    ensures
        t.flipped(n).wf(),
        t.flipped(n).flipped(n) == t,
{
    assert(t.flipped(n).flipped(n).cells =~= t.cells);
}

/// Flips of two logical positions can be made in either order.
pub proof fn lemma_flips_commute(t: TableView, a: nat, b: nat)
    requires
        t.wf(),
    ensures
        t.flipped(a).flipped(b) == t.flipped(b).flipped(a),
{
    assert(t.flipped(a).flipped(b).cells =~= t.flipped(b).flipped(a).cells);
}

/// What a move does, switch by switch: the table keeps its offset and its
/// length, and a switch changes exactly when the move names its position an
/// odd number of times.
pub proof fn lemma_applied_by_parity(t: TableView, indices: Seq<usize>)
    requires
        t.wf(),
    ensures
        t.applied(indices).wf(),
        t.applied(indices).offset == t.offset,
        t.applied(indices).cells.len() == t.cells.len(),
        forall|p: int|
            0 <= p < t.cells.len() ==> #[trigger] t.applied(indices).cells[p] == (t.cells[p] != (
            t.hits(indices, p) % 2 == 1)),
    decreases indices.len(),
{
    if indices.len() > 0 {
        lemma_applied_by_parity(t, indices.drop_last());
    }
}

/// Taking one entry out of a move takes its position's count down by one
/// and leaves the other counts.
proof fn lemma_hits_remove(t: TableView, indices: Seq<usize>, j: int, p: int)
    requires
        0 <= j < indices.len(),
    ensures
        t.hits(indices, p) == t.hits(indices.remove(j), p) + if t.index(indices[j] as nat) == p {
            1nat
        } else {
            0nat
        },
    decreases indices.len(),
{
    if j == indices.len() - 1 {
        assert(indices.remove(j) =~= indices.drop_last());
    } else {
        lemma_hits_remove(t, indices.drop_last(), j, p);
        assert(indices.remove(j).drop_last() =~= indices.drop_last().remove(j));
        assert(indices.remove(j).last() == indices.last());
    }
}

/// Two moves with the same entries, in whatever order, name each position
/// equally often.
proof fn lemma_hits_rearranged(t: TableView, a: Seq<usize>, b: Seq<usize>, p: int)
    requires
        a.to_multiset() == b.to_multiset(),
    ensures
        t.hits(a, p) == t.hits(b, p),
    decreases a.len(),
{
    a.to_multiset_ensures();
    b.to_multiset_ensures();
    if a.len() > 0 {
        let x = a.last();
        let front = a.drop_last();
        front.to_multiset_ensures();
        assert(a =~= front.push(x));
        assert(a.to_multiset() =~= front.to_multiset().insert(x));
        assert(b.to_multiset().count(x) > 0);
        assert(b.contains(x));
        let j = choose|j: int| 0 <= j < b.len() && b[j] == x;
        let rest = b.remove(j);
        assert(rest.to_multiset() =~= front.to_multiset());
        lemma_hits_rearranged(t, front, rest, p);
        lemma_hits_remove(t, b, j, p);
    }
}

/// The order of a move's entries does not matter: two moves with the same
/// entries do the same to every table.
pub proof fn lemma_applied_rearranged(t: TableView, a: Seq<usize>, b: Seq<usize>)
    requires
        t.wf(),
        a.to_multiset() == b.to_multiset(),
    ensures
        t.applied(a) == t.applied(b),
{
    lemma_applied_by_parity(t, a);
    lemma_applied_by_parity(t, b);
    assert forall|p: int| 0 <= p < t.cells.len() implies t.applied(a).cells[p] == t.applied(
        b,
    ).cells[p] by {
        lemma_hits_rearranged(t, a, b, p);
    }
    assert(t.applied(a).cells =~= t.applied(b).cells);
}

/// Taking `k` moves keeps the moves and carries the cursor `k` places round
/// the cycle.
pub proof fn lemma_advanced(s: StrategyView, k: nat)
    requires
        s.wf(),
    ensures
        s.advanced(k).wf(),
        s.advanced(k).elements == s.elements,
        s.advanced(k).cursor == (s.cursor + k) % s.elements.len(),
        s.advanced(k).current() == s.elements[((s.cursor + k) % s.elements.len()) as int],
    decreases k,
{
    let l = s.elements.len() as int;
    if k == 0 {
        lemma_small_mod(s.cursor, s.elements.len());
    } else {
        lemma_advanced(s, (k - 1) as nat);
        let c = s.cursor as int;
        lemma_add_mod_noop_right(1, c + k - 1, l);
        assert(((c + (k - 1)) % l + 1) % l == (c + k) % l);
    }
}

/// A strategy is a cycle: after any number of whole rounds it stands where
/// it started, and the move taken at a step is the move taken that many
/// whole rounds later.
pub proof fn lemma_strategy_cycles(s: StrategyView, rounds: nat, step: nat)
    requires
        s.wf(),
    ensures
        s.advanced(rounds * s.elements.len()) == s,
        s.advanced(step + rounds * s.elements.len()).current() == s.advanced(step).current(),
        s.advanced(step + rounds * s.elements.len()).cursor == s.advanced(step).cursor,
{
    let l = s.elements.len() as int;
    let whole = rounds * s.elements.len();
    lemma_advanced(s, whole);
    lemma_advanced(s, step);
    lemma_advanced(s, step + whole);
    assert(whole == l * rounds) by (nonlinear_arith)
        requires
            whole == rounds * l,
    ;
    let c = s.cursor as int;
    lemma_mod_multiples_vanish(rounds as int, c, l);
    lemma_mod_multiples_vanish(rounds as int, c + step, l);
    lemma_small_mod(s.cursor, s.elements.len());
    assert((c + whole) % l == c);
    assert((c + (step + whole)) % l == (c + step) % l);
}

} // verus!
