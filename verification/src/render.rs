use vstd::prelude::*;
use vstd::string::StringExecFns;

verus! {

/// The character that shows one bit.
pub open spec fn digit(bit: bool) -> char {
    if bit {
        '1'
    } else {
        '0'
    }
}

/// The text of a row of bits: one digit for each bit, in order, with a `|`
/// between neighbours and none at either end.
pub open spec fn bar_text(bits: Seq<bool>) -> Seq<char>
    decreases bits.len(),
{
    if bits.len() == 0 {
        Seq::empty()
    } else if bits.len() == 1 {
        seq![digit(bits[0])]
    } else {
        bar_text(bits.drop_last()).push('|').push(digit(bits.last()))
    }
}

/// The text of a row, position by position: it has a digit for each bit and
/// a separator between each two, the digits stand at the even positions in
/// the order of the bits, and the separators at the odd ones.
pub proof fn lemma_bar_text_chars(bits: Seq<bool>)
    ensures
        bar_text(bits).len() == if bits.len() == 0 {
            0
        } else {
            2 * bits.len() - 1
        },
        forall|j: int|
            0 <= j < bar_text(bits).len() ==> #[trigger] bar_text(bits)[j] == if j % 2 == 0 {
                digit(bits[j / 2])
            } else {
                '|'
            },
    decreases bits.len(),
{
    if bits.len() > 1 {
        let front = bits.drop_last();
        lemma_bar_text_chars(front);
        assert forall|j: int| 0 <= j < bar_text(bits).len() implies #[trigger] bar_text(bits)[j]
            == if j % 2 == 0 {
            digit(bits[j / 2])
        } else {
            '|'
        } by {
            if j < bar_text(front).len() {
                assert(bar_text(bits)[j] == bar_text(front)[j]);
                assert(front[j / 2] == bits[j / 2]);
            }
        }
    }
}

/// Renders a row of bits as text.
pub fn bar(bits: &Vec<bool>) -> (s: String)
    ensures
        s@ == bar_text(bits@),
{
    let mut out = String::new();
    let mut i: usize = 0;
    while i < bits.len()
        invariant
            i <= bits.len(),
            out@ == bar_text(bits@.take(i as int)),
        decreases bits.len() - i,
    {
        proof {
            reveal_strlit("|");
            reveal_strlit("0");
            reveal_strlit("1");
            assert(bits@.take(i + 1).drop_last() == bits@.take(i as int));
            assert("|"@ =~= seq!['|']);
            assert("0"@ =~= seq!['0']);
            assert("1"@ =~= seq!['1']);
        }
        let ghost before = out@;
        if i > 0 {
            out.append("|");
            assert(out@ =~= before.push('|'));
        }
        let ghost mid = out@;
        if bits[i] {
            out.append("1");
        } else {
            out.append("0");
        }
        assert(out@ =~= mid.push(digit(bits@[i as int])));
        i += 1;
    }
    proof {
        assert(bits@.take(bits.len() as int) == bits@);
    }
    out
}

} // verus!
