//! Fixed-point probability arithmetic. A probability is a number of
//! millionths of the unit mass, so a whole assignment is validated by an
//! exact integer sum instead of an approximate one.

use vstd::prelude::*;

verus! {

/// The unit probability mass, in millionths.
pub const PROB_ONE: u64 = 1000000;

/// The tolerance around the unit mass within which the sum of a probability
/// assignment is accepted, in millionths.
pub const PROB_TOL: u64 = 5000;

/// The sum of a sequence of probabilities, in millionths.
pub open spec fn sum_seq(s: Seq<u64>) -> int
    decreases s.len(),
{
    if s.len() == 0 {
        0
    } else {
        sum_seq(s.drop_last()) + s.last()
    }
}

/// Appending one value adds it to the sum.
pub proof fn lemma_sum_push(s: Seq<u64>, x: u64)
    ensures
        sum_seq(s.push(x)) == sum_seq(s) + x,
{
    assert(s.push(x).drop_last() =~= s);
}

/// Computes the exact sum of a probability vector, in millionths.
pub fn sum_probs(values: &Vec<u64>) -> (r: u128)
    ensures
        r as int == sum_seq(values@),
{
    let mut acc: u128 = 0;
    let mut i: usize = 0;
    proof {
        assert(values@.subrange(0, 0) =~= Seq::<u64>::empty());
    }
    while i < values.len()
        invariant
            i <= values@.len(),
            acc as int == sum_seq(values@.subrange(0, i as int)),
            acc as int <= (i as int) * (u64::MAX as int),
        decreases values@.len() - i,
    {
        proof {
            lemma_sum_push(values@.subrange(0, i as int), values@[i as int]);
            assert(values@.subrange(0, i + 1) =~= values@.subrange(0, i as int).push(
                values@[i as int],
            ));
            assert((i as int) * (u64::MAX as int) + (u64::MAX as int) == (i as int + 1) * (
            u64::MAX as int)) by (nonlinear_arith);
            assert((i as int + 1) * (u64::MAX as int) <= 0x1_0000_0000_0000_0000 * (
            u64::MAX as int)) by (nonlinear_arith)
                requires
                    0 <= i as int + 1 <= 0x1_0000_0000_0000_0000,
            ;
        }
        acc = acc + values[i] as u128;
        i = i + 1;
    }
    proof {
        assert(values@.subrange(0, values@.len() as int) =~= values@);
    }
    acc
}

} // verus!
