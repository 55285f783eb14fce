//! Weighted validator selection.
//!
//! Each validator is given a weight — backing stake times reputation —
//! and a uniformly random ticket below the total weight picks the
//! validator whose weight interval contains it, so that each validator
//! is chosen with probability proportional to its weight. Only the draw
//! of the ticket itself is external; turning a ticket into a choice is
//! verified.

use vstd::prelude::*;
use vstd::pervasive::unreached;
use crate::participants::{capped_weight, Validator};

verus! {

/// The combined weight of a sequence of materialized weights.
pub open spec fn total_weight(ws: Seq<u64>) -> int
    decreases ws.len(),
{
    if ws.len() == 0 {
        0
    } else {
        total_weight(ws.drop_last()) + ws.last()
    }
}

/// The weights, in registry order, that selection draws over.
pub open spec fn weights_of(vals: Seq<Validator>) -> Seq<u64> {
    Seq::new(vals.len(), |i: int| capped_weight(vals[i]) as u64)
}

/// A total of `u64` weights is non-negative and at most one `u64`
/// maximum per entry.
pub proof fn lemma_total_weight_bounds(ws: Seq<u64>)
    ensures
        0 <= total_weight(ws),
        total_weight(ws) <= ws.len() * (u64::MAX as int),
    decreases ws.len(),
{
    if ws.len() > 0 {
        lemma_total_weight_bounds(ws.drop_last());
    }
}

/// Prefix totals grow with the prefix.
pub proof fn lemma_prefix_monotone(ws: Seq<u64>, a: int, b: int)
    requires
        0 <= a <= b <= ws.len(),
    ensures
        total_weight(ws.take(a)) <= total_weight(ws.take(b)),
    decreases b - a,
{
    if a < b {
        lemma_prefix_monotone(ws, a, b - 1);
        lemma_total_take_step(ws, b - 1);
    }
}

/// Extending the totalled prefix by one entry adds exactly that entry.
pub proof fn lemma_total_take_step(ws: Seq<u64>, k: int)
    requires
        0 <= k < ws.len(),
    ensures
        total_weight(ws.take(k + 1)) == total_weight(ws.take(k)) + ws[k],
{
    assert(ws.take(k + 1).drop_last() =~= ws.take(k));
    assert(ws.take(k + 1).last() == ws[k]);
}

/// Relies on rand::random_range on the thread-local generator: the
/// sample always lies in the half-open range it is given, here
/// `0 .. bound`.
#[verifier::external_body]
pub(crate) fn random_below(bound: u128) -> (r: u128)
    requires
        bound > 0,
    ensures
        r < bound,
{
    rand::random_range(0..bound)
}

/// Materializes one validator's selection weight, clamped into `u64`.
pub fn weight_value(v: &Validator) -> (w: u64)
    ensures
        w as int == capped_weight(*v),
{
    let base: u128 = v.stake as u128 + v.delegated_stake as u128;
    let rep: u128 = v.reputation as u128;
    if rep == 0 {
        0
    } else if base > u64::MAX as u128 {
        proof {
            assert(base * rep >= base * 1) by (nonlinear_arith)
                requires
                    rep >= 1,
                    base >= 0,
            ;
        }
        u64::MAX
    } else {
        proof {
            assert(base * rep <= (u64::MAX as int) * (u64::MAX as int)) by (nonlinear_arith)
                requires
                    0 <= base <= u64::MAX as int,
                    0 <= rep <= u64::MAX as int,
            ;
        }
        let product: u128 = base * rep;
        if product > u64::MAX as u128 {
            u64::MAX
        } else {
            product as u64
        }
    }
}

/// Materializes the weights of the whole registry, in registry order.
pub fn weights_vec(vals: &Vec<Validator>) -> (ws: Vec<u64>)
    ensures
        ws@ == weights_of(vals@),
{
    let mut ws: Vec<u64> = Vec::new();
    let mut k: usize = 0;
    while k < vals.len()
        invariant
            0 <= k <= vals@.len(),
            ws@.len() == k,
            forall|i: int| 0 <= i < k ==> ws@[i] == capped_weight(vals@[i]) as u64,
        decreases vals@.len() - k,
    {
        let w = weight_value(&vals[k]);
        ws.push(w);
        k = k + 1;
    }
    proof {
        assert(ws@ =~= weights_of(vals@));
    }
    ws
}

/// The combined weight of a materialized weight vector.
pub fn total_of(ws: &Vec<u64>) -> (t: u128)
    ensures
        t as int == total_weight(ws@),
{
    let mut t: u128 = 0;
    let mut k: usize = 0;
    proof {
        assert(ws@.take(0int) =~= Seq::<u64>::empty());
    }
    while k < ws.len()
        invariant
            0 <= k <= ws@.len(),
            t as int == total_weight(ws@.take(k as int)),
        decreases ws@.len() - k,
    {
        proof {
            lemma_total_take_step(ws@, k as int);
            lemma_total_weight_bounds(ws@.take(k as int));
        }
        t = t + ws[k] as u128;
        k = k + 1;
    }
    proof {
        assert(ws@.take(ws@.len() as int) =~= ws@);
    }
    t
}

/// Turns a ticket below the total weight into the index whose weight
/// interval contains the ticket; that index always carries positive
/// weight, so a zero-weight validator is never chosen.
pub fn pick_by_weight(ws: &Vec<u64>, ticket: u128) -> (i: usize)
    requires
        (ticket as int) < total_weight(ws@),
    ensures
        (i as int) < ws@.len(),
        ws@[i as int] > 0,
        total_weight(ws@.take(i as int)) <= ticket as int,
        (ticket as int) < total_weight(ws@.take(i as int)) + ws@[i as int],
{
    let mut acc: u128 = 0;
    let mut k: usize = 0;
    proof {
        assert(ws@.take(0int) =~= Seq::<u64>::empty());
    }
    while k < ws.len()
        invariant
            0 <= k <= ws@.len(),
            acc as int == total_weight(ws@.take(k as int)),
            acc <= ticket,
            (ticket as int) < total_weight(ws@),
        decreases ws@.len() - k,
    {
        proof {
            lemma_total_take_step(ws@, k as int);
            lemma_total_weight_bounds(ws@.take(k as int));
        }
        if ticket < acc + ws[k] as u128 {
            return k;
        }
        acc = acc + ws[k] as u128;
        k = k + 1;
    }
    proof {
        assert(ws@.take(ws@.len() as int) =~= ws@);
    }
    unreached()
}

} // verus!
