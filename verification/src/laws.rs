//! The global guarantees of the consensus engine, stated on their own
//! so a reader can see them without digging through method contracts.

use vstd::prelude::*;
use crate::block::Block;
use crate::engine::Blockchain;
use crate::hashing::digest_of;
use crate::participants::{
    aggregated, capped_weight, delegated_sum, sat64, TokenHolder, Validator,
};
use crate::selection::{lemma_prefix_monotone, lemma_total_take_step, total_weight};

verus! {

/// Chain linkage: in any well-formed consensus state, every block names
/// its predecessor's digest, and the first block names the empty
/// string. Every operation of `Blockchain` preserves well-formedness,
/// so this holds of every chain the engine ever produces.
pub proof fn law_chain_linkage(bc: Blockchain)
    requires
        bc.wf(),
    ensures
        bc.blocks@.len() > 0 ==> bc.blocks@[0].previous_digest@ == Seq::<char>::empty(),
        forall|i: int|
            0 < i < bc.blocks@.len() ==> bc.blocks@[i].previous_digest@ == bc.blocks@[i
                - 1].digest@,
{
}

/// Hash determinism: two blocks whose digests are content digests of
/// their fields — as every block built by `Block::new` is — carry equal
/// digests whenever their identifying fields coincide.
pub proof fn law_hash_determinism(a: Block, b: Block)
    requires
        a.digest@ == digest_of(a.id, a.data@, a.validator_id@, a.timestamp, a.previous_digest@),
        b.digest@ == digest_of(b.id, b.data@, b.validator_id@, b.timestamp, b.previous_digest@),
        a.id == b.id,
        a.data@ == b.data@,
        a.validator_id@ == b.validator_id@,
        a.timestamp == b.timestamp,
        a.previous_digest@ == b.previous_digest@,
    ensures
        a.digest@ == b.digest@,
{
}

/// Delegation correctness: aggregation gives every validator exactly
/// the sum of the stakes delegated to its identity — full replacement,
/// whatever delegated stake it held before — and touches nothing else
/// about it. Together with `lemma_aggregated_idempotent` this rules out
/// accumulation across rounds.
pub proof fn law_delegation_correctness(vals: Seq<Validator>, holders: Seq<TokenHolder>)
    ensures
        aggregated(vals, holders).len() == vals.len(),
        forall|i: int|
            0 <= i < vals.len() ==> #[trigger] aggregated(vals, holders)[i].delegated_stake as int
                == sat64(delegated_sum(holders, vals[i].id@)),
        forall|i: int|
            0 <= i < vals.len() ==> (#[trigger] aggregated(vals, holders)[i]).id == vals[i].id
                && aggregated(vals, holders)[i].stake == vals[i].stake && aggregated(
                vals,
                holders,
            )[i].rotation_period == vals[i].rotation_period && aggregated(
                vals,
                holders,
            )[i].last_block_validated == vals[i].last_block_validated && aggregated(
                vals,
                holders,
            )[i].reputation == vals[i].reputation,
{
    assert forall|i: int|
        0 <= i < vals.len() implies #[trigger] aggregated(
        vals,
        holders,
    )[i].delegated_stake as int == sat64(delegated_sum(holders, vals[i].id@)) by {
        crate::participants::lemma_delegated_sum_nonneg(holders, vals[i].id@);
    }
}

/// Selection weight monotonicity: raising a validator's stake — in
/// particular doubling it — with delegation and reputation unchanged
/// never lowers its selection weight, and so never lowers the share of
/// winning tickets `pick_by_weight` assigns to it.
pub proof fn law_weight_monotone_in_stake(v1: Validator, v2: Validator)
    requires
        v2.stake >= v1.stake,
        v2.delegated_stake == v1.delegated_stake,
        v2.reputation == v1.reputation,
    ensures
        capped_weight(v2) >= capped_weight(v1),
{
    let base1 = v1.stake + v1.delegated_stake;
    let base2 = v2.stake + v2.delegated_stake;
    let rep = v1.reputation as int;
    assert(base2 * rep >= base1 * rep) by (nonlinear_arith)
        requires
            base2 >= base1,
            rep >= 0,
    ;
}

/// Each weight interval selects one index only: a ticket that falls in
/// validator `i`'s interval falls in nobody else's. With
/// `pick_by_weight`'s contract this makes a validator's share of the
/// winning tickets exactly its weight, so selection frequency under a
/// uniform draw is proportional to weight.
pub proof fn law_ticket_interval_unique(ws: Seq<u64>, ticket: int, i: int, j: int)
    requires
        0 <= i < ws.len(),
        0 <= j < ws.len(),
        total_weight(ws.take(i)) <= ticket < total_weight(ws.take(i)) + ws[i],
        total_weight(ws.take(j)) <= ticket < total_weight(ws.take(j)) + ws[j],
    ensures
        i == j,
{
    if i < j {
        lemma_total_take_step(ws, i);
        lemma_prefix_monotone(ws, i + 1, j);
        assert(total_weight(ws.take(j)) >= total_weight(ws.take(i)) + ws[i]);
    } else if j < i {
        lemma_total_take_step(ws, j);
        lemma_prefix_monotone(ws, j + 1, i);
        assert(total_weight(ws.take(i)) >= total_weight(ws.take(j)) + ws[j]);
    }
}

} // verus!
