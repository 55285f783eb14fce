//! Validators and token holders, and the per-round transformations of
//! validator state: delegation aggregation, the validation reward, and
//! the inactivity penalty.

use vstd::prelude::*;

verus! {

/// A block producer: owns stake, receives delegated stake recomputed
/// fresh each round, and carries a reputation that rises on successful
/// validation and falls on inactivity.
///
/// Reputation is kept in tenths of a unit, so that all bookkeeping stays
/// in integers: a fresh validator starts at 10 (one whole unit), each
/// validated block adds 1 (a tenth), and each inactivity penalty removes
/// 1, floored at 0. Selection weights are thereby scaled uniformly by
/// ten, which leaves every validator's relative odds unchanged.
pub struct Validator {
    pub id: String,
    pub stake: u64,
    pub delegated_stake: u64,
    pub rotation_period: u64,
    pub last_block_validated: u64,
    pub reputation: u64,
}

/// A stake owner that may delegate its stake to one validator for
/// selection-weighting purposes, without transferring ownership.
pub struct TokenHolder {
    pub id: String,
    pub stake: u64,
    pub delegated_to: Option<String>,
}

/// Clamps a non-negative mathematical integer into the `u64` range.
pub open spec fn sat64(x: int) -> int {
    if x > u64::MAX as int {
        u64::MAX as int
    } else {
        x
    }
}

/// The selection weight of a validator: total backing stake (own plus
/// delegated) times reputation. Reputation is stored with a floor of
/// zero, so the weight is never negative.
pub open spec fn weight_of(v: Validator) -> int {
    (v.stake + v.delegated_stake) * v.reputation
}

/// The weight as the selection machinery materializes it: clamped into
/// one `u64`.
pub open spec fn capped_weight(v: Validator) -> int {
    sat64(weight_of(v))
}

/// A weight is never negative, and its clamped form fits in `u64`.
pub proof fn lemma_weight_nonneg(v: Validator)
    ensures
        weight_of(v) >= 0,
        0 <= capped_weight(v) <= u64::MAX as int,
{
    let base = v.stake + v.delegated_stake;
    let rep = v.reputation as int;
    assert(base * rep >= 0) by (nonlinear_arith)
        requires
            base >= 0,
            rep >= 0,
    ;
}

/// What one holder contributes to the delegated stake of the validator
/// named `id`: its stake if it delegates there, otherwise nothing.
pub open spec fn holder_contribution(h: TokenHolder, id: Seq<char>) -> int {
    match h.delegated_to {
        Some(target) => if target@ == id {
            h.stake as int
        } else {
            0int
        },
        None => 0int,
    }
}

/// The stake delegated to the validator named `id`: the sum, over all
/// token holders, of the stake of those that delegate to it.
pub open spec fn delegated_sum(holders: Seq<TokenHolder>, id: Seq<char>) -> int
    decreases holders.len(),
{
    if holders.len() == 0 {
        0
    } else {
        delegated_sum(holders.drop_last(), id) + holder_contribution(holders.last(), id)
    }
}

/// A delegated-stake sum is never negative.
pub proof fn lemma_delegated_sum_nonneg(holders: Seq<TokenHolder>, id: Seq<char>)
    ensures
        delegated_sum(holders, id) >= 0,
    decreases holders.len(),
{
    if holders.len() > 0 {
        lemma_delegated_sum_nonneg(holders.drop_last(), id);
    }
}

/// The registry after delegation aggregation: every validator's
/// delegated stake is replaced — not accumulated — by the fresh sum over
/// the holders, clamped into `u64`; all other fields are untouched.
pub open spec fn aggregated(vals: Seq<Validator>, holders: Seq<TokenHolder>) -> Seq<Validator> {
    Seq::new(
        vals.len(),
        |i: int| Validator { delegated_stake: sat64(delegated_sum(holders, vals[i].id@)) as u64, ..vals[i] },
    )
}

/// Aggregation is full replacement, so repeating it changes nothing:
/// the sums depend only on the holders and on identities, which
/// aggregation never touches.
pub proof fn lemma_aggregated_idempotent(vals: Seq<Validator>, holders: Seq<TokenHolder>)
    ensures
        aggregated(aggregated(vals, holders), holders) == aggregated(vals, holders),
{
    let once = aggregated(vals, holders);
    let twice = aggregated(once, holders);
    assert forall|i: int| 0 <= i < twice.len() implies twice[i] == once[i] by {
        assert(once[i].id == vals[i].id);
    }
    assert(twice =~= once);
}

/// A validator right after successfully validating a block in `period`:
/// a fixed stake reward of 10 units, reputation up one tenth, and the
/// inactivity clock reset to `period`.
pub open spec fn rewarded(v: Validator, period: u64) -> Validator {
    Validator {
        stake: sat64(v.stake + 10) as u64,
        last_block_validated: period,
        reputation: sat64(v.reputation + 1) as u64,
        ..v
    }
}

/// The inactivity penalty: one unit of stake and one tenth of
/// reputation, each saturating at zero.
pub open spec fn penalized(v: Validator) -> Validator {
    Validator {
        stake: if v.stake > 0 {
            (v.stake - 1) as u64
        } else {
            0u64
        },
        reputation: if v.reputation > 0 {
            (v.reputation - 1) as u64
        } else {
            0u64
        },
        ..v
    }
}

/// One validator's share of a rotation at period `period`: penalized
/// exactly when it has gone at least `rotation_period` rounds without
/// validating, untouched otherwise. `last_block_validated` itself is
/// never changed by rotation.
pub open spec fn rotate_step(v: Validator, period: u64) -> Validator {
    if period - v.last_block_validated >= v.rotation_period {
        penalized(v)
    } else {
        v
    }
}

/// The registry after a rotation at period `period`.
pub open spec fn rotated(vals: Seq<Validator>, period: u64) -> Seq<Validator> {
    vals.map(|i: int, v: Validator| rotate_step(v, period))
}

/// No two validators share an identity.
pub open spec fn unique_validator_ids(vals: Seq<Validator>) -> bool {
    forall|i: int, j: int| 0 <= i < j < vals.len() ==> vals[i].id@ != vals[j].id@
}

/// No two token holders share an identity.
pub open spec fn unique_holder_ids(holders: Seq<TokenHolder>) -> bool {
    forall|i: int, j: int| 0 <= i < j < holders.len() ==> holders[i].id@ != holders[j].id@
}

/// Every validator's inactivity clock lies at or before `period`.
pub open spec fn clocks_within(vals: Seq<Validator>, period: u64) -> bool {
    forall|i: int| 0 <= i < vals.len() ==> vals[i].last_block_validated <= period
}

/// Addition on `u64` that saturates at the top of the range.
pub fn sat_add_u64(a: u64, b: u64) -> (r: u64)
    ensures
        r as int == sat64(a + b),
{
    if a > u64::MAX - b {
        u64::MAX
    } else {
        a + b
    }
}

/// Summing one more holder commutes with clamping: clamping the partial
/// sum first loses nothing, since stakes are non-negative.
pub proof fn lemma_sat_fold(s: int, x: int)
    requires
        s >= 0,
        0 <= x <= u64::MAX,
    ensures
        sat64(sat64(s) + x) == sat64(s + x),
{
}

/// Extending the summed prefix by one holder adds exactly that holder's
/// contribution.
pub proof fn lemma_delegated_sum_take_step(holders: Seq<TokenHolder>, id: Seq<char>, k: int)
    requires
        0 <= k < holders.len(),
    ensures
        delegated_sum(holders.take(k + 1), id) == delegated_sum(holders.take(k), id)
            + holder_contribution(holders[k], id),
{
    assert(holders.take(k + 1).drop_last() =~= holders.take(k));
    assert(holders.take(k + 1).last() == holders[k]);
}

/// The delegated-stake sum for the validator named `id`, clamped into
/// `u64`.
pub fn delegated_total(holders: &Vec<TokenHolder>, id: &String) -> (r: u64)
    ensures
        r as int == sat64(delegated_sum(holders@, id@)),
{
    let mut total: u64 = 0;
    let mut k: usize = 0;
    proof {
        assert(holders@.take(0int) =~= Seq::<TokenHolder>::empty());
    }
    while k < holders.len()
        invariant
            0 <= k <= holders@.len(),
            total as int == sat64(delegated_sum(holders@.take(k as int), id@)),
        decreases holders@.len() - k,
    {
        proof {
            lemma_delegated_sum_take_step(holders@, id@, k as int);
            lemma_delegated_sum_nonneg(holders@.take(k as int), id@);
        }
        match &holders[k].delegated_to {
            Some(target) => {
                if *target == *id {
                    proof {
                        lemma_sat_fold(
                            delegated_sum(holders@.take(k as int), id@),
                            holders@[k as int].stake as int,
                        );
                    }
                    total = sat_add_u64(total, holders[k].stake);
                }
            },
            None => {},
        }
        k = k + 1;
    }
    proof {
        assert(holders@.take(holders@.len() as int) =~= holders@);
    }
    total
}

} // verus!
