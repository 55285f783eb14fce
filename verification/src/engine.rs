//! The consensus engine: registries, the hash-linked chain, and the
//! round logic — delegation aggregation, weighted selection, block
//! construction, validation and append, the finality scan, and the
//! rotation penalty.

use vstd::prelude::*;
use crate::block::{block_eq, chain_linked, count_id, same_block, Block};
use crate::hashing::digest_of;
use crate::participants::{
    aggregated, capped_weight, clocks_within, delegated_sum, delegated_total,
    lemma_aggregated_idempotent, lemma_weight_nonneg, penalized, rewarded, rotate_step, rotated,
    sat64, sat_add_u64, unique_holder_ids, unique_validator_ids, Validator, TokenHolder,
};
use crate::security::SecurityLedger;
use crate::selection::{
    lemma_total_weight_bounds, pick_by_weight, random_below, total_of, total_weight, weights_of,
    weights_vec,
};

verus! {

/// Everything that can go wrong in a round. All of these are
/// recoverable: a failing round appends nothing but still rotates and
/// advances the period.
///
/// Registration is an upsert here — re-registering an identity resets
/// its record rather than failing — so no duplicate-registration error
/// exists.
#[derive(Clone, Copy, Debug, PartialEq, Eq, Structural)]
pub enum ConsensusError {
    /// Selection found no validator with positive weight.
    NoEligibleValidator,
    /// A block named a validator that is not registered.
    UnknownValidator,
    /// A block's previous-digest did not match the chain tip.
    ChainLinkError,
}

/// What one round reports back to the driver: the appended block if one
/// was produced, the validators whose recent blocks reached finality,
/// and the error that stopped the append step, if any.
pub struct RoundOutcome {
    pub appended: Option<Block>,
    pub finality: Vec<String>,
    pub error: Option<ConsensusError>,
}

/// The whole consensus state: the chain, candidate blocks awaiting
/// validation, both registries, the round counter, the finality window
/// size, and the reserved security ledger.
pub struct Blockchain {
    pub blocks: Vec<Block>,
    pub pending_blocks: Vec<Block>,
    pub validators: Vec<Validator>,
    pub token_holders: Vec<TokenHolder>,
    pub current_period: u64,
    pub finality_threshold: u64,
    pub security: SecurityLedger,
}

/// Whether some registered validator carries the identity `id`.
pub open spec fn has_validator(vals: Seq<Validator>, id: Seq<char>) -> bool {
    exists|i: int| 0 <= i < vals.len() && vals[i].id@ == id
}

/// The index of the validator carrying `id`; meaningful only where ids
/// are unique and `has_validator` holds.
pub open spec fn validator_index(vals: Seq<Validator>, id: Seq<char>) -> int {
    choose|i: int| 0 <= i < vals.len() && vals[i].id@ == id
}

/// Whether some registered token holder carries the identity `id`.
pub open spec fn has_holder(holders: Seq<TokenHolder>, id: Seq<char>) -> bool {
    exists|i: int| 0 <= i < holders.len() && holders[i].id@ == id
}

/// The index of the token holder carrying `id`.
pub open spec fn holder_index(holders: Seq<TokenHolder>, id: Seq<char>) -> int {
    choose|i: int| 0 <= i < holders.len() && holders[i].id@ == id
}

/// The digest a new block must link to: the tip's digest, or the empty
/// string under an empty chain.
pub open spec fn tip_digest(chain: Seq<Block>) -> Seq<char> {
    if chain.len() == 0 {
        Seq::<char>::empty()
    } else {
        chain.last().digest@
    }
}

/// The last `t` blocks of the chain — fewer if the chain is shorter.
pub open spec fn finality_window(chain: Seq<Block>, t: u64) -> Seq<Block> {
    if t as int >= chain.len() {
        chain
    } else {
        chain.subrange(chain.len() - t as int, chain.len() as int)
    }
}

/// What a correct finality report says of a chain: it lists exactly the
/// producers that dominate the finality window — each with strictly
/// more than `t / 2` of the window's blocks, none listed twice, and
/// nobody dominant left out. A listed producer is always present in the
/// window, since its tally is positive (`lemma_count_id_present`).
pub open spec fn finality_report_ok(report: Seq<String>, chain: Seq<Block>, t: u64) -> bool {
    let w = finality_window(chain, t);
    &&& forall|k: int| 0 <= k < report.len() ==> count_id(w, #[trigger] report[k]@) > t / 2
    &&& forall|j: int|
        0 <= j < w.len() && count_id(w, #[trigger] w[j].validator_id@) > t / 2 ==> exists|k: int|
            0 <= k < report.len() && report[k]@ == w[j].validator_id@
    &&& forall|k1: int, k2: int| 0 <= k1 < k2 < report.len() ==> report[k1]@ != report[k2]@
}

/// What a successful round promises, with `i` the position — in the
/// freshly aggregated registry — of the validator that won the draw:
/// the winner carried positive weight; the appended block extends the
/// old chain, links to the old tip, and is digest-bound to its fields;
/// the winner was rewarded at the pre-round period and the whole
/// registry then rotated at the advanced period; the candidate set was
/// cleared; and the finality report describes the new chain.
pub open spec fn round_success(
    pre: Blockchain,
    post: Blockchain,
    outcome: RoundOutcome,
    timestamp: u128,
    i: int,
) -> bool {
    let agg = aggregated(pre.validators@, pre.token_holders@);
    let ws = weights_of(agg);
    &&& 0 <= i < agg.len()
    &&& ws[i] > 0
    &&& outcome.error is None
    &&& (outcome.appended matches Some(b) ==> {
        &&& b.id == pre.blocks@.len() as u64
        &&& b.timestamp == timestamp
        &&& b.data@ == "Sample Block Data"@
        &&& b.validator_id@ == agg[i].id@
        &&& b.previous_digest@ == tip_digest(pre.blocks@)
        &&& b.digest@ == digest_of(b.id, b.data@, b.validator_id@, timestamp, b.previous_digest@)
        &&& post.blocks@ == pre.blocks@.push(b)
    })
    &&& outcome.appended is Some
    &&& post.validators@ == rotated(
        agg.update(i, rewarded(agg[i], pre.current_period)),
        (pre.current_period + 1) as u64,
    )
    &&& post.pending_blocks@.len() == 0
    &&& finality_report_ok(outcome.finality@, post.blocks@, pre.finality_threshold)
}

/// What a round that found no eligible validator promises: the error is
/// reported, nothing was appended or finalized, the chain and candidate
/// set stand untouched, and the registry — aggregation included — was
/// still rotated at the advanced period.
pub open spec fn round_failure(pre: Blockchain, post: Blockchain, outcome: RoundOutcome) -> bool {
    let agg = aggregated(pre.validators@, pre.token_holders@);
    &&& outcome.error == Some(ConsensusError::NoEligibleValidator)
    &&& outcome.appended is None
    &&& outcome.finality@.len() == 0
    &&& post.blocks@ == pre.blocks@
    &&& post.pending_blocks@ == pre.pending_blocks@
    &&& post.validators@ == rotated(agg, (pre.current_period + 1) as u64)
}

impl Blockchain {
    /// Registries keyed by identity hold each identity once, the chain
    /// is hash-linked, no inactivity clock runs ahead of the period
    /// counter, and the security ledger is well-formed.
    pub open spec fn wf(self) -> bool {
        &&& chain_linked(self.blocks@)
        &&& unique_validator_ids(self.validators@)
        &&& unique_holder_ids(self.token_holders@)
        &&& clocks_within(self.validators@, self.current_period)
        &&& self.security.wf()
    }

    /// An empty consensus state with the given finality window size.
    pub fn new(finality_threshold: u64) -> (bc: Blockchain)
        ensures
            bc.wf(),
            bc.blocks@.len() == 0,
            bc.pending_blocks@.len() == 0,
            bc.validators@.len() == 0,
            bc.token_holders@.len() == 0,
            bc.current_period == 0,
            bc.finality_threshold == finality_threshold,
            bc.security.flagged@.len() == 0,
            bc.security.penalties@.len() == 0,
    {
        Blockchain {
            blocks: Vec::new(),
            pending_blocks: Vec::new(),
            validators: Vec::new(),
            token_holders: Vec::new(),
            current_period: 0,
            finality_threshold,
            security: SecurityLedger::new(),
        }
    }

    /// The position of the validator carrying `id`, if it is
    /// registered.
    pub fn find_validator(&self, id: &String) -> (r: Option<usize>)
        requires
            self.wf(),
        ensures
            match r {
                Some(i) => i < self.validators@.len() && self.validators@[i as int].id@ == id@
                    && i as int == validator_index(self.validators@, id@),
                None => !has_validator(self.validators@, id@),
            },
    {
        let mut k: usize = 0;
        while k < self.validators.len()
            invariant
                0 <= k <= self.validators@.len(),
                self.wf(),
                forall|i: int| 0 <= i < k ==> self.validators@[i].id@ != id@,
            decreases self.validators@.len() - k,
        {
            if self.validators[k].id == *id {
                proof {
                    let j = validator_index(self.validators@, id@);
                    assert(0 <= j < self.validators@.len() && self.validators@[j].id@ == id@);
                    assert(j == k as int);
                }
                return Some(k);
            }
            k = k + 1;
        }
        None
    }

    /// The position of the token holder carrying `id`, if it is
    /// registered.
    pub fn find_holder(&self, id: &String) -> (r: Option<usize>)
        requires
            self.wf(),
        ensures
            match r {
                Some(i) => i < self.token_holders@.len() && self.token_holders@[i as int].id@
                    == id@ && i as int == holder_index(self.token_holders@, id@),
                None => !has_holder(self.token_holders@, id@),
            },
    {
        let mut k: usize = 0;
        while k < self.token_holders.len()
            invariant
                0 <= k <= self.token_holders@.len(),
                self.wf(),
                forall|i: int| 0 <= i < k ==> self.token_holders@[i].id@ != id@,
            decreases self.token_holders@.len() - k,
        {
            if self.token_holders[k].id == *id {
                proof {
                    let j = holder_index(self.token_holders@, id@);
                    assert(0 <= j < self.token_holders@.len() && self.token_holders@[j].id@
                        == id@);
                    assert(j == k as int);
                }
                return Some(k);
            }
            k = k + 1;
        }
        None
    }

    /// Registers a validator under `id` with the given stake and
    /// rotation period, and with no delegated stake, a reputation of one
    /// whole unit, and a fresh inactivity clock. Registration is an
    /// upsert: an already-registered identity has its whole record reset
    /// to exactly those values.
    pub fn add_validator(&mut self, id: String, stake: u64, rotation_period: u64)
        requires
            old(self).wf(),
        ensures
            final(self).wf(),
            ({
                let entry = Validator {
                    id: id,
                    stake: stake,
                    delegated_stake: 0u64,
                    rotation_period: rotation_period,
                    last_block_validated: 0u64,
                    reputation: 10u64,
                };
                if has_validator(old(self).validators@, id@) {
                    final(self).validators@ == old(self).validators@.update(
                        validator_index(old(self).validators@, id@),
                        entry,
                    )
                } else {
                    final(self).validators@ == old(self).validators@.push(entry)
                }
            }),
            final(self).blocks@ == old(self).blocks@,
            final(self).pending_blocks@ == old(self).pending_blocks@,
            final(self).token_holders@ == old(self).token_holders@,
            final(self).current_period == old(self).current_period,
            final(self).finality_threshold == old(self).finality_threshold,
            final(self).security == old(self).security,
    {
        let entry = Validator {
            id,
            stake,
            delegated_stake: 0,
            rotation_period,
            last_block_validated: 0,
            reputation: 10,
        };
        let found = self.find_validator(&entry.id);
        match found {
            Some(i) => {
                self.validators[i] = entry;
            },
            None => {
                self.validators.push(entry);
            },
        }
        proof {
            assert forall|i: int, j: int| 0 <= i < j < self.validators@.len() implies self
                .validators@[i].id@ != self.validators@[j].id@ by {
                if j == self.validators@.len() - 1 && self.validators@.len() > old(
                    self,
                ).validators@.len() {
                    assert(!has_validator(old(self).validators@, self.validators@[j].id@));
                }
            }
        }
    }

    /// Registers a token holder under `id` with the given stake and
    /// optional delegation target. Registration is an upsert: an
    /// already-registered identity has its record replaced.
    pub fn add_token_holder(&mut self, id: String, stake: u64, delegated_to: Option<String>)
        requires
            old(self).wf(),
        ensures
            final(self).wf(),
            ({
                let entry = TokenHolder { id: id, stake: stake, delegated_to: delegated_to };
                if has_holder(old(self).token_holders@, id@) {
                    final(self).token_holders@ == old(self).token_holders@.update(
                        holder_index(old(self).token_holders@, id@),
                        entry,
                    )
                } else {
                    final(self).token_holders@ == old(self).token_holders@.push(entry)
                }
            }),
            final(self).blocks@ == old(self).blocks@,
            final(self).pending_blocks@ == old(self).pending_blocks@,
            final(self).validators@ == old(self).validators@,
            final(self).current_period == old(self).current_period,
            final(self).finality_threshold == old(self).finality_threshold,
            final(self).security == old(self).security,
    {
        let entry = TokenHolder { id, stake, delegated_to };
        let found = self.find_holder(&entry.id);
        match found {
            Some(i) => {
                self.token_holders[i] = entry;
            },
            None => {
                self.token_holders.push(entry);
            },
        }
        proof {
            assert forall|i: int, j: int| 0 <= i < j < self.token_holders@.len() implies self
                .token_holders@[i].id@ != self.token_holders@[j].id@ by {
                if j == self.token_holders@.len() - 1 && self.token_holders@.len() > old(
                    self,
                ).token_holders@.len() {
                    assert(!has_holder(old(self).token_holders@, self.token_holders@[j].id@));
                }
            }
        }
    }

    /// Recomputes every validator's delegated stake from scratch: full
    /// replacement by the sum of the stakes delegated to it, never
    /// accumulation, so repeating the aggregation changes nothing.
    pub fn aggregate_delegations(&mut self)
        requires
            old(self).wf(),
        ensures
            final(self).wf(),
            final(self).validators@ == aggregated(old(self).validators@, old(self).token_holders@),
            final(self).blocks@ == old(self).blocks@,
            final(self).pending_blocks@ == old(self).pending_blocks@,
            final(self).token_holders@ == old(self).token_holders@,
            final(self).current_period == old(self).current_period,
            final(self).finality_threshold == old(self).finality_threshold,
            final(self).security == old(self).security,
    {
        let mut sums: Vec<u64> = Vec::new();
        let mut k: usize = 0;
        while k < self.validators.len()
            invariant
                0 <= k <= self.validators@.len(),
                sums@.len() == k,
                forall|i: int|
                    0 <= i < k ==> sums@[i] as int == sat64(
                        delegated_sum(self.token_holders@, self.validators@[i].id@),
                    ),
            decreases self.validators@.len() - k,
        {
            let s = delegated_total(&self.token_holders, &self.validators[k].id);
            sums.push(s);
            k = k + 1;
        }
        let ghost vals0 = self.validators@;
        let mut j: usize = 0;
        while j < self.validators.len()
            invariant
                0 <= j <= self.validators@.len(),
                self.validators@.len() == vals0.len(),
                sums@.len() == vals0.len(),
                forall|i: int|
                    0 <= i < vals0.len() ==> sums@[i] as int == sat64(
                        delegated_sum(self.token_holders@, vals0[i].id@),
                    ),
                forall|i: int|
                    0 <= i < j ==> self.validators@[i] == aggregated(vals0, self.token_holders@)[i],
                forall|i: int| j <= i < vals0.len() ==> self.validators@[i] == vals0[i],
                self.token_holders@ == old(self).token_holders@,
                vals0 == old(self).validators@,
                self.blocks@ == old(self).blocks@,
                self.pending_blocks@ == old(self).pending_blocks@,
                self.current_period == old(self).current_period,
                self.finality_threshold == old(self).finality_threshold,
                self.security == old(self).security,
            decreases vals0.len() - j,
        {
            self.validators[j].delegated_stake = sums[j];
            j = j + 1;
        }
        proof {
            assert(self.validators@ =~= aggregated(vals0, self.token_holders@));
            assert forall|i: int, j2: int| 0 <= i < j2 < self.validators@.len() implies self
                .validators@[i].id@ != self.validators@[j2].id@ by {
                assert(self.validators@[i].id == vals0[i].id);
                assert(self.validators@[j2].id == vals0[j2].id);
            }
        }
    }

    /// Validates a candidate block and, on success, appends it: the
    /// block must name a registered validator and must link to the
    /// current chain tip. On success the producer is rewarded — 10
    /// units of stake, a tenth of reputation, and a reset inactivity
    /// clock — the block joins the chain, and the candidate set is
    /// cleared. On failure nothing at all is mutated.
    pub fn validate_and_append(&mut self, block: Block) -> (r: Result<(), ConsensusError>)
        requires
            old(self).wf(),
        ensures
            final(self).wf(),
            r is Ok <==> has_validator(old(self).validators@, block.validator_id@)
                && block.previous_digest@ == tip_digest(old(self).blocks@),
            r == Err::<(), ConsensusError>(ConsensusError::UnknownValidator) <==> !has_validator(
                old(self).validators@,
                block.validator_id@,
            ),
            r == Err::<(), ConsensusError>(ConsensusError::ChainLinkError) <==> has_validator(
                old(self).validators@,
                block.validator_id@,
            ) && block.previous_digest@ != tip_digest(old(self).blocks@),
            !(r is Ok) ==> *final(self) == *old(self),
            r is Ok ==> {
                &&& final(self).blocks@ == old(self).blocks@.push(block)
                &&& final(self).pending_blocks@.len() == 0
                &&& final(self).validators@ == old(self).validators@.update(
                    validator_index(old(self).validators@, block.validator_id@),
                    rewarded(
                        old(self).validators@[validator_index(
                            old(self).validators@,
                            block.validator_id@,
                        )],
                        old(self).current_period,
                    ),
                )
                &&& final(self).token_holders@ == old(self).token_holders@
                &&& final(self).current_period == old(self).current_period
                &&& final(self).finality_threshold == old(self).finality_threshold
                &&& final(self).security == old(self).security
            },
    {
        let found = self.find_validator(&block.validator_id);
        match found {
            None => Err(ConsensusError::UnknownValidator),
            Some(idx) => {
                let linked = if self.blocks.len() == 0 {
                    block.previous_digest.as_str().is_empty()
                } else {
                    block.previous_digest == self.blocks[self.blocks.len() - 1].digest
                };
                proof {
                    if self.blocks@.len() == 0 && block.previous_digest@.len() == 0 {
                        assert(block.previous_digest@ =~= Seq::<char>::empty());
                    }
                    if self.blocks@.len() == 0 && block.previous_digest@
                        == Seq::<char>::empty() {
                        assert(block.previous_digest@.len() == 0);
                    }
                }
                if !linked {
                    Err(ConsensusError::ChainLinkError)
                } else {
                    let ghost vals0 = self.validators@;
                    let ghost blocks0 = self.blocks@;
                    let stake0 = self.validators[idx].stake;
                    self.validators[idx].stake = sat_add_u64(stake0, 10);
                    self.validators[idx].last_block_validated = self.current_period;
                    let rep0 = self.validators[idx].reputation;
                    self.validators[idx].reputation = sat_add_u64(rep0, 1);
                    proof {
                        assert(self.validators@ =~= vals0.update(
                            idx as int,
                            rewarded(vals0[idx as int], self.current_period),
                        ));
                    }
                    self.blocks.push(block);
                    self.pending_blocks.clear();
                    proof {
                        assert forall|i: int, j: int|
                            0 <= i < j < self.validators@.len() implies self.validators@[i].id@
                            != self.validators@[j].id@ by {
                            assert(self.validators@[i].id == vals0[i].id);
                            assert(self.validators@[j].id == vals0[j].id);
                        }
                        assert(chain_linked(self.blocks@)) by {
                            assert forall|i: int|
                                0 < i < self.blocks@.len() implies self.blocks@[i].previous_digest@
                                == self.blocks@[i - 1].digest@ by {
                                if i < blocks0.len() {
                                    assert(blocks0[i].previous_digest@ == blocks0[i - 1].digest@);
                                }
                            }
                        }
                    }
                    Ok(())
                }
            },
        }
    }

    /// Records a candidate block awaiting validation. The candidate set
    /// behaves as a set: a block already present field-for-field is not
    /// added again.
    pub fn add_pending_block(&mut self, block: Block)
        requires
            old(self).wf(),
        ensures
            final(self).wf(),
            (exists|i: int|
                0 <= i < old(self).pending_blocks@.len() && same_block(
                    old(self).pending_blocks@[i],
                    block,
                )) ==> final(self).pending_blocks@ == old(self).pending_blocks@,
            !(exists|i: int|
                0 <= i < old(self).pending_blocks@.len() && same_block(
                    old(self).pending_blocks@[i],
                    block,
                )) ==> final(self).pending_blocks@ == old(self).pending_blocks@.push(block),
            final(self).blocks@ == old(self).blocks@,
            final(self).validators@ == old(self).validators@,
            final(self).token_holders@ == old(self).token_holders@,
            final(self).current_period == old(self).current_period,
            final(self).finality_threshold == old(self).finality_threshold,
            final(self).security == old(self).security,
    {
        let mut k: usize = 0;
        while k < self.pending_blocks.len()
            invariant
                0 <= k <= self.pending_blocks@.len(),
                *self == *old(self),
                old(self).wf(),
                forall|i: int| 0 <= i < k ==> !same_block(self.pending_blocks@[i], block),
            decreases self.pending_blocks@.len() - k,
        {
            if block_eq(&self.pending_blocks[k], &block) {
                return ;
            }
            k = k + 1;
        }
        self.pending_blocks.push(block);
    }

    /// Scans the finality window — the last `finality_threshold` blocks,
    /// fewer on a shorter chain — and reports every validator that
    /// produced strictly more than `finality_threshold / 2` of them,
    /// each at most once. With a window size of zero the scan reports
    /// nobody.
    #[verifier::rlimit(100)]
    pub fn check_finality(&self) -> (r: Vec<String>)
        ensures
            finality_report_ok(r@, self.blocks@, self.finality_threshold),
    {
        let len = self.blocks.len();
        let t = self.finality_threshold;
        let wsize: usize = if t >= len as u64 {
            len
        } else {
            t as usize
        };
        let start = len - wsize;
        let ghost w = finality_window(self.blocks@, t);
        proof {
            assert(w =~= self.blocks@.subrange(start as int, len as int));
        }
        let mut report: Vec<String> = Vec::new();
        let mut j = start;
        while j < len
            invariant
                start <= j <= len,
                len == self.blocks@.len(),
                start as int == len - finality_window(self.blocks@, t).len(),
                w == finality_window(self.blocks@, t),
                w =~= self.blocks@.subrange(start as int, len as int),
                t == self.finality_threshold,
                forall|k: int| 0 <= k < report@.len() ==> count_id(w, #[trigger] report@[k]@) > t / 2,
                forall|k1: int, k2: int|
                    0 <= k1 < k2 < report@.len() ==> report@[k1]@ != report@[k2]@,
                forall|j2: int|
                    start <= j2 < j && count_id(
                        w,
                        #[trigger] self.blocks@[j2].validator_id@,
                    ) > t / 2 ==> exists|k: int|
                        0 <= k < report@.len() && report@[k]@ == self.blocks@[j2].validator_id@,
            decreases len - j,
        {
            let ghost report0 = report@;
            let vid = &self.blocks[j].validator_id;
            let mut dup = false;
            let mut m: usize = 0;
            while m < report.len()
                invariant
                    0 <= m <= report@.len(),
                    dup ==> exists|k: int| 0 <= k < report@.len() && report@[k]@ == vid@,
                    !dup ==> forall|k: int| 0 <= k < m ==> report@[k]@ != vid@,
                decreases report@.len() - m,
            {
                if report[m] == *vid {
                    dup = true;
                }
                m = m + 1;
            }
            if !dup {
                let mut cnt: u64 = 0;
                let mut n = start;
                proof {
                    assert(self.blocks@.subrange(start as int, start as int)
                        =~= Seq::<Block>::empty());
                }
                while n < len
                    invariant
                        start <= n <= len,
                        len == self.blocks@.len(),
                        cnt as int == count_id(
                            self.blocks@.subrange(start as int, n as int),
                            vid@,
                        ),
                        cnt <= n - start,
                    decreases len - n,
                {
                    proof {
                        let sub = self.blocks@.subrange(start as int, n as int + 1);
                        assert(sub.drop_last() =~= self.blocks@.subrange(
                            start as int,
                            n as int,
                        ));
                        assert(sub.last() == self.blocks@[n as int]);
                    }
                    if self.blocks[n].validator_id == *vid {
                        cnt = cnt + 1;
                    }
                    n = n + 1;
                }
                if cnt > t / 2 {
                    proof {
                        assert(count_id(w, vid@) > t / 2);
                    }
                    report.push(vid.clone());
                    proof {
                        assert(report@[report@.len() - 1]@ == vid@);
                        assert forall|k: int|
                            0 <= k < report@.len() implies count_id(
                            w,
                            #[trigger] report@[k]@,
                        ) > t / 2 by {
                            if k < report@.len() - 1 {
                                assert(report@[k] == report0[k]);
                            }
                        }
                    }
                } else {
                    proof {
                        assert(count_id(w, vid@) <= t / 2);
                    }
                }
            }
            proof {
                assert(report0.len() <= report@.len());
                assert(forall|k: int| 0 <= k < report0.len() ==> report@[k] == report0[k]);
                assert(count_id(w, vid@) > t / 2 ==> exists|k: int|
                    0 <= k < report@.len() && report@[k]@ == vid@);
                assert forall|j2: int|
                    start <= j2 < j + 1 && count_id(
                        w,
                        #[trigger] self.blocks@[j2].validator_id@,
                    ) > t / 2 implies exists|k: int|
                    0 <= k < report@.len() && report@[k]@ == self.blocks@[j2].validator_id@ by {
                    if j2 == j as int {
                        assert(self.blocks@[j2].validator_id@ == vid@);
                    } else {
                        let k0 = choose|k: int|
                            0 <= k < report0.len() && report0[k]@
                                == self.blocks@[j2].validator_id@;
                        assert(report@[k0]@ == self.blocks@[j2].validator_id@);
                    }
                }
            }
            j = j + 1;
        }
        proof {
            assert forall|j2: int|
                0 <= j2 < w.len() && count_id(w, #[trigger] w[j2].validator_id@) > t / 2 implies
                exists|k: int| 0 <= k < report@.len() && report@[k]@ == w[j2].validator_id@ by {
                assert(w[j2] == self.blocks@[start as int + j2]);
            }
        }
        report
    }

    /// Advances the period counter by one, then applies the inactivity
    /// penalty — one unit of stake and one tenth of reputation, each
    /// floored at zero — to every validator whose rounds since its last
    /// validated block have reached its rotation period. A validator
    /// that validated this round was just reset, so it is exempt. No
    /// inactivity clock moves.
    pub fn rotate_validators(&mut self)
        requires
            old(self).wf(),
            old(self).current_period < u64::MAX,
        ensures
            final(self).wf(),
            final(self).current_period == old(self).current_period + 1,
            final(self).validators@ == rotated(
                old(self).validators@,
                (old(self).current_period + 1) as u64,
            ),
            final(self).blocks@ == old(self).blocks@,
            final(self).pending_blocks@ == old(self).pending_blocks@,
            final(self).token_holders@ == old(self).token_holders@,
            final(self).finality_threshold == old(self).finality_threshold,
            final(self).security == old(self).security,
    {
        self.current_period = self.current_period + 1;
        let ghost vals0 = self.validators@;
        let period = self.current_period;
        let mut k: usize = 0;
        while k < self.validators.len()
            invariant
                0 <= k <= self.validators@.len(),
                self.validators@.len() == vals0.len(),
                forall|i: int| 0 <= i < k ==> self.validators@[i] == rotate_step(vals0[i], period),
                forall|i: int| k <= i < vals0.len() ==> self.validators@[i] == vals0[i],
                clocks_within(vals0, period),
                vals0 == old(self).validators@,
                period == old(self).current_period + 1,
                self.current_period == period,
                self.blocks@ == old(self).blocks@,
                self.pending_blocks@ == old(self).pending_blocks@,
                self.token_holders@ == old(self).token_holders@,
                self.finality_threshold == old(self).finality_threshold,
                self.security == old(self).security,
            decreases vals0.len() - k,
        {
            proof {
                assert(self.validators@[k as int] == vals0[k as int]);
                assert(vals0[k as int].last_block_validated <= period);
            }
            if self.current_period - self.validators[k].last_block_validated
                >= self.validators[k].rotation_period {
                let stake0 = self.validators[k].stake;
                self.validators[k].stake = if stake0 > 0 {
                    stake0 - 1
                } else {
                    0
                };
                let rep0 = self.validators[k].reputation;
                self.validators[k].reputation = if rep0 > 0 {
                    rep0 - 1
                } else {
                    0
                };
                proof {
                    assert(self.validators@[k as int] == penalized(vals0[k as int]));
                }
            }
            k = k + 1;
        }
        proof {
            assert(self.validators@ =~= rotated(vals0, period));
            assert forall|i: int, j: int| 0 <= i < j < self.validators@.len() implies self
                .validators@[i].id@ != self.validators@[j].id@ by {
                assert(self.validators@[i].id == vals0[i].id);
                assert(self.validators@[j].id == vals0[j].id);
            }
        }
    }

    /// Draws one validator at random, each with probability
    /// proportional to its weight — backing stake times reputation —
    /// over the registry as it stands. Fails exactly when no validator
    /// carries positive weight, the empty registry included.
    pub fn select_validator(&self) -> (r: Result<String, ConsensusError>)
        ensures
            ({
                let ws = weights_of(self.validators@);
                &&& (total_weight(ws) == 0 <==> r == Err::<String, ConsensusError>(
                    ConsensusError::NoEligibleValidator,
                ))
                &&& r is Err ==> r == Err::<String, ConsensusError>(
                    ConsensusError::NoEligibleValidator,
                )
                &&& (r matches Ok(id) ==> exists|i: int|
                    0 <= i < self.validators@.len() && self.validators@[i].id@ == id@
                        && capped_weight(self.validators@[i]) > 0)
            }),
    {
        let ws = weights_vec(&self.validators);
        let total = total_of(&ws);
        if total == 0 {
            Err(ConsensusError::NoEligibleValidator)
        } else {
            proof {
                lemma_total_weight_bounds(ws@);
            }
            let ticket = random_below(total);
            let idx = pick_by_weight(&ws, ticket);
            proof {
                lemma_weight_nonneg(self.validators@[idx as int]);
            }
            Ok(self.validators[idx].id.clone())
        }
    }

    /// One full round with the randomness supplied by the caller, so
    /// that a driver or a test can replay rounds deterministically: the
    /// winning ticket is `draw` reduced modulo the total weight.
    /// Aggregation, selection, block construction, validation and
    /// append, finality scan and rotation happen exactly as in
    /// `run_round`.
    pub fn run_round_with_draw(&mut self, timestamp: u128, draw: u128) -> (outcome: RoundOutcome)
        requires
            old(self).wf(),
            old(self).current_period < u64::MAX,
        ensures
            final(self).wf(),
            final(self).current_period == old(self).current_period + 1,
            final(self).token_holders@ == old(self).token_holders@,
            final(self).finality_threshold == old(self).finality_threshold,
            final(self).security == old(self).security,
            ({
                let ws = weights_of(aggregated(old(self).validators@, old(self).token_holders@));
                let total = total_weight(ws);
                &&& (total == 0 ==> round_failure(*old(self), *final(self), outcome))
                &&& (total > 0 ==> exists|i: int|
                    {
                        &&& #[trigger] round_success(*old(self), *final(self), outcome, timestamp, i)
                        &&& total_weight(ws.take(i)) <= (draw as int) % total
                        &&& (draw as int) % total < total_weight(ws.take(i)) + ws[i]
                    })
            }),
    {
        let ghost pre = *old(self);
        let ghost agg = aggregated(pre.validators@, pre.token_holders@);
        self.aggregate_delegations();
        let ws = weights_vec(&self.validators);
        let total = total_of(&ws);
        if total == 0 {
            let outcome = RoundOutcome {
                appended: None,
                finality: Vec::new(),
                error: Some(ConsensusError::NoEligibleValidator),
            };
            self.rotate_validators();
            proof {
                assert(round_failure(pre, *self, outcome));
            }
            outcome
        } else {
            let ticket = draw % total;
            let idx = pick_by_weight(&ws, ticket);
            let previous_digest = if self.blocks.len() == 0 {
                String::new()
            } else {
                self.blocks[self.blocks.len() - 1].digest.clone()
            };
            let data = "Sample Block Data".to_owned();
            let vid = self.validators[idx].id.clone();
            let num = self.blocks.len() as u64;
            let block = Block::new(num, data, vid, timestamp, previous_digest);
            let appended = block.duplicate();
            let ghost staged = *self;
            proof {
                assert(staged.validators@ == agg);
                assert(block.validator_id@ == agg[idx as int].id@);
                assert(has_validator(staged.validators@, block.validator_id@));
                let j = validator_index(staged.validators@, block.validator_id@);
                assert(0 <= j < staged.validators@.len() && staged.validators@[j].id@
                    == block.validator_id@);
                if j != idx as int {
                    assert(staged.validators@[j].id@ != staged.validators@[idx as int].id@);
                }
                assert(j == idx as int);
                if staged.blocks@.len() == 0 {
                    assert(block.previous_digest@ =~= Seq::<char>::empty());
                }
                assert(block.previous_digest@ == tip_digest(staged.blocks@));
            }
            let res = self.validate_and_append(block);
            proof {
                assert(res is Ok);
            }
            let finality = self.check_finality();
            self.rotate_validators();
            let outcome = RoundOutcome { appended: Some(appended), finality, error: None };
            proof {
                assert(round_success(pre, *self, outcome, timestamp, idx as int));
            }
            outcome
        }
    }

    /// One full round: recompute delegated stakes, draw a validator by
    /// weight, build a block on the chain tip, validate and append it,
    /// scan for finality, then rotate — penalizing the inactive — and
    /// advance the period. When no validator carries positive weight
    /// the round reports `NoEligibleValidator` instead of appending,
    /// but rotation and the period advance happen regardless.
    pub fn run_round(&mut self, timestamp: u128) -> (outcome: RoundOutcome)
        requires
            old(self).wf(),
            old(self).current_period < u64::MAX,
        ensures
            final(self).wf(),
            final(self).current_period == old(self).current_period + 1,
            final(self).token_holders@ == old(self).token_holders@,
            final(self).finality_threshold == old(self).finality_threshold,
            final(self).security == old(self).security,
            ({
                let total = total_weight(
                    weights_of(aggregated(old(self).validators@, old(self).token_holders@)),
                );
                &&& (total == 0 ==> round_failure(*old(self), *final(self), outcome))
                &&& (total > 0 ==> exists|i: int|
                    #[trigger] round_success(*old(self), *final(self), outcome, timestamp, i))
            }),
    {
        self.aggregate_delegations();
        let ghost mid = *self;
        let ws = weights_vec(&self.validators);
        let total = total_of(&ws);
        proof {
            lemma_total_weight_bounds(ws@);
            lemma_aggregated_idempotent(old(self).validators@, old(self).token_holders@);
        }
        let draw = if total > 0 {
            random_below(total)
        } else {
            0
        };
        let outcome = self.run_round_with_draw(timestamp, draw);
        proof {
            let agg = aggregated(old(self).validators@, old(self).token_holders@);
            assert(aggregated(mid.validators@, mid.token_holders@) == agg);
            if total_weight(weights_of(agg)) > 0 {
                let i = choose|i: int|
                    {
                        &&& #[trigger] round_success(mid, *self, outcome, timestamp, i)
                        &&& total_weight(weights_of(agg).take(i)) <= (draw as int) % total_weight(
                            weights_of(agg),
                        )
                        &&& (draw as int) % total_weight(weights_of(agg)) < total_weight(
                            weights_of(agg).take(i),
                        ) + weights_of(agg)[i]
                    };
                assert(round_success(*old(self), *self, outcome, timestamp, i));
            } else {
                assert(round_failure(*old(self), *self, outcome));
            }
        }
        outcome
    }
}

} // verus!
