//! The security ledger: a reserved extension surface.
//!
//! No round currently flags or penalizes anyone — what constitutes
//! malicious activity is deliberately left undefined — but the
//! operations exist with fixed semantics so misbehavior detection can be
//! layered on later without touching the consensus core.

use vstd::prelude::*;
use crate::participants::sat64;

verus! {

/// Flagged-malicious identities and accumulated penalty counters.
pub struct SecurityLedger {
    pub flagged: Vec<String>,
    pub penalties: Vec<(String, u64)>,
}

/// Whether the flagged set holds the identity `id`.
pub open spec fn is_flagged(flagged: Seq<String>, id: Seq<char>) -> bool {
    exists|i: int| 0 <= i < flagged.len() && flagged[i]@ == id
}

/// The accumulated penalty of the identity `id`; an identity without an
/// entry stands at zero.
pub open spec fn penalty_of(penalties: Seq<(String, u64)>, id: Seq<char>) -> int
    decreases penalties.len(),
{
    if penalties.len() == 0 {
        0
    } else if penalties.last().0@ == id {
        penalties.last().1 as int
    } else {
        penalty_of(penalties.drop_last(), id)
    }
}

impl SecurityLedger {
    /// No identity is flagged twice, and no identity holds two penalty
    /// counters.
    pub open spec fn wf(self) -> bool {
        &&& forall|i: int, j: int|
            0 <= i < j < self.flagged@.len() ==> self.flagged@[i]@ != self.flagged@[j]@
        &&& forall|i: int, j: int|
            0 <= i < j < self.penalties@.len() ==> self.penalties@[i].0@ != self.penalties@[j].0@
    }

    /// An empty ledger: nobody flagged, nobody penalized.
    pub fn new() -> (s: SecurityLedger)
        ensures
            s.wf(),
            s.flagged@.len() == 0,
            s.penalties@.len() == 0,
    {
        SecurityLedger { flagged: Vec::new(), penalties: Vec::new() }
    }

    /// Whether `id` has been flagged as malicious.
    pub fn contains_flag(&self, id: &String) -> (r: bool)
        ensures
            r == is_flagged(self.flagged@, id@),
    {
        let mut k: usize = 0;
        while k < self.flagged.len()
            invariant
                0 <= k <= self.flagged@.len(),
                forall|i: int| 0 <= i < k ==> self.flagged@[i]@ != id@,
            decreases self.flagged@.len() - k,
        {
            if self.flagged[k] == *id {
                return true;
            }
            k = k + 1;
        }
        false
    }

    /// Idempotently adds `id` to the flagged set: after the call the
    /// identity is flagged, an already-flagged identity leaves the
    /// ledger unchanged, and no other identity's standing moves.
    pub fn flag_malicious(&mut self, id: &String)
        requires
            old(self).wf(),
        ensures
            final(self).wf(),
            is_flagged(final(self).flagged@, id@),
            is_flagged(old(self).flagged@, id@) ==> final(self).flagged@ == old(self).flagged@,
            !is_flagged(old(self).flagged@, id@) ==> final(self).flagged@ == old(self).flagged@.push(
                *id,
            ),
            forall|other: Seq<char>|
                is_flagged(final(self).flagged@, other) <==> (is_flagged(old(self).flagged@, other)
                    || other == id@),
            final(self).penalties@ == old(self).penalties@,
    {
        if !self.contains_flag(id) {
            self.flagged.push(id.clone());
            proof {
                let before = old(self).flagged@;
                let after = self.flagged@;
                assert(after.last()@ == id@);
                assert forall|other: Seq<char>|
                    is_flagged(after, other) <==> (is_flagged(before, other) || other == id@)
                by {
                    if is_flagged(after, other) {
                        let i = choose|i: int| 0 <= i < after.len() && after[i]@ == other;
                        if i < before.len() {
                            assert(before[i]@ == other);
                        }
                    }
                    if is_flagged(before, other) {
                        let i = choose|i: int| 0 <= i < before.len() && before[i]@ == other;
                        assert(after[i]@ == other);
                    }
                    if other == id@ {
                        assert(after[after.len() - 1]@ == other);
                    }
                }
                assert forall|i: int, j: int| 0 <= i < j < after.len() implies after[i]@
                    != after[j]@ by {
                    if j == after.len() - 1 {
                        assert(!is_flagged(before, id@));
                        assert(before[i]@ != id@);
                    }
                }
            }
        }
    }

    /// The accumulated penalty counter of `id`.
    pub fn penalty_for(&self, id: &String) -> (r: u64)
        requires
            self.wf(),
        ensures
            r as int == penalty_of(self.penalties@, id@),
    {
        let mut k: usize = 0;
        while k < self.penalties.len()
            invariant
                0 <= k <= self.penalties@.len(),
                self.wf(),
                forall|i: int| 0 <= i < k ==> self.penalties@[i].0@ != id@,
            decreases self.penalties@.len() - k,
        {
            if self.penalties[k].0 == *id {
                proof {
                    lemma_penalty_at_index(self.penalties@, id@, k as int);
                }
                return self.penalties[k].1;
            }
            k = k + 1;
        }
        proof {
            lemma_penalty_absent(self.penalties@, id@);
        }
        0
    }

    /// Adds `amount` to the accumulated penalty counter of `id`,
    /// creating the counter at zero if it is absent; the counter
    /// saturates at the top of the `u64` range, and no other identity's
    /// counter moves.
    pub fn penalize(&mut self, id: &String, amount: u64)
        requires
            old(self).wf(),
        ensures
            final(self).wf(),
            penalty_of(final(self).penalties@, id@) == sat64(
                penalty_of(old(self).penalties@, id@) + amount,
            ),
            forall|other: Seq<char>|
                other != id@ ==> penalty_of(final(self).penalties@, other) == penalty_of(
                    old(self).penalties@,
                    other,
                ),
            final(self).flagged@ == old(self).flagged@,
    {
        let ghost pens0 = self.penalties@;
        let mut k: usize = 0;
        while k < self.penalties.len()
            invariant
                0 <= k <= self.penalties@.len(),
                self.penalties@ == pens0,
                old(self).wf(),
                pens0 == old(self).penalties@,
                self.flagged@ == old(self).flagged@,
                forall|i: int| 0 <= i < k ==> self.penalties@[i].0@ != id@,
            decreases self.penalties@.len() - k,
        {
            if self.penalties[k].0 == *id {
                proof {
                    lemma_penalty_at_index(pens0, id@, k as int);
                }
                let bumped = if self.penalties[k].1 > u64::MAX - amount {
                    u64::MAX
                } else {
                    self.penalties[k].1 + amount
                };
                self.penalties[k].1 = bumped;
                proof {
                    lemma_penalty_at_index(self.penalties@, id@, k as int);
                    lemma_penalty_update_other(pens0, self.penalties@, id@, k as int);
                }
                return ;
            }
            k = k + 1;
        }
        self.penalties.push((id.clone(), amount));
        proof {
            lemma_penalty_absent(pens0, id@);
            let after = self.penalties@;
            assert(after.drop_last() =~= pens0);
            assert(after.last().0@ == id@);
            assert forall|other: Seq<char>| other != id@ implies penalty_of(after, other)
                == penalty_of(pens0, other) by {
                assert(after.last().0@ != other);
            }
            assert forall|i: int, j: int| 0 <= i < j < after.len() implies after[i].0@
                != after[j].0@ by {
                if j == after.len() - 1 {
                    assert(pens0[i].0@ != id@);
                }
            }
        }
    }
}

/// In a ledger with unique penalty keys, the counter of the key held at
/// index `k` reads back exactly that entry's value.
proof fn lemma_penalty_at_index(penalties: Seq<(String, u64)>, id: Seq<char>, k: int)
    requires
        0 <= k < penalties.len(),
        penalties[k].0@ == id,
        forall|i: int, j: int| 0 <= i < j < penalties.len() ==> penalties[i].0@ != penalties[j].0@,
    ensures
        penalty_of(penalties, id) == penalties[k].1 as int,
    decreases penalties.len(),
{
    if k == penalties.len() - 1 {
    } else {
        assert(penalties.last().0@ != id);
        lemma_penalty_at_index(penalties.drop_last(), id, k);
    }
}

/// An identity that appears under no penalty entry stands at zero.
proof fn lemma_penalty_absent(penalties: Seq<(String, u64)>, id: Seq<char>)
    requires
        forall|i: int| 0 <= i < penalties.len() ==> penalties[i].0@ != id,
    ensures
        penalty_of(penalties, id) == 0,
    decreases penalties.len(),
{
    if penalties.len() > 0 {
        lemma_penalty_absent(penalties.drop_last(), id);
    }
}

/// Updating the value at one index leaves every other key's counter
/// unchanged.
proof fn lemma_penalty_update_other(
    before: Seq<(String, u64)>,
    after: Seq<(String, u64)>,
    id: Seq<char>,
    k: int,
)
    requires
        0 <= k < before.len(),
        after.len() == before.len(),
        before[k].0@ == id,
        after[k].0 == before[k].0,
        forall|i: int| 0 <= i < before.len() && i != k ==> after[i] == before[i],
    ensures
        forall|other: Seq<char>|
            other != id ==> penalty_of(after, other) == penalty_of(before, other),
    decreases before.len(),
{
    assert forall|other: Seq<char>| other != id implies penalty_of(after, other) == penalty_of(
        before,
        other,
    ) by {
        lemma_penalty_pointwise(before, after, other, k, id);
    }
}

/// The recursion behind `lemma_penalty_update_other`, one key at a time.
proof fn lemma_penalty_pointwise(
    before: Seq<(String, u64)>,
    after: Seq<(String, u64)>,
    other: Seq<char>,
    k: int,
    id: Seq<char>,
)
    requires
        0 <= k < before.len(),
        after.len() == before.len(),
        before[k].0@ == id,
        after[k].0 == before[k].0,
        other != id,
        forall|i: int| 0 <= i < before.len() && i != k ==> after[i] == before[i],
    ensures
        penalty_of(after, other) == penalty_of(before, other),
    decreases before.len(),
{
    if before.len() == 0 {
    } else if k == before.len() - 1 {
        assert(after.last().0@ == id);
        assert(before.last().0@ == id);
        assert(after.drop_last() =~= before.drop_last());
    } else {
        assert(after.last() == before.last());
        if after.last().0@ == other {
        } else {
            assert(forall|i: int|
                0 <= i < before.drop_last().len() && i != k ==> after.drop_last()[i]
                    == before.drop_last()[i]);
            lemma_penalty_pointwise(before.drop_last(), after.drop_last(), other, k, id);
        }
    }
}

} // verus!
