use vstd::prelude::*;

verus! {

/// Why the ledger refused a submission.
#[derive(Debug, Clone, Copy, PartialEq, Eq, Structural)]
pub enum SubmissionError {
    /// The reporter already holds a position for this round.
    DuplicateSubmission,
}

/// Per-round, per-reporter submission record. The reporter and round are the
/// key under which the record is stored, not part of the record itself.
#[derive(Debug, Clone, Copy, PartialEq, Eq)]
pub struct StoredSubmission {
    /// Arrival ordinal of this submission within its round, starting at 0;
    /// immutable once assigned.
    pub pos: u16,
    /// Chain time of the submission, in nanoseconds.
    pub time: u64,
    /// Chain height of the submission.
    pub height: u64,
    /// Index of the submission's transaction inside its block, if known.
    pub tx_index: Option<u32>,
}

/// One ledger row: the key (round, reporter) and the stored record.
pub struct SubmissionEntry {
    pub round: u64,
    pub reporter: String,
    pub sub: StoredSubmission,
}

/// Arrival-ordered ledger of who submitted for which round, used for
/// duplicate detection and fair, deterministic ordering.
pub struct SubmissionLedger {
    /// All accepted submissions, in arrival order across rounds.
    pub entries: Vec<SubmissionEntry>,
}

/// The records of `round`, in arrival order.
pub open spec fn subs_for_round(s: Seq<SubmissionEntry>, round: u64) -> Seq<StoredSubmission>
    decreases s.len(),
{
    if s.len() == 0 {
        Seq::empty()
    } else if s.last().round == round {
        subs_for_round(s.drop_last(), round).push(s.last().sub)
    } else {
        subs_for_round(s.drop_last(), round)
    }
}

/// How many submissions `round` has received.
pub open spec fn count_matching(s: Seq<SubmissionEntry>, round: u64) -> nat {
    subs_for_round(s, round).len()
}

impl SubmissionLedger {
    /// Each position is the number of earlier submissions for the same round.
    pub open spec fn positions_wf(&self) -> bool {
        forall|i: int|
            0 <= i < self.entries@.len() ==> (#[trigger] self.entries@[i].sub.pos)
                == count_matching(self.entries@.take(i), self.entries@[i].round)
    }

    /// A reporter holds at most one position per round.
    pub open spec fn keys_unique(&self) -> bool {
        forall|i: int, j: int|
            0 <= i < j < self.entries@.len() && (#[trigger] self.entries@[i].round)
                == (#[trigger] self.entries@[j].round) ==> self.entries@[i].reporter@
                != self.entries@[j].reporter@
    }

    pub open spec fn wf(&self) -> bool {
        &&& self.positions_wf()
        &&& self.keys_unique()
    }

    /// Whether `(round, reporter)` is already on the ledger.
    pub open spec fn has_submission(&self, round: u64, reporter: Seq<char>) -> bool {
        exists|i: int|
            0 <= i < self.entries@.len() && (#[trigger] self.entries@[i].round) == round
                && self.entries@[i].reporter@ == reporter
    }

    pub fn new() -> (ledger: Self)
        ensures
            ledger.wf(),
            ledger.entries@.len() == 0,
    {
        SubmissionLedger { entries: Vec::new() }
    }

    /// A prefix of the ledger never holds more submissions for a round than
    /// the whole ledger.
    pub proof fn lemma_count_prefix_le(s: Seq<SubmissionEntry>, round: u64, i: int)
        requires
            0 <= i <= s.len(),
        ensures
            count_matching(s.take(i), round) <= count_matching(s, round),
        decreases s.len(),
    {
        if i == s.len() {
            assert(s.take(i) =~= s);
        } else if s.len() > 0 {
            assert(forall|k: int|
                0 <= k < s.len() - 1 ==> #[trigger] s.drop_last()[k] == s[k]);
            assert(s.drop_last().take(i) =~= s.take(i));
            Self::lemma_count_prefix_le(s.drop_last(), round, i);
        }
    }

    /// Whether `(round, reporter)` is already on the ledger.
    pub fn contains(&self, round: u64, reporter: &String) -> (present: bool)
        ensures
            present == self.has_submission(round, reporter@),
    {
        let mut i: usize = 0;
        while i < self.entries.len()
            invariant
                i <= self.entries@.len(),
                forall|j: int|
                    0 <= j < i ==> !((#[trigger] self.entries@[j].round) == round
                        && self.entries@[j].reporter@ == reporter@),
            decreases self.entries@.len() - i,
        {
            if self.entries[i].round == round && self.entries[i].reporter == *reporter {
                return true;
            }
            i += 1;
        }
        false
    }

    /// Record a submission of `reporter` for `round`, assigning the next
    /// position for that round; a second submission under the same key is
    /// rejected and leaves the ledger, including the round's count, unchanged.
    pub fn record(
        &mut self,
        round: u64,
        reporter: &String,
        time: u64,
        height: u64,
        tx_index: Option<u32>,
    ) -> (recorded: Result<StoredSubmission, SubmissionError>)
        requires
            old(self).wf(),
            count_matching(old(self).entries@, round) < u16::MAX,
        ensures
            final(self).wf(),
            old(self).has_submission(round, reporter@) ==> recorded == Err::<
                StoredSubmission,
                SubmissionError,
            >(SubmissionError::DuplicateSubmission) && final(self).entries@ == old(
                self,
            ).entries@,
            !old(self).has_submission(round, reporter@) ==> {
                &&& recorded == Ok::<StoredSubmission, SubmissionError>(
                    (StoredSubmission {
                        pos: count_matching(old(self).entries@, round) as u16,
                        time,
                        height,
                        tx_index,
                    }),
                )
                &&& final(self).entries@.len() == old(self).entries@.len() + 1
                &&& final(self).entries@.drop_last() == old(self).entries@
                &&& final(self).entries@.last().round == round
                &&& final(self).entries@.last().reporter@ == reporter@
                &&& final(self).entries@.last().sub == (StoredSubmission {
                    pos: count_matching(old(self).entries@, round) as u16,
                    time,
                    height,
                    tx_index,
                })
            },
    {
        let mut i: usize = 0;
        while i < self.entries.len()
            invariant
                *self == *old(self),
                self.wf(),
                count_matching(self.entries@, round) < u16::MAX,
                i <= self.entries@.len(),
                forall|j: int|
                    0 <= j < i ==> !((#[trigger] self.entries@[j].round) == round
                        && self.entries@[j].reporter@ == reporter@),
            decreases self.entries@.len() - i,
        {
            if self.entries[i].round == round && self.entries[i].reporter == *reporter {
                return Err(SubmissionError::DuplicateSubmission);
            }
            i += 1;
        }
        let pos = self.count_for_round(round);
        let sub = StoredSubmission { pos, time, height, tx_index };
        let entry = SubmissionEntry { round, reporter: reporter.clone(), sub };
        let ghost pre = self.entries@;
        self.entries.push(entry);
        proof {
            assert(self.entries@.drop_last() =~= pre);
            assert forall|i2: int|
                0 <= i2 < self.entries@.len() implies (#[trigger] self.entries@[i2].sub.pos)
                == count_matching(self.entries@.take(i2), self.entries@[i2].round) by {
                assert(self.entries@.take(i2) =~= pre.take(i2));
                if i2 < pre.len() {
                    assert(self.entries@[i2] == pre[i2]);
                } else {
                    assert(self.entries@.take(i2) =~= pre);
                }
            }
        }
        Ok(sub)
    }

    /// Current number of submissions for `round`: the next position.
    pub fn count_for_round(&self, round: u64) -> (count: u16)
        requires
            count_matching(self.entries@, round) <= u16::MAX,
        ensures
            count == count_matching(self.entries@, round),
    {
        let mut count: u16 = 0;
        let mut i: usize = 0;
        proof {
            assert(self.entries@.take(0) =~= Seq::<SubmissionEntry>::empty());
        }
        while i < self.entries.len()
            invariant
                i <= self.entries@.len(),
                count == count_matching(self.entries@.take(i as int), round),
                count_matching(self.entries@, round) <= u16::MAX,
            decreases self.entries@.len() - i,
        {
            proof {
                assert(self.entries@.take(i + 1).drop_last() =~= self.entries@.take(i as int));
                assert(self.entries@.take(i + 1).last() == self.entries@[i as int]);
                Self::lemma_count_prefix_le(self.entries@, round, i + 1);
            }
            if self.entries[i].round == round {
                count += 1;
            }
            i += 1;
        }
        proof {
            assert(self.entries@.take(self.entries@.len() as int) =~= self.entries@);
        }
        count
    }

    /// The records of `round` in arrival order: their positions are exactly
    /// 0, 1, ... in that order.
    pub fn list_for_round(&self, round: u64) -> (out: Vec<StoredSubmission>)
        requires
            self.wf(),
        ensures
            out@ == subs_for_round(self.entries@, round),
            forall|k: int| 0 <= k < out@.len() ==> (#[trigger] out@[k].pos) == k,
    {
        let mut out: Vec<StoredSubmission> = Vec::new();
        let mut i: usize = 0;
        proof {
            assert(self.entries@.take(0) =~= Seq::<SubmissionEntry>::empty());
        }
        while i < self.entries.len()
            invariant
                i <= self.entries@.len(),
                out@ == subs_for_round(self.entries@.take(i as int), round),
            decreases self.entries@.len() - i,
        {
            proof {
                assert(self.entries@.take(i + 1).drop_last() =~= self.entries@.take(i as int));
                assert(self.entries@.take(i + 1).last() == self.entries@[i as int]);
            }
            if self.entries[i].round == round {
                out.push(self.entries[i].sub);
            }
            i += 1;
        }
        proof {
            assert(self.entries@.take(self.entries@.len() as int) =~= self.entries@);
            Self::lemma_positions_in_order(self.entries@, round);
        }
        out
    }

    /// Arrival order is position order: on a well-formed ledger the k-th
    /// record of a round carries position k.
    pub proof fn lemma_positions_in_order(s: Seq<SubmissionEntry>, round: u64)
        requires
            forall|i: int|
                0 <= i < s.len() ==> (#[trigger] s[i].sub.pos) == count_matching(
                    s.take(i),
                    s[i].round,
                ),
        ensures
            forall|k: int|
                0 <= k < subs_for_round(s, round).len() ==> (#[trigger] subs_for_round(
                    s,
                    round,
                )[k].pos) == k,
        decreases s.len(),
    {
        if s.len() > 0 {
            let t = s.drop_last();
            assert(forall|k: int| 0 <= k < t.len() ==> #[trigger] t[k] == s[k]);
            assert forall|i: int|
                0 <= i < t.len() implies (#[trigger] t[i].sub.pos) == count_matching(
                t.take(i),
                t[i].round,
            ) by {
                assert(t.take(i) =~= s.take(i));
            }
            Self::lemma_positions_in_order(t, round);
            if s.last().round == round {
                assert(s.take(s.len() - 1) =~= t);
                assert(s.last().sub.pos == count_matching(t, round));
            }
        }
    }

    /// At most one record exists per (round, reporter): two indexes that
    /// agree on the key are the same index.
    pub proof fn lemma_submission_unique(&self, round: u64, reporter: Seq<char>, i: int, j: int)
        requires
            self.wf(),
            0 <= i < self.entries@.len(),
            0 <= j < self.entries@.len(),
            self.entries@[i].round == round,
            self.entries@[j].round == round,
            self.entries@[i].reporter@ == reporter,
            self.entries@[j].reporter@ == reporter,
        ensures
            i == j,
    {
    }
}

} // verus!
