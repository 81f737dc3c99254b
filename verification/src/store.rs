use vstd::prelude::*;
use crate::beacon::{digest_eq, QueriedBeacon, RandomnessDigest, VerifiedBeacon};
use crate::clock::RoundClock;

verus! {

/// Largest number of rows one listing call may return; also the default when
/// the caller gives no limit.
pub const MAX_QUERY_LIMIT: u32 = 100;

/// Direction of a listing over the round-ordered table.
#[derive(Debug, Clone, Copy, PartialEq, Eq, Structural)]
pub enum Order {
    Ascending,
    Descending,
}

/// Outcome of a successful verify-and-store call.
#[derive(Debug, Clone, Copy, PartialEq, Eq, Structural)]
pub enum VerificationOutcome {
    /// This call moved the round from absent to present.
    NewlyVerified,
    /// The round was present with the same digest; nothing changed.
    AlreadyVerified,
}

/// Rejections of a submission at the store.
#[derive(Debug, Clone, Copy, PartialEq, Eq, Structural)]
pub enum BeaconError {
    /// The round lies below the configured floor.
    RoundTooLow,
    /// The round is present with a different digest; values are write-once.
    VerificationConflict,
    /// The signature material failed cryptographic verification.
    InvalidSignature,
}

/// One row of the beacon table.
pub struct BeaconEntry {
    pub round: u64,
    pub beacon: VerifiedBeacon,
}

impl Clone for BeaconEntry {
    fn clone(&self) -> (other: Self)
        ensures
            other == *self,
    {
        BeaconEntry { round: self.round, beacon: self.beacon }
    }
}

impl Copy for BeaconEntry {

}

/// Durable table of verified randomness, keyed by round and kept in ascending
/// round order, together with the lowest acceptable round and the publication
/// schedule used for derived display fields.
pub struct BeaconStore {
    pub clock: RoundClock,
    /// Rounds below this floor are rejected, bounding growth to the useful
    /// horizon.
    pub min_round: u64,
    /// Rows in strictly ascending round order.
    pub entries: Vec<BeaconEntry>,
}

impl BeaconStore {
    pub open spec fn sorted(&self) -> bool {
        forall|i: int, j: int|
            0 <= i < j < self.entries@.len() ==> self.entries@[i].round < self.entries@[j].round
    }

    pub open spec fn wf(&self) -> bool {
        &&& self.clock.wf()
        &&& self.min_round >= 1
        &&& self.sorted()
        &&& forall|i: int|
            0 <= i < self.entries@.len() ==> (#[trigger] self.entries@[i].round)
                >= self.min_round
        &&& forall|i: int|
            0 <= i < self.entries@.len() ==> self.clock.spec_publish_time(
                #[trigger] self.entries@[i].round,
            ) <= u64::MAX
    }

    pub open spec fn contains_round(&self, round: u64) -> bool {
        exists|i: int|
            0 <= i < self.entries@.len() && (#[trigger] self.entries@[i].round) == round
    }

    pub open spec fn round_index(&self, round: u64) -> int {
        choose|i: int|
            0 <= i < self.entries@.len() && (#[trigger] self.entries@[i].round) == round
    }

    /// The stored beacon of a present round.
    pub open spec fn beacon_for(&self, round: u64) -> VerifiedBeacon {
        self.entries@[self.round_index(round)].beacon
    }

    /// In a sorted table an index holding `round` is the one `round_index`
    /// denotes.
    pub proof fn lemma_round_index_is(&self, round: u64, i: int)
        requires
            self.sorted(),
            0 <= i < self.entries@.len(),
            self.entries@[i].round == round,
        ensures
            self.contains_round(round),
            self.round_index(round) == i,
    {
        assert(self.contains_round(round));
        let j = self.round_index(round);
        if j < i {
            assert(self.entries@[j].round < self.entries@[i].round);
        } else if j > i {
            assert(self.entries@[i].round < self.entries@[j].round);
        }
    }

    pub fn new(clock: RoundClock, min_round: u64) -> (store: Self)
        requires
            clock.wf(),
            min_round >= 1,
        ensures
            store.wf(),
            store.clock == clock,
            store.min_round == min_round,
            store.entries@.len() == 0,
    {
        BeaconStore { clock, min_round, entries: Vec::new() }
    }

    /// First index whose round is at or above `round`; `len` if none is.
    fn find_at_or_above(&self, round: u64) -> (idx: usize)
        requires
            self.sorted(),
        ensures
            idx <= self.entries@.len(),
            forall|i: int| 0 <= i < idx ==> (#[trigger] self.entries@[i].round) < round,
            forall|i: int|
                idx <= i < self.entries@.len() ==> (#[trigger] self.entries@[i].round) >= round,
    {
        let mut i: usize = 0;
        while i < self.entries.len()
            invariant
                i <= self.entries@.len(),
                self.sorted(),
                forall|j: int| 0 <= j < i ==> (#[trigger] self.entries@[j].round) < round,
            decreases self.entries@.len() - i,
        {
            if self.entries[i].round >= round {
                return i;
            }
            i += 1;
        }
        i
    }

    /// First index whose round is strictly above `round`; `len` if none is.
    fn find_above(&self, round: u64) -> (idx: usize)
        requires
            self.sorted(),
        ensures
            idx <= self.entries@.len(),
            forall|i: int| 0 <= i < idx ==> (#[trigger] self.entries@[i].round) <= round,
            forall|i: int|
                idx <= i < self.entries@.len() ==> (#[trigger] self.entries@[i].round) > round,
    {
        let mut i: usize = 0;
        while i < self.entries.len()
            invariant
                i <= self.entries@.len(),
                self.sorted(),
                forall|j: int| 0 <= j < i ==> (#[trigger] self.entries@[j].round) <= round,
            decreases self.entries@.len() - i,
        {
            if self.entries[i].round > round {
                return i;
            }
            i += 1;
        }
        i
    }

    /// Look a round up and build its read-only projection.
    pub fn get(&self, round: u64) -> (found: Option<QueriedBeacon>)
        requires
            self.wf(),
        ensures
            match found {
                Some(queried) => self.contains_round(round) && queried.round == round
                    && queried.published == self.clock.spec_publish_time(round)
                    && queried.verified == self.beacon_for(round).verified
                    && queried.randomness == self.beacon_for(round).randomness,
                None => !self.contains_round(round),
            },
    {
        let idx = self.find_at_or_above(round);
        if idx < self.entries.len() && self.entries[idx].round == round {
            proof {
                self.lemma_round_index_is(round, idx as int);
            }
            Some(QueriedBeacon::make(self.entries[idx].beacon, round, &self.clock))
        } else {
            proof {
                assert forall|i: int|
                    0 <= i < self.entries@.len() implies self.entries@[i].round != round by {
                    if i >= idx && idx < self.entries@.len() && i != idx {
                        assert(self.entries@[idx as int].round < self.entries@[i].round);
                    }
                }
            }
            None
        }
    }

    /// The verdict verify-and-store reaches on this table, as a function of
    /// the table alone: the floor first, then write-once checks on a present
    /// round, then the cryptographic verdict.
    pub open spec fn spec_verify_outcome(
        &self,
        round: u64,
        digest: RandomnessDigest,
        sig_ok: bool,
    ) -> Result<VerificationOutcome, BeaconError> {
        if round < self.min_round {
            Err(BeaconError::RoundTooLow)
        } else if self.contains_round(round) {
            if self.beacon_for(round).randomness == digest {
                Ok(VerificationOutcome::AlreadyVerified)
            } else {
                Err(BeaconError::VerificationConflict)
            }
        } else if !sig_ok {
            Err(BeaconError::InvalidSignature)
        } else {
            Ok(VerificationOutcome::NewlyVerified)
        }
    }

    /// Verification is idempotent: once a round's digest is stored, a
    /// resubmission of the same digest is answered `AlreadyVerified` whatever
    /// the cryptographic verdict — and, by this type's contracts, such a call
    /// leaves the table unchanged.
    pub proof fn lemma_verify_idempotent(
        &self,
        round: u64,
        digest: RandomnessDigest,
        sig_ok: bool,
    )
        requires
            round >= self.min_round,
            self.contains_round(round),
            self.beacon_for(round).randomness == digest,
        ensures
            self.spec_verify_outcome(round, digest, sig_ok) == Ok::<
                VerificationOutcome,
                BeaconError,
            >(VerificationOutcome::AlreadyVerified),
    {
    }

    /// Stored values are write-once: a differing digest for a verified round
    /// is refused as a conflict whatever the cryptographic verdict — and, by
    /// this type's contracts, such a call leaves the stored beacon unchanged.
    pub proof fn lemma_verify_conflict(&self, round: u64, digest: RandomnessDigest, sig_ok: bool)
        requires
            round >= self.min_round,
            self.contains_round(round),
            self.beacon_for(round).randomness != digest,
        ensures
            self.spec_verify_outcome(round, digest, sig_ok) == Err::<
                VerificationOutcome,
                BeaconError,
            >(BeaconError::VerificationConflict),
    {
    }

    /// Turn an incoming submission for `round` into the table's reaction:
    /// reject rounds below the floor, treat an identical replay as a no-op,
    /// refuse to overwrite a present round with a different digest, refuse
    /// unverifiable material, and otherwise store the new row. `sig_ok` is the
    /// verdict of the external cryptographic capability on the submitted
    /// material; `digest` is that material's content digest; `now` is the
    /// chain time. The table changes only in the newly-verified case.
    pub fn verify_and_store(
        &mut self,
        round: u64,
        digest: RandomnessDigest,
        sig_ok: bool,
        now: u64,
    ) -> (outcome: Result<VerificationOutcome, BeaconError>)
        requires
            old(self).wf(),
            round >= old(self).min_round ==> old(self).clock.spec_publish_time(round)
                <= u64::MAX,
        ensures
            final(self).wf(),
            final(self).clock == old(self).clock,
            final(self).min_round == old(self).min_round,
            outcome == old(self).spec_verify_outcome(round, digest, sig_ok),
            round < old(self).min_round
                ==> outcome == Err::<VerificationOutcome, BeaconError>(BeaconError::RoundTooLow)
                    && final(self).entries@ == old(self).entries@,
            round >= old(self).min_round && old(self).contains_round(round)
                && old(self).beacon_for(round).randomness == digest
                ==> outcome == Ok::<VerificationOutcome, BeaconError>(
                    VerificationOutcome::AlreadyVerified,
                ) && final(self).entries@ == old(self).entries@,
            round >= old(self).min_round && old(self).contains_round(round)
                && old(self).beacon_for(round).randomness != digest
                ==> outcome == Err::<VerificationOutcome, BeaconError>(
                    BeaconError::VerificationConflict,
                ) && final(self).entries@ == old(self).entries@,
            round >= old(self).min_round && !old(self).contains_round(round) && !sig_ok
                ==> outcome == Err::<VerificationOutcome, BeaconError>(
                    BeaconError::InvalidSignature,
                ) && final(self).entries@ == old(self).entries@,
            round >= old(self).min_round && !old(self).contains_round(round) && sig_ok ==> {
                &&& outcome == Ok::<VerificationOutcome, BeaconError>(
                    VerificationOutcome::NewlyVerified,
                )
                &&& final(self).entries@.len() == old(self).entries@.len() + 1
                &&& final(self).contains_round(round)
                &&& final(self).beacon_for(round) == (VerifiedBeacon {
                    verified: now,
                    randomness: digest,
                })
                &&& forall|q: u64|
                    q != round
                        ==> (#[trigger] final(self).contains_round(q))
                            == old(self).contains_round(q)
                &&& forall|q: u64|
                    q != round && old(self).contains_round(q)
                        ==> (#[trigger] final(self).beacon_for(q)) == old(self).beacon_for(q)
            },
    {
        if round < self.min_round {
            return Err(BeaconError::RoundTooLow);
        }
        let idx = self.find_at_or_above(round);
        if idx < self.entries.len() && self.entries[idx].round == round {
            proof {
                self.lemma_round_index_is(round, idx as int);
            }
            if digest_eq(&self.entries[idx].beacon.randomness, &digest) {
                proof {
                    assert(self.beacon_for(round).randomness =~= digest);
                }
                Ok(VerificationOutcome::AlreadyVerified)
            } else {
                Err(BeaconError::VerificationConflict)
            }
        } else {
            proof {
                assert forall|i: int|
                    0 <= i < self.entries@.len() implies self.entries@[i].round != round by {
                    if i >= idx && idx < self.entries@.len() && i != idx {
                        assert(self.entries@[idx as int].round < self.entries@[i].round);
                    }
                }
            }
            if !sig_ok {
                return Err(BeaconError::InvalidSignature);
            }
            let entry = BeaconEntry {
                round,
                beacon: VerifiedBeacon { verified: now, randomness: digest },
            };
            let ghost pre = *self;
            self.entries.insert(idx, entry);
            proof {
                pre.entries@.insert_ensures(idx as int, entry);
                self.lemma_after_insert(pre, round, entry, idx as int);
            }
            Ok(VerificationOutcome::NewlyVerified)
        }
    }

    /// The suffix of the round-ordered table that lies strictly after the
    /// cursor; with no cursor, the whole table.
    pub open spec fn select_after(s: Seq<BeaconEntry>, start_after: Option<u64>) -> Seq<
        BeaconEntry,
    >
        decreases s.len(),
    {
        match start_after {
            Option::None => s,
            Option::Some(c) => if s.len() == 0 {
                s
            } else if s[0].round > c {
                s
            } else {
                Self::select_after(s.skip(1), start_after)
            },
        }
    }

    /// The prefix of the round-ordered table that lies strictly before the
    /// cursor; with no cursor, the whole table.
    pub open spec fn select_before(s: Seq<BeaconEntry>, start_after: Option<u64>) -> Seq<
        BeaconEntry,
    >
        decreases s.len(),
    {
        match start_after {
            Option::None => s,
            Option::Some(c) => if s.len() == 0 {
                s
            } else if s.last().round < c {
                s
            } else {
                Self::select_before(s.drop_last(), start_after)
            },
        }
    }

    /// The per-call row cap: the caller's limit, bounded by
    /// [`MAX_QUERY_LIMIT`], which is also the default.
    pub open spec fn effective_limit(limit: Option<u32>) -> int {
        match limit {
            Option::None => MAX_QUERY_LIMIT as int,
            Option::Some(l) => if l > MAX_QUERY_LIMIT {
                MAX_QUERY_LIMIT as int
            } else {
                l as int
            },
        }
    }

    /// Read-only projection of one row.
    pub open spec fn spec_queried(&self, e: BeaconEntry) -> QueriedBeacon {
        QueriedBeacon {
            round: e.round,
            published: self.clock.spec_publish_time(e.round) as u64,
            verified: e.beacon.verified,
            randomness: e.beacon.randomness,
        }
    }

    /// What a listing returns: walk away from the exclusive cursor in the
    /// given direction, at most `effective_limit` rows, each projected for
    /// reading.
    pub open spec fn spec_list(
        &self,
        order: Order,
        start_after: Option<u64>,
        limit: Option<u32>,
    ) -> Seq<QueriedBeacon> {
        let eff = Self::effective_limit(limit);
        let sel = match order {
            Order::Ascending => Self::select_after(self.entries@, start_after),
            Order::Descending => Self::select_before(self.entries@, start_after).reverse(),
        };
        let cut = if eff <= sel.len() {
            eff
        } else {
            sel.len() as int
        };
        sel.take(cut).map_values(|e: BeaconEntry| self.spec_queried(e))
    }

    /// On a sorted table, walking past the cursor is dropping the prefix at or
    /// below it.
    proof fn lemma_select_after_is_skip(s: Seq<BeaconEntry>, c: u64, idx: int)
        requires
            0 <= idx <= s.len(),
            forall|i: int| 0 <= i < idx ==> (#[trigger] s[i].round) <= c,
            forall|i: int| idx <= i < s.len() ==> (#[trigger] s[i].round) > c,
        ensures
            Self::select_after(s, Option::Some(c)) == s.skip(idx),
        decreases idx,
    {
        if s.len() == 0 || idx == 0 {
            assert(s.skip(0) =~= s);
        } else {
            assert(s[0].round <= c);
            assert(forall|i: int| 0 <= i < s.len() - 1 ==> #[trigger] s.skip(1)[i] == s[i + 1]);
            Self::lemma_select_after_is_skip(s.skip(1), c, idx - 1);
            assert(s.skip(1).skip(idx - 1) =~= s.skip(idx));
        }
    }

    /// On a sorted table, walking back from the cursor is keeping the prefix
    /// below it.
    proof fn lemma_select_before_is_take(s: Seq<BeaconEntry>, c: u64, idx: int)
        requires
            0 <= idx <= s.len(),
            forall|i: int| 0 <= i < idx ==> (#[trigger] s[i].round) < c,
            forall|i: int| idx <= i < s.len() ==> (#[trigger] s[i].round) >= c,
        ensures
            Self::select_before(s, Option::Some(c)) == s.take(idx),
        decreases s.len(),
    {
        if s.len() == 0 {
            assert(s.take(0) =~= s);
        } else if idx == s.len() {
            assert(s.last().round < c);
            assert(s.take(idx) =~= s);
        } else {
            assert(s.last().round >= c);
            assert(forall|i: int|
                0 <= i < s.len() - 1 ==> #[trigger] s.drop_last()[i] == s[i]);
            Self::lemma_select_before_is_take(s.drop_last(), c, idx);
            assert(s.drop_last().take(idx) =~= s.take(idx));
        }
    }

    /// List stored beacons from the exclusive `start_after` cursor on, in the
    /// given direction, returning at most `limit` rows (capped at
    /// [`MAX_QUERY_LIMIT`], which is also the default).
    pub fn list_beacons(
        &self,
        order: Order,
        start_after: Option<u64>,
        limit: Option<u32>,
    ) -> (out: Vec<QueriedBeacon>)
        requires
            self.wf(),
        ensures
            out@ == self.spec_list(order, start_after, limit),
    {
        let eff: usize = match limit {
            None => MAX_QUERY_LIMIT as usize,
            Some(l) => if l > MAX_QUERY_LIMIT {
                MAX_QUERY_LIMIT as usize
            } else {
                l as usize
            },
        };
        proof {
            assert(Self::effective_limit(limit) == eff);
        }
        let mut out: Vec<QueriedBeacon> = Vec::new();
        match order {
            Order::Ascending => {
                let start = match start_after {
                    None => 0usize,
                    Some(c) => self.find_above(c),
                };
                proof {
                    match start_after {
                        Option::None => {
                            assert(self.entries@.skip(0) =~= self.entries@);
                        },
                        Option::Some(c) => {
                            Self::lemma_select_after_is_skip(self.entries@, c, start as int);
                        },
                    }
                    assert(Self::select_after(self.entries@, start_after) == self.entries@.skip(
                        start as int,
                    ));
                }
                let mut i: usize = start;
                while i < self.entries.len() && out.len() < eff
                    invariant
                        self.wf(),
                        start <= i <= self.entries@.len(),
                        out@.len() == i - start,
                        out@.len() <= eff,
                        forall|k: int|
                            0 <= k < out@.len() ==> #[trigger] out@[k] == self.spec_queried(
                                self.entries@[start + k],
                            ),
                    decreases self.entries@.len() - i,
                {
                    let e = self.entries[i];
                    out.push(QueriedBeacon::make(e.beacon, e.round, &self.clock));
                    i += 1;
                }
                proof {
                    let sel = self.entries@.skip(start as int);
                    let cut = out@.len() as int;
                    assert(cut == Self::effective_limit(limit) || cut == sel.len());
                    assert(out@ =~= self.spec_list(order, start_after, limit));
                }
            },
            Order::Descending => {
                let stop = match start_after {
                    None => self.entries.len(),
                    Some(c) => self.find_at_or_above(c),
                };
                proof {
                    match start_after {
                        Option::None => {
                            assert(self.entries@.take(self.entries@.len() as int)
                                =~= self.entries@);
                        },
                        Option::Some(c) => {
                            Self::lemma_select_before_is_take(self.entries@, c, stop as int);
                        },
                    }
                    assert(Self::select_before(self.entries@, start_after) == self.entries@.take(
                        stop as int,
                    ));
                }
                let mut i: usize = stop;
                while i > 0 && out.len() < eff
                    invariant
                        self.wf(),
                        0 <= i <= stop <= self.entries@.len(),
                        out@.len() == stop - i,
                        out@.len() <= eff,
                        forall|k: int|
                            0 <= k < out@.len() ==> #[trigger] out@[k] == self.spec_queried(
                                self.entries@[stop - 1 - k],
                            ),
                    decreases i,
                {
                    i -= 1;
                    let e = self.entries[i];
                    out.push(QueriedBeacon::make(e.beacon, e.round, &self.clock));
                }
                proof {
                    let sel = self.entries@.take(stop as int).reverse();
                    let cut = out@.len() as int;
                    assert(sel.len() == stop);
                    assert(cut == Self::effective_limit(limit) || cut == sel.len());
                    assert(forall|k: int| 0 <= k < stop ==> #[trigger] sel[k]
                        == self.entries@[stop - 1 - k]);
                    assert(out@ =~= self.spec_list(order, start_after, limit));
                }
            },
        }
        out
    }

    /// Consequences of inserting a fresh round at its sorted position.
    proof fn lemma_after_insert(&self, pre: Self, round: u64, entry: BeaconEntry, idx: int)
        requires
            pre.wf(),
            round >= pre.min_round,
            pre.clock.spec_publish_time(round) <= u64::MAX,
            entry.round == round,
            0 <= idx <= pre.entries@.len(),
            forall|i: int| 0 <= i < idx ==> (#[trigger] pre.entries@[i].round) < round,
            forall|i: int|
                idx <= i < pre.entries@.len() ==> (#[trigger] pre.entries@[i].round) > round,
            self.clock == pre.clock,
            self.min_round == pre.min_round,
            self.entries@ == pre.entries@.insert(idx, entry),
        ensures
            self.wf(),
            self.contains_round(round),
            self.beacon_for(round) == entry.beacon,
            forall|q: u64|
                q != round ==> (#[trigger] self.contains_round(q)) == pre.contains_round(q),
            forall|q: u64|
                q != round && pre.contains_round(q) ==> (#[trigger] self.beacon_for(q))
                    == pre.beacon_for(q),
    {
        pre.entries@.insert_ensures(idx, entry);
        let n = pre.entries@.len() as int;
        assert(self.entries@.len() == n + 1);
        assert forall|i: int, j: int|
            0 <= i < j < self.entries@.len() implies self.entries@[i].round
            < self.entries@[j].round by {
            if j < idx {
                assert(self.entries@[i] == pre.entries@[i]);
                assert(self.entries@[j] == pre.entries@[j]);
            } else if j == idx {
                assert(self.entries@[i] == pre.entries@[i]);
            } else if i < idx {
                assert(self.entries@[i] == pre.entries@[i]);
                assert(self.entries@[j] == pre.entries@[j - 1]);
                if i < j - 1 {
                } else {
                }
            } else if i == idx {
                assert(self.entries@[j] == pre.entries@[j - 1]);
            } else {
                assert(self.entries@[i] == pre.entries@[i - 1]);
                assert(self.entries@[j] == pre.entries@[j - 1]);
            }
        }
        assert forall|i: int|
            0 <= i < self.entries@.len() implies (#[trigger] self.entries@[i].round)
            >= self.min_round && self.clock.spec_publish_time(self.entries@[i].round)
            <= u64::MAX by {
            if i < idx {
                assert(self.entries@[i] == pre.entries@[i]);
            } else if i > idx {
                assert(self.entries@[i] == pre.entries@[i - 1]);
            }
        }
        self.lemma_round_index_is(round, idx);
        assert forall|q: u64|
            q != round implies (#[trigger] self.contains_round(q)) == pre.contains_round(
            q,
        ) by {
            if pre.contains_round(q) {
                let i = pre.round_index(q);
                if i < idx {
                    assert(self.entries@[i].round == q);
                } else {
                    assert(self.entries@[i + 1].round == q);
                }
                assert(self.contains_round(q));
            }
            if self.contains_round(q) {
                let i = self.round_index(q);
                assert(i != idx);
                if i < idx {
                    assert(pre.entries@[i].round == q);
                } else {
                    assert(pre.entries@[i - 1].round == q);
                }
                assert(pre.contains_round(q));
            }
        }
        assert forall|q: u64|
            q != round && pre.contains_round(q) implies (#[trigger] self.beacon_for(q))
            == pre.beacon_for(q) by {
            let i = pre.round_index(q);
            pre.lemma_round_index_is(q, i);
            if i < idx {
                assert(self.entries@[i].round == q);
                self.lemma_round_index_is(q, i);
            } else {
                assert(self.entries@[i + 1].round == q);
                self.lemma_round_index_is(q, i + 1);
            }
        }
    }
}

} // verus!
