use vstd::prelude::*;

verus! {

/// Per-reporter account. The reporter's address is the key under which the
/// account is stored, not part of the account itself.
#[derive(Debug)]
pub struct Bot {
    pub moniker: String,
    /// Number of rounds added: every valid submission counts here, whether or
    /// not it was rewarded. Monotonic.
    pub rounds_added: u64,
    /// Total reward points collected. Monotonic.
    pub reward_points: u64,
}

impl Clone for Bot {
    fn clone(&self) -> (other: Self)
        ensures
            other.moniker@ == self.moniker@,
            other.rounds_added == self.rounds_added,
            other.reward_points == self.reward_points,
    {
        Bot {
            moniker: self.moniker.clone(),
            rounds_added: self.rounds_added,
            reward_points: self.reward_points,
        }
    }
}

/// Like [`Bot`] but together with its address; built on read.
#[derive(Debug)]
pub struct QueriedBot {
    pub moniker: String,
    pub address: String,
    pub rounds_added: u64,
    pub reward_points: u64,
}

impl QueriedBot {
    pub fn make(bot: Bot, address: String) -> (queried: Self)
        ensures
            queried.moniker@ == bot.moniker@,
            queried.address@ == address@,
            queried.rounds_added == bot.rounds_added,
            queried.reward_points == bot.reward_points,
    {
        QueriedBot {
            address,
            moniker: bot.moniker,
            rounds_added: bot.rounds_added,
            reward_points: bot.reward_points,
        }
    }
}

/// One registry row: address and account.
pub struct BotEntry {
    pub address: String,
    pub bot: Bot,
}

/// Roster of reporters and the allow-list that gates reward accounting.
/// Accounts are created on first valid submission or explicit registration
/// and never deleted.
pub struct BotRegistry {
    pub entries: Vec<BotEntry>,
    /// Addresses whose submissions are eligible for reward points.
    pub allowlist: Vec<String>,
}

impl BotRegistry {
    pub open spec fn wf(&self) -> bool {
        forall|i: int, j: int|
            0 <= i < j < self.entries@.len() ==> (#[trigger] self.entries@[i].address@)
                != (#[trigger] self.entries@[j].address@)
    }

    pub open spec fn has_bot(&self, address: Seq<char>) -> bool {
        exists|i: int|
            0 <= i < self.entries@.len() && (#[trigger] self.entries@[i].address@) == address
    }

    pub open spec fn bot_index(&self, address: Seq<char>) -> int {
        choose|i: int|
            0 <= i < self.entries@.len() && (#[trigger] self.entries@[i].address@) == address
    }

    /// The account stored under `address`.
    pub open spec fn bot_for(&self, address: Seq<char>) -> Bot {
        self.entries@[self.bot_index(address)].bot
    }

    /// Whether `address` is eligible for reward points.
    pub open spec fn spec_allowed(&self, address: Seq<char>) -> bool {
        exists|i: int| 0 <= i < self.allowlist@.len() && (#[trigger] self.allowlist@[i]@) == address
    }

    /// On a well-formed roster an index holding `address` is the one
    /// `bot_index` denotes.
    pub proof fn lemma_bot_index_is(&self, address: Seq<char>, i: int)
        requires
            self.wf(),
            0 <= i < self.entries@.len(),
            self.entries@[i].address@ == address,
        ensures
            self.has_bot(address),
            self.bot_index(address) == i,
    {
        assert(self.has_bot(address));
    }

    pub fn new() -> (registry: Self)
        ensures
            registry.wf(),
            registry.entries@.len() == 0,
            registry.allowlist@.len() == 0,
    {
        BotRegistry { entries: Vec::new(), allowlist: Vec::new() }
    }

    /// Index of the account under `address`, if present.
    fn find_bot(&self, address: &String) -> (found: Option<usize>)
        requires
            self.wf(),
        ensures
            match found {
                Some(i) => i < self.entries@.len() && self.entries@[i as int].address@
                    == address@ && self.has_bot(address@) && self.bot_index(address@) == i,
                None => !self.has_bot(address@),
            },
    {
        let mut i: usize = 0;
        while i < self.entries.len()
            invariant
                self.wf(),
                i <= self.entries@.len(),
                forall|j: int| 0 <= j < i ==> (#[trigger] self.entries@[j].address@) != address@,
            decreases self.entries@.len() - i,
        {
            if self.entries[i].address == *address {
                proof {
                    self.lemma_bot_index_is(address@, i as int);
                }
                return Some(i);
            }
            i += 1;
        }
        None
    }

    /// Whether `address` may earn reward points.
    pub fn is_allowed(&self, address: &String) -> (allowed: bool)
        ensures
            allowed == self.spec_allowed(address@),
    {
        let mut i: usize = 0;
        while i < self.allowlist.len()
            invariant
                i <= self.allowlist@.len(),
                forall|j: int| 0 <= j < i ==> (#[trigger] self.allowlist@[j]@) != address@,
            decreases self.allowlist@.len() - i,
        {
            if self.allowlist[i] == *address {
                return true;
            }
            i += 1;
        }
        false
    }

    /// Make `address` eligible for reward points; adding it twice changes
    /// nothing.
    pub fn allow(&mut self, address: &String)
        ensures
            final(self).entries@ == old(self).entries@,
            old(self).spec_allowed(address@) ==> final(self).allowlist@ == old(self).allowlist@,
            !old(self).spec_allowed(address@) ==> final(self).allowlist@.len() == old(
                self,
            ).allowlist@.len() + 1 && final(self).allowlist@.drop_last() == old(self).allowlist@
                && final(self).allowlist@.last()@ == address@,
            final(self).spec_allowed(address@),
            forall|a: Seq<char>|
                a != address@ ==> (#[trigger] final(self).spec_allowed(a)) == old(
                    self,
                ).spec_allowed(a),
            old(self).wf() ==> final(self).wf(),
    {
        if !self.is_allowed(address) {
            let ghost pre = self.allowlist@;
            self.allowlist.push(address.clone());
            proof {
                assert(self.allowlist@.last()@ == address@);
                assert forall|a: Seq<char>|
                    a != address@ implies (#[trigger] self.spec_allowed(a)) == old(
                    self,
                ).spec_allowed(a) by {
                    assert(forall|j: int| 0 <= j < pre.len() ==> self.allowlist@[j] == pre[j]);
                    if self.spec_allowed(a) {
                        let w = choose|i: int|
                            0 <= i < self.allowlist@.len() && (#[trigger] self.allowlist@[i]@)
                                == a;
                        assert(w < pre.len());
                        assert(pre[w]@ == a);
                    }
                }
            }
        }
    }

    /// Look an account up and build its read-only projection.
    pub fn get_bot(&self, address: &String) -> (found: Option<QueriedBot>)
        requires
            self.wf(),
        ensures
            match found {
                Some(queried) => self.has_bot(address@) && queried.address@ == address@
                    && queried.moniker@ == self.bot_for(address@).moniker@
                    && queried.rounds_added == self.bot_for(address@).rounds_added
                    && queried.reward_points == self.bot_for(address@).reward_points,
                None => !self.has_bot(address@),
            },
    {
        match self.find_bot(address) {
            Some(i) => Some(QueriedBot::make(self.entries[i].bot.clone(), address.clone())),
            None => None,
        }
    }

    /// Register `address` under `moniker`, keeping its counters; first
    /// registration opens the account with zeroed counters.
    pub fn register_bot(&mut self, address: &String, moniker: String)
        requires
            old(self).wf(),
        ensures
            final(self).wf(),
            final(self).allowlist@ == old(self).allowlist@,
            final(self).has_bot(address@),
            final(self).bot_for(address@).moniker@ == moniker@,
            final(self).bot_for(address@).rounds_added == if old(self).has_bot(address@) {
                old(self).bot_for(address@).rounds_added
            } else {
                0
            },
            final(self).bot_for(address@).reward_points == if old(self).has_bot(address@) {
                old(self).bot_for(address@).reward_points
            } else {
                0
            },
            forall|a: Seq<char>|
                a != address@ ==> (#[trigger] final(self).has_bot(a)) == old(self).has_bot(a),
            forall|a: Seq<char>|
                a != address@ && old(self).has_bot(a) ==> (#[trigger] final(self).bot_for(a))
                    == old(self).bot_for(a),
    {
        match self.find_bot(address) {
            Some(i) => {
                let old_bot = &self.entries[i].bot;
                let bot = Bot {
                    moniker,
                    rounds_added: old_bot.rounds_added,
                    reward_points: old_bot.reward_points,
                };
                let entry = BotEntry { address: address.clone(), bot };
                self.entries[i] = entry;
                proof {
                    self.lemma_update_frame(*old(self), i as int, address@);
                }
            },
            None => {
                let bot = Bot { moniker, rounds_added: 0, reward_points: 0 };
                let entry = BotEntry { address: address.clone(), bot };
                self.entries.push(entry);
                proof {
                    self.lemma_push_frame(*old(self), address@);
                }
            },
        }
    }

    /// Account a valid submission of `address`: its round count always grows
    /// by one; its points grow by `reward` exactly when the submission first
    /// verified its round and the address is allow-listed. A missing account
    /// is opened first with an empty moniker. Nothing else changes.
    pub fn award(&mut self, address: &String, newly_verified: bool, reward: u64)
        requires
            old(self).wf(),
            old(self).has_bot(address@) ==> old(self).bot_for(address@).rounds_added
                < u64::MAX && old(self).bot_for(address@).reward_points + reward <= u64::MAX,
        ensures
            final(self).wf(),
            final(self).allowlist@ == old(self).allowlist@,
            final(self).has_bot(address@),
            final(self).bot_for(address@).rounds_added == (if old(self).has_bot(address@) {
                old(self).bot_for(address@).rounds_added
            } else {
                0
            }) + 1,
            final(self).bot_for(address@).reward_points == (if old(self).has_bot(address@) {
                old(self).bot_for(address@).reward_points
            } else {
                0
            }) + (if newly_verified && old(self).spec_allowed(address@) {
                reward
            } else {
                0
            }),
            final(self).bot_for(address@).moniker@ == if old(self).has_bot(address@) {
                old(self).bot_for(address@).moniker@
            } else {
                Seq::<char>::empty()
            },
            forall|a: Seq<char>|
                a != address@ ==> (#[trigger] final(self).has_bot(a)) == old(self).has_bot(a),
            forall|a: Seq<char>|
                a != address@ && old(self).has_bot(a) ==> (#[trigger] final(self).bot_for(a))
                    == old(self).bot_for(a),
    {
        let eligible = newly_verified && self.is_allowed(address);
        let gain: u64 = if eligible {
            reward
        } else {
            0
        };
        match self.find_bot(address) {
            Some(i) => {
                let old_bot = &self.entries[i].bot;
                let bot = Bot {
                    moniker: old_bot.moniker.clone(),
                    rounds_added: old_bot.rounds_added + 1,
                    reward_points: old_bot.reward_points + gain,
                };
                let entry = BotEntry { address: address.clone(), bot };
                self.entries[i] = entry;
                proof {
                    self.lemma_update_frame(*old(self), i as int, address@);
                }
            },
            None => {
                let bot = Bot { moniker: String::new(), rounds_added: 1, reward_points: gain };
                let entry = BotEntry { address: address.clone(), bot };
                self.entries.push(entry);
                proof {
                    self.lemma_push_frame(*old(self), address@);
                }
            },
        }
    }

    /// Replacing the row of `address` in place touches no other account.
    proof fn lemma_update_frame(&self, pre: Self, i: int, address: Seq<char>)
        requires
            pre.wf(),
            0 <= i < pre.entries@.len(),
            pre.entries@[i].address@ == address,
            self.entries@.len() == pre.entries@.len(),
            self.entries@[i].address@ == address,
            forall|j: int| 0 <= j < pre.entries@.len() && j != i ==> self.entries@[j]
                == pre.entries@[j],
        ensures
            self.wf(),
            self.has_bot(address),
            self.bot_for(address) == self.entries@[i].bot,
            forall|a: Seq<char>|
                a != address ==> (#[trigger] self.has_bot(a)) == pre.has_bot(a),
            forall|a: Seq<char>|
                a != address && pre.has_bot(a) ==> (#[trigger] self.bot_for(a)) == pre.bot_for(
                    a,
                ),
    {
        assert forall|x: int, y: int|
            0 <= x < y < self.entries@.len() implies (#[trigger] self.entries@[x].address@)
            != (#[trigger] self.entries@[y].address@) by {
            assert(pre.entries@[x].address@ != pre.entries@[y].address@);
            if x != i && y != i {
            }
        }
        self.lemma_bot_index_is(address, i);
        assert forall|a: Seq<char>|
            a != address implies (#[trigger] self.has_bot(a)) == pre.has_bot(a) by {
            if pre.has_bot(a) {
                let w = pre.bot_index(a);
                assert(pre.entries@[w].address@ == a);
                assert(w != i);
                assert(self.entries@[w].address@ == a);
            }
            if self.has_bot(a) {
                let w = self.bot_index(a);
                assert(self.entries@[w].address@ == a);
                assert(w != i);
                assert(pre.entries@[w].address@ == a);
            }
        }
        assert forall|a: Seq<char>|
            a != address && pre.has_bot(a) implies (#[trigger] self.bot_for(a)) == pre.bot_for(
            a,
        ) by {
            let w = pre.bot_index(a);
            pre.lemma_bot_index_is(a, w);
            assert(w != i);
            assert(self.entries@[w].address@ == a);
            self.lemma_bot_index_is(a, w);
        }
    }

    /// Appending a row for a fresh `address` touches no other account.
    proof fn lemma_push_frame(&self, pre: Self, address: Seq<char>)
        requires
            pre.wf(),
            !pre.has_bot(address),
            self.entries@.len() == pre.entries@.len() + 1,
            self.entries@.last().address@ == address,
            forall|j: int| 0 <= j < pre.entries@.len() ==> self.entries@[j] == pre.entries@[j],
        ensures
            self.wf(),
            self.has_bot(address),
            self.bot_for(address) == self.entries@.last().bot,
            forall|a: Seq<char>|
                a != address ==> (#[trigger] self.has_bot(a)) == pre.has_bot(a),
            forall|a: Seq<char>|
                a != address && pre.has_bot(a) ==> (#[trigger] self.bot_for(a)) == pre.bot_for(
                    a,
                ),
    {
        let n = pre.entries@.len() as int;
        assert forall|x: int, y: int|
            0 <= x < y < self.entries@.len() implies (#[trigger] self.entries@[x].address@)
            != (#[trigger] self.entries@[y].address@) by {
            if y < n {
                assert(pre.entries@[x].address@ != pre.entries@[y].address@);
            } else {
                if self.entries@[x].address@ == address {
                    assert(pre.entries@[x].address@ == address);
                    assert(pre.has_bot(address));
                }
            }
        }
        self.lemma_bot_index_is(address, n);
        assert forall|a: Seq<char>|
            a != address implies (#[trigger] self.has_bot(a)) == pre.has_bot(a) by {
            if pre.has_bot(a) {
                let w = pre.bot_index(a);
                assert(pre.entries@[w].address@ == a);
                assert(self.entries@[w].address@ == a);
            }
            if self.has_bot(a) {
                let w = self.bot_index(a);
                assert(self.entries@[w].address@ == a);
                assert(w != n);
                assert(pre.entries@[w].address@ == a);
            }
        }
        assert forall|a: Seq<char>|
            a != address && pre.has_bot(a) implies (#[trigger] self.bot_for(a)) == pre.bot_for(
            a,
        ) by {
            let w = pre.bot_index(a);
            pre.lemma_bot_index_is(a, w);
            assert(self.entries@[w].address@ == a);
            self.lemma_bot_index_is(a, w);
        }
    }
}

} // verus!
