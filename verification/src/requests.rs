use vstd::prelude::*;

verus! {

/// A randomness request whose round is not verified yet; kept until the round
/// verifies and its fulfillment message is emitted. Many requesters may await
/// the same round.
pub struct OutstandingRequest {
    pub round: u64,
    /// The randomness consumer awaiting this round.
    pub sender: String,
    pub callback_id: Option<String>,
}

impl Clone for OutstandingRequest {
    fn clone(&self) -> (other: Self)
        ensures
            other.round == self.round,
            other.sender@ == self.sender@,
            other.callback_id.deep_view() == self.callback_id.deep_view(),
    {
        OutstandingRequest {
            round: self.round,
            sender: self.sender.clone(),
            callback_id: match &self.callback_id {
                Some(id) => Some(id.clone()),
                None => None,
            },
        }
    }
}

/// The requests awaiting `round`, in arrival order.
pub open spec fn requests_for(s: Seq<OutstandingRequest>, round: u64) -> Seq<OutstandingRequest>
    decreases s.len(),
{
    if s.len() == 0 {
        Seq::empty()
    } else if s.last().round == round {
        requests_for(s.drop_last(), round).push(s.last())
    } else {
        requests_for(s.drop_last(), round)
    }
}

/// The pool without the requests awaiting `round`, keeping arrival order.
pub open spec fn without_round(s: Seq<OutstandingRequest>, round: u64) -> Seq<OutstandingRequest>
    decreases s.len(),
{
    if s.len() == 0 {
        Seq::empty()
    } else if s.last().round == round {
        without_round(s.drop_last(), round)
    } else {
        without_round(s.drop_last(), round).push(s.last())
    }
}

/// Field-wise agreement of two requests. Cloning a request yields a distinct
/// value; this is the relation a clone provably bears to its original.
pub open spec fn same_request(a: OutstandingRequest, b: OutstandingRequest) -> bool {
    &&& a.round == b.round
    &&& a.sender@ == b.sender@
    &&& a.callback_id.deep_view() == b.callback_id.deep_view()
}

/// Arrival-ordered pool of outstanding requests, keyed by round with
/// multiplicity.
pub struct RequestPool {
    pub entries: Vec<OutstandingRequest>,
}

impl RequestPool {
    pub fn new() -> (pool: Self)
        ensures
            pool.entries@.len() == 0,
    {
        RequestPool { entries: Vec::new() }
    }

    /// Queue a request for `round`.
    pub fn add(&mut self, request: OutstandingRequest)
        ensures
            final(self).entries@ == old(self).entries@.push(request),
    {
        self.entries.push(request);
    }

    /// Take out every request awaiting `round`, in arrival order, leaving the
    /// others in place. Each removed row is handed back so the caller can
    /// emit one fulfillment message per request.
    pub fn drain_round(&mut self, round: u64) -> (drained: Vec<OutstandingRequest>)
        ensures
            drained@.len() == requests_for(old(self).entries@, round).len(),
            forall|k: int|
                0 <= k < drained@.len() ==> same_request(
                    #[trigger] drained@[k],
                    requests_for(old(self).entries@, round)[k],
                ),
            final(self).entries@.len() == without_round(old(self).entries@, round).len(),
            forall|k: int|
                0 <= k < final(self).entries@.len() ==> same_request(
                    #[trigger] final(self).entries@[k],
                    without_round(old(self).entries@, round)[k],
                ),
    {
        let mut kept: Vec<OutstandingRequest> = Vec::new();
        let mut drained: Vec<OutstandingRequest> = Vec::new();
        let mut i: usize = 0;
        proof {
            assert(self.entries@.take(0) =~= Seq::<OutstandingRequest>::empty());
        }
        while i < self.entries.len()
            invariant
                *self == *old(self),
                i <= self.entries@.len(),
                drained@.len() == requests_for(self.entries@.take(i as int), round).len(),
                forall|k: int|
                    0 <= k < drained@.len() ==> same_request(
                        #[trigger] drained@[k],
                        requests_for(self.entries@.take(i as int), round)[k],
                    ),
                kept@.len() == without_round(self.entries@.take(i as int), round).len(),
                forall|k: int|
                    0 <= k < kept@.len() ==> same_request(
                        #[trigger] kept@[k],
                        without_round(self.entries@.take(i as int), round)[k],
                    ),
            decreases self.entries@.len() - i,
        {
            proof {
                assert(self.entries@.take(i + 1).drop_last() =~= self.entries@.take(i as int));
                assert(self.entries@.take(i + 1).last() == self.entries@[i as int]);
            }
            let entry = self.entries[i].clone();
            if entry.round == round {
                drained.push(entry);
            } else {
                kept.push(entry);
            }
            i += 1;
        }
        proof {
            assert(self.entries@.take(self.entries@.len() as int) =~= self.entries@);
        }
        self.entries = kept;
        drained
    }
}

} // verus!
