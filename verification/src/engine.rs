use vstd::prelude::*;
use crate::beacon::{digest_to_vec, RandomnessDigest, VerifiedBeacon};
use crate::bots::BotRegistry;
use crate::clock::RoundClock;
use crate::digits::{dec_digits, u64_to_dec};
use crate::ibc_msg::{DeliverBeaconPacket, RequestBeaconPacket, RequestBeaconPacketAck};
use crate::requests::{requests_for, same_request, without_round, OutstandingRequest, RequestPool};
use crate::store::{BeaconError, BeaconStore, VerificationOutcome};
use crate::submissions::{count_matching, StoredSubmission, SubmissionLedger};

verus! {

/// Points granted to the reporter whose submission first verifies a round.
/// Turning points into a payable amount is the pricing policy's business.
pub const ROUND_INCENTIVE_POINTS: u64 = 1;

/// Source identifier of a round, `<source>:<network>:<round>`, tying a
/// delivered value to the network and round that produced it.
pub open spec fn spec_source_id(round: u64) -> Seq<char> {
    "drand"@ + ":"@ + "dbd506d6ef76e5f386f41c651dcb808c5bcbd75471cc4eafa3f4df7ad4e4c493"@ + ":"@
        + dec_digits(round as nat)
}

/// Build the source identifier of `round`.
pub fn format_source_id(round: u64) -> (source_id: String)
    ensures
        source_id@ == spec_source_id(round),
{
    let mut source_id = String::from_str("drand");
    source_id.append(":");
    source_id.append("dbd506d6ef76e5f386f41c651dcb808c5bcbd75471cc4eafa3f4df7ad4e4c493");
    source_id.append(":");
    let digits = u64_to_dec(round);
    source_id.append(digits.as_str());
    proof {
        assert(source_id@ =~= spec_source_id(round));
    }
    source_id
}

/// Why the oracle rejected a submission; each leaves all state untouched.
#[derive(Debug, Clone, Copy, PartialEq, Eq, Structural)]
pub enum OracleError {
    /// The round lies below the configured floor.
    RoundTooLow,
    /// The reporter already holds a position for this round.
    DuplicateSubmission,
    /// The round is verified with a different digest; values are write-once.
    VerificationConflict,
    /// The signature material failed cryptographic verification.
    InvalidSignature,
}

/// Mutable configuration, loaded once per call and passed by value; never
/// ambient global state.
pub struct Config {
    /// Manages the reporter allow-list.
    pub manager: String,
    /// The gateway counterpart on the consumer side, once known.
    pub gateway: Option<String>,
    /// The lowest round accepted for verification and storage.
    pub min_round: u64,
    /// Price of one incentive point, in the incentive denomination.
    pub incentive_point_price: u128,
    /// Denomination the incentive is paid in.
    pub incentive_denom: String,
}

/// What one accepted submission produced.
#[derive(Debug)]
pub struct SubmissionReceipt {
    pub outcome: VerificationOutcome,
    /// The reporter's freshly assigned submission record.
    pub submission: StoredSubmission,
    /// One fulfillment message per request that was awaiting this round;
    /// empty unless this submission newly verified its round.
    pub packets: Vec<DeliverBeaconPacket>,
}

/// The oracle's answer to one randomness request.
#[derive(Debug)]
pub struct RequestReceipt {
    /// The round derived from the request's time threshold.
    pub round: u64,
    pub ack: RequestBeaconPacketAck,
    /// The fulfillment message, already emitted when the round was present.
    pub deliver: Option<DeliverBeaconPacket>,
}

/// The whole oracle: configuration, beacon table, submission ledger, reporter
/// roster and outstanding requests. Each operation is one transaction: it
/// either commits completely or leaves every component untouched.
pub struct OracleState {
    pub config: Config,
    pub store: BeaconStore,
    pub ledger: SubmissionLedger,
    pub bots: BotRegistry,
    pub requests: RequestPool,
}

impl OracleState {
    pub open spec fn wf(&self) -> bool {
        &&& self.store.wf()
        &&& self.ledger.wf()
        &&& self.bots.wf()
        &&& self.config.min_round == self.store.min_round
    }

    pub fn new(clock: RoundClock, config: Config) -> (state: Self)
        requires
            clock.wf(),
            config.min_round >= 1,
        ensures
            state.wf(),
            state.config == config,
            state.store.clock == clock,
            state.store.entries@.len() == 0,
            state.ledger.entries@.len() == 0,
            state.bots.entries@.len() == 0,
            state.bots.allowlist@.len() == 0,
            state.requests.entries@.len() == 0,
    {
        let store = BeaconStore::new(clock, config.min_round);
        OracleState {
            config,
            store,
            ledger: SubmissionLedger::new(),
            bots: BotRegistry::new(),
            requests: RequestPool::new(),
        }
    }

    /// Handle one reporter submission as a single transaction: reject rounds
    /// below the floor, duplicate positions, conflicting digests and invalid
    /// signatures without any state change; otherwise store the beacon if it
    /// is new, record the reporter's position, account the incentive, and,
    /// when the round moved from absent to present, emit one fulfillment
    /// message per request awaiting it. `sig_ok` is the verdict of the
    /// external cryptographic capability on the submitted material and
    /// `digest` that material's content digest; `now` and `height` are the
    /// chain's time and height.
    pub fn handle_submission(
        &mut self,
        round: u64,
        reporter: &String,
        digest: RandomnessDigest,
        sig_ok: bool,
        now: u64,
        height: u64,
        tx_index: Option<u32>,
    ) -> (result: Result<SubmissionReceipt, OracleError>)
        requires
            old(self).wf(),
            round >= old(self).store.min_round ==> old(self).store.clock.spec_publish_time(round)
                <= u64::MAX,
            count_matching(old(self).ledger.entries@, round) < u16::MAX,
            old(self).bots.has_bot(reporter@) ==> old(self).bots.bot_for(reporter@).rounds_added
                < u64::MAX && old(self).bots.bot_for(reporter@).reward_points
                + ROUND_INCENTIVE_POINTS <= u64::MAX,
        ensures
            final(self).wf(),
            final(self).config == old(self).config,
            final(self).store.clock == old(self).store.clock,
            final(self).store.min_round == old(self).store.min_round,
            result is Err ==> final(self).store.entries@ == old(self).store.entries@
                && final(self).ledger.entries@ == old(self).ledger.entries@
                && final(self).bots.entries@ == old(self).bots.entries@
                && final(self).bots.allowlist@ == old(self).bots.allowlist@
                && final(self).requests.entries@ == old(self).requests.entries@,
            round < old(self).store.min_round ==> result == Err::<SubmissionReceipt, OracleError>(
                OracleError::RoundTooLow,
            ),
            round >= old(self).store.min_round && old(self).ledger.has_submission(round, reporter@)
                ==> result == Err::<SubmissionReceipt, OracleError>(
                    OracleError::DuplicateSubmission,
                ),
            round >= old(self).store.min_round && !old(self).ledger.has_submission(
                round,
                reporter@,
            ) && old(self).store.contains_round(round) && old(self).store.beacon_for(
                round,
            ).randomness != digest ==> result == Err::<SubmissionReceipt, OracleError>(
                OracleError::VerificationConflict,
            ),
            round >= old(self).store.min_round && !old(self).ledger.has_submission(
                round,
                reporter@,
            ) && !old(self).store.contains_round(round) && !sig_ok ==> result == Err::<
                SubmissionReceipt,
                OracleError,
            >(OracleError::InvalidSignature),
            round >= old(self).store.min_round && !old(self).ledger.has_submission(
                round,
                reporter@,
            ) && ((old(self).store.contains_round(round) && old(self).store.beacon_for(
                round,
            ).randomness == digest) || (!old(self).store.contains_round(round) && sig_ok))
                ==> result is Ok,
            result matches Ok(receipt) ==> {
                &&& receipt.outcome == (if old(self).store.contains_round(round) {
                    VerificationOutcome::AlreadyVerified
                } else {
                    VerificationOutcome::NewlyVerified
                })
                &&& receipt.submission == (StoredSubmission {
                    pos: count_matching(old(self).ledger.entries@, round) as u16,
                    time: now,
                    height,
                    tx_index,
                })
                &&& old(self).store.contains_round(round) ==> final(self).store.entries@ == old(self).store.entries@
                &&& !old(self).store.contains_round(round) ==> {
                    &&& final(self).store.contains_round(round)
                    &&& final(self).store.beacon_for(round) == (VerifiedBeacon {
                        verified: now,
                        randomness: digest,
                    })
                    &&& final(self).store.entries@.len() == old(self).store.entries@.len() + 1
                    &&& forall|q: u64|
                        q != round ==> (#[trigger] final(self).store.contains_round(q)) == old(self).store.contains_round(q)
                    &&& forall|q: u64|
                        q != round && old(self).store.contains_round(q) ==> (#[trigger] final(self).store.beacon_for(q)) == old(self).store.beacon_for(q)
                }
                &&& final(self).ledger.entries@.len() == old(self).ledger.entries@.len() + 1
                &&& final(self).ledger.entries@.drop_last() == old(self).ledger.entries@
                &&& final(self).ledger.entries@.last().round == round
                &&& final(self).ledger.entries@.last().reporter@ == reporter@
                &&& final(self).ledger.entries@.last().sub == receipt.submission
                &&& final(self).bots.allowlist@ == old(self).bots.allowlist@
                &&& final(self).bots.has_bot(reporter@)
                &&& final(self).bots.bot_for(reporter@).rounds_added == (if old(self).bots.has_bot(reporter@) {
                    old(self).bots.bot_for(reporter@).rounds_added
                } else {
                    0
                }) + 1
                &&& final(self).bots.bot_for(reporter@).reward_points == (if old(self).bots.has_bot(reporter@) {
                    old(self).bots.bot_for(reporter@).reward_points
                } else {
                    0
                }) + (if receipt.outcome == VerificationOutcome::NewlyVerified && old(self).bots.spec_allowed(reporter@) {
                    ROUND_INCENTIVE_POINTS
                } else {
                    0
                })
                &&& forall|a: Seq<char>|
                    a != reporter@ ==> (#[trigger] final(self).bots.has_bot(a)) == old(self).bots.has_bot(a)
                &&& forall|a: Seq<char>|
                    a != reporter@ && old(self).bots.has_bot(a) ==> (#[trigger] final(self).bots.bot_for(a)) == old(self).bots.bot_for(a)
                &&& receipt.outcome == VerificationOutcome::AlreadyVerified ==> final(self).requests == old(self).requests && receipt.packets@.len() == 0
                &&& receipt.outcome == VerificationOutcome::NewlyVerified ==> {
                    &&& receipt.packets@.len() == requests_for(
                        old(self).requests.entries@,
                        round,
                    ).len()
                    &&& forall|k: int|
                        0 <= k < receipt.packets@.len() ==> {
                            &&& (#[trigger] receipt.packets@[k]).source_id@ == spec_source_id(
                                round,
                            )
                            &&& receipt.packets@[k].randomness@ == digest@
                            &&& receipt.packets@[k].sender@ == requests_for(
                                old(self).requests.entries@,
                                round,
                            )[k].sender@
                            &&& receipt.packets@[k].callback_id.deep_view() == requests_for(
                                old(self).requests.entries@,
                                round,
                            )[k].callback_id.deep_view()
                        }
                    &&& final(self).requests.entries@.len() == without_round(
                        old(self).requests.entries@,
                        round,
                    ).len()
                    &&& forall|k: int|
                        0 <= k < final(self).requests.entries@.len() ==> same_request(
                            #[trigger] final(self).requests.entries@[k],
                            without_round(old(self).requests.entries@, round)[k],
                        )
                }
            },
    {
        if round < self.store.min_round {
            return Err(OracleError::RoundTooLow);
        }
        if self.ledger.contains(round, reporter) {
            return Err(OracleError::DuplicateSubmission);
        }
        let outcome = match self.store.verify_and_store(round, digest, sig_ok, now) {
            Ok(o) => o,
            Err(BeaconError::RoundTooLow) => {
                return Err(OracleError::RoundTooLow);
            },
            Err(BeaconError::VerificationConflict) => {
                return Err(OracleError::VerificationConflict);
            },
            Err(BeaconError::InvalidSignature) => {
                return Err(OracleError::InvalidSignature);
            },
        };
        let newly = match outcome {
            VerificationOutcome::NewlyVerified => true,
            VerificationOutcome::AlreadyVerified => false,
        };
        let submission = match self.ledger.record(round, reporter, now, height, tx_index) {
            Ok(sub) => sub,
            // The duplicate check above ran before any mutation, so the
            // ledger cannot refuse this record.
            Err(_) => unreached(),
        };
        self.bots.award(reporter, newly, ROUND_INCENTIVE_POINTS);
        let packets = if newly {
            let drained = self.requests.drain_round(round);
            let mut packets: Vec<DeliverBeaconPacket> = Vec::new();
            let mut i: usize = 0;
            while i < drained.len()
                invariant
                    i <= drained@.len(),
                    packets@.len() == i,
                    forall|k: int|
                        0 <= k < i ==> {
                            &&& (#[trigger] packets@[k]).source_id@ == spec_source_id(round)
                            &&& packets@[k].randomness@ == digest@
                            &&& packets@[k].sender@ == drained@[k].sender@
                            &&& packets@[k].callback_id.deep_view()
                                == drained@[k].callback_id.deep_view()
                        },
                decreases drained@.len() - i,
            {
                let entry = &drained[i];
                let packet = DeliverBeaconPacket {
                    source_id: format_source_id(round),
                    randomness: digest_to_vec(&digest),
                    sender: entry.sender.clone(),
                    callback_id: match &entry.callback_id {
                        Some(id) => Some(id.clone()),
                        None => None,
                    },
                };
                packets.push(packet);
                i += 1;
            }
            packets
        } else {
            Vec::new()
        };
        Ok(SubmissionReceipt { outcome, submission, packets })
    }

    /// Handle one randomness request as a single transaction: derive the
    /// first round published at or after the request's threshold; when that
    /// round is verified, acknowledge `Processed` and emit the fulfillment
    /// message at once; otherwise queue the request and acknowledge `Queued`.
    /// The policy here is uniform for all callers: `Processed` is always
    /// accompanied by an immediate fulfillment message, never by data carried
    /// in the acknowledgement itself.
    pub fn handle_request(&mut self, packet: RequestBeaconPacket) -> (response: RequestReceipt)
        requires
            old(self).wf(),
            packet.after <= old(self).store.clock.genesis_time + (u64::MAX - 1) * old(self).store.clock.period,
        ensures
            final(self).wf(),
            final(self).config == old(self).config,
            final(self).store == old(self).store,
            final(self).ledger == old(self).ledger,
            final(self).bots == old(self).bots,
            old(self).store.clock.is_round_after(packet.after, response.round),
            response.ack matches RequestBeaconPacketAck::Processed { source_id } <==> old(self).store.contains_round(response.round),
            response.ack matches RequestBeaconPacketAck::Processed { source_id } ==> {
                &&& source_id@ == spec_source_id(response.round)
                &&& response.deliver matches Some(p) && p.source_id@ == spec_source_id(
                    response.round,
                ) && p.randomness@ == old(self).store.beacon_for(response.round).randomness@
                    && p.sender == packet.sender && p.callback_id == packet.callback_id
                &&& final(self).requests == old(self).requests
            },
            response.ack matches RequestBeaconPacketAck::Queued { source_id } ==> {
                &&& source_id@ == spec_source_id(response.round)
                &&& response.deliver is None
                &&& final(self).requests.entries@ == old(self).requests.entries@.push(
                    (OutstandingRequest {
                        round: response.round,
                        sender: packet.sender,
                        callback_id: packet.callback_id,
                    }),
                )
            },
    {
        let round = self.store.clock.round_after(packet.after);
        match self.store.get(round) {
            Some(queried) => {
                let source_id = format_source_id(round);
                let deliver = DeliverBeaconPacket {
                    source_id: format_source_id(round),
                    randomness: digest_to_vec(&queried.randomness),
                    sender: packet.sender,
                    callback_id: packet.callback_id,
                };
                RequestReceipt {
                    round,
                    ack: RequestBeaconPacketAck::Processed { source_id },
                    deliver: Some(deliver),
                }
            },
            None => {
                let source_id = format_source_id(round);
                self.requests.add(
                    OutstandingRequest {
                        round,
                        sender: packet.sender,
                        callback_id: packet.callback_id,
                    },
                );
                RequestReceipt {
                    round,
                    ack: RequestBeaconPacketAck::Queued { source_id },
                    deliver: None,
                }
            },
        }
    }
}

} // verus!
