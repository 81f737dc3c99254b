use vstd::prelude::*;
use crate::ibc_msg::{RequestBeaconPacket, RequestBeaconPacketAck};

verus! {

/// Where a consumer-side request stands. A queued request never expires on
/// its own: it resolves only when beacon verification reaches its round.
#[derive(Debug, Clone, Copy, PartialEq, Eq, Structural)]
pub enum RequestPhase {
    /// Built, not yet handed to the channel.
    Created,
    /// On the channel, awaiting the oracle's acknowledgement.
    Sent,
    /// Acknowledged as served; the fulfillment message follows at once.
    AckedProcessed,
    /// Acknowledged as queued; the fulfillment message follows when the
    /// round verifies.
    AckedQueued,
    /// The fulfillment message arrived.
    Fulfilled,
}

/// One randomness request as the consumer side tracks it across the
/// asynchronous channel. Channel-level delivery failure is the transport's
/// to roll back; the caller then drops the request instead of advancing it.
pub struct TrackedRequest {
    pub phase: RequestPhase,
    /// The answering beacon's publish time must not lie before this.
    pub after: u64,
    /// The randomness consumer the answer is for.
    pub sender: String,
    pub callback_id: Option<String>,
}

impl TrackedRequest {
    pub fn new(after: u64, sender: String, callback_id: Option<String>) -> (request: Self)
        ensures
            request.phase == RequestPhase::Created,
            request.after == after,
            request.sender == sender,
            request.callback_id == callback_id,
    {
        TrackedRequest { phase: RequestPhase::Created, after, sender, callback_id }
    }

    /// Hand the request to the channel: build its packet; the request then
    /// awaits the acknowledgement.
    pub fn send(&mut self) -> (packet: RequestBeaconPacket)
        requires
            old(self).phase == RequestPhase::Created,
        ensures
            final(self).phase == RequestPhase::Sent,
            final(self).after == old(self).after,
            final(self).sender == old(self).sender,
            final(self).callback_id == old(self).callback_id,
            packet.after == old(self).after,
            packet.sender@ == old(self).sender@,
            packet.callback_id.deep_view() == old(self).callback_id.deep_view(),
    {
        self.phase = RequestPhase::Sent;
        RequestBeaconPacket {
            after: self.after,
            sender: self.sender.clone(),
            callback_id: match &self.callback_id {
                Some(id) => Some(id.clone()),
                None => None,
            },
        }
    }

    /// Take the oracle's acknowledgement: `Processed` means the value exists
    /// and its fulfillment message is already on the way; `Queued` means it
    /// will follow once the round verifies.
    pub fn on_ack(&mut self, ack: &RequestBeaconPacketAck)
        requires
            old(self).phase == RequestPhase::Sent,
        ensures
            final(self).phase == (match *ack {
                RequestBeaconPacketAck::Processed { .. } => RequestPhase::AckedProcessed,
                RequestBeaconPacketAck::Queued { .. } => RequestPhase::AckedQueued,
            }),
            final(self).after == old(self).after,
            final(self).sender == old(self).sender,
            final(self).callback_id == old(self).callback_id,
    {
        self.phase = match ack {
            RequestBeaconPacketAck::Processed { .. } => RequestPhase::AckedProcessed,
            RequestBeaconPacketAck::Queued { .. } => RequestPhase::AckedQueued,
        };
    }

    /// Take the fulfillment message; valid after either acknowledgement,
    /// since under this oracle's policy `Processed` is followed by an
    /// immediate delivery as well.
    pub fn on_deliver(&mut self)
        requires
            old(self).phase == RequestPhase::AckedProcessed || old(self).phase
                == RequestPhase::AckedQueued,
        ensures
            final(self).phase == RequestPhase::Fulfilled,
            final(self).after == old(self).after,
            final(self).sender == old(self).sender,
            final(self).callback_id == old(self).callback_id,
    {
        self.phase = RequestPhase::Fulfilled;
    }
}

} // verus!
