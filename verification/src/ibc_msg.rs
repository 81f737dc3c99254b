use vstd::prelude::*;
use vstd::utf8::{decode_utf8, encode_utf8, valid_utf8};
use vstd::utf8::{encode_utf8_decode_utf8, encode_utf8_valid_utf8};

verus! {

/// Sent from the consumer side to the oracle over the channel: deliver the
/// randomness of the first round published at or after `after`.
#[derive(Debug)]
pub struct RequestBeaconPacket {
    /// Nanosecond threshold: the answering beacon's publish time must not lie
    /// before it.
    pub after: u64,
    /// The randomness consumer on the requesting chain.
    pub sender: String,
    pub callback_id: Option<String>,
}

/// The oracle's immediate answer to a [`RequestBeaconPacket`].
#[derive(Debug)]
pub enum RequestBeaconPacketAck {
    /// The beacon already exists; the request is served right away.
    Processed { source_id: String },
    /// The beacon does not exist yet; the request is queued until its round
    /// verifies.
    Queued { source_id: String },
}

/// Sent from the oracle to the consumer side once the requested round is
/// verified.
#[derive(Debug)]
pub struct DeliverBeaconPacket {
    /// Randomness source identifier, `<source>:<network>:<round>`.
    pub source_id: String,
    /// The round's randomness digest bytes.
    pub randomness: Vec<u8>,
    pub sender: String,
    pub callback_id: Option<String>,
}

/// Acknowledgement of a deliver packet: an empty success object.
#[derive(Debug)]
pub struct DeliverBeaconPacketAck {}

/// Generic acknowledgement envelope of the channel. Receiving `Error` obliges
/// the sending chain's runtime to roll back all state the receiver's handler
/// touched; the envelope itself only carries the verdict.
#[derive(Debug)]
pub enum StdAck {
    Result(Vec<u8>),
    Error(String),
}

/// The wire bytes of an envelope: a one-byte tag, then the payload bytes, an
/// error message travelling as its UTF-8 encoding.
pub open spec fn spec_ack_bytes(ack: StdAck) -> Seq<u8> {
    match ack {
        StdAck::Result(data) => seq![0u8] + data@,
        StdAck::Error(msg) => seq![1u8] + encode_utf8(msg@),
    }
}

/// The error type of String::from_utf8, declared so that it can stand in
/// signatures; nothing is read out of it.
#[verifier::external_type_specification]
#[verifier::external_body]
pub struct ExFromUtf8Error(std::string::FromUtf8Error);

/// Relies on String::from_utf8, for decoding an error message out of its
/// wire bytes: by its documentation it succeeds exactly on valid UTF-8, and
/// then returns the string with those bytes.
pub assume_specification[ String::from_utf8 ](vec: Vec<u8>) -> (decoded: Result<
    String,
    std::string::FromUtf8Error,
>)
    ensures
        valid_utf8(vec@) <==> decoded is Ok,
        decoded matches Ok(s) ==> encode_utf8(s@) == vec@,
;

impl StdAck {
    /// Wire bytes of this envelope.
    pub fn ack(&self) -> (bytes: Vec<u8>)
        ensures
            bytes@ == spec_ack_bytes(*self),
    {
        let mut out: Vec<u8> = Vec::new();
        match self {
            StdAck::Result(data) => {
                out.push(0u8);
                let mut i: usize = 0;
                while i < data.len()
                    invariant
                        i <= data@.len(),
                        out@.len() == 1 + i,
                        out@[0] == 0u8,
                        forall|k: int| 0 <= k < i ==> out@[1 + k] == data@[k],
                    decreases data@.len() - i,
                {
                    out.push(data[i]);
                    i += 1;
                }
                proof {
                    assert(out@ =~= seq![0u8] + data@);
                }
            },
            StdAck::Error(msg) => {
                out.push(1u8);
                let bs = msg.as_str().as_bytes_vec();
                let mut i: usize = 0;
                while i < bs.len()
                    invariant
                        i <= bs@.len(),
                        out@.len() == 1 + i,
                        out@[0] == 1u8,
                        forall|k: int| 0 <= k < i ==> out@[1 + k] == bs@[k],
                    decreases bs@.len() - i,
                {
                    out.push(bs[i]);
                    i += 1;
                }
                proof {
                    assert(out@ =~= seq![1u8] + bs@);
                }
            },
        }
        out
    }

    /// Wire bytes of a success envelope around already-encoded payload bytes.
    pub fn success(data: Vec<u8>) -> (bytes: Vec<u8>)
        ensures
            bytes@ == spec_ack_bytes(StdAck::Result(data)),
    {
        let ack = StdAck::Result(data);
        let bytes = ack.ack();
        proof {
            assert(spec_ack_bytes(ack) == seq![0u8] + ack->Result_0@);
        }
        bytes
    }

    /// Wire bytes of an error envelope.
    pub fn fail(err: String) -> (bytes: Vec<u8>)
        ensures
            bytes@ == spec_ack_bytes(StdAck::Error(err)),
    {
        let bytes = StdAck::Error(err).ack();
        bytes
    }

    /// Decode wire bytes back into an envelope. Returns the unique envelope
    /// with these wire bytes, or nothing when no envelope has them.
    pub fn parse(bytes: &Vec<u8>) -> (parsed: Option<StdAck>)
        ensures
            match parsed {
                Some(ack) => bytes@ == spec_ack_bytes(ack),
                None => forall|ack: StdAck| bytes@ != spec_ack_bytes(ack),
            },
    {
        proof {
            broadcast use encode_utf8_valid_utf8;

        }
        if bytes.len() == 0 {
            return None;
        }
        let tag = bytes[0];
        let mut rest: Vec<u8> = Vec::new();
        let mut i: usize = 1;
        while i < bytes.len()
            invariant
                1 <= i <= bytes@.len(),
                rest@.len() == i - 1,
                forall|k: int| 0 <= k < i - 1 ==> rest@[k] == bytes@[1 + k],
            decreases bytes@.len() - i,
        {
            rest.push(bytes[i]);
            i += 1;
        }
        proof {
            assert(rest@ =~= bytes@.skip(1));
        }
        if tag == 0 {
            proof {
                assert(bytes@ =~= seq![0u8] + rest@);
            }
            Some(StdAck::Result(rest))
        } else if tag == 1 {
            match String::from_utf8(rest) {
                Ok(msg) => {
                    proof {
                        assert(bytes@ =~= seq![1u8] + encode_utf8(msg@));
                    }
                    Some(StdAck::Error(msg))
                },
                Err(_) => {
                    proof {
                        assert forall|ack: StdAck| bytes@ != spec_ack_bytes(ack) by {
                            if bytes@ == spec_ack_bytes(ack) {
                                match ack {
                                    StdAck::Result(d) => {
                                        assert(bytes@[0] == 0u8);
                                    },
                                    StdAck::Error(m) => {
                                        assert(bytes@.skip(1) =~= encode_utf8(m@));
                                    },
                                }
                            }
                        }
                    }
                    None
                },
            }
        } else {
            proof {
                assert forall|ack: StdAck| bytes@ != spec_ack_bytes(ack) by {
                    if bytes@ == spec_ack_bytes(ack) {
                        assert(bytes@[0] == 0u8 || bytes@[0] == 1u8);
                    }
                }
            }
            None
        }
    }

    /// Payload of a success envelope; calling this on an error envelope is
    /// the caller's fault, so the contract forbids it.
    pub fn unwrap(self) -> (data: Vec<u8>)
        requires
            self matches StdAck::Result(_),
        ensures
            self matches StdAck::Result(d) && data@ == d@,
    {
        match self {
            StdAck::Result(data) => data,
            StdAck::Error(_) => unreached(),
        }
    }

    /// Message of an error envelope; the contract forbids success envelopes.
    pub fn unwrap_err(self) -> (msg: String)
        requires
            self matches StdAck::Error(_),
        ensures
            self matches StdAck::Error(m) && msg@ == m@,
    {
        match self {
            StdAck::Result(_) => unreached(),
            StdAck::Error(msg) => msg,
        }
    }
}

/// Two envelopes with the same wire bytes carry the same verdict and the
/// same payload: decoding wire bytes is unambiguous.
pub proof fn lemma_ack_encoding_injective(a1: StdAck, a2: StdAck)
    requires
        spec_ack_bytes(a1) == spec_ack_bytes(a2),
    ensures
        a1 matches StdAck::Result(d1) ==> a2 matches StdAck::Result(d2) && d1@ == d2@,
        a1 matches StdAck::Error(m1) ==> a2 matches StdAck::Error(m2) && m1@ == m2@,
{
    let b1 = spec_ack_bytes(a1);
    let b2 = spec_ack_bytes(a2);
    match (a1, a2) {
        (StdAck::Result(d1), StdAck::Result(d2)) => {
            assert(d1@ =~= b1.skip(1));
            assert(d2@ =~= b2.skip(1));
        },
        (StdAck::Error(m1), StdAck::Error(m2)) => {
            assert(encode_utf8(m1@) =~= b1.skip(1));
            assert(encode_utf8(m2@) =~= b2.skip(1));
            encode_utf8_decode_utf8(m1@);
            encode_utf8_decode_utf8(m2@);
            assert(m1@ == decode_utf8(encode_utf8(m1@)));
        },
        (StdAck::Result(_), StdAck::Error(_)) => {
            assert(b1[0] == 0u8 && b2[0] == 1u8);
        },
        (StdAck::Error(_), StdAck::Result(_)) => {
            assert(b1[0] == 1u8 && b2[0] == 0u8);
        },
    }
}

} // verus!
