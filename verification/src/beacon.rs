use vstd::prelude::*;
use crate::clock::RoundClock;

verus! {

/// Content digest of a round's verified signature: the stored randomness is
/// always the 32-byte digest of the signature, never the raw signature.
pub type RandomnessDigest = [u8; 32];

/// A randomness value that passed signature verification, keyed by its round
/// in the store. Write-once: the digest of a round never changes.
pub struct VerifiedBeacon {
    /// Chain time at which verification happened, in nanoseconds.
    pub verified: u64,
    /// Digest of the round's verified signature.
    pub randomness: RandomnessDigest,
}

impl Clone for VerifiedBeacon {
    fn clone(&self) -> (other: Self)
        ensures
            other == *self,
    {
        VerifiedBeacon { verified: self.verified, randomness: self.randomness }
    }
}

impl Copy for VerifiedBeacon {

}

/// Read-only projection of a [`VerifiedBeacon`] together with its round and
/// the round's canonical publish time; built on read, never stored.
pub struct QueriedBeacon {
    pub round: u64,
    /// Canonical publish time of `round` on the schedule.
    pub published: u64,
    pub verified: u64,
    pub randomness: RandomnessDigest,
}

impl QueriedBeacon {
    pub fn make(beacon: VerifiedBeacon, round: u64, clock: &RoundClock) -> (queried: Self)
        requires
            clock.wf(),
            round >= 1,
            clock.spec_publish_time(round) <= u64::MAX,
        ensures
            queried.round == round,
            queried.published == clock.spec_publish_time(round),
            queried.verified == beacon.verified,
            queried.randomness == beacon.randomness,
    {
        QueriedBeacon {
            round,
            published: clock.publish_time(round),
            verified: beacon.verified,
            randomness: beacon.randomness,
        }
    }
}

/// The digest as a byte vector, for wire-level payloads.
pub fn digest_to_vec(digest: &RandomnessDigest) -> (bytes: Vec<u8>)
    ensures
        bytes@ == digest@,
{
    let mut bytes: Vec<u8> = Vec::new();
    let mut i: usize = 0;
    while i < 32
        invariant
            i <= 32,
            bytes@.len() == i,
            forall|j: int| 0 <= j < i ==> bytes@[j] == digest@[j],
        decreases 32 - i,
    {
        bytes.push(digest[i]);
        i += 1;
    }
    proof {
        assert(bytes@ =~= digest@);
    }
    bytes
}

/// Byte-wise equality of two digests.
pub fn digest_eq(a: &RandomnessDigest, b: &RandomnessDigest) -> (equal: bool)
    ensures
        equal <==> a@ == b@,
{
    let mut i: usize = 0;
    while i < 32
        invariant
            i <= 32,
            forall|j: int| 0 <= j < i ==> a@[j] == b@[j],
        decreases 32 - i,
    {
        if a[i] != b[i] {
            return false;
        }
        i += 1;
    }
    proof {
        assert(a@ =~= b@);
    }
    true
}

} // verus!
