//! A cross-chain randomness oracle core: permissioned reporters submit
//! beacon-round signatures, which are verified once, stored write-once, and
//! accounted for reporter incentives; remote consumers request the randomness
//! of a future point in time over an asynchronous channel and receive it once
//! the corresponding round verifies.
//!
//! The crate is organised leaves first: [`clock`] maps rounds to publish
//! times; [`store`] keeps verified beacons; [`submissions`] orders reporter
//! submissions; [`bots`] accounts reporters and rewards; [`requests`] holds
//! requests awaiting a round; [`engine`] ties them into one transaction per
//! inbound message; [`router`] tracks a request on the consumer side;
//! [`ibc_msg`] defines the channel messages and the acknowledgement codec;
//! [`sink`] is the burn ledger; [`digits`] renders numbers as text.

pub mod beacon;
pub mod bots;
pub mod clock;
pub mod digits;
pub mod engine;
pub mod ibc_msg;
pub mod requests;
pub mod router;
pub mod sink;
pub mod store;
pub mod submissions;
