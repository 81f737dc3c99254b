use nois_oracle::clock::RoundClock;
use nois_oracle::engine::{format_source_id, Config, OracleError, OracleState};
use nois_oracle::ibc_msg::{RequestBeaconPacket, RequestBeaconPacketAck};
use nois_oracle::store::VerificationOutcome;

fn test_state() -> OracleState {
    let clock = RoundClock::new(1_000, 30);
    let config = Config {
        manager: "manager".to_string(),
        gateway: Some("gateway".to_string()),
        min_round: 1,
        incentive_point_price: 100,
        incentive_denom: "unois".to_string(),
    };
    OracleState::new(clock, config)
}

#[test]
fn source_id_has_expected_format() {
    assert_eq!(
        format_source_id(72785).as_str(),
        "drand:dbd506d6ef76e5f386f41c651dcb808c5bcbd75471cc4eafa3f4df7ad4e4c493:72785"
    );
    assert_eq!(
        format_source_id(0).as_str(),
        "drand:dbd506d6ef76e5f386f41c651dcb808c5bcbd75471cc4eafa3f4df7ad4e4c493:0"
    );
}

#[test]
fn only_first_verification_earns_points() {
    let mut state = test_state();
    let alice = "alice".to_string();
    let bob = "bob".to_string();
    state.bots.allow(&alice);
    state.bots.allow(&bob);

    let digest = [0x44u8; 32];
    let receipt = state
        .handle_submission(7, &alice, digest, true, 5_000, 42, None)
        .unwrap();
    assert_eq!(receipt.outcome, VerificationOutcome::NewlyVerified);
    assert_eq!(receipt.submission.pos, 0);

    // Bob resubmits the same round: valid, counted, but not rewarded.
    let receipt = state
        .handle_submission(7, &bob, digest, true, 5_100, 43, None)
        .unwrap();
    assert_eq!(receipt.outcome, VerificationOutcome::AlreadyVerified);
    assert_eq!(receipt.submission.pos, 1);

    let alice_bot = state.bots.get_bot(&alice).unwrap();
    assert_eq!(alice_bot.rounds_added, 1);
    assert_eq!(alice_bot.reward_points, 1);
    let bob_bot = state.bots.get_bot(&bob).unwrap();
    assert_eq!(bob_bot.rounds_added, 1);
    assert_eq!(bob_bot.reward_points, 0);
}

#[test]
fn unlisted_reporter_earns_no_points() {
    let mut state = test_state();
    let mallory = "mallory".to_string();
    let receipt = state
        .handle_submission(7, &mallory, [1u8; 32], true, 5_000, 42, None)
        .unwrap();
    assert_eq!(receipt.outcome, VerificationOutcome::NewlyVerified);
    let bot = state.bots.get_bot(&mallory).unwrap();
    assert_eq!(bot.rounds_added, 1);
    assert_eq!(bot.reward_points, 0);
}

#[test]
fn submission_errors_leave_state_unchanged() {
    let mut state = test_state();
    state.config.min_round = 5;
    state.store.min_round = 5;
    let alice = "alice".to_string();

    let err = state
        .handle_submission(4, &alice, [1u8; 32], true, 5_000, 42, None)
        .unwrap_err();
    assert_eq!(err, OracleError::RoundTooLow);

    state
        .handle_submission(7, &alice, [1u8; 32], true, 5_000, 42, None)
        .unwrap();
    let err = state
        .handle_submission(7, &alice, [1u8; 32], true, 5_100, 43, None)
        .unwrap_err();
    assert_eq!(err, OracleError::DuplicateSubmission);

    let bob = "bob".to_string();
    let err = state
        .handle_submission(7, &bob, [2u8; 32], true, 5_100, 43, None)
        .unwrap_err();
    assert_eq!(err, OracleError::VerificationConflict);

    let err = state
        .handle_submission(8, &bob, [2u8; 32], false, 5_100, 43, None)
        .unwrap_err();
    assert_eq!(err, OracleError::InvalidSignature);

    // Only the one accepted submission left traces.
    assert_eq!(state.store.entries.len(), 1);
    assert_eq!(state.ledger.entries.len(), 1);
    assert!(state.bots.get_bot(&bob).is_none());
}

#[test]
fn queued_requests_are_fulfilled_exactly_once() {
    let mut state = test_state();

    // Three consumers ask for a round that is not verified yet. The derived
    // round for "not before 1031" is round 3, published at 1060.
    for consumer in ["chain-a", "chain-b", "chain-c"] {
        let response = state.handle_request(RequestBeaconPacket {
            after: 1_031,
            sender: consumer.to_string(),
            callback_id: Some(format!("job-{consumer}")),
        });
        assert_eq!(response.round, 3);
        match response.ack {
            RequestBeaconPacketAck::Queued { source_id } => {
                assert_eq!(
                    source_id,
                    format_source_id(3).as_str()
                );
            }
            RequestBeaconPacketAck::Processed { .. } => panic!("round 3 is not verified yet"),
        }
        assert!(response.deliver.is_none());
    }
    assert_eq!(state.requests.entries.len(), 3);

    // A request for a later round waits in the same pool.
    let response = state.handle_request(RequestBeaconPacket {
        after: 1_061,
        sender: "chain-z".to_string(),
        callback_id: None,
    });
    assert_eq!(response.round, 4);
    assert_eq!(state.requests.entries.len(), 4);

    // Verifying round 3 emits exactly one deliver packet per queued request,
    // in arrival order, and empties the queue for that round.
    let digest = [0x55u8; 32];
    let receipt = state
        .handle_submission(3, &"alice".to_string(), digest, true, 5_000, 42, None)
        .unwrap();
    assert_eq!(receipt.outcome, VerificationOutcome::NewlyVerified);
    assert_eq!(receipt.packets.len(), 3);
    for (packet, consumer) in receipt.packets.iter().zip(["chain-a", "chain-b", "chain-c"]) {
        assert_eq!(packet.sender, consumer);
        assert_eq!(packet.randomness, digest.to_vec());
        assert_eq!(packet.source_id, format_source_id(3).as_str());
        assert_eq!(packet.callback_id, Some(format!("job-{consumer}")));
    }
    // The round-4 request is still waiting; round 3's are gone.
    assert_eq!(state.requests.entries.len(), 1);
    assert_eq!(state.requests.entries[0].round, 4);
    assert_eq!(state.requests.entries[0].sender, "chain-z");

    // A late request for the same round is served immediately.
    let response = state.handle_request(RequestBeaconPacket {
        after: 1_031,
        sender: "chain-d".to_string(),
        callback_id: None,
    });
    match response.ack {
        RequestBeaconPacketAck::Processed { source_id } => {
            assert_eq!(source_id, format_source_id(3).as_str());
        }
        RequestBeaconPacketAck::Queued { .. } => panic!("round 3 is verified"),
    }
    let deliver = response.deliver.unwrap();
    assert_eq!(deliver.sender, "chain-d");
    assert_eq!(deliver.randomness, digest.to_vec());
    // Serving a present round queues nothing.
    assert_eq!(state.requests.entries.len(), 1);
}
