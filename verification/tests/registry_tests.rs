use nois_oracle::bots::{Bot, BotRegistry, QueriedBot};
use nois_oracle::ibc_msg::RequestBeaconPacketAck;
use nois_oracle::router::{RequestPhase, TrackedRequest};

#[test]
fn registration_keeps_counters() {
    let mut registry = BotRegistry::new();
    let alice = "alice".to_string();
    registry.register_bot(&alice, "Alice's bot".to_string());
    let queried = registry.get_bot(&alice).unwrap();
    assert_eq!(queried.moniker, "Alice's bot");
    assert_eq!(queried.address, "alice");
    assert_eq!(queried.rounds_added, 0);
    assert_eq!(queried.reward_points, 0);

    registry.award(&alice, true, 3);
    registry.register_bot(&alice, "Alice".to_string());
    let queried = registry.get_bot(&alice).unwrap();
    assert_eq!(queried.moniker, "Alice");
    assert_eq!(queried.rounds_added, 1);
    assert_eq!(queried.reward_points, 0);

    assert!(registry.get_bot(&"bob".to_string()).is_none());
}

#[test]
fn award_depends_on_allowlist_and_novelty() {
    let mut registry = BotRegistry::new();
    let alice = "alice".to_string();
    registry.allow(&alice);
    assert!(registry.is_allowed(&alice));
    // Allowing twice changes nothing.
    registry.allow(&alice);
    assert_eq!(registry.allowlist.len(), 1);

    registry.award(&alice, true, 5);
    registry.award(&alice, false, 5);
    let queried = registry.get_bot(&alice).unwrap();
    assert_eq!(queried.rounds_added, 2);
    assert_eq!(queried.reward_points, 5);

    let bob = "bob".to_string();
    assert!(!registry.is_allowed(&bob));
    registry.award(&bob, true, 5);
    let queried = registry.get_bot(&bob).unwrap();
    assert_eq!(queried.rounds_added, 1);
    assert_eq!(queried.reward_points, 0);
}

#[test]
fn queried_bot_carries_address() {
    let bot = Bot { moniker: "m".to_string(), rounds_added: 4, reward_points: 9 };
    let queried = QueriedBot::make(bot, "addr".to_string());
    assert_eq!(queried.moniker, "m");
    assert_eq!(queried.address, "addr");
    assert_eq!(queried.rounds_added, 4);
    assert_eq!(queried.reward_points, 9);
}

#[test]
fn tracked_request_walks_its_phases() {
    let mut request = TrackedRequest::new(1_031, "chain-a".to_string(), None);
    assert_eq!(request.phase, RequestPhase::Created);
    let packet = request.send();
    assert_eq!(request.phase, RequestPhase::Sent);
    assert_eq!(packet.after, 1_031);
    assert_eq!(packet.sender, "chain-a");
    request.on_ack(&RequestBeaconPacketAck::Queued { source_id: "s".to_string() });
    assert_eq!(request.phase, RequestPhase::AckedQueued);
    request.on_deliver();
    assert_eq!(request.phase, RequestPhase::Fulfilled);

    let mut request = TrackedRequest::new(1_031, "chain-a".to_string(), None);
    request.send();
    request.on_ack(&RequestBeaconPacketAck::Processed { source_id: "s".to_string() });
    assert_eq!(request.phase, RequestPhase::AckedProcessed);
    request.on_deliver();
    assert_eq!(request.phase, RequestPhase::Fulfilled);
}
