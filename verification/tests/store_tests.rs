use nois_oracle::clock::RoundClock;
use nois_oracle::store::{BeaconError, BeaconStore, Order, VerificationOutcome};

fn test_clock() -> RoundClock {
    // Round 1 at t = 1000 ns, then one round every 30 ns.
    RoundClock::new(1_000, 30)
}

#[test]
fn publish_time_is_exact() {
    let clock = test_clock();
    assert_eq!(clock.publish_time(1), 1_000);
    assert_eq!(clock.publish_time(2), 1_030);
    assert_eq!(clock.publish_time(11), 1_300);
    // Consecutive rounds are exactly one period apart, far into the schedule.
    assert_eq!(
        clock.publish_time(1_000_000) - clock.publish_time(999_999),
        30
    );
}

#[test]
fn round_after_has_exact_threshold() {
    let clock = test_clock();
    // Anything at or before genesis is answered by round 1.
    assert_eq!(clock.round_after(0), 1);
    assert_eq!(clock.round_after(1_000), 1);
    // A threshold exactly on a publish time returns that round, never the next.
    assert_eq!(clock.round_after(1_030), 2);
    assert_eq!(clock.round_after(1_300), 11);
    // One nanosecond later already needs the next round.
    assert_eq!(clock.round_after(1_031), 3);
}

#[test]
fn verify_twice_is_idempotent() {
    let mut store = BeaconStore::new(test_clock(), 1);
    let digest = [0x11u8; 32];
    let first = store.verify_and_store(7, digest, true, 5_000).unwrap();
    assert_eq!(first, VerificationOutcome::NewlyVerified);
    let second = store.verify_and_store(7, digest, true, 6_000).unwrap();
    assert_eq!(second, VerificationOutcome::AlreadyVerified);
    // The stored beacon still carries the first verification time.
    let queried = store.get(7).unwrap();
    assert_eq!(queried.verified, 5_000);
    assert_eq!(queried.randomness, digest);
    assert_eq!(store.entries.len(), 1);
}

#[test]
fn conflicting_digest_is_rejected() {
    let mut store = BeaconStore::new(test_clock(), 1);
    let digest = [0x11u8; 32];
    store.verify_and_store(7, digest, true, 5_000).unwrap();
    let err = store.verify_and_store(7, [0x22u8; 32], true, 6_000).unwrap_err();
    assert_eq!(err, BeaconError::VerificationConflict);
    // The stored beacon is unchanged.
    let queried = store.get(7).unwrap();
    assert_eq!(queried.randomness, digest);
    assert_eq!(queried.verified, 5_000);
}

#[test]
fn low_round_and_bad_signature_are_rejected() {
    let mut store = BeaconStore::new(test_clock(), 10);
    let err = store.verify_and_store(9, [0u8; 32], true, 5_000).unwrap_err();
    assert_eq!(err, BeaconError::RoundTooLow);
    let err = store.verify_and_store(10, [0u8; 32], false, 5_000).unwrap_err();
    assert_eq!(err, BeaconError::InvalidSignature);
    assert!(store.get(10).is_none());
    assert_eq!(store.entries.len(), 0);
}

#[test]
fn get_reports_publish_time() {
    let clock = test_clock();
    let mut store = BeaconStore::new(clock, 1);
    store.verify_and_store(11, [0x33u8; 32], true, 5_000).unwrap();
    let queried = store.get(11).unwrap();
    assert_eq!(queried.round, 11);
    assert_eq!(queried.published, 1_300);
    assert!(store.get(12).is_none());
}

#[test]
fn pagination_has_exclusive_cursors() {
    let mut store = BeaconStore::new(test_clock(), 1);
    for round in 1..=12u64 {
        let mut digest = [0u8; 32];
        digest[0] = round as u8;
        store.verify_and_store(round, digest, true, 5_000).unwrap();
    }

    let rounds = |list: &[nois_oracle::beacon::QueriedBeacon]| {
        list.iter().map(|b| b.round).collect::<Vec<u64>>()
    };

    let page = store.list_beacons(Order::Ascending, None, Some(3));
    assert_eq!(rounds(&page), [1, 2, 3]);

    let page = store.list_beacons(Order::Ascending, Some(2), Some(3));
    assert_eq!(rounds(&page), [3, 4, 5]);

    let page = store.list_beacons(Order::Descending, Some(6), Some(3));
    assert_eq!(rounds(&page), [5, 4, 3]);

    let page = store.list_beacons(Order::Descending, None, Some(3));
    assert_eq!(rounds(&page), [12, 11, 10]);

    // Default and capped limits both return everything here.
    let page = store.list_beacons(Order::Ascending, None, None);
    assert_eq!(rounds(&page), [1, 2, 3, 4, 5, 6, 7, 8, 9, 10, 11, 12]);
    let page = store.list_beacons(Order::Ascending, None, Some(1_000));
    assert_eq!(page.len(), 12);

    // Each row carries its digest and publish time.
    let page = store.list_beacons(Order::Ascending, Some(10), None);
    assert_eq!(page.len(), 2);
    assert_eq!(page[0].round, 11);
    assert_eq!(page[0].published, 1_300);
    assert_eq!(page[0].randomness[0], 11);
}
