use nois_oracle::submissions::{SubmissionError, SubmissionLedger};

#[test]
fn positions_follow_arrival_order() {
    let mut ledger = SubmissionLedger::new();
    let alice = "alice".to_string();
    let bob = "bob".to_string();
    let carol = "carol".to_string();

    let first = ledger.record(7, &alice, 100, 50, Some(0)).unwrap();
    let second = ledger.record(7, &bob, 101, 50, Some(1)).unwrap();
    // A submission for another round does not disturb the count of round 7.
    ledger.record(8, &alice, 102, 51, None).unwrap();
    let third = ledger.record(7, &carol, 103, 51, None).unwrap();

    assert_eq!(first.pos, 0);
    assert_eq!(second.pos, 1);
    assert_eq!(third.pos, 2);
    assert_eq!(ledger.count_for_round(7), 3);
    assert_eq!(ledger.count_for_round(8), 1);
    assert_eq!(ledger.count_for_round(9), 0);

    let listed = ledger.list_for_round(7);
    assert_eq!(listed.len(), 3);
    for (k, sub) in listed.iter().enumerate() {
        assert_eq!(sub.pos as usize, k);
    }
    assert_eq!(listed[0].time, 100);
    assert_eq!(listed[1].time, 101);
    assert_eq!(listed[2].time, 103);
}

#[test]
fn duplicate_submission_is_rejected() {
    let mut ledger = SubmissionLedger::new();
    let alice = "alice".to_string();

    ledger.record(7, &alice, 100, 50, None).unwrap();
    let err = ledger.record(7, &alice, 200, 60, None).unwrap_err();
    assert_eq!(err, SubmissionError::DuplicateSubmission);
    // The rejection left the count untouched.
    assert_eq!(ledger.count_for_round(7), 1);
    assert_eq!(ledger.list_for_round(7).len(), 1);
    // The same reporter may still submit for another round.
    let other = ledger.record(8, &alice, 200, 60, None).unwrap();
    assert_eq!(other.pos, 0);
}
