use nois_oracle::ibc_msg::StdAck;

#[test]
fn success_round_trips() {
    let bytes = StdAck::success(vec![1, 2, 3]);
    assert_eq!(bytes, vec![0u8, 1, 2, 3]);
    match StdAck::parse(&bytes).unwrap() {
        StdAck::Result(data) => assert_eq!(data, vec![1, 2, 3]),
        StdAck::Error(_) => panic!("a success envelope must parse as a result"),
    }
}

#[test]
fn empty_payload_round_trips() {
    let bytes = StdAck::success(vec![]);
    assert_eq!(bytes, vec![0u8]);
    match StdAck::parse(&bytes).unwrap() {
        StdAck::Result(data) => assert!(data.is_empty()),
        StdAck::Error(_) => panic!("a success envelope must parse as a result"),
    }
}

#[test]
fn failure_round_trips() {
    let bytes = StdAck::fail("beacon unavailable".to_string());
    assert_eq!(bytes[0], 1u8);
    assert_eq!(&bytes[1..], "beacon unavailable".as_bytes());
    match StdAck::parse(&bytes).unwrap() {
        StdAck::Error(msg) => assert_eq!(msg, "beacon unavailable"),
        StdAck::Result(_) => panic!("an error envelope must parse as an error"),
    }
}

#[test]
fn non_ascii_failure_round_trips() {
    let bytes = StdAck::fail("zuf\u{00e4}llig \u{2713}".to_string());
    match StdAck::parse(&bytes).unwrap() {
        StdAck::Error(msg) => assert_eq!(msg, "zuf\u{00e4}llig \u{2713}"),
        StdAck::Result(_) => panic!("an error envelope must parse as an error"),
    }
}

#[test]
fn malformed_envelopes_are_refused() {
    assert!(StdAck::parse(&vec![]).is_none());
    assert!(StdAck::parse(&vec![9u8, 1, 2]).is_none());
    // Tag says error, but the payload is not UTF-8.
    assert!(StdAck::parse(&vec![1u8, 0xff, 0xfe]).is_none());
}

#[test]
fn unwrap_returns_the_payload() {
    let ack = StdAck::Result(vec![7, 8]);
    assert_eq!(ack.unwrap(), vec![7, 8]);
    let ack = StdAck::Error("boom".to_string());
    assert_eq!(ack.unwrap_err(), "boom");
}
