use raft_node::manager::operation::Operation as FrameOperation;
use raft_node::message::{Message, MessageType, Response};
use raft_node::operation::Operation as CompactOperation;

#[test]
fn compact_operation_round_trip_every_variant() {
    for op in [
        CompactOperation::Vote(true),
        CompactOperation::Vote(false),
        CompactOperation::Heartbeat,
    ] {
        let bytes = op.to_bytes();
        assert_eq!(CompactOperation::try_from(bytes), Ok(op));
    }
}

#[test]
fn compact_operation_exact_bytes() {
    assert_eq!(CompactOperation::Vote(true).to_bytes(), vec![0, 1]);
    assert_eq!(CompactOperation::Vote(false).to_bytes(), vec![0, 0]);
    assert_eq!(CompactOperation::Heartbeat.to_bytes(), vec![1]);
}

#[test]
fn compact_operation_decode_failures() {
    assert_eq!(CompactOperation::try_from(vec![]), Err(()));
    assert_eq!(CompactOperation::try_from(vec![0]), Err(()));
    assert_eq!(CompactOperation::try_from(vec![2]), Err(()));
    assert_eq!(CompactOperation::try_from(vec![9, 1]), Err(()));
}

#[test]
fn compact_operation_nonzero_flag_is_a_grant_request() {
    assert_eq!(
        CompactOperation::try_from(vec![0, 5]),
        Ok(CompactOperation::Vote(true))
    );
}

#[test]
fn frame_operation_round_trip_zero_payload_forms() {
    let grant = FrameOperation::Vote(None).to_bytes();
    assert_eq!(grant, vec![0]);
    assert!(matches!(
        FrameOperation::try_from(grant),
        Ok(FrameOperation::Vote(None))
    ));

    let heartbeat = FrameOperation::Heartbeat.to_bytes();
    assert_eq!(heartbeat, vec![1]);
    assert!(matches!(
        FrameOperation::try_from(heartbeat),
        Ok(FrameOperation::Heartbeat)
    ));
}

#[test]
fn frame_operation_round_trip_address_payload() {
    let op = FrameOperation::Vote(Some("127.0.0.1:10001".to_string()));
    let bytes = op.to_bytes();
    assert_eq!(bytes[0], 0);
    assert_eq!(&bytes[1..], "127.0.0.1:10001".as_bytes());
    match FrameOperation::try_from(bytes) {
        Ok(FrameOperation::Vote(Some(address))) => assert_eq!(address, "127.0.0.1:10001"),
        other => panic!("decoded {:?}", other),
    }
}

#[test]
fn frame_operation_round_trip_non_ascii_address() {
    let op = FrameOperation::Vote(Some("héllo:1".to_string()));
    match FrameOperation::try_from(op.to_bytes()) {
        Ok(FrameOperation::Vote(Some(address))) => assert_eq!(address, "héllo:1"),
        other => panic!("decoded {:?}", other),
    }
}

#[test]
fn frame_operation_decode_failures() {
    assert!(FrameOperation::try_from(vec![]).is_err());
    assert!(FrameOperation::try_from(vec![7]).is_err());
    // 0xc3 opens a two-byte UTF-8 sequence that never ends
    assert!(FrameOperation::try_from(vec![0, 0xc3]).is_err());
}

#[test]
fn frame_operation_heartbeat_ignores_trailing_bytes() {
    assert!(matches!(
        FrameOperation::try_from(vec![1, 42, 42]),
        Ok(FrameOperation::Heartbeat)
    ));
}

#[test]
fn message_round_trip_every_type() {
    for body in [
        MessageType::RequestVote,
        MessageType::Heartbeat,
        MessageType::AppendEntry,
    ] {
        let message = Message { term: 7, body };
        let bytes = message.to_bytes();
        assert_eq!(Message::from_bytes(&bytes), Ok(message));
    }
}

#[test]
fn message_exact_bytes_and_failures() {
    assert_eq!(
        Message { term: 3, body: MessageType::Heartbeat }.to_bytes(),
        vec![3, 1]
    );
    assert_eq!(Message::from_bytes(&[]), Err(()));
    assert_eq!(Message::from_bytes(&[5]), Err(()));
    assert_eq!(Message::from_bytes(&[5, 9]), Err(()));
}

#[test]
fn response_round_trip_and_failures() {
    for response in [Response::Ack, Response::Nack, Response::ImNotLeader] {
        let bytes = response.to_bytes();
        assert_eq!(Response::from_bytes(&bytes), Ok(response));
    }
    assert_eq!(Response::Ack.to_bytes(), vec![0]);
    assert_eq!(Response::from_bytes(&[]), Err(()));
    assert_eq!(Response::from_bytes(&[3]), Err(()));
}
