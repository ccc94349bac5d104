use gprox::proxy::{
    connection_ended, replay_and_splice, splice_direction, splice_step, ReadEvent, SpliceAction,
    SpliceError,
};

#[test]
fn step_forwards_data_verbatim() {
    let a = splice_step(ReadEvent::Data(vec![1, 2, 3]));
    match a {
        SpliceAction::Forward(d) => assert_eq!(d, vec![1, 2, 3]),
        _ => panic!("data must be forwarded"),
    }
}

#[test]
fn step_treats_zero_read_as_reset() {
    assert!(matches!(
        splice_step(ReadEvent::Closed),
        SpliceAction::Stop(SpliceError::ConnectionReset)
    ));
}

#[test]
fn step_retries_would_block() {
    assert!(matches!(splice_step(ReadEvent::WouldBlock), SpliceAction::Retry));
}

#[test]
fn step_stops_on_failure() {
    assert!(matches!(
        splice_step(ReadEvent::Failed),
        SpliceAction::Stop(SpliceError::Io)
    ));
}

#[test]
fn backend_sees_handshake_then_payload_and_client_gets_echo() {
    // A fake client sends its handshake, then 1000 payload bytes in
    // chunks; the backend must receive the handshake first, in full, then
    // the payload in order.
    let handshake: Vec<u8> = vec![16, 0, 0, 0, 6, b'h', b'o', b's', b't', b'-', b'a'];
    let payload: Vec<u8> = (0..1000u32).map(|i| (i % 251) as u8).collect();
    let events: Vec<ReadEvent> = payload
        .chunks(100)
        .map(|c| ReadEvent::Data(c.to_vec()))
        .collect();
    let (backend_received, outcome) = replay_and_splice(&handshake, events);

    let mut expected = handshake.clone();
    expected.extend_from_slice(&payload);
    assert_eq!(backend_received, expected);
    assert!(outcome.is_none());

    // The fake backend echoes every byte; the client-directed direction
    // must deliver byte-identical echoes.
    let echo_events: Vec<ReadEvent> = backend_received
        .chunks(128)
        .map(|c| ReadEvent::Data(c.to_vec()))
        .collect();
    let (client_received, echo_outcome) = splice_direction(echo_events);
    assert_eq!(client_received, expected);
    assert!(echo_outcome.is_none());
}

#[test]
fn backend_close_mid_splice_ends_with_connection_reset() {
    let events = vec![
        ReadEvent::Data(vec![1, 2, 3]),
        ReadEvent::WouldBlock,
        ReadEvent::Data(vec![4, 5]),
        ReadEvent::Closed,
        ReadEvent::Data(vec![9, 9, 9]),
    ];
    let (delivered, outcome) = splice_direction(events);
    assert_eq!(delivered, vec![1, 2, 3, 4, 5]);
    assert_eq!(outcome, Some(SpliceError::ConnectionReset));
}

#[test]
fn read_failure_ends_with_io_error() {
    let events = vec![ReadEvent::Data(vec![7]), ReadEvent::Failed];
    let (delivered, outcome) = splice_direction(events);
    assert_eq!(delivered, vec![7]);
    assert_eq!(outcome, Some(SpliceError::Io));
}

#[test]
fn would_block_alone_delivers_nothing_and_keeps_running() {
    let events = vec![ReadEvent::WouldBlock, ReadEvent::WouldBlock];
    let (delivered, outcome) = splice_direction(events);
    assert!(delivered.is_empty());
    assert!(outcome.is_none());
}

#[test]
fn connection_ended_tells_clean_from_error() {
    assert!(connection_ended(&Ok(())));
    assert!(!connection_ended(&Err(SpliceError::ConnectionReset)));
    assert!(!connection_ended(&Err(SpliceError::Io)));
}
