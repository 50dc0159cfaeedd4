use tftp::session::Action;
use tftp::session::Event;
use tftp::session::Session;
use tftp::session::SessionError;
use tftp::session::SessionState;
use tftp::session::Tid;
use tftp::session::MAX_RETRIES;
use tftp::Packet;

#[test]
fn test_write_session_runs_to_complete() {
    let mut s = Session::new_write(Tid::new(7));
    assert_eq!(*s.state(), SessionState::AwaitingFirstAck);
    // The accepting acknowledgement goes out first.
    assert_eq!(s.transmit(), Action::Send(Packet::Ack { block_num: 0 }));
    assert_eq!(*s.state(), SessionState::AwaitingData(1));
    // One short data block arrives: it is written, its ack goes out,
    // and the transfer completes.
    let a = s.step(Event::Incoming(Packet::Data {
        block_num: 1,
        payload: vec![65, 66],
    }));
    assert_eq!(a, Action::Idle);
    assert_eq!(*s.state(), SessionState::ReceivingBlock(1));
    assert_eq!(*s.received(), vec![65, 66]);
    assert_eq!(s.transmit(), Action::Send(Packet::Ack { block_num: 1 }));
    assert_eq!(*s.state(), SessionState::Complete);
}

#[test]
fn test_write_session_long_block_continues() {
    let mut s = Session::new_write(Tid::new(1));
    s.transmit();
    let full = vec![9u8; 512];
    s.step(Event::Incoming(Packet::Data {
        block_num: 1,
        payload: full.clone(),
    }));
    assert_eq!(s.transmit(), Action::Send(Packet::Ack { block_num: 1 }));
    // A full-size block does not end the transfer.
    assert_eq!(*s.state(), SessionState::AwaitingData(2));
    assert_eq!(s.received().len(), 512);
}

#[test]
fn test_read_session_serves_blocks() {
    let mut data = vec![7u8; 512];
    data.extend_from_slice(&[1, 2, 3]);
    let mut s = Session::new_read(Tid::new(3), data);
    assert_eq!(*s.state(), SessionState::SendingBlock(1));
    match s.transmit() {
        Action::Send(Packet::Data { block_num, payload }) => {
            assert_eq!(block_num, 1);
            assert_eq!(payload.len(), 512);
        }
        other => panic!("expected the first block, got {:?}", other),
    }
    assert_eq!(*s.state(), SessionState::AwaitingAck(1));
    // An ack for the wrong block is discarded silently.
    assert_eq!(s.step(Event::Incoming(Packet::Ack { block_num: 9 })), Action::Idle);
    assert_eq!(*s.state(), SessionState::AwaitingAck(1));
    // The matching ack advances to the next block.
    s.step(Event::Incoming(Packet::Ack { block_num: 1 }));
    assert_eq!(*s.state(), SessionState::SendingBlock(2));
    match s.transmit() {
        Action::Send(Packet::Data { block_num, payload }) => {
            assert_eq!(block_num, 2);
            assert_eq!(payload, vec![1, 2, 3]);
        }
        other => panic!("expected the final block, got {:?}", other),
    }
    // The ack of the short final block completes the transfer.
    s.step(Event::Incoming(Packet::Ack { block_num: 2 }));
    assert_eq!(*s.state(), SessionState::Complete);
}

#[test]
fn test_timeout_retransmits_then_fails() {
    let mut s = Session::new_read(Tid::new(2), vec![8u8; 600]);
    s.transmit();
    assert_eq!(*s.state(), SessionState::AwaitingAck(1));
    // Within the budget every deadline retransmits the same block.
    for _ in 0..MAX_RETRIES {
        match s.step(Event::Timeout) {
            Action::Send(Packet::Data { block_num, payload }) => {
                assert_eq!(block_num, 1);
                assert_eq!(payload.len(), 512);
            }
            other => panic!("expected a retransmission, got {:?}", other),
        }
    }
    // Exhausting the budget fails the session with a timeout and
    // issues no further sends.
    assert_eq!(s.step(Event::Timeout), Action::Idle);
    assert_eq!(*s.state(), SessionState::Failed(SessionError::Timeout));
    assert_eq!(s.step(Event::Timeout), Action::Idle);
    assert_eq!(s.transmit(), Action::Idle);
    assert_eq!(*s.state(), SessionState::Failed(SessionError::Timeout));
}

#[test]
fn test_write_session_timeout_resends_ack() {
    let mut s = Session::new_write(Tid::new(4));
    s.transmit();
    // While awaiting the first block, the deadline resends Ack 0.
    assert_eq!(s.step(Event::Timeout), Action::Send(Packet::Ack { block_num: 0 }));
}

#[test]
fn test_peer_error_fails_session() {
    let mut s = Session::new_read(Tid::new(5), vec![1, 2]);
    s.transmit();
    let a = s.step(Event::Incoming(Packet::ErrorPacket {
        code: 4,
        message: String::from("Illegal operation"),
    }));
    assert_eq!(a, Action::Idle);
    assert_eq!(
        *s.state(),
        SessionState::Failed(SessionError::PeerError {
            code: 4,
            message: String::from("Illegal operation"),
        })
    );
    // Terminal: nothing further happens.
    assert_eq!(s.transmit(), Action::Idle);
}

#[test]
fn test_request_packet_mid_session_discarded() {
    let mut s = Session::new_write(Tid::new(6));
    s.transmit();
    let a = s.step(Event::Incoming(Packet::ReadRequest {
        filename: String::from("x"),
        mode: String::from("octet"),
    }));
    assert_eq!(a, Action::Idle);
    assert_eq!(*s.state(), SessionState::AwaitingData(1));
}

#[test]
fn test_empty_read_session_sends_empty_final_block() {
    let mut s = Session::new_read(Tid::new(8), Vec::new());
    match s.transmit() {
        Action::Send(Packet::Data { block_num, payload }) => {
            assert_eq!(block_num, 1);
            assert_eq!(payload.len(), 0);
        }
        other => panic!("expected an empty block, got {:?}", other),
    }
    s.step(Event::Incoming(Packet::Ack { block_num: 1 }));
    assert_eq!(*s.state(), SessionState::Complete);
}
