use tftp::decode::Data;
use tftp::decode::Error;
use tftp::decode::Packet;
use tftp::AccessType;
use tftp::Request;
use tftp::TftpClient;
use tftp::TftpServer;

#[test]
fn test_decode_ack() {
    let buf = vec![0u8, 4, 0, 0];
    match Packet::from_bytes(&buf) {
        Err(e) => panic!("unexpected error: {:?}", e),
        Ok(packet) => {
            assert_eq!(packet, Packet::Ack { block_num: 0 });
        }
    }
}

#[test]
fn test_decode_data() {
    let buf = vec![0u8, 3, 0, 1, 11, 12, 13];
    match Packet::from_bytes(&buf) {
        Err(e) => panic!("unexpected error: {:?}", e),
        Ok(packet) => {
            let block_num = 1;
            let payload = vec![11, 12, 13];
            assert_eq!(packet, Packet::Data { block_num, payload });
        }
    }
}

#[test]
fn test_decode_error() {
    let buf = vec![0u8, 5, 0, 3, 66, 97, 100, 0];
    match Packet::from_bytes(&buf) {
        Err(e) => panic!("unexpected error: {:?}", e),
        Ok(packet) => match packet {
            Packet::ErrorPacket { code, message } => {
                assert_eq!(code, 3);
                assert_eq!(message, String::from("Bad"));
            }
            p => panic!("expected an error packet, got {:?}", p),
        },
    }
}

#[test]
fn test_decode_read_request() {
    let buf = vec![0u8, 1, 70, 111, 111, 0, 66, 97, 114, 0];
    match Packet::from_bytes(&buf) {
        Err(e) => panic!("unexpected error: {:?}", e),
        Ok(packet) => {
            let filename = String::from("Foo");
            let mode = String::from("Bar");
            assert_eq!(packet, Packet::ReadRequest { filename, mode });
        }
    }
}

#[test]
fn test_decode_write_request() {
    let buf = vec![0u8, 2, 70, 111, 111, 0, 66, 97, 114, 0];
    match Packet::from_bytes(&buf) {
        Err(e) => panic!("unexpected error: {:?}", e),
        Ok(packet) => {
            let filename = String::from("Foo");
            let mode = String::from("Bar");
            assert_eq!(packet, Packet::WriteRequest { filename, mode });
        }
    }
}

#[test]
fn test_round_trip_every_variant() {
    let packets = vec![
        Packet::ReadRequest {
            filename: String::from("file.txt"),
            mode: String::from("octet"),
        },
        Packet::WriteRequest {
            filename: String::from(""),
            mode: String::from(""),
        },
        Packet::Data {
            block_num: 42,
            payload: vec![0, 1, 2, 255],
        },
        Packet::Ack { block_num: 65535 },
        Packet::ErrorPacket {
            code: 7,
            message: String::from("no such user"),
        },
    ];
    for p in packets {
        let bytes = p.to_bytes();
        assert_eq!(Packet::from_bytes(&bytes), Ok(p));
    }
}

#[test]
fn test_block_num_round_trip_exact() {
    for n in [0u16, 1, 255, 256, 258, 4096, 32768, 65534, 65535] {
        let ack = Packet::Ack { block_num: n };
        assert_eq!(Packet::from_bytes(&ack.to_bytes()), Ok(ack));
        let data = Packet::Data {
            block_num: n,
            payload: vec![9, 9],
        };
        assert_eq!(Packet::from_bytes(&data.to_bytes()), Ok(data));
    }
}

#[test]
fn test_encode_exact_bytes() {
    let ack = Packet::Ack { block_num: 258 };
    assert_eq!(ack.to_bytes(), vec![0u8, 4, 1, 2]);
    let data = Packet::Data {
        block_num: 1,
        payload: vec![11, 12, 13],
    };
    assert_eq!(data.to_bytes(), vec![0u8, 3, 0, 1, 11, 12, 13]);
    let rrq = Packet::ReadRequest {
        filename: String::from("Foo"),
        mode: String::from("Bar"),
    };
    assert_eq!(rrq.to_bytes(), vec![0u8, 1, 70, 111, 111, 0, 66, 97, 114, 0]);
    let err = Packet::ErrorPacket {
        code: 3,
        message: String::from("Bad"),
    };
    assert_eq!(err.to_bytes(), vec![0u8, 5, 0, 3, 66, 97, 100, 0]);
}

#[test]
fn test_short_datagram_truncated() {
    assert_eq!(Packet::from_bytes(&[]), Err(Error::Truncated));
    assert_eq!(Packet::from_bytes(&[0u8]), Err(Error::Truncated));
    assert_eq!(Packet::from_bytes(&[0u8, 4]), Err(Error::Truncated));
}

#[test]
fn test_truncated_bodies() {
    assert_eq!(Packet::from_bytes(&[0u8, 3, 0]), Err(Error::Truncated));
    assert_eq!(Packet::from_bytes(&[0u8, 4, 9]), Err(Error::Truncated));
    assert_eq!(Packet::from_bytes(&[0u8, 5, 1]), Err(Error::Truncated));
}

#[test]
fn test_request_missing_delimiter() {
    assert_eq!(
        Packet::from_bytes(&[0u8, 1, 70, 111, 111]),
        Err(Error::MissingDelimiter)
    );
    assert_eq!(
        Packet::from_bytes(&[0u8, 2, 70, 111, 111]),
        Err(Error::MissingDelimiter)
    );
    // One delimiter present, the second still missing.
    assert_eq!(
        Packet::from_bytes(&[0u8, 1, 70, 0, 66, 97]),
        Err(Error::MissingDelimiter)
    );
    // An error packet needs its message delimiter too.
    assert_eq!(
        Packet::from_bytes(&[0u8, 5, 0, 3, 66, 97]),
        Err(Error::MissingDelimiter)
    );
}

#[test]
fn test_unknown_opcode() {
    assert_eq!(Packet::from_bytes(&[0u8, 0, 0, 0]), Err(Error::UnknownOpcode));
    assert_eq!(Packet::from_bytes(&[0u8, 9, 0, 0]), Err(Error::UnknownOpcode));
    // A nonzero high byte never names a packet kind.
    assert_eq!(Packet::from_bytes(&[1u8, 1, 70, 0, 66, 0]), Err(Error::UnknownOpcode));
}

#[test]
fn test_lossy_text_decoding() {
    // 0xFF is never valid UTF-8: the filename decodes with the
    // replacement character instead of failing.
    let buf = vec![0u8, 1, 0xFF, 0, 66, 0];
    match Packet::from_bytes(&buf) {
        Ok(Packet::ReadRequest { filename, mode }) => {
            assert_eq!(filename, String::from("\u{FFFD}"));
            assert_eq!(mode, String::from("B"));
        }
        other => panic!("expected a read request, got {:?}", other),
    }
}

#[test]
fn test_trailing_bytes_after_ack_discarded() {
    // One datagram is one packet: extra bytes never leak into the
    // parsed value.
    let buf = vec![0u8, 4, 0, 7, 99, 99, 99];
    assert_eq!(Packet::from_bytes(&buf), Ok(Packet::Ack { block_num: 7 }));
}

#[test]
fn test_into_request_narrows() {
    let p = Packet::ReadRequest {
        filename: String::from("Foo"),
        mode: String::from("Bar"),
    };
    let q = p.into_request().unwrap();
    assert_eq!(q.access_type(), AccessType::Read);
    assert_eq!(q.filename(), "Foo");
    assert_eq!(q.mode(), "Bar");

    let wrong = Packet::Ack { block_num: 3 };
    match wrong.into_request() {
        Err(Error::UnexpectedPacket(p)) => assert_eq!(p, Packet::Ack { block_num: 3 }),
        other => panic!("expected the unexpected-packet error, got {:?}", other),
    }
}

#[test]
fn test_into_data_narrows() {
    let p = Packet::Data {
        block_num: 2,
        payload: vec![5],
    };
    match p.into_data() {
        Ok(Data::Data(block)) => {
            assert_eq!(block.block_num, 2);
            assert_eq!(block.bytes, vec![5]);
        }
        other => panic!("expected a data block, got {:?}", other),
    }
    assert_eq!(Packet::Ack { block_num: 9 }.into_data(), Ok(Data::Ack(9)));
    let wrong = Packet::WriteRequest {
        filename: String::from("f"),
        mode: String::from("m"),
    };
    match wrong.into_data() {
        Err(Error::UnexpectedPacket(_)) => {}
        other => panic!("expected the unexpected-packet error, got {:?}", other),
    }
}

#[test]
fn test_request_constructor() {
    let q = Request::new(AccessType::Write, String::from("a"), String::from("octet"));
    assert_eq!(q.access_type(), AccessType::Write);
    assert_eq!(q.filename(), "a");
    assert_eq!(q.mode(), "octet");
}

#[test]
fn test_client_decoder_ends_on_short_block() {
    let mut client = TftpClient::new();
    let ack = client.decode(&[0u8, 4, 0, 1]);
    assert_eq!(ack, Some(Ok(Data::Ack(1))));
    // A short (final) data block ends the stream.
    let item = client.decode(&[0u8, 3, 0, 1, 1, 2, 3]);
    match item {
        Some(Ok(Data::Data(block))) => assert_eq!(block.bytes, vec![1, 2, 3]),
        other => panic!("expected a data block, got {:?}", other),
    }
    assert_eq!(client.decode(&[0u8, 4, 0, 2]), None);
}

#[test]
fn test_server_decoder() {
    let server = TftpServer::new();
    let q = server.decode(&[0u8, 1, 70, 111, 111, 0, 66, 97, 114, 0]).unwrap();
    assert_eq!(q.access_type(), AccessType::Read);
    assert_eq!(q.filename(), "Foo");
    match server.decode(&[0u8, 4, 0, 0]) {
        Err(Error::UnexpectedPacket(p)) => assert_eq!(p, Packet::Ack { block_num: 0 }),
        other => panic!("expected the unexpected-packet error, got {:?}", other),
    }
}
