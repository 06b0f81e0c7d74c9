use torrent::error::SessionError;
use torrent::handshake::{Handshake, HandshakeCodec};
use torrent::message::{PeerMessage, PeerMessageCodec};

#[test]
fn encode_handshake() {
    let handshake = Handshake::new(&[1u8; 20], b"Daniel Rivas12345678");
    let mut bytes: Vec<u8> = Vec::with_capacity(50);

    HandshakeCodec::encode(&handshake, &mut bytes);

    assert_eq!(bytes.len(), 68);
}

#[test]
fn encode_decode_handshake() {
    let handshake = Handshake::new(&[1u8; 20], b"Daniel Rivas12345678");
    let original_handshake = handshake.clone();

    let mut bytes: Vec<u8> = Vec::new();
    HandshakeCodec::encode(&handshake, &mut bytes);

    assert_eq!(bytes.len(), 68);

    let (round_tripped_handshake, consumed) = HandshakeCodec::decode(&bytes).unwrap().unwrap();

    assert_eq!(original_handshake, round_tripped_handshake);
    assert_eq!(consumed, 68);
}

#[test]
fn handshake_bytes_are_exact() {
    let handshake = Handshake::new(&[0x11u8; 20], b"Daniel Rivas12345678");
    let mut bytes: Vec<u8> = Vec::new();
    HandshakeCodec::encode(&handshake, &mut bytes);

    let mut expected: Vec<u8> = vec![0x13];
    expected.extend_from_slice(b"BitTorrent protocol");
    expected.extend_from_slice(&[0u8; 8]);
    expected.extend_from_slice(&[0x11u8; 20]);
    expected.extend_from_slice(b"Daniel Rivas12345678");
    assert_eq!(bytes, expected);
}

#[test]
fn handshake_decode_needs_more_bytes() {
    assert_eq!(HandshakeCodec::decode(&[]).unwrap(), None);

    let handshake = Handshake::new(&[1u8; 20], b"Daniel Rivas12345678");
    let mut bytes: Vec<u8> = Vec::new();
    HandshakeCodec::encode(&handshake, &mut bytes);
    bytes.pop();
    assert_eq!(HandshakeCodec::decode(&bytes).unwrap(), None);
}

#[test]
fn handshake_decode_rejects_wrong_protocol_length() {
    let err = HandshakeCodec::decode(&[0x12, 0, 0]).unwrap_err();
    assert_eq!(err, SessionError::HandshakeFormat);
}

#[test]
fn message_encode_decode_message() {
    let msg = PeerMessage::Request(12, 333, 4);
    let original_message = msg.clone();

    let mut bytes: Vec<u8> = Vec::new();
    PeerMessageCodec::encode(&msg, &mut bytes);

    assert_eq!(bytes.len(), 17);

    let (round_tripped_message, _) = PeerMessageCodec::decode(&bytes).unwrap().unwrap();

    assert_eq!(original_message, round_tripped_message);
}

#[test]
fn peermessage_encode_decode_message() {
    let msg = PeerMessage::Request(12, 333, 4);
    let original_message = msg.clone();

    let mut bytes: Vec<u8> = Vec::new();
    PeerMessageCodec::encode(&msg, &mut bytes);

    assert_eq!(bytes.len(), 17);

    let (round_tripped_message, _) = PeerMessageCodec::decode(&bytes).unwrap().unwrap();

    assert_eq!(original_message, round_tripped_message);
}

#[test]
fn request_message_bytes_are_exact() {
    let msg = PeerMessage::Request(12, 333, 4);
    let mut bytes: Vec<u8> = Vec::new();
    PeerMessageCodec::encode(&msg, &mut bytes);
    assert_eq!(
        bytes,
        vec![
            0x00, 0x00, 0x00, 0x0d, 0x06, 0x00, 0x00, 0x00, 0x0c, 0x00, 0x00, 0x01, 0x4d, 0x00,
            0x00, 0x00, 0x04
        ]
    );
}

#[test]
fn every_message_round_trips() {
    let messages = vec![
        PeerMessage::KeepAlive,
        PeerMessage::Choke,
        PeerMessage::Unchoke,
        PeerMessage::Interested,
        PeerMessage::NotInterested,
        PeerMessage::Have(0x01020304),
        PeerMessage::Bitfield(vec![0xde, 0xad, 0xbe, 0xef]),
        PeerMessage::Request(1, 2, 3),
        PeerMessage::Piece(7, 16384, vec![9, 8, 7, 6, 5]),
        PeerMessage::Cancel(4, 5, 6),
    ];
    for msg in messages {
        let mut bytes: Vec<u8> = Vec::new();
        PeerMessageCodec::encode(&msg, &mut bytes);
        let expected_len = match msg.message_id() {
            None => 4,
            Some(_) => 4 + 1 + msg.payload_len(),
        };
        assert_eq!(bytes.len(), expected_len);
        let (decoded, consumed) = PeerMessageCodec::decode(&bytes).unwrap().unwrap();
        assert_eq!(decoded, msg);
        assert_eq!(consumed, bytes.len());
    }
}

#[test]
fn message_decode_needs_more_bytes() {
    assert_eq!(PeerMessageCodec::decode(&[0, 0]).unwrap(), None);

    let msg = PeerMessage::Piece(1, 0, vec![1, 2, 3, 4]);
    let mut bytes: Vec<u8> = Vec::new();
    PeerMessageCodec::encode(&msg, &mut bytes);
    bytes.pop();
    assert_eq!(PeerMessageCodec::decode(&bytes).unwrap(), None);
}

#[test]
fn message_decode_keeps_trailing_bytes() {
    let mut bytes: Vec<u8> = Vec::new();
    PeerMessageCodec::encode(&PeerMessage::Have(9), &mut bytes);
    PeerMessageCodec::encode(&PeerMessage::Choke, &mut bytes);
    let (first, consumed) = PeerMessageCodec::decode(&bytes).unwrap().unwrap();
    assert_eq!(first, PeerMessage::Have(9));
    assert_eq!(consumed, 9);
    let (second, _) = PeerMessageCodec::decode(&bytes[consumed..]).unwrap().unwrap();
    assert_eq!(second, PeerMessage::Choke);
}

#[test]
fn message_decode_rejects_unknown_id() {
    let bytes = vec![0x00, 0x00, 0x00, 0x01, 0x09];
    let err = PeerMessageCodec::decode(&bytes).unwrap_err();
    assert_eq!(err, SessionError::ProtocolViolation);
}

#[test]
fn message_decode_rejects_inconsistent_frame() {
    // A Have frame must carry exactly four payload bytes.
    let bytes = vec![0x00, 0x00, 0x00, 0x02, 0x04, 0xaa];
    let err = PeerMessageCodec::decode(&bytes).unwrap_err();
    assert_eq!(err, SessionError::ProtocolViolation);
}

#[test]
fn keep_alive_is_a_bare_length_prefix() {
    let mut bytes: Vec<u8> = Vec::new();
    PeerMessageCodec::encode(&PeerMessage::KeepAlive, &mut bytes);
    assert_eq!(bytes, vec![0, 0, 0, 0]);
    let (decoded, consumed) = PeerMessageCodec::decode(&bytes).unwrap().unwrap();
    assert_eq!(decoded, PeerMessage::KeepAlive);
    assert_eq!(consumed, 4);
}

#[test]
fn message_ids_match_the_protocol_table() {
    assert_eq!(PeerMessage::KeepAlive.message_id(), None);
    assert_eq!(PeerMessage::Choke.message_id(), Some(0));
    assert_eq!(PeerMessage::Unchoke.message_id(), Some(1));
    assert_eq!(PeerMessage::Interested.message_id(), Some(2));
    assert_eq!(PeerMessage::NotInterested.message_id(), Some(3));
    assert_eq!(PeerMessage::Have(1).message_id(), Some(4));
    assert_eq!(PeerMessage::Bitfield(vec![]).message_id(), Some(5));
    assert_eq!(PeerMessage::Request(0, 0, 0).message_id(), Some(6));
    assert_eq!(PeerMessage::Piece(0, 0, vec![]).message_id(), Some(7));
    assert_eq!(PeerMessage::Cancel(0, 0, 0).message_id(), Some(8));
}

#[test]
fn payload_lengths_match_the_protocol_table() {
    assert_eq!(PeerMessage::KeepAlive.payload_len(), 0);
    assert_eq!(PeerMessage::Choke.payload_len(), 0);
    assert_eq!(PeerMessage::Have(1).payload_len(), 4);
    assert_eq!(PeerMessage::Bitfield(vec![1, 2, 3]).payload_len(), 3);
    assert_eq!(PeerMessage::Request(0, 0, 0).payload_len(), 12);
    assert_eq!(PeerMessage::Piece(0, 0, vec![1, 2]).payload_len(), 10);
    assert_eq!(PeerMessage::Cancel(0, 0, 0).payload_len(), 12);
}
