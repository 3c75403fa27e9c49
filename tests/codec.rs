use torrent_core::bitfield::Bitfield;
use torrent_core::handshake::{Handshake, BITTORRENT_PROTOCOL};
use torrent_core::message::{MessageError, PeerMessage};

fn handshake_bytes_expected() -> Vec<u8> {
    let mut expected = vec![19u8];
    expected.extend_from_slice(b"BitTorrent protocol");
    expected.extend_from_slice(&[0u8; 8]);
    expected.extend_from_slice(&[0xAA; 20]);
    expected.extend_from_slice(&[0xBB; 20]);
    expected
}

#[test]
fn handshake_bytes() {
    let h = Handshake::new(&[0xAA; 20], &[0xBB; 20]);
    let bytes = h.get_bytes();
    assert_eq!(bytes.len(), 68);
    assert_eq!(bytes.to_vec(), handshake_bytes_expected());

    let mut back = Handshake::new(&[0; 20], &[0; 20]);
    back.set_bytes(&bytes);
    assert_eq!(back.length, 19);
    assert_eq!(back.bittorrent, BITTORRENT_PROTOCOL);
    assert_eq!(back.reserve, [0u8; 8]);
    assert_eq!(back.info_hash, [0xAA; 20]);
    assert_eq!(back.peer_id, [0xBB; 20]);
}

#[test]
fn handshake_round_trip_other_fields() {
    let mut info = [0u8; 20];
    let mut peer = [0u8; 20];
    for i in 0..20 {
        info[i] = i as u8;
        peer[i] = 200 - i as u8;
    }
    let h = Handshake::new(&info, &peer);
    let mut back = Handshake::new(&[0; 20], &[0; 20]);
    back.set_bytes(&h.get_bytes());
    assert_eq!(back.info_hash, info);
    assert_eq!(back.peer_id, peer);
    assert_eq!(back.get_bytes(), h.get_bytes());
}

#[test]
fn handshake_accepts_only_matching_reply() {
    let h = Handshake::new(&[0xAA; 20], &[0xBB; 20]);
    assert!(h.accepts(&[0xAA; 20]));
    assert!(!h.accepts(&[0xAB; 20]));

    let mut wrong_len = Handshake::new(&[0xAA; 20], &[0xBB; 20]);
    wrong_len.length = 18;
    assert!(!wrong_len.accepts(&[0xAA; 20]));

    let mut wrong_proto = Handshake::new(&[0xAA; 20], &[0xBB; 20]);
    wrong_proto.bittorrent[0] = b'b';
    assert!(!wrong_proto.accepts(&[0xAA; 20]));
}

#[test]
fn frame_decode_have() {
    let r = PeerMessage::decode_frame(&[0, 0, 0, 5, 4, 0, 0, 0, 7]).unwrap();
    assert_eq!(r.1, 9);
    match r.0 {
        Some(PeerMessage::Have { piece_index }) => assert_eq!(piece_index, 7),
        other => panic!("unexpected {:?}", other),
    }
}

#[test]
fn frame_decode_unchoke() {
    let r = PeerMessage::decode_frame(&[0, 0, 0, 1, 1]).unwrap();
    assert_eq!(r.1, 5);
    assert!(matches!(r.0, Some(PeerMessage::Unchoke)));
}

#[test]
fn frame_decode_keep_alive() {
    let r = PeerMessage::decode_frame(&[0, 0, 0, 0]).unwrap();
    assert!(r.0.is_none());
    assert_eq!(r.1, 4);
}

#[test]
fn frame_decode_leaves_following_bytes() {
    let r = PeerMessage::decode_frame(&[0, 0, 0, 1, 2, 0, 0, 0, 1, 3]).unwrap();
    assert!(matches!(r.0, Some(PeerMessage::Interested)));
    assert_eq!(r.1, 5);
}

#[test]
fn frame_decode_errors() {
    assert_eq!(PeerMessage::decode_frame(&[0, 0, 0]).unwrap_err(), MessageError::Truncated);
    assert_eq!(PeerMessage::decode_frame(&[0, 0, 0, 5, 4, 0]).unwrap_err(), MessageError::Truncated);
    assert_eq!(PeerMessage::decode_frame(&[0, 0, 0, 1, 9]).unwrap_err(), MessageError::UnknownTag(9));
    assert_eq!(PeerMessage::decode_frame(&[0, 0, 0, 2, 0, 0]).unwrap_err(), MessageError::BadLength);
    assert_eq!(PeerMessage::decode_frame(&[0, 0, 0, 3, 4, 0, 1]).unwrap_err(), MessageError::BadLength);
    assert_eq!(
        PeerMessage::decode_frame(&[0, 0, 0, 5, 7, 0, 0, 0, 1]).unwrap_err(),
        MessageError::Truncated
    );
    assert_eq!(PeerMessage::decode_payload(&[]).unwrap_err(), MessageError::Truncated);
}

fn all_nine() -> Vec<PeerMessage> {
    vec![
        PeerMessage::Choke,
        PeerMessage::Unchoke,
        PeerMessage::Interested,
        PeerMessage::NotInterested,
        PeerMessage::Have { piece_index: 0x01020304 },
        PeerMessage::Bitfield { bitfield: Bitfield::new(vec![0b10000001, 0xFF]) },
        PeerMessage::Request { index: 1, begin: 16384, length: 16384 },
        PeerMessage::Piece { index: 2, begin: 4, block: vec![9, 8, 7] },
        PeerMessage::Cancel { index: 3, begin: 0, length: 77 },
    ]
}

fn same(a: &PeerMessage, b: &PeerMessage) -> bool {
    format!("{:?}", a) == format!("{:?}", b)
}

#[test]
fn message_round_trip_all_nine() {
    for m in all_nine() {
        let bytes = m.to_bytes();
        let (back, used) = PeerMessage::decode_frame(&bytes).unwrap();
        assert_eq!(used, bytes.len());
        assert!(same(&back.unwrap(), &m), "{:?}", m);
    }
}

#[test]
fn message_encodings() {
    assert_eq!(PeerMessage::Interested.to_bytes(), vec![0, 0, 0, 1, 2]);
    assert_eq!(
        PeerMessage::Have { piece_index: 7 }.to_bytes(),
        vec![0, 0, 0, 5, 4, 0, 0, 0, 7]
    );
    assert_eq!(
        PeerMessage::Request { index: 1, begin: 0x4000, length: 0x4000 }.to_bytes(),
        vec![0, 0, 0, 13, 6, 0, 0, 0, 1, 0, 0, 0x40, 0, 0, 0, 0x40, 0]
    );
    assert_eq!(
        PeerMessage::Piece { index: 0, begin: 0, block: vec![5, 5] }.to_bytes(),
        vec![0, 0, 0, 11, 7, 0, 0, 0, 0, 0, 0, 0, 0, 5, 5]
    );
    assert_eq!(
        PeerMessage::Bitfield { bitfield: Bitfield::new(vec![0xF0]) }.payload(),
        vec![5, 0xF0]
    );
}
